//! The order of texts, and lists put into it.

use vstd::prelude::*;
use vstd::relations::total_ordering;
use vstd::seq_lib::group_to_multiset_ensures;

use crate::text::texts;

verus! {

/// `left` comes before `right` or is the same: character by character, by code point, and a text
/// before those that continue it.
pub open spec fn not_after(left: Seq<char>, right: Seq<char>) -> bool
    decreases left.len(),
{
    if left.len() == 0 {
        true
    } else if right.len() == 0 {
        false
    } else if left.first() != right.first() {
        left.first() < right.first()
    } else {
        not_after(left.drop_first(), right.drop_first())
    }
}

/// `left` comes before `right`.
pub open spec fn before(left: Seq<char>, right: Seq<char>) -> bool {
    not_after(left, right) && left != right
}

/// Each text comes before those that follow it in the list.
pub open spec fn ascending(list: Seq<Seq<char>>) -> bool {
    forall|i: int, j: int| 0 <= i < j < list.len() ==> before(#[trigger] list[i], #[trigger] list[j])
}

/// The texts that occur in `list`, each once, in ascending order.
pub open spec fn ascending_members(list: Seq<Seq<char>>) -> Seq<Seq<char>> {
    choose|members: Seq<Seq<char>>|
        ascending(members) && (forall|text: Seq<char>|
            members.contains(text) <==> #[trigger] list.contains(text))
}

/// The place with key `keys[p]` comes before that with `keys[q]`: by key, and where the keys are
/// the same, by place.
pub open spec fn place_before(keys: Seq<Seq<char>>, p: int, q: int) -> bool {
    before(keys[p], keys[q]) || (keys[p] == keys[q] && p < q)
}

/// `places` holds each place of `keys` once, in the order of their keys.
pub open spec fn in_key_order(keys: Seq<Seq<char>>, places: Seq<int>) -> bool {
    &&& places.len() == keys.len()
    &&& forall|p: int| #[trigger] places.contains(p) <==> 0 <= p < keys.len()
    &&& forall|i: int, j: int|
        0 <= i < j < places.len() ==> place_before(
            keys,
            #[trigger] places[i],
            #[trigger] places[j],
        )
}

/// The places of `keys` in the order of their keys; of equal keys the earlier place comes first.
pub open spec fn key_order(keys: Seq<Seq<char>>) -> Seq<int> {
    choose|places: Seq<int>| in_key_order(keys, places)
}

/// Every text is in order with itself.
pub proof fn lemma_reflexive(text: Seq<char>)
    ensures
        not_after(text, text),
    decreases text.len(),
{
    if text.len() > 0 {
        lemma_reflexive(text.drop_first());
    }
}

/// Of two texts one is not after the other.
pub proof fn lemma_total(left: Seq<char>, right: Seq<char>)
    ensures
        not_after(left, right) || not_after(right, left),
    decreases left.len(),
{
    if left.len() > 0 && right.len() > 0 {
        lemma_total(left.drop_first(), right.drop_first());
    }
}

/// Two texts neither of which is after the other are the same.
pub proof fn lemma_antisymmetric(left: Seq<char>, right: Seq<char>)
    requires
        not_after(left, right),
        not_after(right, left),
    ensures
        left == right,
    decreases left.len(),
{
    if left.len() > 0 && right.len() > 0 {
        lemma_antisymmetric(left.drop_first(), right.drop_first());
        assert forall|i: int| 0 <= i < left.len() implies left[i] == right[i] by {
            if i > 0 {
                assert(left.drop_first()[i - 1] == right.drop_first()[i - 1]);
            }
        }
        assert(left == right);
    }
}

/// The order goes through a text between.
pub proof fn lemma_transitive(left: Seq<char>, middle: Seq<char>, right: Seq<char>)
    requires
        not_after(left, middle),
        not_after(middle, right),
    ensures
        not_after(left, right),
    decreases left.len(),
{
    if left.len() > 0 && middle.len() > 0 && right.len() > 0 && left.first() == middle.first()
        && middle.first() == right.first() {
        lemma_transitive(left.drop_first(), middle.drop_first(), right.drop_first());
    }
}

/// Two lists with the same members, each in one strict order, are the same list.
pub proof fn lemma_one_arrangement<A>(left: Seq<A>, right: Seq<A>, less: spec_fn(A, A) -> bool)
    requires
        forall|a: A, b: A| #[trigger] less(a, b) ==> !less(b, a),
        forall|i: int, j: int| 0 <= i < j < left.len() ==> less(#[trigger] left[i], #[trigger] left[j]),
        forall|i: int, j: int|
            0 <= i < j < right.len() ==> less(#[trigger] right[i], #[trigger] right[j]),
        forall|a: A| left.contains(a) <==> #[trigger] right.contains(a),
    ensures
        left == right,
    decreases left.len(),
{
    if left.len() == 0 {
        if right.len() > 0 {
            assert(right.contains(right[0]));
        }
        assert(left == right);
    } else {
        assert(left.contains(left[0]));
        assert(right.contains(left[0]));
        let k = choose|k: int| 0 <= k < right.len() && right[k] == left[0];
        assert(right.contains(right[0]));
        let j = choose|j: int| 0 <= j < left.len() && left[j] == right[0];
        if j > 0 && k > 0 {
            assert(less(left[0], left[j]));
            assert(less(right[0], right[k]));
        }
        assert(left[0] == right[0]);
        let l = left.drop_first();
        let r = right.drop_first();
        assert forall|i: int, j: int| 0 <= i < j < l.len() implies less(
            #[trigger] l[i],
            #[trigger] l[j],
        ) by {
            assert(less(left[i + 1], left[j + 1]));
        }
        assert forall|i: int, j: int| 0 <= i < j < r.len() implies less(
            #[trigger] r[i],
            #[trigger] r[j],
        ) by {
            assert(less(right[i + 1], right[j + 1]));
        }
        assert forall|a: A| l.contains(a) <==> #[trigger] r.contains(a) by {
            if l.contains(a) {
                let i = choose|i: int| 0 <= i < l.len() && l[i] == a;
                assert(left[i + 1] == a);
                assert(less(left[0], left[i + 1]));
                assert(left.contains(a));
                assert(right.contains(a));
                let m = choose|m: int| 0 <= m < right.len() && right[m] == a;
                assert(m != 0);
                assert(r[m - 1] == a);
            }
            if r.contains(a) {
                let i = choose|i: int| 0 <= i < r.len() && r[i] == a;
                assert(right[i + 1] == a);
                assert(less(right[0], right[i + 1]));
                assert(right.contains(a));
                assert(left.contains(a));
                let m = choose|m: int| 0 <= m < left.len() && left[m] == a;
                assert(m != 0);
                assert(l[m - 1] == a);
            }
        }
        lemma_one_arrangement(l, r, less);
        assert forall|i: int| 0 <= i < left.len() implies left[i] == right[i] by {
            if i > 0 {
                assert(l[i - 1] == r[i - 1]);
            }
        }
        assert(left.len() == right.len());
        assert(left == right);
    }
}

/// A list in ascending order with the members of `list` is `ascending_members(list)`: there is
/// no second one.
pub proof fn law_ascending_members_are_unique(list: Seq<Seq<char>>, members: Seq<Seq<char>>)
    requires
        ascending(members),
        forall|text: Seq<char>| members.contains(text) <==> #[trigger] list.contains(text),
    ensures
        members == ascending_members(list),
{
    let chosen = ascending_members(list);
    let less = |a: Seq<char>, b: Seq<char>| before(a, b);
    assert forall|a: Seq<char>, b: Seq<char>| #[trigger] less(a, b) implies !less(b, a) by {
        if less(b, a) {
            lemma_antisymmetric(a, b);
        }
    }
    assert forall|text: Seq<char>| members.contains(text) <==> #[trigger] chosen.contains(text) by {
        assert(members.contains(text) <==> list.contains(text));
        assert(chosen.contains(text) <==> list.contains(text));
    }
    lemma_one_arrangement(members, chosen, less);
}

/// Places in key order are `key_order(keys)`: there is no second such order.
pub proof fn law_key_order_is_unique(keys: Seq<Seq<char>>, places: Seq<int>)
    requires
        in_key_order(keys, places),
    ensures
        places == key_order(keys),
{
    let chosen = key_order(keys);
    let less = |p: int, q: int| place_before(keys, p, q);
    assert forall|p: int, q: int| #[trigger] less(p, q) implies !less(q, p) by {
        if less(q, p) && before(keys[p], keys[q]) && before(keys[q], keys[p]) {
            lemma_antisymmetric(keys[p], keys[q]);
        }
    }
    assert forall|p: int| places.contains(p) <==> #[trigger] chosen.contains(p) by {
        assert(places.contains(p) <==> 0 <= p < keys.len());
    }
    lemma_one_arrangement(places, chosen, less);
}

/// A list without repetitions can be put into any total order.
proof fn lemma_arranged<A>(list: Seq<A>, leq: spec_fn(A, A) -> bool) -> (sorted: Seq<A>)
    requires
        list.no_duplicates(),
        total_ordering(leq),
    ensures
        sorted.len() == list.len(),
        forall|a: A| #[trigger] sorted.contains(a) <==> list.contains(a),
        forall|i: int, j: int|
            0 <= i < j < sorted.len() ==> leq(#[trigger] sorted[i], #[trigger] sorted[j])
                && sorted[i] != sorted[j],
{
    broadcast use group_to_multiset_ensures;

    let sorted = list.sort_by(leq);
    list.lemma_sort_by_ensures(leq);
    list.lemma_multiset_has_no_duplicates();
    sorted.lemma_multiset_has_no_duplicates_conv();
    assert(sorted.len() == sorted.to_multiset().len());
    assert forall|a: A| #[trigger] sorted.contains(a) <==> list.contains(a) by {
        assert(sorted.contains(a) <==> sorted.to_multiset().count(a) > 0);
    }
    sorted
}

/// Every list can be cut down to its members, each once.
proof fn lemma_members_once(list: Seq<Seq<char>>) -> (members: Seq<Seq<char>>)
    ensures
        members.no_duplicates(),
        forall|text: Seq<char>| #[trigger] members.contains(text) <==> list.contains(text),
    decreases list.len(),
{
    if list.len() == 0 {
        list
    } else {
        let rest = list.drop_last();
        let last = list.last();
        let held = lemma_members_once(rest);
        assert(list == rest.push(last));
        assert forall|text: Seq<char>| #[trigger] list.contains(text) <==> rest.contains(text)
            || text == last by {
            if rest.contains(text) {
                let i = choose|i: int| 0 <= i < rest.len() && rest[i] == text;
                assert(list[i] == text);
            }
            if text == last {
                assert(list[list.len() - 1] == text);
            }
        }
        if held.contains(last) {
            held
        } else {
            let more = held.push(last);
            assert forall|text: Seq<char>| #[trigger] more.contains(text) <==> list.contains(
                text,
            ) by {
                if held.contains(text) {
                    let i = choose|i: int| 0 <= i < held.len() && held[i] == text;
                    assert(more[i] == text);
                }
                if text == last {
                    assert(more[held.len() as int] == text);
                }
            }
            more
        }
    }
}

/// The members of a list in ascending order are in ascending order, and are its members.
pub proof fn law_ascending_members(list: Seq<Seq<char>>)
    ensures
        ascending(ascending_members(list)),
        forall|text: Seq<char>|
            ascending_members(list).contains(text) <==> #[trigger] list.contains(text),
{
    let once = lemma_members_once(list);
    let leq = |a: Seq<char>, b: Seq<char>| not_after(a, b);
    assert(total_ordering(leq)) by {
        assert forall|a: Seq<char>| #[trigger] leq(a, a) by {
            lemma_reflexive(a);
        }
        assert forall|a: Seq<char>, b: Seq<char>| #[trigger] leq(a, b) && #[trigger] leq(
            b,
            a,
        ) implies a == b by {
            lemma_antisymmetric(a, b);
        }
        assert forall|a: Seq<char>, b: Seq<char>, c: Seq<char>| #[trigger]
            leq(a, b) && #[trigger] leq(b, c) implies leq(a, c) by {
            lemma_transitive(a, b, c);
        }
        assert forall|a: Seq<char>, b: Seq<char>| #[trigger] leq(a, b) || #[trigger] leq(b, a) by {
            lemma_total(a, b);
        }
    }
    let members = lemma_arranged(once, leq);
    assert(ascending(members));
    assert forall|text: Seq<char>| members.contains(text) <==> #[trigger] list.contains(text) by {
        assert(members.contains(text) <==> once.contains(text));
    }
}

/// Every list of keys has an order.
pub proof fn law_key_order(keys: Seq<Seq<char>>)
    ensures
        in_key_order(keys, key_order(keys)),
{
    let places = Seq::new(keys.len(), |i: int| i);
    let leq = |p: int, q: int| p == q || place_before(keys, p, q);
    assert(total_ordering(leq)) by {
        assert forall|p: int, q: int| #[trigger] leq(p, q) && #[trigger] leq(q, p) implies p
            == q by {
            if p != q && before(keys[p], keys[q]) && before(keys[q], keys[p]) {
                lemma_antisymmetric(keys[p], keys[q]);
            }
        }
        assert forall|p: int, q: int, r: int| #[trigger] leq(p, q) && #[trigger] leq(
            q,
            r,
        ) implies leq(p, r) by {
            if p != q && q != r && before(keys[p], keys[q]) && before(keys[q], keys[r]) {
                lemma_transitive(keys[p], keys[q], keys[r]);
                if keys[p] == keys[r] {
                    lemma_antisymmetric(keys[p], keys[q]);
                }
            }
        }
        assert forall|p: int, q: int| #[trigger] leq(p, q) || #[trigger] leq(q, p) by {
            lemma_total(keys[p], keys[q]);
        }
    }
    let sorted = lemma_arranged(places, leq);
    assert forall|p: int| #[trigger] sorted.contains(p) <==> 0 <= p < keys.len() by {
        if 0 <= p < keys.len() {
            assert(places[p] == p);
        }
    }
    assert(in_key_order(keys, sorted));
}

/// Tells whether `left` comes before `right` or says the same.
pub fn is_not_after(left: &str, right: &str) -> (yes: bool)
    ensures
        yes == not_after(left@, right@),
{
    let left_length: usize = left.unicode_len();
    let right_length: usize = right.unicode_len();
    let mut i: usize = 0;
    assert(left@.skip(0) == left@);
    assert(right@.skip(0) == right@);
    while i < left_length && i < right_length
        invariant
            i <= left_length == left@.len(),
            i <= right_length == right@.len(),
            not_after(left@, right@) == not_after(left@.skip(i as int), right@.skip(i as int)),
        decreases left_length - i,
    {
        let l: char = left.get_char(i);
        let r: char = right.get_char(i);
        assert(left@.skip(i as int).first() == l);
        assert(right@.skip(i as int).first() == r);
        if l != r {
            return l < r;
        }
        assert(left@.skip(i as int).drop_first() == left@.skip(i + 1));
        assert(right@.skip(i as int).drop_first() == right@.skip(i + 1));
        i += 1;
    }
    i == left_length
}

/// Adds `extra` to a list in ascending order, unless it is there.
fn insert_ascending(list: &mut Vec<String>, extra: String)
    requires
        ascending(texts(old(list)@)),
    ensures
        ascending(texts(final(list)@)),
        forall|text: Seq<char>|
            #[trigger] texts(final(list)@).contains(text) <==> (texts(old(list)@).contains(text)
                || text == extra@),
{
    let mut at: usize = list.len();
    let ghost before_list = texts(list@);
    while at > 0 && is_not_after(extra.as_str(), list[at - 1].as_str())
        invariant
            at <= list@.len(),
            *list == *old(list),
            before_list == texts(list@),
            forall|i: int| at <= i < before_list.len() ==> not_after(extra@, #[trigger] before_list[i]),
        decreases at,
    {
        assert(before_list[at - 1] == list@[at - 1]@);
        at -= 1;
    }
    if at < list.len() && crate::text::same_text(extra.as_str(), list[at].as_str()) {
        assert(before_list[at as int] == extra@);
        return;
    }
    proof {
        assert forall|i: int| at <= i < before_list.len() implies before(
            extra@,
            #[trigger] before_list[i],
        ) by {
            assert(before_list[at as int] == list@[at as int]@);
            if before_list[i] == extra@ {
                assert(i > at);
                assert(before(before_list[at as int], before_list[i]));
                lemma_antisymmetric(before_list[at as int], extra@);
            }
        }
        assert forall|i: int| 0 <= i < at implies before(#[trigger] before_list[i], extra@) by {
            assert(before_list[at - 1] == list@[at - 1]@);
            lemma_total(extra@, before_list[at - 1]);
            if before_list[at - 1] == extra@ {
                lemma_reflexive(extra@);
            }
            if i < at - 1 {
                assert(before(before_list[i], before_list[at - 1]));
                lemma_transitive(before_list[i], before_list[at - 1], extra@);
                if before_list[i] == extra@ {
                    lemma_antisymmetric(before_list[at - 1], extra@);
                }
            }
        }
    }
    let ghost added = extra@;
    list.insert(at, extra);
    proof {
        let after = texts(list@);
        assert(after == before_list.insert(at as int, added));
        assert forall|text: Seq<char>| #[trigger] after.contains(text) <==> (before_list.contains(
            text,
        ) || text == added) by {
            if before_list.contains(text) {
                let i = choose|i: int| 0 <= i < before_list.len() && before_list[i] == text;
                if i < at {
                    assert(after[i] == text);
                } else {
                    assert(after[i + 1] == text);
                }
            }
            if text == added {
                assert(after[at as int] == text);
            }
            if after.contains(text) {
                let i = choose|i: int| 0 <= i < after.len() && after[i] == text;
                if i < at {
                    assert(before_list[i] == text);
                } else if i > at {
                    assert(before_list[i - 1] == text);
                }
            }
        }
    }
}

/// Puts the strings into ascending order and keeps one of each.
pub fn sort_unique(strings: Vec<String>) -> (members: Vec<String>)
    ensures
        texts(members@) == ascending_members(texts(strings@)),
        ascending(texts(members@)),
        forall|text: Seq<char>|
            texts(members@).contains(text) <==> #[trigger] texts(strings@).contains(text),
{
    let mut members: Vec<String> = Vec::new();
    let ghost all = texts(strings@);
    for i in 0..strings.len()
        invariant
            all == texts(strings@),
            ascending(texts(members@)),
            forall|text: Seq<char>| #[trigger]
                texts(members@).contains(text) <==> all.take(i as int).contains(text),
    {
        let ghost before_members = texts(members@);
        insert_ascending(&mut members, strings[i].clone());
        proof {
            let now = all.take(i + 1);
            let then = all.take(i as int);
            assert(now == then.push(all[i as int]));
            assert forall|text: Seq<char>| #[trigger]
                texts(members@).contains(text) <==> now.contains(text) by {
                assert(before_members.contains(text) <==> then.contains(text));
                if then.contains(text) {
                    let j = choose|j: int| 0 <= j < then.len() && then[j] == text;
                    assert(now[j] == text);
                }
                if text == all[i as int] {
                    assert(now[i as int] == text);
                }
                if now.contains(text) {
                    let j = choose|j: int| 0 <= j < now.len() && now[j] == text;
                    if j < i {
                        assert(then[j] == text);
                    }
                }
            }
        }
    }
    proof {
        assert(all.take(strings@.len() as int) == all);
        assert forall|text: Seq<char>|
            texts(members@).contains(text) <==> #[trigger] all.contains(text) by {}
        law_ascending_members_are_unique(all, texts(members@));
    }
    members
}

/// The places as integers.
pub open spec fn places_view(places: Seq<usize>) -> Seq<int> {
    Seq::new(places.len(), |i: int| places[i] as int)
}

/// Finds the order of the keys: their places, equal keys in the order in which they stand.
pub fn order_of_keys(keys: &Vec<String>) -> (places: Vec<usize>)
    ensures
        places_view(places@) == key_order(texts(keys@)),
        in_key_order(texts(keys@), places_view(places@)),
{
    let mut places: Vec<usize> = Vec::new();
    let ghost all = texts(keys@);
    for next in 0..keys.len()
        invariant
            all == texts(keys@),
            places@.len() == next,
            forall|p: int| #[trigger] places_view(places@).contains(p) <==> 0 <= p < next,
            forall|i: int, j: int|
                0 <= i < j < places@.len() ==> place_before(
                    all,
                    #[trigger] places_view(places@)[i],
                    #[trigger] places_view(places@)[j],
                ),
    {
        let ghost held = places_view(places@);
        let mut at: usize = places.len();
        assert forall|i: int| 0 <= i < places@.len() implies #[trigger] places@[i] < next by {
            assert(held[i] == places@[i]);
            assert(held.contains(held[i]));
        }
        while at > 0 && !is_not_after(keys[places[at - 1]].as_str(), keys[next].as_str())
            invariant
                at <= places@.len(),
                next < keys@.len(),
                all == texts(keys@),
                held == places_view(places@),
                forall|i: int| 0 <= i < places@.len() ==> #[trigger] places@[i] < next,
                forall|i: int|
                    at <= i < held.len() ==> !not_after(all[#[trigger] held[i]], all[next as int]),
            decreases at,
        {
            assert(held[at - 1] == places@[at - 1]);
            at -= 1;
        }
        proof {
            let key = all[next as int];
            assert forall|i: int| at <= i < held.len() implies place_before(
                all,
                next as int,
                #[trigger] held[i],
            ) by {
                lemma_total(key, all[held[i]]);
                if key == all[held[i]] {
                    lemma_reflexive(key);
                }
            }
            assert forall|i: int| 0 <= i < at implies place_before(
                all,
                #[trigger] held[i],
                next as int,
            ) by {
                let nearest = held[at - 1];
                assert(nearest == places@[at - 1]);
                assert(not_after(all[nearest], key));
                if i < at - 1 {
                    assert(place_before(all, held[i], nearest));
                    if all[held[i]] == all[nearest] {
                        lemma_reflexive(all[nearest]);
                    }
                    lemma_transitive(all[held[i]], all[nearest], key);
                }
            }
        }
        places.insert(at, next);
        proof {
            let now = places_view(places@);
            assert(now == held.insert(at as int, next as int));
            assert forall|p: int| #[trigger] now.contains(p) <==> 0 <= p < next + 1 by {
                if 0 <= p < next {
                    assert(held.contains(p));
                    let i = choose|i: int| 0 <= i < held.len() && held[i] == p;
                    if i < at {
                        assert(now[i] == p);
                    } else {
                        assert(now[i + 1] == p);
                    }
                }
                if p == next {
                    assert(now[at as int] == p);
                }
                if now.contains(p) {
                    let i = choose|i: int| 0 <= i < now.len() && now[i] == p;
                    if i < at {
                        assert(held[i] == p);
                    } else if i > at {
                        assert(held[i - 1] == p);
                    }
                }
            }
            assert forall|i: int, j: int| 0 <= i < j < now.len() implies place_before(
                all,
                #[trigger] now[i],
                #[trigger] now[j],
            ) by {
                if j < at {
                    assert(now[i] == held[i] && now[j] == held[j]);
                } else if j == at {
                    assert(now[i] == held[i]);
                } else if i == at {
                    assert(now[j] == held[j - 1]);
                } else if i < at {
                    assert(now[i] == held[i] && now[j] == held[j - 1]);
                } else {
                    assert(now[i] == held[i - 1] && now[j] == held[j - 1]);
                }
            }
        }
    }
    proof {
        law_key_order_is_unique(all, places_view(places@));
    }
    places
}

/// The order of two texts is decided where they first differ, by the code points there; and a text
/// comes before those that continue it.
pub proof fn law_first_difference_decides(
    common: Seq<char>,
    a: char,
    left: Seq<char>,
    b: char,
    right: Seq<char>,
)
    ensures
        a != b ==> (not_after(common + seq![a] + left, common + seq![b] + right) <==> (a as int) < (
        b as int)),
        not_after(common, common + right),
        !not_after(common + seq![a] + left, common),
    decreases common.len(),
{
    let l = common + seq![a] + left;
    let r = common + seq![b] + right;
    if common.len() == 0 {
        assert(l.first() == a);
        assert(r.first() == b);
    } else {
        let rest = common.drop_first();
        assert(l.drop_first() == rest + seq![a] + left);
        assert(r.drop_first() == rest + seq![b] + right);
        assert((common + right).drop_first() == rest + right);
        assert(l.first() == common.first() && r.first() == common.first());
        assert((common + right).first() == common.first());
        law_first_difference_decides(rest, a, left, b, right);
    }
}

/// The members of a list in ascending order are all its texts and no other, none of them twice, and
/// each in order with those that follow.
pub proof fn law_members_are_sorted_without_repetitions(list: Seq<Seq<char>>)
    ensures
        ({
            let members = ascending_members(list);
            &&& forall|i: int| 0 <= i < list.len() ==> members.contains(#[trigger] list[i])
            &&& forall|j: int| 0 <= j < members.len() ==> list.contains(#[trigger] members[j])
            &&& forall|i: int, j: int|
                0 <= i < j < members.len() ==> #[trigger] members[i] != #[trigger] members[j]
                    && not_after(members[i], members[j])
        }),
{
    let members = ascending_members(list);
    law_ascending_members(list);
    assert forall|i: int| 0 <= i < list.len() implies members.contains(#[trigger] list[i]) by {
        assert(list.contains(list[i]));
    }
    assert forall|j: int| 0 <= j < members.len() implies list.contains(#[trigger] members[j]) by {
        assert(members.contains(members[j]));
    }
    assert forall|i: int, j: int| 0 <= i < j < members.len() implies #[trigger] members[i]
        != #[trigger] members[j] && not_after(members[i], members[j]) by {
        assert(before(members[i], members[j]));
    }
}

/// Places say the same as integers.
pub proof fn law_places_are_those_of_the_list(places: Seq<usize>, i: int)
    ensures
        places_view(places).len() == places.len(),
        0 <= i < places.len() ==> places_view(places)[i] == places[i],
{
}

/// Ordering keys keeps every place once, puts their keys in order, and leaves places with the same
/// key in the order in which they stand.
pub proof fn law_ordering_is_stable(keys: Seq<Seq<char>>)
    ensures
        ({
            let places = key_order(keys);
            &&& places.len() == keys.len()
            &&& forall|i: int| 0 <= i < places.len() ==> 0 <= #[trigger] places[i] < keys.len()
            &&& forall|p: int| 0 <= p < keys.len() ==> #[trigger] places.contains(p)
            &&& forall|i: int, j: int|
                0 <= i < j < places.len() ==> {
                    &&& #[trigger] places[i] != #[trigger] places[j]
                    &&& not_after(keys[places[i]], keys[places[j]])
                    &&& keys[places[i]] == keys[places[j]] ==> places[i] < places[j]
                }
        }),
{
    let places = key_order(keys);
    law_key_order(keys);
    assert forall|i: int| 0 <= i < places.len() implies 0 <= #[trigger] places[i] < keys.len() by {
        assert(places.contains(places[i]));
    }
    assert forall|i: int, j: int| 0 <= i < j < places.len() implies {
        &&& #[trigger] places[i] != #[trigger] places[j]
        &&& not_after(keys[places[i]], keys[places[j]])
        &&& keys[places[i]] == keys[places[j]] ==> places[i] < places[j]
    } by {
        assert(place_before(keys, places[i], places[j]));
        lemma_reflexive(keys[places[i]]);
    }
}

} // verus!
