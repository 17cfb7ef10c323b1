//! Text as sequences of characters: trimming, lines, joining and prefixes.

use vstd::prelude::*;

verus! {

/// The characters with Unicode's `White_Space` property.
pub open spec fn white_space(c: char) -> bool {
    ||| '\u{9}' <= c <= '\u{d}'
    ||| c == '\u{20}'
    ||| c == '\u{85}'
    ||| c == '\u{a0}'
    ||| c == '\u{1680}'
    ||| '\u{2000}' <= c <= '\u{200a}'
    ||| c == '\u{2028}'
    ||| c == '\u{2029}'
    ||| c == '\u{202f}'
    ||| c == '\u{205f}'
    ||| c == '\u{3000}'
}

/// Nothing but white space.
pub open spec fn blank(text: Seq<char>) -> bool {
    forall|i: int| 0 <= i < text.len() ==> white_space(#[trigger] text[i])
}

/// `text` without the white space at its two ends.
pub open spec fn trimmed(text: Seq<char>) -> Seq<char>
    decreases text.len(),
{
    if text.len() == 0 {
        text
    } else if white_space(text.first()) {
        trimmed(text.drop_first())
    } else if white_space(text.last()) {
        trimmed(text.drop_last())
    } else {
        text
    }
}

/// A line without the carriage return that may end it.
pub open spec fn without_return(line: Seq<char>) -> Seq<char> {
    if line.len() > 0 && line.last() == '\r' {
        line.drop_last()
    } else {
        line
    }
}

/// The number of characters before the first line feed.
pub open spec fn line_length(text: Seq<char>) -> nat
    decreases text.len(),
{
    if text.len() == 0 || text.first() == '\n' {
        0
    } else {
        1 + line_length(text.drop_first())
    }
}

/// The lines of `text`: each ends at a line feed, which goes together with a carriage return
/// right before it; what follows the last line feed is a line unless it is empty.
pub open spec fn lines_of(text: Seq<char>) -> Seq<Seq<char>>
    decreases text.len(),
{
    let end = line_length(text) as int;
    if text.len() == 0 {
        seq![]
    } else if end >= text.len() {
        seq![text]
    } else {
        seq![without_return(text.take(end))] + lines_of(text.skip(end + 1))
    }
}

/// The parts in order, with `separator` between each two of them.
pub open spec fn joined(parts: Seq<Seq<char>>, separator: Seq<char>) -> Seq<char>
    decreases parts.len(),
{
    if parts.len() == 0 {
        seq![]
    } else if parts.len() == 1 {
        parts[0]
    } else {
        joined(parts.drop_last(), separator) + separator + parts.last()
    }
}

/// `text` without the copies of `prefix` that it begins with.
pub open spec fn without_prefixes(text: Seq<char>, prefix: Seq<char>) -> Seq<char>
    decreases text.len(),
{
    if prefix.len() > 0 && prefix.is_prefix_of(text) {
        without_prefixes(text.skip(prefix.len() as int), prefix)
    } else {
        text
    }
}

/// What each of the strings says.
pub open spec fn texts(strings: Seq<String>) -> Seq<Seq<char>> {
    Seq::new(strings.len(), |i: int| strings[i]@)
}

/// The lowercase equivalent of `text`, by the rules of Unicode.
pub uninterp spec fn lowercase(text: Seq<char>) -> Seq<char>;

/// Calls `str::to_lowercase` of the standard library. Taken on trust: the result depends on the
/// text alone.
#[verifier::external_body]
pub(crate) fn to_lowercase(value: &str) -> (lower: String)
    ensures
        lower@ == lowercase(value@),
{
    value.to_lowercase()
}

/// Tells whether `c` has the `White_Space` property.
pub fn is_white_space(c: char) -> (yes: bool)
    ensures
        yes == white_space(c),
{
    ('\u{9}' <= c && c <= '\u{d}') || c == '\u{20}' || c == '\u{85}' || c == '\u{a0}' || c
        == '\u{1680}' || ('\u{2000}' <= c && c <= '\u{200a}') || c == '\u{2028}' || c == '\u{2029}'
        || c == '\u{202f}' || c == '\u{205f}' || c == '\u{3000}'
}

/// Tells whether `value` holds nothing but white space.
pub fn is_blank(value: &str) -> (yes: bool)
    ensures
        yes == blank(value@),
{
    let length: usize = value.unicode_len();
    let mut i: usize = 0;
    while i < length
        invariant
            i <= length,
            length == value@.len(),
            forall|j: int| 0 <= j < i ==> white_space(#[trigger] value@[j]),
        decreases length - i,
    {
        if !is_white_space(value.get_char(i)) {
            return false;
        }
        i += 1;
    }
    true
}

/// Copies `value` without the white space at its two ends.
pub fn trim(value: &str) -> (inner: String)
    ensures
        inner@ == trimmed(value@),
{
    let length: usize = value.unicode_len();
    let mut from: usize = 0;
    assert(value@.subrange(0, length as int) == value@);
    while from < length && is_white_space(value.get_char(from))
        invariant
            from <= length,
            length == value@.len(),
            trimmed(value@) == trimmed(value@.subrange(from as int, length as int)),
        decreases length - from,
    {
        assert(value@.subrange(from as int, length as int).drop_first() == value@.subrange(
            from + 1,
            length as int,
        ));
        from += 1;
    }
    let mut to: usize = length;
    while from < to && is_white_space(value.get_char(to - 1))
        invariant
            from <= to <= length,
            length == value@.len(),
            from < length ==> !white_space(value@[from as int]),
            trimmed(value@) == trimmed(value@.subrange(from as int, to as int)),
        decreases to - from,
    {
        let ghost kept = value@.subrange(from as int, to as int);
        assert(kept.first() == value@[from as int]);
        assert(kept.drop_last() == value@.subrange(from as int, to - 1));
        to -= 1;
    }
    value.substring_char(from, to).to_owned()
}

/// A line feed splits the text into its first line and the lines that follow.
proof fn lemma_lines_step(text: Seq<char>, end: int)
    requires
        0 <= end < text.len(),
        text[end] == '\n',
        forall|i: int| 0 <= i < end ==> text[i] != '\n',
    ensures
        lines_of(text) == seq![without_return(text.take(end))] + lines_of(text.skip(end + 1)),
{
    lemma_line_length(text, end);
}

/// The first line feed ends the first line.
proof fn lemma_line_length(text: Seq<char>, end: int)
    requires
        0 <= end <= text.len(),
        end < text.len() ==> text[end] == '\n',
        forall|i: int| 0 <= i < end ==> text[i] != '\n',
    ensures
        line_length(text) == end,
    decreases end,
{
    if end > 0 {
        assert(text.first() == text[0]);
        lemma_line_length(text.drop_first(), end - 1);
    }
}

/// Copies the lines of `value`, without their ends.
pub fn lines(value: &str) -> (all: Vec<String>)
    ensures
        texts(all@) == lines_of(value@),
{
    let length: usize = value.unicode_len();
    let mut all: Vec<String> = Vec::new();
    let mut start: usize = 0;
    let mut at: usize = 0;
    assert(value@.skip(0) == value@);
    while at < length
        invariant
            start <= at <= length,
            length == value@.len(),
            forall|i: int| start <= i < at ==> value@[i] != '\n',
            lines_of(value@) == texts(all@) + lines_of(value@.skip(start as int)),
        decreases length - at,
    {
        if value.get_char(at) == '\n' {
            let ghost rest = value@.skip(start as int);
            proof {
                lemma_lines_step(rest, at - start);
                assert(rest.skip(at - start + 1) == value@.skip(at + 1));
                assert(rest.take(at - start) == value@.subrange(start as int, at as int));
            }
            let end: usize = if start < at && value.get_char(at - 1) == '\r' {
                at - 1
            } else {
                at
            };
            let ghost before = texts(all@);
            let line = value.substring_char(start, end).to_owned();
            assert(line@ == without_return(rest.take(at - start)));
            all.push(line);
            assert(texts(all@) == before.push(line@));
            assert(before.push(line@) == before + seq![line@]);
            start = at + 1;
            assert(lines_of(value@) == texts(all@) + lines_of(value@.skip(start as int)));
        }
        at += 1;
    }
    let ghost rest = value@.skip(start as int);
    proof {
        lemma_line_length(rest, length - start);
    }
    if start < length {
        let ghost before = texts(all@);
        let line = value.substring_char(start, length).to_owned();
        assert(line@ == rest);
        all.push(line);
        assert(texts(all@) == before + seq![rest]);
    } else {
        assert(lines_of(rest) == Seq::<Seq<char>>::empty());
        assert(texts(all@) + lines_of(rest) == texts(all@));
    }
    all
}

/// Joins the strings, with `separator` between each two of them.
pub fn join(parts: &Vec<String>, separator: &str) -> (whole: String)
    ensures
        whole@ == joined(texts(parts@), separator@),
{
    let mut whole = String::new();
    let ghost all = texts(parts@);
    for i in 0..parts.len()
        invariant
            all == texts(parts@),
            whole@ == joined(all.take(i as int), separator@),
    {
        if i > 0 {
            whole.append(separator);
        }
        whole.append(parts[i].as_str());
        assert(all.take(i + 1).drop_last() == all.take(i as int));
        assert(all.take(i + 1).last() == parts@[i as int]@);
    }
    assert(all.take(parts@.len() as int) == all);
    whole
}

/// Tells whether two strings say the same.
pub fn same_text(left: &str, right: &str) -> (yes: bool)
    ensures
        yes == (left@ == right@),
{
    left.to_owned() == right.to_owned()
}

/// Copies `value` without the copies of `prefix` that it begins with.
pub fn strip_prefixes(value: &str, prefix: &str) -> (rest: String)
    ensures
        rest@ == without_prefixes(value@, prefix@),
{
    let length: usize = value.unicode_len();
    let step: usize = prefix.unicode_len();
    let mut from: usize = 0;
    assert(value@.skip(0) == value@);
    while step > 0 && step <= length - from && same_text(
        value.substring_char(from, from + step),
        prefix,
    )
        invariant
            from <= length,
            length == value@.len(),
            step == prefix@.len(),
            without_prefixes(value@, prefix@) == without_prefixes(
                value@.skip(from as int),
                prefix@,
            ),
        decreases length - from,
    {
        let ghost rest = value@.skip(from as int);
        assert(rest.subrange(0, step as int) == value@.subrange(from as int, from + step));
        assert(rest.skip(step as int) == value@.skip(from + step));
        from += step;
    }
    let ghost rest = value@.skip(from as int);
    assert(rest == value@.subrange(from as int, length as int));
    assert(step <= length - from ==> rest.subrange(0, step as int) == value@.subrange(
        from as int,
        from + step,
    ));
    value.substring_char(from, length).to_owned()
}

/// Trimming leaves nothing exactly where there was nothing but white space.
pub proof fn law_blank_trims_to_nothing(text: Seq<char>)
    ensures
        blank(text) <==> trimmed(text).len() == 0,
    decreases text.len(),
{
    if text.len() > 0 {
        if white_space(text.first()) {
            law_blank_trims_to_nothing(text.drop_first());
            assert(blank(text) == blank(text.drop_first())) by {
                assert(text.first() == text[0]);
                if blank(text.drop_first()) {
                    assert forall|i: int| 0 <= i < text.len() implies white_space(
                        #[trigger] text[i],
                    ) by {
                        if i > 0 {
                            assert(text[i] == text.drop_first()[i - 1]);
                        }
                    }
                }
            }
        } else if white_space(text.last()) {
            assert(!blank(text)) by {
                assert(text.first() == text[0]);
            }
            law_blank_trims_to_nothing(text.drop_last());
            assert(!blank(text.drop_last())) by {
                assert(text.len() > 1);
                assert(text.drop_last()[0] == text[0]);
            }
        } else {
            assert(text.first() == text[0]);
        }
    }
}

/// Trimmed text has no white space at its ends, so that trimming it again changes nothing.
pub proof fn law_trimmed_has_no_white_ends(text: Seq<char>)
    ensures
        trimmed(text).len() > 0 ==> !white_space(trimmed(text).first()) && !white_space(
            trimmed(text).last(),
        ),
        trimmed(trimmed(text)) == trimmed(text),
    decreases text.len(),
{
    if text.len() > 0 {
        if white_space(text.first()) {
            law_trimmed_has_no_white_ends(text.drop_first());
        } else if white_space(text.last()) {
            law_trimmed_has_no_white_ends(text.drop_last());
        }
    }
}

/// Text has a line exactly where it is not empty.
pub proof fn law_some_text_has_a_line(text: Seq<char>)
    ensures
        text.len() > 0 <==> lines_of(text).len() > 0,
{
}

/// What is left begins with no further copy of the prefix, is an end of the text, and stays the
/// same when prefixes are taken off it again.
pub proof fn law_prefixes_are_gone(text: Seq<char>, prefix: Seq<char>)
    requires
        prefix.len() > 0,
    ensures
        !prefix.is_prefix_of(without_prefixes(text, prefix)),
        without_prefixes(text, prefix).is_suffix_of(text),
        without_prefixes(without_prefixes(text, prefix), prefix) == without_prefixes(text, prefix),
    decreases text.len(),
{
    if prefix.is_prefix_of(text) {
        law_prefixes_are_gone(text.skip(prefix.len() as int), prefix);
        let left = without_prefixes(text, prefix);
        let rest = text.skip(prefix.len() as int);
        assert(left == text.subrange(text.len() - left.len(), text.len() as int)) by {
            assert(left == rest.subrange(rest.len() - left.len(), rest.len() as int));
        }
    } else {
        assert(text == text.subrange(0, text.len() as int));
    }
}

/// White space is what Unicode takes for it: these characters and no other.
pub proof fn law_white_space_is_that_of_unicode(c: char)
    ensures
        white_space(c) <==> set![
            0x9int, 0xa, 0xb, 0xc, 0xd, 0x20, 0x85, 0xa0, 0x1680, 0x2000, 0x2001, 0x2002, 0x2003,
            0x2004, 0x2005, 0x2006, 0x2007, 0x2008, 0x2009, 0x200a, 0x2028, 0x2029, 0x202f, 0x205f,
            0x3000,
        ].contains(c as int),
{
}

/// Two texts together are blank exactly where each is; a single character is where it is white
/// space, and so is the text without any.
pub proof fn law_blank_goes_by_character(left: Seq<char>, right: Seq<char>, c: char)
    ensures
        blank(left + right) <==> blank(left) && blank(right),
        blank(seq![c]) <==> white_space(c),
        blank(seq![]),
{
    let both = left + right;
    if blank(both) {
        assert forall|i: int| 0 <= i < left.len() implies white_space(#[trigger] left[i]) by {
            assert(both[i] == left[i]);
        }
        assert forall|i: int| 0 <= i < right.len() implies white_space(#[trigger] right[i]) by {
            assert(both[left.len() + i] == right[i]);
        }
    }
    if blank(left) && blank(right) {
        assert forall|i: int| 0 <= i < both.len() implies white_space(#[trigger] both[i]) by {
            if i < left.len() {
                assert(both[i] == left[i]);
            } else {
                assert(both[i] == right[i - left.len()]);
            }
        }
    }
    assert(seq![c][0] == c);
}

/// Trimming takes off the white space before and after a text, and nothing of the text.
pub proof fn law_trimming_takes_off_white_space_only(
    before: Seq<char>,
    inner: Seq<char>,
    after: Seq<char>,
)
    requires
        blank(before),
        blank(after),
        inner.len() > 0 ==> !white_space(inner.first()) && !white_space(inner.last()),
    ensures
        trimmed(before + inner + after) == inner,
    decreases before.len() + after.len(),
{
    let text = before + inner + after;
    if before.len() > 0 {
        let rest = before.drop_first();
        assert forall|i: int| 0 <= i < rest.len() implies white_space(#[trigger] rest[i]) by {
            assert(rest[i] == before[i + 1]);
        }
        assert(text.first() == before[0]);
        assert(text.drop_first() == rest + inner + after);
        law_trimming_takes_off_white_space_only(rest, inner, after);
    } else if inner.len() == 0 {
        assert(text == after);
        law_blank_trims_to_nothing(text);
        assert(trimmed(text) == inner);
    } else {
        assert(text.first() == inner.first());
        if after.len() > 0 {
            let rest = after.drop_last();
            assert forall|i: int| 0 <= i < rest.len() implies white_space(#[trigger] rest[i]) by {
                assert(rest[i] == after[i]);
            }
            assert(text.last() == after[after.len() - 1]);
            assert(text.drop_last() == before + inner + rest);
            law_trimming_takes_off_white_space_only(before, inner, rest);
        } else {
            assert(text == inner);
        }
    }
}

/// A line feed ends a line, and a carriage return right before it belongs to the end; what follows
/// has its own lines. Text without a line feed is one line as it is, and no text has no line.
pub proof fn law_line_feeds_end_lines(first: Seq<char>, rest: Seq<char>)
    requires
        !first.contains('\n'),
    ensures
        lines_of(first + seq!['\n'] + rest) == seq![
            if first.len() > 0 && first.last() == '\r' {
                first.drop_last()
            } else {
                first
            },
        ] + lines_of(rest),
        first.len() > 0 ==> lines_of(first) == seq![first],
        lines_of(seq![]) == Seq::<Seq<char>>::empty(),
{
    let text = first + seq!['\n'] + rest;
    let end = first.len() as int;
    assert forall|i: int| 0 <= i < end implies first[i] != '\n' by {
        assert(first.contains(first[i]));
    }
    assert(text.take(end) == first);
    assert(text.skip(end + 1) == rest);
    lemma_lines_step(text, end);
    lemma_line_length(first, end);
}

/// Joined texts stand in their order with the separator between each two: the parts of two lists
/// are joined as the two wholes are. A single part is the whole, and no part is nothing.
pub proof fn law_joining_keeps_the_parts(
    left: Seq<Seq<char>>,
    right: Seq<Seq<char>>,
    part: Seq<char>,
    separator: Seq<char>,
)
    ensures
        left.len() > 0 && right.len() > 0 ==> joined(left + right, separator) == joined(
            left,
            separator,
        ) + separator + joined(right, separator),
        joined(seq![part], separator) == part,
        joined(seq![], separator) == Seq::<char>::empty(),
    decreases right.len(),
{
    if left.len() > 0 && right.len() > 0 {
        let both = left + right;
        assert(both.drop_last() == left + right.drop_last());
        assert(both.last() == right.last());
        if right.len() == 1 {
            assert(both.drop_last() == left);
        } else {
            law_joining_keeps_the_parts(left, right.drop_last(), part, separator);
            let l = joined(left, separator);
            let r = joined(right.drop_last(), separator);
            assert(l + separator + r + separator + right.last() == l + separator + (r + separator
                + right.last()));
        }
    }
}

/// Each copy of the prefix at the start is taken off, and nothing else is: a text that does not
/// begin with it stays as it is, and so does any text where the prefix is empty.
pub proof fn law_only_prefixes_are_taken_off(text: Seq<char>, prefix: Seq<char>)
    ensures
        without_prefixes(prefix + text, prefix) == without_prefixes(text, prefix),
        !prefix.is_prefix_of(text) ==> without_prefixes(text, prefix) == text,
        prefix.len() == 0 ==> without_prefixes(text, prefix) == text,
{
    let whole = prefix + text;
    assert(whole.subrange(0, prefix.len() as int) == prefix);
    assert(whole.skip(prefix.len() as int) == text);
}

/// What a list of strings says is what each of them says, in their order.
pub proof fn law_texts_are_those_of_the_strings(strings: Seq<String>, i: int)
    ensures
        texts(strings).len() == strings.len(),
        0 <= i < strings.len() ==> texts(strings)[i] == strings[i]@,
{
}

} // verus!
