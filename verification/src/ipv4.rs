//! IPv4 addresses in dotted decimal text.

use vstd::prelude::*;

verus! {

/// The character of a decimal digit.
pub open spec fn digit(value: int) -> char {
    ('0' as int + value) as char
}

/// A byte in decimal, without leading zeros.
pub open spec fn decimal(byte: u8) -> Seq<char> {
    if byte < 10 {
        seq![digit(byte as int)]
    } else if byte < 100 {
        seq![digit(byte as int / 10), digit(byte as int % 10)]
    } else {
        seq![digit(byte as int / 100), digit(byte as int / 10 % 10), digit(byte as int % 10)]
    }
}

/// The text of the address with these four bytes.
pub open spec fn dotted(a: u8, b: u8, c: u8, d: u8) -> Seq<char> {
    decimal(a) + seq!['.'] + decimal(b) + seq!['.'] + decimal(c) + seq!['.'] + decimal(d)
}

/// The text is that of some address.
pub open spec fn ipv4_text(text: Seq<char>) -> bool {
    exists|a: u8, b: u8, c: u8, d: u8| text == #[trigger] dotted(a, b, c, d)
}

spec fn is_digit(c: char) -> bool {
    '0' <= c <= '9'
}

/// From `at` on the text goes on with this byte, and no digit follows.
spec fn byte_at(text: Seq<char>, at: int, byte: u8) -> bool {
    let end = at + decimal(byte).len();
    &&& 0 <= at
    &&& end <= text.len()
    &&& text.subrange(at, end) == decimal(byte)
    &&& end < text.len() ==> !is_digit(text[end])
}

/// Every character of a byte in decimal is a digit.
proof fn lemma_decimal_digits(byte: u8)
    ensures
        1 <= decimal(byte).len() <= 3,
        forall|i: int| 0 <= i < decimal(byte).len() ==> is_digit(#[trigger] decimal(byte)[i]),
        decimal(byte).len() > 1 ==> decimal(byte)[0] != '0',
{
}

/// Reads the byte that stands at `at`: its value, and where it ends.
fn read_byte(value: &str, length: usize, at: usize) -> (read: Option<(u8, usize)>)
    requires
        length == value@.len(),
        at <= length,
    ensures
        match read {
            Some((byte, end)) => byte_at(value@, at as int, byte) && end == at + decimal(
                byte,
            ).len(),
            None => forall|byte: u8| !byte_at(value@, at as int, byte),
        },
{
    let mut end: usize = at;
    let mut number: u32 = 0;
    while end < length && end - at < 4 && '0' <= value.get_char(end) && value.get_char(end) <= '9'
        invariant
            at <= end <= length,
            end - at <= 4,
            length == value@.len(),
            forall|i: int| at <= i < end ==> is_digit(#[trigger] value@[i]),
            number < 10000,
            end - at == 0 ==> number == 0,
            end - at == 1 ==> number < 10 && value@[at as int] == digit(number as int),
            end - at == 2 ==> number < 100 && value@[at as int] == digit(number as int / 10)
                && value@[at + 1] == digit(number as int % 10),
            end - at == 3 ==> number < 1000 && value@[at as int] == digit(number as int / 100)
                && value@[at + 1] == digit(number as int / 10 % 10) && value@[at + 2] == digit(
                number as int % 10,
            ),
        decreases length - end,
    {
        number = number * 10 + (value.get_char(end) as u32 - '0' as u32);
        end += 1;
    }
    let count: usize = end - at;
    let ghost text = value@;
    proof {
        assert forall|byte: u8| byte_at(text, at as int, byte) implies decimal(byte).len() == count
            && text.subrange(at as int, end as int) == decimal(byte) by {
            lemma_decimal_digits(byte);
            let stop = at + decimal(byte).len();
            assert forall|i: int| at <= i < stop implies is_digit(text[i]) by {
                assert(text.subrange(at as int, stop)[i - at] == text[i]);
            }
        }
    }
    if count == 0 || count > 3 || number > 255 || (count > 1 && value.get_char(at) == '0') {
        proof {
            assert forall|byte: u8| !byte_at(text, at as int, byte) by {
                if byte_at(text, at as int, byte) {
                    lemma_decimal_digits(byte);
                    let read = text.subrange(at as int, end as int);
                    assert(read[0] == text[at as int]);
                    if count > 1 {
                        assert(read[1] == text[at + 1]);
                    }
                    if count > 2 {
                        assert(read[2] == text[at + 2]);
                    }
                    assert(number == byte);
                }
            }
        }
        return None;
    }
    let byte: u8 = number as u8;
    assert(text.subrange(at as int, end as int) == decimal(byte));
    Some((byte, end))
}

/// Tells whether `value` is an IPv4 address in dotted decimal.
pub fn is_ipv4(value: &str) -> (yes: bool)
    ensures
        yes == ipv4_text(value@),
{
    let length: usize = value.unicode_len();
    let mut at: usize = 0;
    let mut count: usize = 0;
    let ghost mut bytes: Seq<u8> = seq![];
    proof {
        lemma_nothing_read(value@);
    }
    while count < 4
        invariant
            count <= 4,
            at <= length,
            length == value@.len(),
            bytes.len() == count,
            value@.take(at as int) == read_so_far(bytes),
            count == 4 ==> at == length,
            forall|a: u8, b: u8, c: u8, d: u8| #[trigger]
                dotted(a, b, c, d) == value@ ==> bytes == seq![a, b, c, d].take(count as int),
        decreases 4 - count,
    {
        match read_byte(value, length, at) {
            None => {
                proof {
                    assert forall|a: u8, b: u8, c: u8, d: u8| #[trigger]
                        dotted(a, b, c, d) != value@ by {
                        if dotted(a, b, c, d) == value@ {
                            lemma_next_byte(value@, a, b, c, d, count as int, at as int);
                        }
                    }
                }
                return false;
            },
            Some((byte, end)) => {
                let ghost before = bytes;
                proof {
                    assert forall|a: u8, b: u8, c: u8, d: u8| #[trigger]
                        dotted(a, b, c, d) == value@ implies {
                        &&& bytes.push(byte) == seq![a, b, c, d].take(count + 1)
                        &&& if count == 3 {
                            end == length
                        } else {
                            end < length && value@[end as int] == '.'
                        }
                    } by {
                        lemma_next_byte(value@, a, b, c, d, count as int, at as int);
                        lemma_byte_unique(value@, at as int, byte, seq![a, b, c, d][count as int]);
                        assert(seq![a, b, c, d].take(count + 1) == seq![a, b, c, d].take(
                            count as int,
                        ).push(seq![a, b, c, d][count as int]));
                    }
                }
                if count == 3 {
                    if end != length {
                        return false;
                    }
                    at = end;
                } else {
                    if end == length || value.get_char(end) != '.' {
                        return false;
                    }
                    at = end + 1;
                }
                proof {
                    lemma_one_more_read(before, byte);
                    bytes = bytes.push(byte);
                    assert(value@.take(at as int) == read_so_far(bytes));
                }
            },
        }
        count += 1;
    }
    proof {
        lemma_all_read(bytes);
        assert(value@.take(length as int) == value@);
        assert(value@ == dotted(bytes[0], bytes[1], bytes[2], bytes[3]));
    }
    true
}

/// The words, each but the fourth with the dot that follows it.
spec fn with_dots(words: Seq<Seq<char>>) -> Seq<char>
    decreases words.len(),
{
    if words.len() == 0 {
        seq![]
    } else if words.len() == 4 {
        with_dots(words.drop_last()) + words.last()
    } else {
        with_dots(words.drop_last()) + words.last() + seq!['.']
    }
}

/// The text of the bytes read so far.
spec fn read_so_far(bytes: Seq<u8>) -> Seq<char> {
    with_dots(bytes.map_values(|byte: u8| decimal(byte)))
}

proof fn lemma_nothing_read(text: Seq<char>)
    ensures
        text.take(0) == read_so_far(seq![]),
        forall|a: u8, b: u8, c: u8, d: u8|
            #![trigger dotted(a, b, c, d)]
            seq![a, b, c, d].take(0) == Seq::<u8>::empty(),
{
    assert(Seq::<u8>::empty().map_values(|byte: u8| decimal(byte)).len() == 0);
}

/// One more byte read adds its text, and the dot that follows unless it is the fourth.
proof fn lemma_one_more_read(bytes: Seq<u8>, byte: u8)
    ensures
        read_so_far(bytes.push(byte)) == if bytes.len() == 3 {
            read_so_far(bytes) + decimal(byte)
        } else {
            read_so_far(bytes) + decimal(byte) + seq!['.']
        },
{
    let words = bytes.push(byte).map_values(|byte: u8| decimal(byte));
    assert(words.drop_last() == bytes.map_values(|byte: u8| decimal(byte)));
    assert(words.last() == decimal(byte));
}

/// Four words with three dots between them, split around one of them.
proof fn lemma_split(w: Seq<char>, x: Seq<char>, y: Seq<char>, z: Seq<char>, count: int) -> (tail:
    Seq<char>)
    requires
        0 <= count < 4,
    ensures
        w + seq!['.'] + x + seq!['.'] + y + seq!['.'] + z == with_dots(
            seq![w, x, y, z].take(count),
        ) + seq![w, x, y, z][count] + tail,
        if count == 3 {
            tail.len() == 0
        } else {
            tail.len() > 0 && tail[0] == '.'
        },
{
    let all = seq![w, x, y, z];
    reveal_with_fuel(with_dots, 4);
    assert(all.take(3).drop_last() == all.take(2));
    assert(all.take(2).drop_last() == all.take(1));
    assert(all.take(1).drop_last() == all.take(0));
    let dot = seq!['.'];
    if count == 0 {
        dot + x + dot + y + dot + z
    } else if count == 1 {
        dot + y + dot + z
    } else if count == 2 {
        dot + z
    } else {
        seq![]
    }
}

/// Four bytes read are the text of their address.
proof fn lemma_all_read(bytes: Seq<u8>)
    requires
        bytes.len() == 4,
    ensures
        read_so_far(bytes) == dotted(bytes[0], bytes[1], bytes[2], bytes[3]),
{
    let words = bytes.map_values(|byte: u8| decimal(byte));
    assert(words == seq![words[0], words[1], words[2], words[3]]);
    let tail = lemma_split(words[0], words[1], words[2], words[3], 3);
    assert(words.drop_last() == words.take(3));
    assert(with_dots(words) == with_dots(words.take(3)) + words[3]);
    assert(with_dots(words.take(3)) + words[3] + tail == with_dots(words.take(3)) + words[3]);
}

/// Two bytes that stand at one place are the same.
proof fn lemma_byte_unique(text: Seq<char>, at: int, left: u8, right: u8)
    requires
        byte_at(text, at, left),
        byte_at(text, at, right),
    ensures
        left == right,
{
    lemma_decimal_digits(left);
    lemma_decimal_digits(right);
    let l = decimal(left);
    let r = decimal(right);
    assert forall|i: int| 0 <= i < l.len() implies l[i] == text[at + i] by {
        assert(text.subrange(at, at + l.len())[i] == text[at + i]);
    }
    assert forall|i: int| 0 <= i < r.len() implies r[i] == text[at + i] by {
        assert(text.subrange(at, at + r.len())[i] == text[at + i]);
    }
    if l.len() < r.len() {
        assert(is_digit(r[l.len() as int]));
    }
    if r.len() < l.len() {
        assert(is_digit(l[r.len() as int]));
    }
    assert(l.len() == r.len());
    assert(l[0] == r[0]);
    if l.len() > 1 {
        assert(l[1] == r[1]);
    }
    if l.len() > 2 {
        assert(l[2] == r[2]);
    }
}

/// In the text of an address, the next byte stands behind those read, and a dot or the end of
/// the text follows it.
proof fn lemma_next_byte(text: Seq<char>, a: u8, b: u8, c: u8, d: u8, count: int, at: int)
    requires
        text == dotted(a, b, c, d),
        0 <= count < 4,
        0 <= at <= text.len(),
        text.take(at) == read_so_far(seq![a, b, c, d].take(count)),
    ensures
        byte_at(text, at, seq![a, b, c, d][count]),
        ({
            let end = at + decimal(seq![a, b, c, d][count]).len();
            if count == 3 {
                end == text.len()
            } else {
                end < text.len() && text[end] == '.'
            }
        }),
{
    let all = seq![a, b, c, d];
    let words = all.map_values(|byte: u8| decimal(byte));
    assert(words == seq![decimal(a), decimal(b), decimal(c), decimal(d)]);
    let tail = lemma_split(decimal(a), decimal(b), decimal(c), decimal(d), count);
    assert(all.take(count).map_values(|byte: u8| decimal(byte)) == words.take(count));
    lemma_placed(text.take(at), words[count], tail);
    assert(words[count] == decimal(all[count]));
    assert(text == text.take(at) + words[count] + tail);
}

/// Where a word stands between what goes before it and what follows.
proof fn lemma_placed(before: Seq<char>, word: Seq<char>, tail: Seq<char>)
    ensures
        (before + word + tail).subrange(before.len() as int, (before.len() + word.len()) as int)
            == word,
        tail.len() > 0 ==> (before + word + tail)[(before.len() + word.len()) as int] == tail[0],
{
}

/// The text of an address holds digits and dots only. So an IPv6 address, which holds a colon,
/// is no IPv4 address.
pub proof fn law_only_digits_and_dots(text: Seq<char>)
    requires
        ipv4_text(text),
    ensures
        7 <= text.len() <= 15,
        forall|i: int|
            0 <= i < text.len() ==> ('0' <= #[trigger] text[i] <= '9' || text[i] == '.'),
        !text.contains(':'),
{
    let (a, b, c, d) = choose|a: u8, b: u8, c: u8, d: u8| text == #[trigger] dotted(a, b, c, d);
    lemma_decimal_digits(a);
    lemma_decimal_digits(b);
    lemma_decimal_digits(c);
    lemma_decimal_digits(d);
}

/// A byte in decimal has the digits of its value: up to three, and no zero before another digit.
pub proof fn law_decimal_has_the_value(byte: u8)
    ensures
        ({
            let text = decimal(byte);
            let value = |i: int| text[i] as int - '0' as int;
            &&& 1 <= text.len() <= 3
            &&& forall|i: int| 0 <= i < text.len() ==> 0 <= #[trigger] value(i) <= 9
            &&& text.len() > 1 ==> value(0) != 0
            &&& text.len() == 1 ==> byte == value(0)
            &&& text.len() == 2 ==> byte == 10 * value(0) + value(1)
            &&& text.len() == 3 ==> byte == 100 * value(0) + 10 * value(1) + value(2)
        }),
{
}

/// Any four bytes in decimal with a dot between each two are an address.
pub proof fn law_four_bytes_are_an_address(a: u8, b: u8, c: u8, d: u8)
    ensures
        ipv4_text(
            decimal(a) + seq!['.'] + decimal(b) + seq!['.'] + decimal(c) + seq!['.'] + decimal(d),
        ),
{
    assert(ipv4_text(dotted(a, b, c, d)));
}

/// An address is four bytes in decimal with a dot between each two, and nothing else is.
pub proof fn law_an_address_is_four_bytes(text: Seq<char>)
    requires
        ipv4_text(text),
    ensures
        exists|bytes: Seq<u8>| #[trigger]
            bytes.len() == 4 && text == decimal(bytes[0]) + seq!['.'] + decimal(bytes[1])
                + seq!['.'] + decimal(bytes[2]) + seq!['.'] + decimal(bytes[3]),
{
    let (a, b, c, d) = choose|a: u8, b: u8, c: u8, d: u8| text == #[trigger] dotted(a, b, c, d);
    assert(seq![a, b, c, d].len() == 4);
}

} // verus!
