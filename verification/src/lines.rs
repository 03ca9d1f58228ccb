//! The lines of a text, each a slice of it.
//!
//! The cuts are found among the bytes of the text, where a line feed and a
//! carriage return are one byte each, and are justified among its
//! characters, of which the contracts speak.

use crate::text::{index_of, is_blank, lemma_index_of_is};
use vstd::prelude::*;
use vstd::utf8::{
    decode_utf8_split, encode_scalar, encode_utf8, encode_utf8_decode_utf8,
    encode_utf8_valid_utf8, is_char_boundary, is_char_boundary_iff_not_is_continuation_byte,
    leading_byte_width_1, valid_utf8, valid_utf8_split,
};

verus! {

/// `s` without one trailing carriage return.
pub open spec fn strip_cr(s: Seq<char>) -> Seq<char> {
    if s.len() > 0 && s.last() == '\r' {
        s.drop_last()
    } else {
        s
    }
}

/// The lines of `s`. A line ends at a line feed, or at a carriage return
/// directly followed by a line feed; the terminator is not part of the line.
/// What follows the last line feed is a line only if it is not empty, and is
/// then kept as it is.
pub open spec fn lines_of(s: Seq<char>) -> Seq<Seq<char>>
    decreases s.len(),
{
    if s.len() == 0 {
        Seq::empty()
    } else {
        let k = index_of(s, '\n') as int;
        if k >= s.len() {
            seq![s]
        } else {
            seq![strip_cr(s.take(k))] + lines_of(s.skip(k + 1))
        }
    }
}

/// The contents of each string slice of `v`.
pub open spec fn strs_view(v: Seq<&str>) -> Seq<Seq<char>> {
    Seq::new(v.len(), |i: int| v[i]@)
}

/// Every line of a blank text is blank.
pub proof fn lemma_lines_of_blank(s: Seq<char>)
    requires
        is_blank(s),
    ensures
        forall|i: int| 0 <= i < lines_of(s).len() ==> is_blank(#[trigger] lines_of(s)[i]),
    decreases s.len(),
{
    if s.len() > 0 {
        let k = index_of(s, '\n') as int;
        if k < s.len() {
            let rest = s.skip(k + 1);
            lemma_lines_of_blank(rest);
            assert forall|i: int| 0 <= i < lines_of(s).len() implies is_blank(
                #[trigger] lines_of(s)[i],
            ) by {
                if i > 0 {
                    assert(lines_of(s)[i] == lines_of(rest)[i - 1]);
                }
            }
        }
    }
}

/// An ASCII character is encoded as the one byte of its code.
proof fn lemma_encode_ascii(c: char)
    requires
        c as u32 <= 0x7F,
    ensures
        encode_scalar(c as u32) == seq![c as u8],
{
    let u = c as u32;
    assert(u as u8 == leading_byte_width_1(u)) by (bit_vector)
        requires
            u <= 0x7F,
    ;
}

/// An ASCII character of a text is a byte of the text's encoding.
proof fn lemma_ascii_char_is_byte(chars: Seq<char>, c: char, i: int)
    requires
        c as u32 <= 0x7F,
        0 <= i < chars.len(),
        chars[i] == c,
    ensures
        encode_utf8(chars).contains(c as u8),
    decreases chars.len(),
{
    let first = encode_scalar(chars[0] as u32);
    let rest = chars.drop_first();
    if i == 0 {
        lemma_encode_ascii(c);
        assert(encode_utf8(chars)[0] == c as u8);
    } else {
        lemma_ascii_char_is_byte(rest, c, i - 1);
        let j = choose|j: int| 0 <= j < encode_utf8(rest).len() && encode_utf8(rest)[j] == c as u8;
        assert(encode_utf8(chars)[first.len() + j] == c as u8);
    }
}

/// An ASCII character at the end of a text is the last byte of the text's encoding.
proof fn lemma_last_ascii_char_is_last_byte(chars: Seq<char>, c: char)
    requires
        c as u32 <= 0x7F,
        chars.len() > 0,
        chars.last() == c,
    ensures
        encode_utf8(chars).len() > 0,
        encode_utf8(chars).last() == c as u8,
    decreases chars.len(),
{
    let rest = chars.drop_first();
    if chars.len() == 1 {
        lemma_encode_ascii(c);
        assert(encode_utf8(rest) =~= Seq::<u8>::empty());
    } else {
        lemma_last_ascii_char_is_last_byte(rest, c);
    }
}

/// A text that is encoded as one ASCII byte is that one character.
proof fn lemma_one_ascii_byte(chars: Seq<char>, c: char)
    requires
        c as u32 <= 0x7F,
        encode_utf8(chars) == seq![c as u8],
    ensures
        chars == seq![c],
{
    let one = seq![c];
    lemma_encode_ascii(c);
    assert(encode_utf8(one.drop_first()) =~= Seq::<u8>::empty());
    encode_utf8_decode_utf8(chars);
    encode_utf8_decode_utf8(one);
}

/// Where the encoding of a text is cut at a character boundary, the text
/// is what the first part encodes followed by what the second part encodes.
proof fn lemma_cut(whole: Seq<char>, left: Seq<char>, right: Seq<char>, mid: int)
    requires
        is_char_boundary(encode_utf8(whole), mid),
        encode_utf8(left) == encode_utf8(whole).subrange(0, mid),
        encode_utf8(right) == encode_utf8(whole).subrange(mid, encode_utf8(whole).len() as int),
    ensures
        whole == left + right,
{
    let bytes = encode_utf8(whole);
    encode_utf8_valid_utf8(whole);
    decode_utf8_split(bytes, mid);
    encode_utf8_decode_utf8(whole);
    encode_utf8_decode_utf8(left);
    encode_utf8_decode_utf8(right);
}

/// An ASCII byte of an encoding stands at a character boundary, and so
/// does the byte after it.
proof fn lemma_ascii_byte_is_a_character(bytes: Seq<u8>, i: int)
    requires
        valid_utf8(bytes),
        0 <= i < bytes.len(),
        bytes[i] <= 0x7F,
    ensures
        is_char_boundary(bytes, i),
        is_char_boundary(bytes.subrange(i, bytes.len() as int), 1),
{
    is_char_boundary_iff_not_is_continuation_byte(bytes, i);
    valid_utf8_split(bytes, i);
    reveal_with_fuel(is_char_boundary, 2);
}

/// Cuts `s` at its first line feed: what stands before it and what stands
/// after it; nothing where `s` holds no line feed.
fn split_at_line_feed<'a>(s: &'a str) -> (r: Option<(&'a str, &'a str)>)
    ensures
        match r {
            Some((head, rest)) => {
                &&& index_of(s@, '\n') < s@.len()
                &&& head@ == s@.take(index_of(s@, '\n') as int)
                &&& rest@ == s@.skip(index_of(s@, '\n') as int + 1)
            },
            None => index_of(s@, '\n') == s@.len(),
        },
{
    let bytes = s.as_bytes();
    let mut i: usize = 0;
    while i < bytes.len() && bytes[i] != 0x0A
        invariant
            i <= bytes.len(),
            forall|j: int| 0 <= j < i ==> bytes@[j] != 0x0A,
        decreases bytes.len() - i,
    {
        i += 1;
    }
    proof {
        encode_utf8_valid_utf8(s@);
    }
    if i >= bytes.len() {
        proof {
            assert forall|j: int| 0 <= j < s@.len() implies s@[j] != '\n' by {
                if s@[j] == '\n' {
                    lemma_ascii_char_is_byte(s@, '\n', j);
                }
            }
            lemma_index_of_is(s@, '\n', s@.len() as int);
        }
        return None;
    }
    proof {
        lemma_ascii_byte_is_a_character(bytes@, i as int);
    }
    let (head, tail) = s.split_at(i);
    let (feed, rest) = tail.split_at(1);
    proof {
        lemma_cut(s@, head@, tail@, i as int);
        lemma_cut(tail@, feed@, rest@, 1);
        lemma_one_ascii_byte(feed@, '\n');
        let k = head@.len() as int;
        assert forall|j: int| 0 <= j < k implies s@[j] != '\n' by {
            if head@[j] == '\n' {
                lemma_ascii_char_is_byte(head@, '\n', j);
            }
        }
        lemma_index_of_is(s@, '\n', k);
    }
    Some((head, rest))
}

/// `s` without one trailing carriage return.
fn strip_carriage_return<'a>(s: &'a str) -> (r: &'a str)
    ensures
        r@ == strip_cr(s@),
{
    let bytes = s.as_bytes();
    let n = bytes.len();
    proof {
        encode_utf8_valid_utf8(s@);
        if s@.len() > 0 && s@.last() == '\r' {
            lemma_last_ascii_char_is_last_byte(s@, '\r');
        }
    }
    if n > 0 && bytes[n - 1] == 0x0D {
        proof {
            lemma_ascii_byte_is_a_character(bytes@, n - 1);
        }
        let (line, cr) = s.split_at(n - 1);
        proof {
            lemma_cut(s@, line@, cr@, n - 1);
            lemma_one_ascii_byte(cr@, '\r');
        }
        line
    } else {
        s
    }
}

/// The lines of `s`, each a slice of `s`.
pub fn lines<'a>(s: &'a str) -> (r: Vec<&'a str>)
    ensures
        strs_view(r@) == lines_of(s@),
{
    let mut out: Vec<&'a str> = Vec::new();
    let mut rest: &'a str = s;
    let mut done = false;
    while !done
        invariant
            done ==> strs_view(out@) == lines_of(s@),
            !done ==> lines_of(s@) == strs_view(out@) + lines_of(rest@),
        decreases rest@.len() + (if done { 0int } else { 1int }),
    {
        if rest.is_empty() {
            done = true;
        } else {
            match split_at_line_feed(rest) {
                Some((head, tail)) => {
                    let line = strip_carriage_return(head);
                    out.push(line);
                    rest = tail;
                },
                None => {
                    out.push(rest);
                    done = true;
                },
            }
        }
    }
    out
}

} // verus!
