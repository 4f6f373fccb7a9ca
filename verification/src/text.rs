//! Texts and byte offsets into them.
//!
//! A text is a sequence of characters; the editor addresses it by byte
//! offsets into its UTF-8 form, as `String` does. The functions here say, in
//! terms of characters, what an edit at a byte offset does.

use vstd::prelude::*;
use vstd::string::{StringExecFns, StringSliceAdditionalSpecFns};
use vstd::utf8::*;

verus! {

/// The length of a text in bytes.
pub open spec fn byte_len(text: Seq<char>) -> int {
    encode_utf8(text).len() as int
}

/// Whether the byte offset `at` lies between two characters of `text`, or at
/// its start or its end.
pub open spec fn on_boundary(text: Seq<char>, at: int) -> bool {
    is_char_boundary(encode_utf8(text), at)
}

/// The characters of `text` that end at or before byte offset `at`.
pub open spec fn head(text: Seq<char>, at: int) -> Seq<char> {
    decode_utf8(encode_utf8(text).subrange(0, at))
}

/// The characters of `text` that start at or after byte offset `at`.
pub open spec fn tail(text: Seq<char>, at: int) -> Seq<char> {
    decode_utf8(encode_utf8(text).subrange(at, byte_len(text)))
}

/// The text with the character `c` put in at byte offset `at`.
pub open spec fn with_char(text: Seq<char>, at: int, c: char) -> Seq<char> {
    head(text, at) + seq![c] + tail(text, at)
}

/// The text without the character that starts at byte offset `at`.
pub open spec fn without_char(text: Seq<char>, at: int) -> Seq<char> {
    head(text, at) + tail(text, at).drop_first()
}

/// The texts of a list of strings.
pub open spec fn texts(list: Seq<String>) -> Seq<Seq<char>> {
    list.map_values(|s: String| s@)
}

/// `String::push`: appends one character to the end of the string.
#[verifier::external_body]
pub(crate) fn push_char(s: &mut String, c: char)
    ensures
        final(s)@ == old(s)@.push(c),
{
    s.push(c)
}

/// Puts a character into a string at a byte offset on a character boundary;
/// everything from the offset on moves back behind the new character.
pub fn insert_char(s: &mut String, at: usize, c: char)
    requires
        on_boundary(old(s)@, at as int),
    ensures
        final(s)@ == with_char(old(s)@, at as int, c),
{
    broadcast use encode_utf8_decode_utf8;

    let (front, back) = s.as_str().split_at(at);
    assert(front@ == decode_utf8(front.spec_bytes()));
    assert(back@ == decode_utf8(back.spec_bytes()));
    let mut joined = String::from_str(front);
    push_char(&mut joined, c);
    joined.append(back);
    *s = joined;
}

/// Takes the character that starts at a byte offset out of a string; the
/// offset is on a character boundary before the end, and everything behind
/// the character moves forward.
pub fn remove_char(s: &mut String, at: usize)
    requires
        on_boundary(old(s)@, at as int),
        at < byte_len(old(s)@),
    ensures
        final(s)@ == without_char(old(s)@, at as int),
{
    broadcast use {encode_utf8_decode_utf8, encode_utf8_valid_utf8};

    let (front, back) = s.as_str().split_at(at);
    let ghost bytes = back.spec_bytes();
    let ghost first: int = length_of_first_scalar(bytes);
    assert(front@ == decode_utf8(front.spec_bytes()));
    assert(back@ == decode_utf8(bytes));
    assert(bytes.len() > 0 && valid_utf8(bytes));
    proof {
        reveal_with_fuel(is_char_boundary, 2);
    }
    let mut width: usize = 1;
    while !back.is_char_boundary(width)
        invariant
            bytes == back.spec_bytes(),
            valid_utf8(bytes),
            bytes.len() > 0,
            first == length_of_first_scalar(bytes),
            1 <= width <= first <= 4,
            is_char_boundary(bytes, first),
        decreases first - width,
    {
        proof {
            reveal_with_fuel(is_char_boundary, 2);
        }
        width += 1;
    }
    proof {
        reveal_with_fuel(is_char_boundary, 2);
        assert(width == first);
    }
    let (_, rest) = back.split_at(width);
    assert(rest.spec_bytes() =~= pop_first_scalar(bytes));
    assert(rest@ == decode_utf8(pop_first_scalar(bytes)));
    assert(back@.drop_first() =~= rest@);
    let mut joined = String::from_str(front);
    joined.append(rest);
    *s = joined;
}

/// The UTF-8 form of two texts joined is the two forms joined.
pub proof fn lemma_bytes_of_joined(a: Seq<char>, b: Seq<char>)
    ensures
        encode_utf8(a + b) == encode_utf8(a) + encode_utf8(b),
    decreases a.len(),
{
    if a.len() == 0 {
        assert(a + b =~= b);
        assert(encode_utf8(a) + encode_utf8(b) =~= encode_utf8(b));
    } else {
        lemma_bytes_of_joined(a.drop_first(), b);
        assert((a + b).drop_first() =~= a.drop_first() + b);
        assert((a + b)[0] == a[0]);
        assert(encode_utf8(a + b) =~= encode_utf8(a) + encode_utf8(b));
    }
}

/// A text whose UTF-8 form begins with the UTF-8 form of another begins
/// with that text, and the other's form ends on a character boundary of it.
proof fn lemma_prefix_of_bytes(prefix: Seq<char>, text: Seq<char>)
    requires
        encode_utf8(prefix).is_prefix_of(encode_utf8(text)),
    ensures
        prefix.is_prefix_of(text),
        on_boundary(text, byte_len(prefix)),
    decreases prefix.len(),
{
    let lead = encode_utf8(prefix);
    let bytes = encode_utf8(text);
    encode_utf8_valid_utf8(text);
    if prefix.len() == 0 {
        assert(prefix =~= text.subrange(0, 0));
    } else {
        encode_utf8_first_scalar(prefix);
        assert(lead.len() >= 1);
        assert(text.len() > 0);
        encode_utf8_first_scalar(text);
        let first: int = length_of_first_scalar(lead);
        assert(first <= lead.len());
        assert forall|k: int| 0 <= k < first implies bytes[k] == lead[k] by {
            assert(bytes.subrange(0, lead.len() as int)[k] == lead[k]);
        }
        assert(length_of_first_scalar(bytes) == first);
        assert(decode_first_scalar(bytes) == decode_first_scalar(lead));
        char_u32_cast(prefix[0], decode_first_scalar(lead));
        char_u32_cast(text[0], decode_first_scalar(bytes));
        assert(prefix[0] == text[0]);
        assert(pop_first_scalar(lead) =~= encode_utf8(prefix.drop_first()));
        assert(pop_first_scalar(bytes) =~= encode_utf8(text.drop_first()));
        assert(pop_first_scalar(lead) =~= pop_first_scalar(bytes).subrange(
            0,
            lead.len() - first,
        ));
        lemma_prefix_of_bytes(prefix.drop_first(), text.drop_first());
        assert(prefix =~= text.subrange(0, prefix.len() as int)) by {
            assert forall|k: int| 0 <= k < prefix.len() implies prefix[k] == text[k] by {
                if k > 0 {
                    assert(prefix.drop_first()[k - 1] == text.drop_first().subrange(
                        0,
                        prefix.len() - 1,
                    )[k - 1]);
                }
            }
        }
        reveal_with_fuel(is_char_boundary, 2);
    }
}

/// The rest of `s` behind `prefix` where `s` starts with it, and `None`
/// where it does not.
pub fn strip_prefix<'a>(s: &'a str, prefix: &str) -> (rest: Option<&'a str>)
    ensures
        match rest {
            Some(r) => prefix@.is_prefix_of(s@) && r@ == s@.skip(prefix@.len() as int),
            None => !prefix@.is_prefix_of(s@),
        },
{
    let bytes = s.as_bytes();
    let lead = prefix.as_bytes();
    let n: usize = lead.len();
    proof {
        if prefix@.is_prefix_of(s@) {
            assert(s@ =~= prefix@ + s@.skip(prefix@.len() as int));
            lemma_bytes_of_joined(prefix@, s@.skip(prefix@.len() as int));
            assert(lead@ =~= bytes@.subrange(0, n as int));
        }
    }
    if n > bytes.len() {
        return None;
    }
    let mut i: usize = 0;
    while i < n
        invariant
            i <= n <= bytes@.len(),
            n == lead@.len(),
            forall|k: int| 0 <= k < i ==> bytes@[k] == lead@[k],
            prefix@.is_prefix_of(s@) ==> lead@ == bytes@.subrange(0, n as int),
        decreases n - i,
    {
        if bytes[i] != lead[i] {
            assert(prefix@.is_prefix_of(s@) ==> bytes@.subrange(0, n as int)[i as int]
                == lead@[i as int]);
            return None;
        }
        i += 1;
    }
    proof {
        assert(lead@ =~= bytes@.subrange(0, n as int));
        lemma_prefix_of_bytes(prefix@, s@);
        assert(s@ =~= prefix@ + s@.skip(prefix@.len() as int));
        lemma_bytes_of_joined(prefix@, s@.skip(prefix@.len() as int));
    }
    let (_, rest) = s.split_at(n);
    proof {
        let behind = s@.skip(prefix@.len() as int);
        assert(rest.spec_bytes() =~= encode_utf8(behind));
        encode_utf8_decode_utf8(rest@);
        encode_utf8_decode_utf8(behind);
    }
    Some(rest)
}

/// What the text cursor shows at byte offset `at`: the character there if it
/// is a single byte long, and a blank everywhere else.
pub open spec fn glyph_at(text: Seq<char>, at: int) -> Seq<char> {
    if 0 <= at < byte_len(text) && on_boundary(text, at) && on_boundary(text, at + 1) {
        decode_utf8(encode_utf8(text).subrange(at, at + 1))
    } else {
        seq![' ']
    }
}

/// A character boundary of a text is also one of the part of the text that
/// starts at an earlier boundary.
proof fn lemma_boundary_in_suffix(bytes: Seq<u8>, from: int, to: int)
    requires
        valid_utf8(bytes),
        is_char_boundary(bytes, from),
        is_char_boundary(bytes, to),
        from <= to,
    ensures
        0 <= from <= to <= bytes.len(),
        is_char_boundary(bytes.subrange(from, bytes.len() as int), to - from),
    decreases bytes.len(),
{
    reveal_with_fuel(is_char_boundary, 2);
    if from == 0 {
        assert(bytes.subrange(0, bytes.len() as int) =~= bytes);
    } else {
        let first: int = length_of_first_scalar(bytes);
        let rest = pop_first_scalar(bytes);
        lemma_boundary_in_suffix(rest, from - first, to - first);
        assert(rest.subrange(from - first, rest.len() as int) =~= bytes.subrange(
            from,
            bytes.len() as int,
        ));
    }
}

/// The length of a string in bytes.
pub fn str_len(s: &str) -> (n: usize)
    ensures
        n == byte_len(s@),
{
    s.as_bytes().len()
}

/// The piece of `s` that the text cursor shows at byte offset `at`.
pub fn glyph<'a>(s: &'a str, at: usize) -> (g: &'a str)
    ensures
        g@ == glyph_at(s@, at as int),
{
    broadcast use {encode_utf8_valid_utf8, encode_utf8_decode_utf8};

    if at < s.as_bytes().len() && s.is_char_boundary(at) && s.is_char_boundary(at + 1) {
        let (_, rest) = s.split_at(at);
        proof {
            lemma_boundary_in_suffix(s.spec_bytes(), at as int, at + 1);
        }
        let (g, _) = rest.split_at(1);
        assert(g.spec_bytes() =~= s.spec_bytes().subrange(at as int, at + 1));
        assert(g@ == decode_utf8(encode_utf8(g@)));
        g
    } else {
        proof {
            reveal_strlit(" ");
            assert(" "@ =~= seq![' ']);
        }
        " "
    }
}

/// At a character boundary a text falls into the characters before the
/// offset, which take up exactly the bytes before it, and the characters from
/// the offset on.
pub proof fn lemma_split_at_boundary(text: Seq<char>, at: int)
    requires
        on_boundary(text, at),
    ensures
        0 <= at <= byte_len(text),
        head(text, at) + tail(text, at) == text,
        byte_len(head(text, at)) == at,
        byte_len(tail(text, at)) == byte_len(text) - at,
{
    let bytes = encode_utf8(text);
    encode_utf8_valid_utf8(text);
    encode_utf8_decode_utf8(text);
    lemma_boundary_in_suffix(bytes, at, at);
    valid_utf8_split(bytes, at);
    decode_utf8_split(bytes, at);
    decode_utf8_encode_utf8(bytes.subrange(0, at));
    decode_utf8_encode_utf8(bytes.subrange(at, bytes.len() as int));
}

/// Putting a character in at the end of a text appends it.
pub proof fn lemma_with_char_at_end(text: Seq<char>, c: char)
    ensures
        on_boundary(text, byte_len(text)),
        with_char(text, byte_len(text), c) == text.push(c),
{
    broadcast use {
        encode_utf8_valid_utf8,
        encode_utf8_decode_utf8,
        is_char_boundary_start_end_of_seq,
    };

    let bytes = encode_utf8(text);
    assert(bytes.subrange(0, bytes.len() as int) =~= bytes);
    assert(bytes.subrange(bytes.len() as int, bytes.len() as int) =~= Seq::<u8>::empty());
    assert(decode_utf8(Seq::<u8>::empty()) =~= Seq::<char>::empty());
    assert(with_char(text, byte_len(text), c) =~= text.push(c));
}

/// The UTF-8 form of a piece of an ASCII text is the same piece of the UTF-8
/// form of the text.
proof fn lemma_ascii_piece(text: Seq<char>, from: int, to: int)
    requires
        is_ascii_chars(text),
        0 <= from <= to <= text.len(),
    ensures
        encode_utf8(text).len() == text.len(),
        is_ascii_chars(text.subrange(from, to)),
        encode_utf8(text.subrange(from, to)) == encode_utf8(text).subrange(from, to),
        decode_utf8(encode_utf8(text).subrange(from, to)) == text.subrange(from, to),
{
    let piece = text.subrange(from, to);
    is_ascii_chars_encode_utf8(text);
    is_ascii_chars_encode_utf8(piece);
    assert forall|i: int| 0 <= i < piece.len() implies encode_utf8(piece)[i] == encode_utf8(
        text,
    ).subrange(from, to)[i] by {
        assert(piece[i] == text[from + i]);
    }
    assert(encode_utf8(piece) =~= encode_utf8(text).subrange(from, to));
    encode_utf8_decode_utf8(piece);
}

/// In a text of ASCII characters a byte offset is the index of a character:
/// every offset up to the length is on a boundary, and an edit at an offset
/// is the edit of the sequence at that index.
pub proof fn lemma_ascii_edits(text: Seq<char>, at: int, c: char)
    requires
        is_ascii_chars(text),
        0 <= at <= text.len(),
    ensures
        byte_len(text) == text.len(),
        on_boundary(text, at),
        with_char(text, at, c) == text.insert(at, c),
        at < text.len() ==> without_char(text, at) == text.remove(at),
        at < text.len() ==> glyph_at(text, at) == seq![text[at]],
        at == text.len() ==> glyph_at(text, at) == seq![' '],
{
    let bytes = encode_utf8(text);
    let len = text.len() as int;
    lemma_ascii_piece(text, 0, at);
    lemma_ascii_piece(text, at, len);
    encode_utf8_valid_utf8(text);
    is_ascii_chars_encode_utf8(text);
    lemma_ascii_boundary(text, at);
    assert(text.subrange(0, at) + seq![c] + text.subrange(at, len) =~= text.insert(at, c));
    if at < len {
        lemma_ascii_boundary(text, at + 1);
        lemma_ascii_piece(text, at, at + 1);
        assert(text.subrange(at, at + 1) =~= seq![text[at]]);
        assert(text.subrange(0, at) + text.subrange(at, len).drop_first() =~= text.remove(at));
    }
}

/// Every offset into an ASCII text is on a character boundary.
proof fn lemma_ascii_boundary(text: Seq<char>, at: int)
    requires
        is_ascii_chars(text),
        0 <= at <= text.len(),
    ensures
        on_boundary(text, at),
{
    let bytes = encode_utf8(text);
    encode_utf8_valid_utf8(text);
    is_ascii_chars_encode_utf8(text);
    if at < text.len() {
        let b = bytes[at];
        assert(b == text[at] as u8);
        assert(!is_continuation_byte(b));
        is_char_boundary_iff_not_is_continuation_byte(bytes, at);
    } else {
        is_char_boundary_start_end_of_seq(bytes);
    }
}

} // verus!
