//! Byte offsets and character positions in UTF-8 text.
//!
//! A text is modelled as its sequence of characters. A byte offset into its
//! UTF-8 encoding is a character boundary exactly when it is the encoded
//! length of a prefix of that sequence.

use vstd::prelude::*;
use vstd::slice::slice_subrange;
use vstd::string::StringSliceAdditionalSpecFns;
use vstd::utf8::*;

verus! {

/// The byte offset at which the character with index `pos` starts in the
/// UTF-8 encoding of `text` (the encoded length, for `pos == text.len()`).
pub open spec fn byte_offset(text: Seq<char>, pos: int) -> int {
    encode_utf8(text.take(pos)).len() as int
}

/// The number of encoded bytes of `text`.
pub open spec fn byte_len(text: Seq<char>) -> int {
    encode_utf8(text).len() as int
}

/// The number of characters of `text` that start before byte `offset`.
pub open spec fn char_index(text: Seq<char>, offset: int) -> int
    decreases text.len(),
{
    if offset <= 0 || text.len() == 0 {
        0
    } else {
        1 + char_index(text.drop_first(), offset - encode_scalar(text[0] as u32).len())
    }
}

/// Whether byte `offset` falls on a character boundary of `text`.
pub open spec fn on_boundary(text: Seq<char>, offset: int) -> bool {
    exists|pos: int| 0 <= pos <= text.len() && byte_offset(text, pos) == offset
}

/// Every character takes between one and four bytes.
pub proof fn lemma_scalar_len(c: char)
    ensures
        1 <= encode_scalar(c as u32).len() <= 4,
{
}

/// Encoding distributes over concatenation.
pub proof fn lemma_encode_concat(a: Seq<char>, b: Seq<char>)
    ensures
        encode_utf8(a + b) == encode_utf8(a) + encode_utf8(b),
    decreases a.len(),
{
    if a.len() == 0 {
        assert(a + b =~= b);
        assert(encode_utf8(a) + encode_utf8(b) =~= encode_utf8(b));
    } else {
        lemma_encode_concat(a.drop_first(), b);
        assert((a + b).drop_first() =~= a.drop_first() + b);
        assert(encode_utf8(a + b) =~= encode_utf8(a) + encode_utf8(b));
    }
}

/// Two texts with the same encoding are the same text.
pub proof fn lemma_encode_injective(a: Seq<char>, b: Seq<char>)
    requires
        encode_utf8(a) == encode_utf8(b),
    ensures
        a == b,
{
    encode_utf8_decode_utf8(a);
    encode_utf8_decode_utf8(b);
}

/// The encoding of a text is the encoding of the part before `pos` followed
/// by the encoding of the part from `pos` on.
pub proof fn lemma_split_encoding(text: Seq<char>, pos: int)
    requires
        0 <= pos <= text.len(),
    ensures
        encode_utf8(text) == encode_utf8(text.take(pos)) + encode_utf8(text.skip(pos)),
        encode_utf8(text).subrange(0, byte_offset(text, pos)) == encode_utf8(text.take(pos)),
        encode_utf8(text).subrange(byte_offset(text, pos), byte_len(text)) == encode_utf8(
            text.skip(pos),
        ),
        0 <= byte_offset(text, pos) <= byte_len(text),
{
    assert(text =~= text.take(pos) + text.skip(pos));
    lemma_encode_concat(text.take(pos), text.skip(pos));
    let a = encode_utf8(text.take(pos));
    let b = encode_utf8(text.skip(pos));
    assert((a + b).subrange(0, a.len() as int) =~= a);
    assert((a + b).subrange(a.len() as int, (a + b).len() as int) =~= b);
}

/// The encoding of a single character is the encoding of that scalar.
pub proof fn lemma_encode_single(c: char)
    ensures
        encode_utf8(seq![c]) == encode_scalar(c as u32),
{
    reveal_with_fuel(encode_utf8, 2);
    assert(seq![c].drop_first() =~= Seq::<char>::empty());
    assert(encode_utf8(seq![c]) =~= encode_scalar(c as u32));
}

/// Offsets of successive characters differ by the encoded length of the
/// character between them.
pub proof fn lemma_offset_step(text: Seq<char>, pos: int)
    requires
        0 <= pos < text.len(),
    ensures
        byte_offset(text, pos + 1) == byte_offset(text, pos) + encode_scalar(
            text[pos] as u32,
        ).len(),
        byte_offset(text, pos) < byte_offset(text, pos + 1),
{
    assert(text.take(pos + 1) =~= text.take(pos) + seq![text[pos]]);
    lemma_encode_concat(text.take(pos), seq![text[pos]]);
    lemma_encode_single(text[pos]);
    lemma_scalar_len(text[pos]);
}

/// Later characters start at larger offsets.
pub proof fn lemma_offset_increasing(text: Seq<char>, p: int, q: int)
    requires
        0 <= p < q <= text.len(),
    ensures
        byte_offset(text, p) < byte_offset(text, q),
    decreases q - p,
{
    lemma_offset_step(text, q - 1);
    if p < q - 1 {
        lemma_offset_increasing(text, p, q - 1);
    }
}

/// The first and last offsets are zero and the encoded length.
pub proof fn lemma_offset_ends(text: Seq<char>)
    ensures
        byte_offset(text, 0) == 0,
        byte_offset(text, text.len() as int) == byte_len(text),
        on_boundary(text, 0),
        on_boundary(text, byte_len(text)),
{
    assert(text.take(0) =~= Seq::<char>::empty());
    assert(text.take(text.len() as int) =~= text);
}

/// Dropping the first character shifts every later offset down by that
/// character's encoded length.
proof fn lemma_offset_drop_first(text: Seq<char>, pos: int)
    requires
        0 < pos <= text.len(),
    ensures
        byte_offset(text, pos) == encode_scalar(text[0] as u32).len() + byte_offset(
            text.drop_first(),
            pos - 1,
        ),
{
    assert(text.take(pos).drop_first() =~= text.drop_first().take(pos - 1));
    assert(text.take(pos)[0] == text[0]);
}

/// The first encoded character of a non-empty text, seen from the encoding.
proof fn lemma_encoding_head(text: Seq<char>)
    requires
        text.len() > 0,
    ensures
        valid_utf8(encode_utf8(text)),
        length_of_first_scalar(encode_utf8(text)) == encode_scalar(text[0] as u32).len(),
        pop_first_scalar(encode_utf8(text)) == encode_utf8(text.drop_first()),
        take_first_scalar(encode_utf8(text)) == encode_scalar(text[0] as u32),
{
    encode_utf8_valid_utf8(text);
    encode_utf8_first_scalar(text);
    let head = encode_scalar(text[0] as u32);
    let tail = encode_utf8(text.drop_first());
    assert((head + tail).subrange(head.len() as int, (head + tail).len() as int) =~= tail);
    assert((head + tail).subrange(0, head.len() as int) =~= head);
}

/// The offset of every character position is a character boundary of the
/// encoding, in the sense of the standard library.
pub proof fn lemma_offset_is_boundary(text: Seq<char>, pos: int)
    requires
        0 <= pos <= text.len(),
    ensures
        is_char_boundary(encode_utf8(text), byte_offset(text, pos)),
    decreases pos,
{
    encode_utf8_valid_utf8(text);
    if pos == 0 {
        lemma_offset_ends(text);
    } else {
        lemma_encoding_head(text);
        lemma_offset_drop_first(text, pos);
        lemma_offset_is_boundary(text.drop_first(), pos - 1);
        lemma_scalar_len(text[0]);
        lemma_split_encoding(text, pos);
    }
}

/// Every character boundary of the encoding is the offset of the character
/// position that `char_index` computes.
pub proof fn lemma_boundary_is_offset(text: Seq<char>, offset: int)
    requires
        is_char_boundary(encode_utf8(text), offset),
    ensures
        0 <= char_index(text, offset) <= text.len(),
        byte_offset(text, char_index(text, offset)) == offset,
        on_boundary(text, offset),
    decreases text.len(),
{
    encode_utf8_valid_utf8(text);
    if offset == 0 {
        lemma_offset_ends(text);
    } else if text.len() == 0 {
        assert(encode_utf8(text).len() == 0);
    } else {
        lemma_encoding_head(text);
        let rest = text.drop_first();
        let head_len = encode_scalar(text[0] as u32).len() as int;
        lemma_boundary_is_offset(rest, offset - head_len);
        let p = char_index(rest, offset - head_len);
        lemma_offset_drop_first(text, p + 1);
        assert(char_index(text, offset) == p + 1);
    }
}

/// The two notions of character boundary agree.
pub proof fn lemma_boundary_iff(text: Seq<char>, offset: int)
    ensures
        on_boundary(text, offset) <==> is_char_boundary(encode_utf8(text), offset),
{
    if on_boundary(text, offset) {
        let pos = choose|pos: int| 0 <= pos <= text.len() && byte_offset(text, pos) == offset;
        lemma_offset_is_boundary(text, pos);
    }
    if is_char_boundary(encode_utf8(text), offset) {
        lemma_boundary_is_offset(text, offset);
    }
}

/// `char_index` inverts `byte_offset`.
pub proof fn lemma_index_of_offset(text: Seq<char>, pos: int)
    requires
        0 <= pos <= text.len(),
    ensures
        char_index(text, byte_offset(text, pos)) == pos,
{
    lemma_offset_is_boundary(text, pos);
    lemma_boundary_is_offset(text, byte_offset(text, pos));
    let q = char_index(text, byte_offset(text, pos));
    if q < pos {
        lemma_offset_increasing(text, q, pos);
    } else if pos < q {
        lemma_offset_increasing(text, pos, q);
    }
}

/// A position of the text is on a boundary, and `char_index` finds it again.
pub proof fn lemma_position(text: Seq<char>, pos: int)
    requires
        0 <= pos <= text.len(),
    ensures
        on_boundary(text, byte_offset(text, pos)),
        char_index(text, byte_offset(text, pos)) == pos,
        0 <= byte_offset(text, pos) <= byte_len(text),
{
    lemma_index_of_offset(text, pos);
    lemma_split_encoding(text, pos);
}

/// A boundary of the text is the offset of the position that `char_index`
/// gives for it.
pub proof fn lemma_boundary(text: Seq<char>, offset: int)
    requires
        on_boundary(text, offset),
    ensures
        0 <= char_index(text, offset) <= text.len(),
        byte_offset(text, char_index(text, offset)) == offset,
        0 <= offset <= byte_len(text),
        offset == byte_len(text) <==> char_index(text, offset) == text.len(),
        offset == 0 <==> char_index(text, offset) == 0,
{
    lemma_boundary_iff(text, offset);
    lemma_boundary_is_offset(text, offset);
    let pos = char_index(text, offset);
    lemma_split_encoding(text, pos);
    lemma_offset_ends(text);
    if pos < text.len() {
        lemma_offset_increasing(text, pos, text.len() as int);
    }
    if 0 < pos {
        lemma_offset_increasing(text, 0, pos);
    }
}

/// How offsets change when a character is inserted at `pos`.
pub proof fn lemma_insert_offsets(text: Seq<char>, pos: int, c: char)
    requires
        0 <= pos <= text.len(),
    ensures
        byte_offset(text.insert(pos, c), pos) == byte_offset(text, pos),
        byte_offset(text.insert(pos, c), pos + 1) == byte_offset(text, pos) + encode_scalar(
            c as u32,
        ).len(),
        byte_len(text.insert(pos, c)) == byte_len(text) + encode_scalar(c as u32).len(),
        on_boundary(text.insert(pos, c), byte_offset(text, pos)),
{
    let after = text.insert(pos, c);
    assert(after.take(pos) =~= text.take(pos));
    assert(after.skip(pos + 1) =~= text.skip(pos));
    assert(after[pos] == c);
    lemma_offset_step(after, pos);
    lemma_split_encoding(text, pos);
    lemma_split_encoding(after, pos + 1);
    lemma_position(after, pos);
}

/// How offsets change when the character at `pos` is removed.
pub proof fn lemma_remove_offsets(text: Seq<char>, pos: int)
    requires
        0 <= pos < text.len(),
    ensures
        byte_offset(text.remove(pos), pos) == byte_offset(text, pos),
        byte_len(text.remove(pos)) == byte_len(text) - encode_scalar(text[pos] as u32).len(),
        on_boundary(text.remove(pos), byte_offset(text, pos)),
{
    let after = text.remove(pos);
    assert(after.take(pos) =~= text.take(pos));
    assert(after.skip(pos) =~= text.skip(pos + 1));
    lemma_offset_step(text, pos);
    lemma_split_encoding(text, pos + 1);
    lemma_split_encoding(after, pos);
    lemma_position(after, pos);
}

/// Whether the `n` bytes of `bytes` from `offset` on exist and are valid
/// UTF-8 by themselves.
pub open spec fn window_valid(bytes: Seq<u8>, offset: int, n: int) -> bool {
    offset + n <= bytes.len() && valid_utf8(bytes.subrange(offset, offset + n))
}

/// The length of the shortest window of one to four bytes from `offset` on
/// that is valid UTF-8, if there is one.
pub open spec fn first_window(bytes: Seq<u8>, offset: int) -> Option<int> {
    if window_valid(bytes, offset, 1) {
        Some(1)
    } else if window_valid(bytes, offset, 2) {
        Some(2)
    } else if window_valid(bytes, offset, 3) {
        Some(3)
    } else if window_valid(bytes, offset, 4) {
        Some(4)
    } else {
        None
    }
}

/// At the offset of a character, the shortest valid window is exactly the
/// encoding of that character.
pub proof fn lemma_window_at_char(text: Seq<char>, pos: int)
    requires
        0 <= pos < text.len(),
    ensures
        first_window(encode_utf8(text), byte_offset(text, pos)) == Some(
            encode_scalar(text[pos] as u32).len() as int,
        ),
        encode_utf8(text).subrange(byte_offset(text, pos), byte_offset(text, pos + 1))
            == encode_utf8(seq![text[pos]]),
{
    let bytes = encode_utf8(text);
    let offset = byte_offset(text, pos);
    let rest = text.skip(pos);
    let tail = encode_utf8(rest);
    let width = encode_scalar(text[pos] as u32).len() as int;
    lemma_split_encoding(text, pos);
    lemma_offset_step(text, pos);
    lemma_encoding_head(rest);
    lemma_encode_single(text[pos]);
    lemma_scalar_len(text[pos]);
    encode_utf8_valid_utf8(seq![text[pos]]);
    assert(rest[0] == text[pos]);
    assert(tail.len() >= width);
    assert forall|n: int| 1 <= n <= width implies #[trigger] bytes.subrange(offset, offset + n)
        == tail.subrange(0, n) by {
        assert(bytes.subrange(offset, offset + n) =~= tail.subrange(0, n));
    }
    assert(tail.subrange(0, width) == encode_utf8(seq![text[pos]]));
    assert forall|n: int| 1 <= n < width implies !window_valid(bytes, offset, n) by {
        let window = bytes.subrange(offset, offset + n);
        assert(window == tail.subrange(0, n));
        assert(window[0] == tail[0]);
        assert(!valid_leading_and_continuation_bytes_first_codepoint(window));
    }
    assert(window_valid(bytes, offset, width));
}

/// Reads bytes as text where they are valid UTF-8.
///
/// Trusted: wraps `std::str::from_utf8`, which succeeds exactly on
/// well-formed UTF-8 and then returns a string slice over the same bytes.
#[verifier::external_body]
pub(crate) fn str_from_utf8<'a>(bytes: &'a [u8]) -> (r: Option<&'a str>)
    ensures
        r is Some <==> valid_utf8(bytes@),
        r matches Some(s) ==> s.spec_bytes() == bytes@,
{
    std::str::from_utf8(bytes).ok()
}

/// Inserts `ch` before the character that starts at byte `idx`.
///
/// Trusted: wraps `String::insert`, which panics unless `idx` lies on a
/// character boundary and otherwise places the character at that byte
/// position, keeping everything before and after it.
#[verifier::external_body]
pub(crate) fn string_insert(s: &mut String, idx: usize, ch: char)
    requires
        on_boundary(old(s)@, idx as int),
    ensures
        final(s)@ == old(s)@.insert(char_index(old(s)@, idx as int), ch),
{
    s.insert(idx, ch)
}

/// Removes and returns the character that starts at byte `idx`.
///
/// Trusted: wraps `String::remove`, which panics unless `idx` lies on a
/// character boundary before the end of the text and otherwise takes out
/// the character at that byte position.
#[verifier::external_body]
pub(crate) fn string_remove(s: &mut String, idx: usize) -> (ch: char)
    requires
        on_boundary(old(s)@, idx as int),
        idx < byte_len(old(s)@),
    ensures
        ch == old(s)@[char_index(old(s)@, idx as int)],
        final(s)@ == old(s)@.remove(char_index(old(s)@, idx as int)),
{
    s.remove(idx)
}

/// Decodes the single character that starts at `bytes[offset]`: the shortest
/// run of one to four bytes from `offset` on that is valid UTF-8. Where no
/// such run exists the result is `"?"`.
pub fn decode_char<'a>(bytes: &'a [u8], offset: usize) -> (r: &'a str)
    ensures
        match first_window(bytes@, offset as int) {
            Some(n) => r.spec_bytes() == bytes@.subrange(offset as int, offset + n),
            None => r@ == "?"@,
        },
{
    let mut i: usize = 1;
    while i < 5
        invariant
            1 <= i <= 5,
            forall|n: int| 1 <= n < i ==> !window_valid(bytes@, offset as int, n),
        decreases 5 - i,
    {
        if offset <= bytes.len() && i <= bytes.len() - offset {
            let window = slice_subrange(bytes, offset, offset + i);
            match str_from_utf8(window) {
                Some(s) => {
                    return s;
                },
                None => {},
            }
        }
        i = i + 1;
    }
    "?"
}

/// The number of encoded bytes of `s`.
pub fn str_byte_len(s: &str) -> (n: usize)
    ensures
        n == byte_len(s@),
{
    s.as_bytes().len()
}

/// The start of the character that ends at the boundary `offset`.
pub fn prev_boundary(s: &str, offset: usize) -> (r: usize)
    requires
        on_boundary(s@, offset as int),
        offset > 0,
    ensures
        char_index(s@, offset as int) > 0,
        r == byte_offset(s@, char_index(s@, offset as int) - 1),
        r < offset,
{
    let ghost pos = char_index(s@, offset as int);
    proof {
        lemma_boundary(s@, offset as int);
        lemma_offset_step(s@, pos - 1);
    }
    let mut i: usize = offset - 1;
    while !s.is_char_boundary(i)
        invariant
            byte_offset(s@, pos - 1) <= i < offset,
            0 < pos <= s@.len(),
            byte_offset(s@, pos) == offset,
        decreases i,
    {
        proof {
            lemma_offset_is_boundary(s@, pos - 1);
        }
        i = i - 1;
    }
    proof {
        lemma_boundary_is_offset(s@, i as int);
        let q = char_index(s@, i as int);
        if q >= pos {
            if q > pos {
                lemma_offset_increasing(s@, pos, q);
            }
        } else if q < pos - 1 {
            lemma_offset_increasing(s@, q, pos - 1);
        }
    }
    i
}

/// The end of the character that starts at the boundary `offset`.
pub fn next_boundary(s: &str, offset: usize) -> (r: usize)
    requires
        on_boundary(s@, offset as int),
        offset < byte_len(s@),
    ensures
        char_index(s@, offset as int) < s@.len(),
        r == byte_offset(s@, char_index(s@, offset as int) + 1),
        offset < r <= byte_len(s@),
{
    let ghost pos = char_index(s@, offset as int);
    let len: usize = str_byte_len(s);
    proof {
        lemma_boundary(s@, offset as int);
        lemma_offset_step(s@, pos);
        lemma_split_encoding(s@, pos + 1);
    }
    let mut i: usize = offset + 1;
    while !s.is_char_boundary(i)
        invariant
            offset < i <= byte_offset(s@, pos + 1) <= len,
            0 <= pos < s@.len(),
            byte_offset(s@, pos) == offset,
        decreases len - i,
    {
        proof {
            lemma_offset_is_boundary(s@, pos + 1);
        }
        i = i + 1;
    }
    proof {
        lemma_boundary_is_offset(s@, i as int);
        let q = char_index(s@, i as int);
        if q <= pos {
            if q < pos {
                lemma_offset_increasing(s@, q, pos);
            }
        } else if q > pos + 1 {
            lemma_offset_increasing(s@, pos + 1, q);
        }
    }
    i
}

/// Whether `needle` occurs in `text` as a run of neighbouring characters.
pub open spec fn has_infix(text: Seq<char>, needle: Seq<char>) -> bool {
    exists|i: int| 0 <= i <= text.len() - needle.len() && #[trigger] text.subrange(
        i,
        i + needle.len(),
    ) == needle
}

/// The characters of `s`, in order.
pub fn chars_of(s: &str) -> (v: Vec<char>)
    ensures
        v@ == s@,
{
    let mut v: Vec<char> = Vec::new();
    for c in it: s.chars()
        invariant
            it.seq() == s@,
            v@ == s@.take(it.index() as int),
    {
        v.push(c);
        assert(v@ =~= s@.take(it.index() + 1));
    }
    assert(v@ =~= s@);
    v
}

/// Whether `needle` stands in `text` from position `at` on.
pub fn matches_at(text: &Vec<char>, needle: &Vec<char>, at: usize) -> (r: bool)
    requires
        at + needle@.len() <= text@.len(),
    ensures
        r == (text@.subrange(at as int, at + needle@.len()) == needle@),
{
    let len: usize = text.len();
    let mut j: usize = 0;
    while j < needle.len()
        invariant
            j <= needle@.len(),
            at + needle@.len() <= text@.len() == len,
            text@.subrange(at as int, at + j) == needle@.take(j as int),
        decreases needle@.len() - j,
    {
        if text[at + j] != needle[j] {
            assert(text@.subrange(at as int, at + needle@.len())[j as int] != needle@[j as int]);
            return false;
        }
        assert(text@.subrange(at as int, at + j + 1) =~= text@.subrange(at as int, at + j).push(
            text@[at + j],
        ));
        assert(needle@.take(j + 1) =~= needle@.take(j as int).push(needle@[j as int]));
        j = j + 1;
    }
    assert(needle@.take(needle@.len() as int) =~= needle@);
    true
}

/// Whether `needle` occurs somewhere in `text`.
pub fn contains(text: &str, needle: &str) -> (r: bool)
    ensures
        r == has_infix(text@, needle@),
{
    let hay = chars_of(text);
    let pat = chars_of(needle);
    if pat.len() > hay.len() {
        return false;
    }
    let last: usize = hay.len() - pat.len();
    let mut i: usize = 0;
    loop
        invariant
            hay@ == text@,
            pat@ == needle@,
            last == hay@.len() - pat@.len(),
            i <= last,
            forall|k: int| 0 <= k < i ==> #[trigger] text@.subrange(k, k + needle@.len()) != needle@,
        decreases last - i,
    {
        if matches_at(&hay, &pat, i) {
            return true;
        }
        if i == last {
            return false;
        }
        i = i + 1;
    }
}

} // verus!
