//! Text as bytes: how many bytes a text takes in UTF-8, and how a text is
//! cut to a number of bytes without cutting a character in two.

use vstd::prelude::*;
use vstd::string::*;
use vstd::utf8::*;

verus! {

/// Number of bytes that `text` occupies when encoded as UTF-8.
pub open spec fn byte_len(text: Seq<char>) -> nat {
    encode_utf8(text).len()
}

/// Encoding distributes over concatenation.
pub proof fn lemma_encode_concat(a: Seq<char>, b: Seq<char>)
    ensures
        encode_utf8(a + b) == encode_utf8(a) + encode_utf8(b),
    decreases a.len(),
{
    if a.len() == 0 {
        assert(a + b =~= b);
        assert(encode_utf8(a) + encode_utf8(b) =~= encode_utf8(b));
    } else {
        assert((a + b).drop_first() =~= a.drop_first() + b);
        lemma_encode_concat(a.drop_first(), b);
        assert(encode_utf8(a + b) =~= encode_utf8(a) + encode_utf8(b));
    }
}

/// Two texts with the same encoding are the same text.
pub proof fn lemma_encode_injective(a: Seq<char>, b: Seq<char>)
    requires
        encode_utf8(a) == encode_utf8(b),
    ensures
        a == b,
{
    encode_utf8_decode_utf8(a);
    encode_utf8_decode_utf8(b);
}

/// The encoding of a text ends in the newline byte exactly when the text
/// ends in the newline character.
pub proof fn lemma_last_byte_newline(text: Seq<char>)
    requires
        text.len() > 0,
    ensures
        encode_utf8(text).len() > 0,
        encode_utf8(text).last() == 0x0Au8 <==> text.last() == '\n',
{
    let head = text.drop_last();
    let c = text.last();
    let v = c as u32;
    assert(text =~= head + seq![c]);
    lemma_encode_concat(head, seq![c]);
    assert(seq![c].drop_first() =~= Seq::<char>::empty());
    assert(encode_utf8(seq![c]) =~= encode_scalar(v)) by {
        reveal_with_fuel(encode_utf8, 2);
    }
    char_is_scalar(c);
    let last = encode_scalar(v).last();
    assert(encode_utf8(text).last() == last);
    if has_width_1_encoding(v) {
        assert(((v & 0x7F) as u8 == 0x0Au8) <==> v == 0x0Au32) by (bit_vector)
            requires
                0 <= v <= 0x7F,
        ;
    } else {
        assert(last == last_continuation_byte(v));
        assert((0x80u8 | (v & 0x3F) as u8) != 0x0Au8) by (bit_vector);
    }
    char_u32_cast(c, v);
    char_u32_cast('\n', 0x0Au32);
}

/// The longest tail of `text`, cut between characters, whose encoding takes
/// at most `max_bytes` bytes.
pub open spec fn tail_within(text: Seq<char>, max_bytes: nat) -> Seq<char>
    decreases text.len(),
{
    if text.len() == 0 || byte_len(text) <= max_bytes {
        text
    } else {
        tail_within(text.drop_first(), max_bytes)
    }
}

/// `tail_within` seen from the bytes: it starts at the first character
/// boundary from which no more than `max_bytes` bytes remain.
pub proof fn lemma_tail_at_boundary(text: Seq<char>, max_bytes: nat, idx: int)
    requires
        0 <= idx <= encode_utf8(text).len(),
        is_char_boundary(encode_utf8(text), idx),
        encode_utf8(text).len() - idx <= max_bytes,
        forall|j: int|
            0 <= j < idx && is_char_boundary(encode_utf8(text), j) ==> encode_utf8(text).len() - j
                > max_bytes,
    ensures
        encode_utf8(tail_within(text, max_bytes)) == encode_utf8(text).subrange(
            idx,
            encode_utf8(text).len() as int,
        ),
    decreases text.len(),
{
    let b = encode_utf8(text);
    encode_utf8_valid_utf8(text);
    if text.len() == 0 || byte_len(text) <= max_bytes {
        if idx > 0 {
            assert(is_char_boundary(b, 0));
        }
        assert(b.subrange(0, b.len() as int) =~= b);
    } else {
        let rest = text.drop_first();
        let br = encode_utf8(rest);
        let l = length_of_first_scalar(b);
        encode_utf8_first_scalar(text);
        encode_utf8_valid_utf8(rest);
        assert(pop_first_scalar(b) =~= br);
        assert(l == encode_scalar(text[0] as u32).len());
        assert(1 <= l <= 4);
        assert(b.len() == l + br.len());
        reveal_with_fuel(is_char_boundary, 2);
        assert(idx >= l);
        assert(is_char_boundary(br, idx - l));
        assert forall|j: int| 0 <= j < idx - l && is_char_boundary(br, j) implies br.len() - j
            > max_bytes by {
            assert(is_char_boundary(b, j + l));
        }
        lemma_tail_at_boundary(rest, max_bytes, idx - l);
        assert(br.subrange(idx - l, br.len() as int) =~= b.subrange(idx, b.len() as int));
    }
}

/// Where the cut after which exactly `max_bytes` bytes remain falls between
/// two characters, `tail_within` keeps exactly those last `max_bytes` bytes.
pub proof fn lemma_tail_exact_bytes(text: Seq<char>, max_bytes: nat)
    requires
        byte_len(text) > max_bytes,
        is_char_boundary(encode_utf8(text), byte_len(text) - max_bytes),
    ensures
        encode_utf8(tail_within(text, max_bytes)) == encode_utf8(text).subrange(
            byte_len(text) - max_bytes,
            byte_len(text) as int,
        ),
        byte_len(tail_within(text, max_bytes)) == max_bytes,
{
    lemma_tail_at_boundary(text, max_bytes, byte_len(text) - max_bytes);
}

/// A tail cut to `max_bytes` never takes more than `max_bytes` bytes.
pub proof fn lemma_tail_fits(text: Seq<char>, max_bytes: nat)
    ensures
        byte_len(tail_within(text, max_bytes)) <= max_bytes,
        byte_len(text) <= max_bytes ==> tail_within(text, max_bytes) == text,
    decreases text.len(),
{
    if text.len() == 0 || byte_len(text) <= max_bytes {
    } else {
        lemma_tail_fits(text.drop_first(), max_bytes);
    }
}

/// Whether `line` is not empty and ends in a newline.
pub open spec fn is_terminated(line: Seq<char>) -> bool {
    line.len() > 0 && line.last() == '\n'
}

/// A line that ends in a newline still does after it was cut to a tail,
/// as long as one byte may remain.
pub proof fn lemma_tail_keeps_newline(line: Seq<char>, max_bytes: nat)
    requires
        is_terminated(line),
        max_bytes >= 1,
    ensures
        is_terminated(tail_within(line, max_bytes)),
    decreases line.len(),
{
    if byte_len(line) <= max_bytes {
    } else {
        if line.len() == 1 {
            lemma_last_byte_newline(line);
            assert(line =~= seq!['\n']);
            assert(encode_utf8(line) =~= encode_scalar('\n' as u32)) by {
                reveal_with_fuel(encode_utf8, 2);
                assert(line.drop_first() =~= Seq::<char>::empty());
            }
            assert(byte_len(line) == 1);
        } else {
            assert(line.drop_first().last() == line.last());
            lemma_tail_keeps_newline(line.drop_first(), max_bytes);
        }
    }
}

/// Whether `text` ends in a newline.
pub fn ends_with_newline(text: &str) -> (yes: bool)
    ensures
        yes == (text@.len() > 0 && text@.last() == '\n'),
{
    let bytes = text.as_bytes();
    let n: usize = bytes.len();
    if n == 0 {
        proof {
            if text@.len() > 0 {
                lemma_last_byte_newline(text@);
            }
        }
        false
    } else {
        proof {
            lemma_last_byte_newline(text@);
        }
        bytes[n - 1] == 0x0Au8
    }
}

/// Copies the longest tail of `text`, cut between characters, that takes at
/// most `max_bytes` bytes.
pub fn keep_tail(text: &str, max_bytes: usize) -> (kept: String)
    ensures
        kept@ == tail_within(text@, max_bytes as nat),
{
    let n: usize = text.as_bytes().len();
    proof {
        encode_utf8_valid_utf8(text@);
        is_char_boundary_start_end_of_seq(encode_utf8(text@));
        lemma_tail_fits(text@, max_bytes as nat);
    }
    if n <= max_bytes {
        return text.to_owned();
    }
    let mut cut: usize = n - max_bytes;
    while !text.is_char_boundary(cut)
        invariant
            n == encode_utf8(text@).len(),
            n - max_bytes <= cut <= n,
            n > max_bytes,
            is_char_boundary(encode_utf8(text@), n as int),
            forall|j: int| n - max_bytes <= j < cut ==> !is_char_boundary(encode_utf8(text@), j),
        decreases n - cut,
    {
        cut = cut + 1;
    }
    let (_, tail) = text.split_at(cut);
    proof {
        lemma_tail_at_boundary(text@, max_bytes as nat, cut as int);
        lemma_encode_injective(tail@, tail_within(text@, max_bytes as nat));
    }
    tail.to_owned()
}

} // verus!
