//! Masking of card numbers.

use vstd::prelude::*;
use vstd::string::StringExecFns;
use vstd::utf8::{
    decode_utf8,
    encode_utf8,
    encode_utf8_decode_utf8,
    is_ascii_chars,
    is_ascii_chars_encode_utf8,
    is_char_boundary,
};

verus! {

/// `count` asterisks.
pub open spec fn stars(count: nat) -> Seq<char> {
    Seq::new(count, |i: int| '*')
}

/// Whether the last four bytes of the encoded `card_number` are whole
/// characters, so that they can be shown: always so for a number of at most four
/// bytes, which is shown whole.
pub open spec fn can_be_masked(card_number: Seq<char>) -> bool {
    let bytes = encode_utf8(card_number);
    bytes.len() <= 4 || is_char_boundary(bytes, bytes.len() - 4)
}

/// `card_number` with an asterisk in the place of each byte of its encoding but
/// the last four.
pub open spec fn masked(card_number: Seq<char>) -> Seq<char> {
    let bytes = encode_utf8(card_number);
    if bytes.len() <= 4 {
        card_number
    } else {
        stars((bytes.len() - 4) as nat) + decode_utf8(
            bytes.subrange(bytes.len() - 4, bytes.len() as int),
        )
    }
}

/// Whether the last four bytes of `card_number` can be shown.
pub fn is_maskable(card_number: &str) -> (r: bool)
    ensures
        r == can_be_masked(card_number@),
{
    let len: usize = card_number.as_bytes().len();
    len <= 4 || card_number.is_char_boundary(len - 4)
}

/// `card_number` with all but its last four bytes hidden.
pub fn mask_card_number(card_number: &str) -> (r: String)
    requires
        can_be_masked(card_number@),
    ensures
        r@ == masked(card_number@),
{
    let len: usize = card_number.as_bytes().len();
    if len <= 4 {
        card_number.to_owned()
    } else {
        let (_, tail) = card_number.split_at(len - 4);
        proof {
            encode_utf8_decode_utf8(tail@);
        }
        let mut r = String::new();
        let mut i: usize = 0;
        assert(r@ =~= stars(0));
        while i < len - 4
            invariant
                i <= len - 4,
                r@ == stars(i as nat),
            decreases len - 4 - i,
        {
            proof {
                reveal_strlit("*");
            }
            r.append("*");
            assert(r@ =~= stars((i + 1) as nat));
            i = i + 1;
        }
        r.append(tail);
        r
    }
}

/// Of a number in ASCII, masking hides every character but the last four.
pub proof fn law_ascii_number_keeps_last_four(card_number: Seq<char>)
    requires
        is_ascii_chars(card_number),
    ensures
        can_be_masked(card_number),
        card_number.len() <= 4 ==> masked(card_number) == card_number,
        card_number.len() > 4 ==> masked(card_number) == stars((card_number.len() - 4) as nat)
            + card_number.subrange(card_number.len() - 4, card_number.len() as int),
{
    broadcast use vstd::utf8::group_utf8_lib;

    let bytes = encode_utf8(card_number);
    let n = card_number.len() as int;
    is_ascii_chars_encode_utf8(card_number);
    if n > 4 {
        let head = card_number.subrange(0, n - 4);
        let tail = card_number.subrange(n - 4, n);
        assert(card_number =~= head + tail);
        assert(is_ascii_chars(head));
        assert(is_ascii_chars(tail));
        is_ascii_chars_encode_utf8(head);
        is_ascii_chars_encode_utf8(tail);
        assert(encode_utf8(tail) =~= bytes.subrange(n - 4, n));
        encode_utf8_decode_utf8(tail);
        assert(encode_utf8(head) =~= bytes.subrange(0, n - 4));
        lemma_boundary_after_prefix(head, tail);
    }
}

/// The end of the encoding of a prefix is a character boundary of the whole.
proof fn lemma_boundary_after_prefix(head: Seq<char>, tail: Seq<char>)
    ensures
        is_char_boundary(encode_utf8(head + tail), encode_utf8(head).len() as int),
    decreases head.len(),
{
    broadcast use vstd::utf8::group_utf8_lib;

    let whole = head + tail;
    let bytes = encode_utf8(whole);
    vstd::utf8::encode_utf8_valid_utf8(whole);
    if head.len() == 0 {
        assert(encode_utf8(head).len() == 0);
    } else {
        vstd::utf8::encode_utf8_first_scalar(whole);
        vstd::utf8::encode_utf8_first_scalar(head);
        assert(whole.drop_first() =~= head.drop_first() + tail);
        lemma_boundary_after_prefix(head.drop_first(), tail);
        assert(vstd::utf8::pop_first_scalar(bytes) =~= encode_utf8(whole.drop_first()));
        assert(vstd::utf8::pop_first_scalar(encode_utf8(head)) =~= encode_utf8(
            head.drop_first(),
        ));
    }
}

} // verus!
