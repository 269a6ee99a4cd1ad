//! Spec-level shapes of the plain text the renderer emits: repeated
//! fragments, decimal numbers, and ordered-list item markers.

use vstd::prelude::*;

verus! {

/// `piece` repeated `n` times.
pub open spec fn repeated(piece: Seq<char>, n: nat) -> Seq<char>
    decreases n,
{
    if n == 0 {
        Seq::empty()
    } else {
        repeated(piece, (n - 1) as nat) + piece
    }
}

/// The character of one decimal digit.
pub open spec fn digit_str(d: nat) -> Seq<char> {
    if d == 0 {
        "0"@
    } else if d == 1 {
        "1"@
    } else if d == 2 {
        "2"@
    } else if d == 3 {
        "3"@
    } else if d == 4 {
        "4"@
    } else if d == 5 {
        "5"@
    } else if d == 6 {
        "6"@
    } else if d == 7 {
        "7"@
    } else if d == 8 {
        "8"@
    } else {
        "9"@
    }
}

/// The decimal representation of `n`, most significant digit first, with
/// no sign, padding or leading zeros.
pub open spec fn dec_rep(n: nat) -> Seq<char>
    decreases n,
{
    if n < 10 {
        digit_str(n)
    } else {
        dec_rep(n / 10) + digit_str(n % 10)
    }
}

/// The marker of an ordered list item numbered `n`: the number right-aligned
/// to two columns, then a dot and a space.
pub open spec fn ordered_marker(n: nat) -> Seq<char> {
    (if n < 10 {
        " "@ + dec_rep(n)
    } else {
        dec_rep(n)
    }) + ". "@
}

/// Every digit is one character wide.
pub proof fn lemma_digit_str_len(d: nat)
    ensures
        digit_str(d).len() == 1,
{
    reveal_strlit("0");
    reveal_strlit("1");
    reveal_strlit("2");
    reveal_strlit("3");
    reveal_strlit("4");
    reveal_strlit("5");
    reveal_strlit("6");
    reveal_strlit("7");
    reveal_strlit("8");
    reveal_strlit("9");
}

/// A decimal representation is one character long exactly below ten.
pub proof fn lemma_dec_rep_len(n: nat)
    ensures
        dec_rep(n).len() >= 1,
        n < 10 <==> dec_rep(n).len() == 1,
    decreases n,
{
    if n < 10 {
        lemma_digit_str_len(n);
    } else {
        lemma_dec_rep_len(n / 10);
        lemma_digit_str_len(n % 10);
    }
}

} // verus!
