//! Unsigned 512-bit integers for the pool formulas.
//!
//! `Wide` holds the eight little-endian 64-bit words of a `sp_core::U512`;
//! all arithmetic on it is done by `U512` itself.
use vstd::prelude::*;

verus! {

/// 2^64, the weight of one word.
pub open spec fn word_base() -> int {
    0x1_0000_0000_0000_0000int
}

/// 2^128: one more than `u128::MAX`.
pub open spec fn u128_limit() -> int {
    0x1_0000_0000_0000_0000_0000_0000_0000_0000int
}

/// 2^512: one more than the largest `Wide`.
pub open spec fn wide_limit() -> int {
    u128_limit() * u128_limit() * u128_limit() * u128_limit()
}

/// The number that little-endian words stand for.
pub open spec fn words_value(words: Seq<u64>) -> int
    decreases words.len(),
{
    if words.len() == 0 {
        0
    } else {
        words[0] as int + word_base() * words_value(words.drop_first())
    }
}

/// An unsigned 512-bit integer, as the words of a `U512`, least significant first.
#[derive(Clone, Copy)]
pub struct Wide {
    pub words: [u64; 8],
}

impl Wide {
    pub open spec fn value(self) -> int {
        words_value(self.words@)
    }
}

/// Words always stand for a number that is not negative.
pub proof fn lemma_words_value_nonneg(words: Seq<u64>)
    ensures
        words_value(words) >= 0,
    decreases words.len(),
{
    if words.len() > 0 {
        lemma_words_value_nonneg(words.drop_first());
    }
}

/// What a saturating operation yields for the exact result `v`.
pub open spec fn saturate_wide(v: int) -> int {
    if v < wide_limit() {
        v
    } else {
        wide_limit() - 1
    }
}

/// Relies on `U512::from(u128)`: the number keeps its value.
#[verifier::external_body]
pub(crate) fn wide_from_u128(x: u128) -> (r: Wide)
    ensures
        r.value() == x as int,
{
    Wide { words: sp_core::U512::from(x).0 }
}

/// Relies on `U512::saturating_add`: the sum, or `U512::MAX` where it does not fit.
#[verifier::external_body]
pub(crate) fn wide_saturating_add(a: Wide, b: Wide) -> (r: Wide)
    ensures
        r.value() == saturate_wide(a.value() + b.value()),
{
    Wide { words: sp_core::U512(a.words).saturating_add(sp_core::U512(b.words)).0 }
}

/// Relies on `U512::saturating_sub`: the difference, or zero where `b` exceeds `a`.
#[verifier::external_body]
pub(crate) fn wide_saturating_sub(a: Wide, b: Wide) -> (r: Wide)
    ensures
        r.value() == if a.value() >= b.value() { a.value() - b.value() } else { 0 },
{
    Wide { words: sp_core::U512(a.words).saturating_sub(sp_core::U512(b.words)).0 }
}

/// Relies on `U512::saturating_mul`: the product, or `U512::MAX` where it does not fit.
#[verifier::external_body]
pub(crate) fn wide_saturating_mul(a: Wide, b: Wide) -> (r: Wide)
    ensures
        r.value() == saturate_wide(a.value() * b.value()),
{
    Wide { words: sp_core::U512(a.words).saturating_mul(sp_core::U512(b.words)).0 }
}

/// Relies on `U512::checked_div`: `None` for a zero divisor, else the truncated quotient.
#[verifier::external_body]
pub(crate) fn wide_checked_div(a: Wide, b: Wide) -> (r: Option<Wide>)
    ensures
        b.value() == 0 ==> r.is_none(),
        b.value() != 0 ==> r.is_some() && r.unwrap().value() == a.value() / b.value(),
{
    match sp_core::U512(a.words).checked_div(sp_core::U512(b.words)) {
        Some(q) => Some(Wide { words: q.0 }),
        None => None,
    }
}

/// Relies on the ordering of `U512`: it compares the numbers.
#[verifier::external_body]
pub(crate) fn wide_gt(a: Wide, b: Wide) -> (r: bool)
    ensures
        r == (a.value() > b.value()),
{
    sp_core::U512(a.words) > sp_core::U512(b.words)
}

/// Relies on `U512::as_u128`, which panics above `u128::MAX`.
#[verifier::external_body]
pub(crate) fn wide_as_u128(a: Wide) -> (r: u128)
    requires
        0 <= a.value() <= u128::MAX,
    ensures
        r as int == a.value(),
{
    sp_core::U512(a.words).as_u128()
}

/// The quotient, or zero for a zero divisor.
pub(crate) fn wide_div_or_zero(a: Wide, b: Wide) -> (r: Wide)
    ensures
        r.value() == if b.value() == 0 { 0 } else { a.value() / b.value() },
{
    match wide_checked_div(a, b) {
        Some(q) => q,
        None => wide_from_u128(0),
    }
}

} // verus!
