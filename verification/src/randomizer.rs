//! Chance and weighted choice.
//!
//! The random numbers come from the `rand` crate. The three functions that
//! call it, `gen_ratio`, `choose_weighted_entry` and `choose_index`, are
//! trusted: their contracts restate what `rand` documents of the calls and
//! are not proved. Everything else here is verified, and holds for whatever a
//! draw returns.

use rand::distributions::WeightedError;
use rand::rngs::StdRng;
use rand::seq::IteratorRandom;
use rand::seq::SliceRandom;
use rand::Rng;
use vstd::arithmetic::div_mod::lemma_fundamental_div_mod;
use vstd::arithmetic::div_mod::lemma_mod_bound;
use vstd::prelude::*;

verus! {

/// `rand`'s standard generator. The library only hands it on to the draws.
#[verifier::external_type_specification]
#[verifier::external_body]
pub struct ExStdRng(rand::rngs::StdRng);

/// The error of `rand`'s weighted choice.
#[verifier::external_type_specification]
#[verifier::external_body]
pub struct ExWeightedError(rand::distributions::WeightedError);

/// Chances are stated in hundredths.
pub const CHANCE_SCALE: u32 = 100;

/// No chance rises above this many hundredths, however far the hero has gone.
pub const CHANCE_CAP: u32 = 90;

/// The distance at which a chance has made half of the way from its base to
/// twice its base.
pub const GROWTH_SPAN: u32 = 20;

/// A base chance after it has grown with the distance, before the cap: it
/// starts at `base`, rises with every step, ever more slowly, and stays below
/// twice `base`. A distance below zero counts as zero.
pub open spec fn grown(base: int, distance: int) -> int {
    let d = if distance > 0 {
        distance
    } else {
        0
    };
    base + (base * d) / (d + GROWTH_SPAN)
}

/// The chance, in hundredths, that a roll with the given base succeeds at the
/// given distance.
pub open spec fn chance(base: int, distance: int) -> int {
    if grown(base, distance) < CHANCE_CAP {
        grown(base, distance)
    } else {
        CHANCE_CAP as int
    }
}

/// A quotient of naturals is the largest number whose product with the
/// divisor stays within the dividend.
proof fn lemma_quotient_bounds(x: int, y: int, q: int)
    requires
        0 <= x,
        0 < y,
    ensures
        (x / y) * y <= x < (x / y) * y + y,
        q * y <= x ==> q <= x / y,
{
    lemma_fundamental_div_mod(x, y);
    lemma_mod_bound(x, y);
    assert(y * (x / y) == (x / y) * y) by (nonlinear_arith);
    if q * y <= x {
        assert(q <= x / y) by (nonlinear_arith)
            requires
                q * y <= x,
                x < (x / y) * y + y,
                0 < y,
        ;
    }
}

/// A chance grows by no more than its base: the grown chance stays between
/// the base and twice the base.
pub proof fn lemma_growth_bounded(base: int, distance: int)
    requires
        0 <= base,
    ensures
        base <= grown(base, distance) <= 2 * base,
{
    let d = if distance > 0 { distance } else { 0 };
    let span = d + GROWTH_SPAN;
    assert(0 <= base * d <= base * span) by (nonlinear_arith)
        requires
            0 <= base,
            0 <= d <= span,
    ;
    lemma_quotient_bounds(base * d, span, 0);
    assert((base * d) / span <= base) by (nonlinear_arith)
        requires
            ((base * d) / span) * span <= base * d,
            base * d <= base * span,
            0 < span,
    ;
    assert(0 <= (base * d) / span) by (nonlinear_arith)
        requires
            0 <= base * d,
            base * d < ((base * d) / span) * span + span,
            0 < span,
    ;
}

/// A chance never falls when the hero goes farther.
pub proof fn lemma_chance_grows_with_distance(base: int, near: int, far: int)
    requires
        0 <= base,
        near <= far,
    ensures
        chance(base, near) <= chance(base, far),
{
    let d1 = if near > 0 { near } else { 0 };
    let d2 = if far > 0 { far } else { 0 };
    let s1 = d1 + GROWTH_SPAN;
    let s2 = d2 + GROWTH_SPAN;
    let q = (base * d1) / s1;
    lemma_growth_bounded(base, near);
    assert(0 <= base * d1) by (nonlinear_arith)
        requires
            0 <= base,
            0 <= d1,
    ;
    assert(0 <= base * d2) by (nonlinear_arith)
        requires
            0 <= base,
            0 <= d2,
    ;
    lemma_quotient_bounds(base * d1, s1, 0);
    assert(q <= base);
    assert(q * s2 <= base * d2) by (nonlinear_arith)
        requires
            q * s1 <= base * d1,
            0 <= q <= base,
            s2 - s1 == d2 - d1,
            0 <= d2 - d1,
    ;
    lemma_quotient_bounds(base * d2, s2, q);
}

/// A chance never falls when its base rises.
pub proof fn lemma_chance_grows_with_base(low: int, high: int, distance: int)
    requires
        0 <= low <= high,
    ensures
        chance(low, distance) <= chance(high, distance),
{
    let d = if distance > 0 { distance } else { 0 };
    let span = d + GROWTH_SPAN;
    let q = (low * d) / span;
    assert(0 <= low * d <= high * d) by (nonlinear_arith)
        requires
            0 <= low <= high,
            0 <= d,
    ;
    lemma_quotient_bounds(low * d, span, 0);
    lemma_quotient_bounds(high * d, span, q);
}

/// No chance is a certainty, and a base of zero never succeeds.
pub proof fn lemma_chance_capped(base: int, distance: int)
    requires
        0 <= base,
    ensures
        0 <= chance(base, distance) <= CHANCE_CAP < CHANCE_SCALE,
        base == 0 ==> chance(base, distance) == 0,
{
    lemma_growth_bounded(base, distance);
}

/// Computes [`chance`].
pub fn chance_percent(base: u32, distance: i32) -> (percent: u32)
    ensures
        percent == chance(base as int, distance as int),
        percent <= CHANCE_CAP,
{
    let d: u64 = if distance > 0 {
        distance as u64
    } else {
        0
    };
    let b: u64 = base as u64;
    proof {
        lemma_growth_bounded(base as int, distance as int);
        assert(0 <= b * d <= 0xFFFF_FFFF * 0x7FFF_FFFF) by (nonlinear_arith)
            requires
                0 <= b <= 0xFFFF_FFFF,
                0 <= d <= 0x7FFF_FFFF,
        ;
    }
    let grown: u64 = b + (b * d) / (d + GROWTH_SPAN as u64);
    if grown < CHANCE_CAP as u64 {
        grown as u32
    } else {
        CHANCE_CAP
    }
}

/// Calls `rand::Rng::gen_ratio`, which returns `true` with a probability of
/// `numerator` in `denominator`. `rand` documents that it panics for a zero
/// denominator or a numerator above it, that a numerator of zero never gives
/// `true`, and that a numerator equal to the denominator always does. The
/// contract claims no more than that.
#[verifier::external_body]
pub(crate) fn gen_ratio(rng: &mut StdRng, numerator: u32, denominator: u32) -> (hit: bool)
    requires
        0 < denominator,
        numerator <= denominator,
    ensures
        numerator == 0 ==> !hit,
        numerator == denominator ==> hit,
{
    rng.gen_ratio(numerator, denominator)
}

/// Rolls for an event whose chance is [`chance`]`(base, distance)` in a
/// hundred. Each call is a draw of its own. A roll with a chance of zero
/// always fails; no roll is certain to succeed.
pub fn chance_roll(base: u32, distance: i32, rng: &mut StdRng) -> (hit: bool)
    ensures
        chance(base as int, distance as int) == 0 ==> !hit,
{
    let percent = chance_percent(base, distance);
    gen_ratio(rng, percent, CHANCE_SCALE)
}

/// The sum of a list of weights.
pub open spec fn total_weight(weights: Seq<u32>) -> nat
    decreases weights.len(),
{
    if weights.len() == 0 {
        0
    } else {
        total_weight(weights.drop_last()) + weights.last() as nat
    }
}

/// The sum of a list of weights grows by each weight that is appended.
pub proof fn lemma_total_weight_push(weights: Seq<u32>, weight: u32)
    ensures
        total_weight(weights.push(weight)) == total_weight(weights) + weight,
{
    assert(weights.push(weight).drop_last() =~= weights);
}

/// The weights of a list of numbered entries.
pub open spec fn entry_weights(entries: Seq<(usize, u32)>) -> Seq<u32> {
    entries.map_values(|entry: (usize, u32)| entry.1)
}

/// Calls `rand::seq::SliceRandom::choose_weighted` on the entries, each
/// weighted by its second component, and hands back a copy of the entry that
/// was chosen. `rand` adds the weights up in `u32`, so their sum must fit. It
/// fails when there is no entry or when the weights add up to zero, and only
/// then; an entry is chosen with a probability of its weight in the total, so
/// the chosen one is among the entries and its weight is not zero.
#[verifier::external_body]
pub(crate) fn choose_weighted_entry(rng: &mut StdRng, entries: &Vec<(usize, u32)>) -> (picked:
    Result<(usize, u32), WeightedError>)
    requires
        total_weight(entry_weights(entries@)) <= u32::MAX,
    ensures
        picked is Ok <==> total_weight(entry_weights(entries@)) > 0,
        picked matches Ok(entry) ==> entries@.contains(entry) && entry.1 > 0,
{
    entries.choose_weighted(rng, |entry| entry.1).copied()
}

/// Calls `rand::seq::IteratorRandom::choose` on the range from zero up to
/// `len`. `rand` documents that it returns `None` if and only if the iterator
/// is empty, and otherwise one of its elements, each with the same
/// probability.
#[verifier::external_body]
pub(crate) fn choose_index(rng: &mut StdRng, len: usize) -> (picked: Option<usize>)
    ensures
        picked is None <==> len == 0,
        picked matches Some(index) ==> index < len,
{
    (0..len).choose(rng)
}

/// Why a weighted choice could not be made.
#[derive(Clone, Copy, Debug, PartialEq, Eq, Structural)]
pub enum SelectError {
    /// There is nothing to choose from: no weight, or none above zero.
    InvalidWeights,
}

/// Chooses a position in `weights`, each with a probability of its weight in
/// the total, and returns it. The caller keeps the outcomes and reads the one
/// at the position. A position whose weight is zero is never chosen. Where the
/// weights add up to zero, and only there, the choice fails.
pub fn choose_weighted(weights: &Vec<u32>, rng: &mut StdRng) -> (choice: Result<usize, SelectError>)
    requires
        total_weight(weights@) <= u32::MAX,
    ensures
        choice is Ok <==> total_weight(weights@) > 0,
        choice matches Ok(index) ==> index < weights@.len() && weights@[index as int] > 0,
        choice matches Err(error) ==> error == SelectError::InvalidWeights,
{
    let mut entries: Vec<(usize, u32)> = Vec::new();
    let mut i: usize = 0;
    while i < weights.len()
        invariant
            i <= weights.len(),
            entries@.len() == i,
            forall|j: int| 0 <= j < i ==> #[trigger] entries@[j] == (j as usize, weights@[j]),
        decreases weights.len() - i,
    {
        entries.push((i, weights[i]));
        i += 1;
    }
    assert(entry_weights(entries@) =~= weights@);
    match choose_weighted_entry(rng, &entries) {
        Ok(entry) => {
            proof {
                let at = choose|at: int| 0 <= at < entries@.len() && entries@[at] == entry;
                assert(entry.0 == at);
            }
            Ok(entry.0)
        },
        Err(_) => Err(SelectError::InvalidWeights),
    }
}

} // verus!
