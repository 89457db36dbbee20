//! Picking the next token.

use crate::backend::topk::ordinal_of;
use crate::story::model::VOCAB;
use vstd::prelude::*;

verus! {

/// Why no token can be picked.
#[derive(Clone, Copy, PartialEq, Eq, Debug)]
pub enum SampleError {
    /// The number of logits is not that of the model's tokens.
    LogitsMismatch(usize),
    /// The logits give no distribution.
    BadDistribution,
}

/// Bits turned left by 27.
pub open spec fn turned(x: u64) -> u64 {
    (x << 27) | (x >> 37)
}

/// The random state after one more token has gone into it.
pub open spec fn stirred(state: u64, token: usize) -> u64 {
    turned((state ^ (token as u64)).wrapping_mul(0xbf58_476d_1ce4_e5b9u64))
}

/// The random state after the first `n` tokens have gone into it.
pub open spec fn seeded(tokens: Seq<usize>, n: int) -> u64
    decreases n,
{
    if n <= 0 {
        0x9e37_79b9_7f4a_7c15
    } else {
        stirred(seeded(tokens, n - 1), tokens[n - 1])
    }
}

/// Never zero.
pub open spec fn at_least_one(state: u64) -> u64 {
    if state == 0 {
        1
    } else {
        state
    }
}

/// The random state that a sequence of tokens starts from. It is never zero.
pub fn seed_from_tokens(tokens: &[usize]) -> (r: u64)
    ensures
        r == at_least_one(seeded(tokens@, tokens@.len() as int)),
        r > 0,
{
    let mut state: u64 = 0x9e37_79b9_7f4a_7c15;
    let mut i: usize = 0;
    while i < tokens.len()
        invariant
            i <= tokens@.len(),
            state == seeded(tokens@, i as int),
        decreases tokens@.len() - i,
    {
        let mixed: u64 = (state ^ (tokens[i] as u64)).wrapping_mul(0xbf58_476d_1ce4_e5b9);
        state = (mixed << 27) | (mixed >> 37);
        i = i + 1;
    }
    if state == 0 {
        1
    } else {
        state
    }
}

/// The state after one step of the shift-register generator.
pub open spec fn advanced(state: u64) -> u64 {
    let a = state ^ (state << 13);
    let b = a ^ (a >> 7);
    at_least_one(b ^ (b << 17))
}

/// The 53 high bits of a state.
pub open spec fn fraction_of(state: u64) -> u64 {
    state >> 11
}

/// Steps the generator and gives the 53 high bits: a fraction of one, in units of two to
/// the power of minus 53. The state is never zero.
pub fn next_unit(state: &mut u64) -> (r: u64)
    ensures
        *final(state) == advanced(*old(state)),
        *final(state) > 0,
        r == fraction_of(*final(state)),
{
    let x: u64 = *state;
    let a: u64 = x ^ (x << 13);
    let b: u64 = a ^ (a >> 7);
    let c: u64 = b ^ (b << 17);
    *state = if c == 0 {
        1
    } else {
        c
    };
    *state >> 11
}

/// The last of the largest logits, in the total order of bit patterns.
pub open spec fn is_greedy(logits: Seq<u32>, token: int) -> bool {
    &&& 0 <= token < logits.len()
    &&& forall|i: int|
        0 <= i < logits.len() ==> crate::backend::topk::ordinal(#[trigger] logits[i])
            <= crate::backend::topk::ordinal(logits[token])
    &&& forall|i: int|
        token < i < logits.len() ==> crate::backend::topk::ordinal(#[trigger] logits[i])
            < crate::backend::topk::ordinal(logits[token])
}

/// The last of the largest logits.
pub fn greedy_token(logits: &[u32]) -> (r: usize)
    requires
        logits@.len() > 0,
    ensures
        is_greedy(logits@, r as int),
{
    let mut best: usize = 0;
    let mut i: usize = 1;
    while i < logits.len()
        invariant
            best < i <= logits@.len(),
            forall|j: int|
                0 <= j < i ==> crate::backend::topk::ordinal(#[trigger] logits@[j])
                    <= crate::backend::topk::ordinal(logits@[best as int]),
            forall|j: int|
                best < j < i ==> crate::backend::topk::ordinal(#[trigger] logits@[j])
                    < crate::backend::topk::ordinal(logits@[best as int]),
        decreases logits@.len() - i,
    {
        if ordinal_of(logits[i]) >= ordinal_of(logits[best]) {
            best = i;
        }
        i = i + 1;
    }
    best
}

/// What is left of a threshold after the first `n` logits have been spent from it, none
/// of which used it up.
pub open spec fn walked<F: Fn(u64, u32) -> u64, G: Fn(u64) -> bool>(
    logits: Seq<u32>,
    spend: &F,
    used_up: &G,
    threshold: u64,
    n: int,
    left: u64,
) -> bool
    decreases n,
{
    if n <= 0 {
        left == threshold
    } else {
        exists|before: u64|
            {
                &&& walked(logits, spend, used_up, threshold, n - 1, before)
                &&& #[trigger] spend.ensures((before, logits[n - 1]), left)
                &&& used_up.ensures((left,), false)
            }
    }
}

/// The logit that uses up the threshold, or else the last one.
pub open spec fn is_reached<F: Fn(u64, u32) -> u64, G: Fn(u64) -> bool>(
    logits: Seq<u32>,
    spend: &F,
    used_up: &G,
    threshold: u64,
    token: int,
) -> bool {
    ||| exists|before: u64, left: u64|
        {
            &&& 0 <= token < logits.len()
            &&& walked(logits, spend, used_up, threshold, token, before)
            &&& #[trigger] spend.ensures((before, logits[token]), left)
            &&& used_up.ensures((left,), true)
        }
    ||| exists|left: u64|
        {
            &&& token == logits.len() - 1
            &&& #[trigger] walked(
                logits,
                spend,
                used_up,
                threshold,
                logits.len() as int,
                left,
            )
        }
}

/// Spends logit after logit until the threshold is used up.
pub fn reach_token<F: Fn(u64, u32) -> u64, G: Fn(u64) -> bool>(
    logits: &[u32],
    threshold: u64,
    spend: &F,
    used_up: &G,
) -> (r: usize)
    requires
        logits@.len() > 0,
        forall|t: u64, logit: u32| #[trigger] spend.requires((t, logit)),
        forall|t: u64| #[trigger] used_up.requires((t,)),
    ensures
        is_reached(logits@, spend, used_up, threshold, r as int),
{
    let mut left: u64 = threshold;
    let mut i: usize = 0;
    while i < logits.len()
        invariant
            i <= logits@.len(),
            forall|t: u64, logit: u32| #[trigger] spend.requires((t, logit)),
            forall|t: u64| #[trigger] used_up.requires((t,)),
            walked(logits@, spend, used_up, threshold, i as int, left),
        decreases logits@.len() - i,
    {
        let ghost before = left;
        left = spend(left, logits[i]);
        let ghost n = i + 1;
        assert(spend.ensures((before, logits@[n - 1]), left));
        let done: bool = used_up(left);
        if done {
            return i;
        }
        assert(walked(logits@, spend, used_up, threshold, n - 1, before));
        assert(walked(logits@, spend, used_up, threshold, n, left));
        i = i + 1;
    }
    logits.len() - 1
}

/// Picks the next token: the last of the largest logits where `greedy` is set, or else by
/// chance. `total` sums the weights of the logits, `scale` turns a random fraction into a
/// threshold below the sum, and the logits are spent from it one by one.
pub fn sample_next_token<
    T: Fn(&[u32]) -> Option<u64>,
    S: Fn(u64, u64) -> u64,
    F: Fn(u64, u32) -> u64,
    G: Fn(u64) -> bool,
>(
    logits: &[u32],
    greedy: bool,
    rng: &mut u64,
    total: &T,
    scale: &S,
    spend: &F,
    used_up: &G,
) -> (r: Result<usize, SampleError>)
    requires
        total.requires((logits,)),
        forall|unit: u64, sum: u64| #[trigger] scale.requires((unit, sum)),
        forall|t: u64, logit: u32| #[trigger] spend.requires((t, logit)),
        forall|t: u64| #[trigger] used_up.requires((t,)),
    ensures
        if logits@.len() != VOCAB {
            &&& *final(rng) == *old(rng)
            &&& r == Err::<usize, SampleError>(
                SampleError::LogitsMismatch(logits@.len() as usize),
            )
        } else if greedy {
            &&& *final(rng) == *old(rng)
            &&& r matches Ok(token) && is_greedy(logits@, token as int)
        } else {
            match r {
                Ok(token) => {
                    &&& *final(rng) == advanced(*old(rng))
                    &&& exists|sum: u64, threshold: u64|
                        {
                            &&& total.ensures((logits,), Some(sum))
                            &&& #[trigger] scale.ensures((fraction_of(*final(rng)), sum), threshold)
                            &&& is_reached(logits@, spend, used_up, threshold, token as int)
                        }
                },
                Err(err) => {
                    &&& *final(rng) == *old(rng)
                    &&& err == SampleError::BadDistribution
                    &&& total.ensures((logits,), None)
                },
            }
        },
{
    if logits.len() != VOCAB {
        return Err(SampleError::LogitsMismatch(logits.len()));
    }
    if greedy {
        return Ok(greedy_token(logits));
    }
    let sum: u64 = match total(logits) {
        Some(sum) => sum,
        None => {
            return Err(SampleError::BadDistribution);
        },
    };
    let unit: u64 = next_unit(rng);
    let threshold: u64 = scale(unit, sum);
    assert(scale.ensures((fraction_of(*rng), sum), threshold));
    Ok(reach_token(logits, threshold, spend, used_up))
}

/// Source of the tokens that tell submissions apart.
pub struct TokenSource {
    /// The next one.
    pub next: u32,
}

impl TokenSource {
    /// Gives out the next one.
    pub fn next(&mut self) -> (r: u32)
        requires
            old(self).next < u32::MAX,
        ensures
            r == old(self).next,
            final(self).next == r + 1,
    {
        let token: u32 = self.next;
        self.next = token + 1;
        token
    }
}


/// The arithmetic is exact: spending takes the weight of a logit from what is left, and a
/// threshold is used up where nothing is left of it.
pub open spec fn spends_exactly<F: Fn(u64, u32) -> u64, G: Fn(u64) -> bool>(
    spend: &F,
    used_up: &G,
    amount: spec_fn(u64) -> int,
    weight: spec_fn(u32) -> int,
) -> bool {
    &&& forall|t: u64, logit: u32, left: u64| #[trigger]
        spend.ensures((t, logit), left) ==> amount(left) == amount(t) - weight(logit)
    &&& forall|t: u64, b: bool| #[trigger] used_up.ensures((t,), b) ==> b == (amount(t) <= 0)
}

/// The sum of the weights of the first `n` logits.
pub open spec fn weight_before(logits: Seq<u32>, weight: spec_fn(u32) -> int, n: int) -> int {
    crate::backend::sums::sum_of(|i: int| weight(logits[i]), n)
}

/// What is left after some logits is the threshold less their weights, and was never used up.
proof fn walk_subtracts<F: Fn(u64, u32) -> u64, G: Fn(u64) -> bool>(
    logits: Seq<u32>,
    spend: &F,
    used_up: &G,
    amount: spec_fn(u64) -> int,
    weight: spec_fn(u32) -> int,
    threshold: u64,
    n: int,
    left: u64,
)
    requires
        spends_exactly(spend, used_up, amount, weight),
        walked(logits, spend, used_up, threshold, n, left),
        n >= 0,
    ensures
        amount(left) == amount(threshold) - weight_before(logits, weight, n),
        n > 0 ==> amount(left) > 0,
    decreases n,
{
    if n > 0 {
        let before = choose|before: u64|
            {
                &&& walked(logits, spend, used_up, threshold, n - 1, before)
                &&& #[trigger] spend.ensures((before, logits[n - 1]), left)
                &&& used_up.ensures((left,), false)
            };
        walk_subtracts(logits, spend, used_up, amount, weight, threshold, n - 1, before);
    }
}

/// With exact arithmetic, the token is the one within whose share the threshold falls: the
/// weights before it do not reach the threshold, and with its own they do. Where all of them
/// together do not, it is the last.
pub proof fn threshold_falls_in_its_share<F: Fn(u64, u32) -> u64, G: Fn(u64) -> bool>(
    logits: Seq<u32>,
    spend: &F,
    used_up: &G,
    amount: spec_fn(u64) -> int,
    weight: spec_fn(u32) -> int,
    threshold: u64,
    token: int,
)
    requires
        logits.len() > 0,
        spends_exactly(spend, used_up, amount, weight),
        is_reached(logits, spend, used_up, threshold, token),
    ensures
        0 <= token < logits.len(),
        token > 0 ==> weight_before(logits, weight, token) < amount(threshold),
        amount(threshold) <= weight_before(logits, weight, token + 1) || token == logits.len() - 1,
{
    if exists|before: u64, left: u64|
        {
            &&& 0 <= token < logits.len()
            &&& walked(logits, spend, used_up, threshold, token, before)
            &&& #[trigger] spend.ensures((before, logits[token]), left)
            &&& used_up.ensures((left,), true)
        } {
        let (before, left) = choose|before: u64, left: u64|
            {
                &&& 0 <= token < logits.len()
                &&& walked(logits, spend, used_up, threshold, token, before)
                &&& #[trigger] spend.ensures((before, logits[token]), left)
                &&& used_up.ensures((left,), true)
            };
        walk_subtracts(logits, spend, used_up, amount, weight, threshold, token, before);
    } else {
        let left = choose|left: u64|
            {
                &&& token == logits.len() - 1
                &&& #[trigger] walked(
                    logits,
                    spend,
                    used_up,
                    threshold,
                    logits.len() as int,
                    left,
                )
            };
        let n = logits.len() as int;
        let before = choose|before: u64|
            {
                &&& walked(logits, spend, used_up, threshold, n - 1, before)
                &&& #[trigger] spend.ensures((before, logits[n - 1]), left)
                &&& used_up.ensures((left,), false)
            };
        walk_subtracts(logits, spend, used_up, amount, weight, threshold, n - 1, before);
    }
}

/// Greedy sampling takes a largest logit, and of several the last.
pub proof fn greedy_takes_the_last_largest(logits: Seq<u32>, token: int, other: int)
    requires
        is_greedy(logits, token),
        0 <= other < logits.len(),
    ensures
        !crate::backend::topk::number_below(logits[token], logits[other]),
        logits[other] == logits[token] ==> other <= token,
{
    crate::backend::topk::places_follow_numbers(logits[token], logits[other]);
}

/// Turning bits to the left moves each of them up by 27 places, those at the top coming in
/// at the bottom.
pub proof fn turned_bits_come_round(x: u64)
    ensures
        turned(x) == (x % 0x20_0000_0000) * 0x800_0000 + x / 0x20_0000_0000,
{
    assert((x << 27) | (x >> 37) == (x % 0x20_0000_0000) * 0x800_0000 + x / 0x20_0000_0000)
        by (bit_vector);
}

/// The generator never stands still at zero, and what it gives out is below two to the power
/// of 53.
pub proof fn generator_stays_in_range(state: u64)
    ensures
        advanced(state) > 0,
        fraction_of(advanced(state)) < 0x20_0000_0000_0000,
        fraction_of(advanced(state)) == advanced(state) / 2048,
{
    let next = advanced(state);
    assert(next >> 11 < 0x20_0000_0000_0000 && next >> 11 == next / 2048) by (bit_vector);
}

/// The shifts of the generator: every step mixes each bit with those 13 below, then 7 above,
/// then 17 below.
pub proof fn generator_mixes_in_three_steps(state: u64, a: u64, b: u64, c: u64)
    requires
        a == state ^ ((state % 0x8_0000_0000_0000) * 0x2000) as u64,
        b == a ^ (a / 0x80),
        c == b ^ ((b % 0x8000_0000_0000) * 0x2_0000) as u64,
    ensures
        advanced(state) == (if c == 0 {
            1
        } else {
            c
        }),
{
    assert(state << 13 == ((state % 0x8_0000_0000_0000) * 0x2000) as u64) by (bit_vector);
    assert(a >> 7 == a / 0x80) by (bit_vector);
    assert(b << 17 == ((b % 0x8000_0000_0000) * 0x2_0000) as u64) by (bit_vector);
}

/// Tokens go into the seed one after another: each is mixed into what the ones before it
/// gave, multiplied modulo two to the power of 64, and the bits are turned.
pub proof fn seed_takes_tokens_in_turn(tokens: Seq<usize>, token: usize, mixed: u64)
    requires
        mixed == (seeded(tokens, tokens.len() as int) ^ (token as u64)) * 0xbf58_476d_1ce4_e5b9
            % 0x1_0000_0000_0000_0000,
    ensures
        seeded(Seq::<usize>::empty(), 0) == 0x9e37_79b9_7f4a_7c15,
        seeded(tokens.push(token), tokens.len() as int + 1) == (mixed % 0x20_0000_0000)
            * 0x800_0000 + mixed / 0x20_0000_0000,
{
    let more = tokens.push(token);
    seed_is_local(tokens, more, tokens.len() as int);
    turned_bits_come_round(mixed);
}

proof fn seed_is_local(a: Seq<usize>, b: Seq<usize>, n: int)
    requires
        forall|i: int| 0 <= i < n ==> #[trigger] a[i] == b[i],
    ensures
        seeded(a, n) == seeded(b, n),
    decreases n,
{
    if n > 0 {
        seed_is_local(a, b, n - 1);
        assert(a[n - 1] == b[n - 1]);
    }
}

} // verus!
