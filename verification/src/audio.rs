//! Sample-level helpers of the pipeline: resampling, duration and energy.

use vstd::prelude::*;

verus! {

/// Every third sample of `s`, starting with the first: 48 kHz audio at
/// 16 kHz. This is plain decimation without a filter; it loses fidelity on
/// purpose.
pub open spec fn decimated(s: Seq<i16>) -> Seq<i16> {
    Seq::new(((s.len() + 2) / 3) as nat, |i: int| s[3 * i])
}

/// Resamples 48 kHz audio to 16 kHz by keeping every third sample.
pub fn downsample_48k_to_16k(samples: &[i16]) -> (out: Vec<i16>)
    ensures
        out@ == decimated(samples@),
        out@.len() == (samples@.len() + 2) / 3,
{
    let mut out: Vec<i16> = Vec::new();
    let n: usize = samples.len();
    let mut i: usize = 0;
    while i < n
        invariant
            i % 3 == 0,
            n == samples@.len(),
            i <= n,
            out@.len() == i as int / 3,
            forall|k: int| 0 <= k < out@.len() ==> out@[k] == samples@[3 * k],
        decreases n - i,
    {
        out.push(samples[i]);
        if n - i <= 3 {
            assert(out@ =~= decimated(samples@));
            return out;
        }
        i = i + 3;
    }
    assert(out@ =~= decimated(samples@));
    out
}

/// Length in milliseconds of `len` samples at `rate` samples per second,
/// rounded down.
pub open spec fn duration_ms_of(len: nat, rate: u32) -> nat
    recommends
        rate > 0,
{
    (len as int * 1000 / (rate as int)) as nat
}

/// Length in milliseconds of `len` samples at `rate` samples per second. A
/// length that does not fit is reported as the largest value.
pub fn duration_ms(len: usize, rate: u32) -> (ms: u64)
    requires
        rate > 0,
    ensures
        ms == (if duration_ms_of(len as nat, rate) <= u64::MAX {
            duration_ms_of(len as nat, rate)
        } else {
            u64::MAX as nat
        }),
{
    let wide: u128 = (len as u128) * 1000 / (rate as u128);
    if wide > u64::MAX as u128 {
        u64::MAX
    } else {
        wide as u64
    }
}

/// Sum of the squares of `s`.
pub open spec fn sum_squares(s: Seq<i16>) -> nat
    decreases s.len(),
{
    if s.len() == 0 {
        0
    } else {
        sum_squares(s.drop_last()) + (s.last() as int * s.last() as int) as nat
    }
}

/// Whether the root mean square of `s`, with full scale as 1, lies below
/// one hundredth: the mean of the squares lies below 32768 squared over ten
/// thousand. Silence of no length counts as low.
pub open spec fn low_energy(s: Seq<i16>) -> bool {
    s.len() == 0 || 10000 * sum_squares(s) < 0x4000_0000 * s.len()
}

proof fn lemma_square_bound(x: i16)
    ensures
        0 <= x as int * x as int <= 0x4000_0000,
{
    assert(0 <= x as int * x as int <= 0x4000_0000) by (nonlinear_arith)
        requires
            -0x8000 <= x as int <= 0x7fff,
    ;
}

proof fn lemma_sum_squares_bound(s: Seq<i16>)
    ensures
        sum_squares(s) <= 0x4000_0000 * s.len(),
    decreases s.len(),
{
    if s.len() > 0 {
        lemma_sum_squares_bound(s.drop_last());
        lemma_square_bound(s.last());
    }
}

/// Whether the signal energy of `samples` is low.
pub fn is_low_energy(samples: &[i16]) -> (r: bool)
    ensures
        r == low_energy(samples@),
{
    if samples.len() == 0 {
        return true;
    }
    let mut sum: u128 = 0;
    let mut i: usize = 0;
    while i < samples.len()
        invariant
            0 <= i <= samples@.len(),
            samples@.len() <= usize::MAX,
            sum == sum_squares(samples@.take(i as int)),
        decreases samples@.len() - i,
    {
        let x: i128 = samples[i] as i128;
        proof {
            lemma_square_bound(samples@[i as int]);
            lemma_sum_squares_bound(samples@.take(i as int));
            assert(samples@.take(i + 1).drop_last() =~= samples@.take(i as int));
            assert(0x4000_0000 * (i as int) <= 0x4000_0000 * usize::MAX) by (nonlinear_arith)
                requires
                    i <= usize::MAX,
            ;
        }
        let sq: i128 = x * x;
        sum = sum + sq as u128;
        i = i + 1;
    }
    proof {
        assert(samples@.take(i as int) =~= samples@);
        lemma_sum_squares_bound(samples@);
        assert(0x4000_0000 * samples@.len() <= 0x4000_0000 * usize::MAX) by (nonlinear_arith)
            requires
                samples@.len() <= usize::MAX,
        ;
    }
    10000 * sum < 0x4000_0000 * (samples.len() as u128)
}

} // verus!
