//! Stereo samples in fixed point, and batches of them.
//!
//! A channel value is a signed 32-bit number in units of 1/65536, so that
//! `65536` stands for full scale. Sums saturate at the ends of the 32-bit
//! range instead of wrapping.

use vstd::prelude::*;

verus! {

/// No message between actors carries more frames than this.
pub const MAX_BATCH: usize = 64;

/// The channel value that stands for full scale.
pub const FULL_SCALE: i32 = 65536;

/// `value` brought into the range of a channel value.
pub open spec fn clipped(value: int) -> int {
    if value < i32::MIN {
        i32::MIN as int
    } else if value > i32::MAX {
        i32::MAX as int
    } else {
        value
    }
}

/// `value * num / den`, rounded toward zero.
pub open spec fn scaled_toward_zero(value: int, num: nat, den: nat) -> int {
    if value >= 0 {
        (value * num) / (den as int)
    } else {
        -(((-value) * num) / (den as int))
    }
}

/// Scaling by a ratio of at most one never grows a value.
pub proof fn lemma_scaled_is_bounded(value: int, num: nat, den: nat)
    requires
        0 < den,
        num <= den,
    ensures
        value >= 0 ==> 0 <= scaled_toward_zero(value, num, den) <= value,
        value < 0 ==> value <= scaled_toward_zero(value, num, den) <= 0,
{
    let magnitude: int = if value >= 0 {
        value
    } else {
        -value
    };
    let d = den as int;
    let n = num as int;
    assert(0 <= magnitude * n <= magnitude * d) by (nonlinear_arith)
        requires
            0 <= magnitude,
            0 <= n <= d,
    ;
    vstd::arithmetic::div_mod::lemma_div_is_ordered(magnitude * n, magnitude * d, d);
    vstd::arithmetic::div_mod::lemma_div_multiples_vanish(magnitude, d);
    assert(magnitude * d == d * magnitude) by (nonlinear_arith);
}

/// One frame of audio: a left and a right channel value.
#[derive(Clone, Copy, Debug, PartialEq, Eq, Structural)]
pub struct StereoSample {
    pub left: i32,
    pub right: i32,
}

fn channel_sum(a: i32, b: i32) -> (sum: i32)
    ensures
        sum == clipped(a + b),
{
    let wide: i64 = a as i64 + b as i64;
    if wide < i32::MIN as i64 {
        i32::MIN
    } else if wide > i32::MAX as i64 {
        i32::MAX
    } else {
        wide as i32
    }
}

fn channel_negated(value: i32) -> (negated: i32)
    ensures
        negated == clipped(-value),
{
    if value == i32::MIN {
        i32::MAX
    } else {
        -value
    }
}

fn channel_scaled(value: i32, num: u16, den: u128) -> (scaled: i32)
    requires
        0 < den,
        num <= den,
    ensures
        scaled == scaled_toward_zero(value as int, num as nat, den as nat),
{
    proof {
        lemma_scaled_is_bounded(value as int, num as nat, den as nat);
    }
    if value >= 0 {
        let magnitude: u128 = value as u128;
        assert(magnitude * num <= 0x8000_0000 * 0x1_0000) by (nonlinear_arith)
            requires
                magnitude <= 0x8000_0000,
                num <= 0x1_0000,
        ;
        let quotient: u128 = (magnitude * (num as u128)) / den;
        quotient as i32
    } else {
        let magnitude: u128 = (-(value as i64)) as u128;
        assert(magnitude * num <= 0x8000_0000 * 0x1_0000) by (nonlinear_arith)
            requires
                magnitude <= 0x8000_0000,
                num <= 0x1_0000,
        ;
        let quotient: u128 = (magnitude * (num as u128)) / den;
        (-(quotient as i64)) as i32
    }
}

impl StereoSample {
    pub open spec fn spec_silence() -> StereoSample {
        StereoSample { left: 0, right: 0 }
    }

    /// The sample that carries no sound.
    #[verifier::when_used_as_spec(spec_silence)]
    pub fn silence() -> (sample: StereoSample)
        ensures
            sample == StereoSample::spec_silence(),
    {
        StereoSample { left: 0, right: 0 }
    }

    pub open spec fn spec_is_silent(&self) -> bool {
        *self == StereoSample::spec_silence()
    }

    #[verifier::when_used_as_spec(spec_is_silent)]
    pub fn is_silent(&self) -> (silent: bool)
        ensures
            silent == self.spec_is_silent(),
    {
        self.left == 0 && self.right == 0
    }

    /// Channel by channel, the sum of the two samples, saturating.
    pub open spec fn spec_plus(self, other: StereoSample) -> StereoSample {
        StereoSample {
            left: clipped(self.left + other.left) as i32,
            right: clipped(self.right + other.right) as i32,
        }
    }

    #[verifier::when_used_as_spec(spec_plus)]
    pub fn plus(self, other: StereoSample) -> (sum: StereoSample)
        ensures
            sum == self.spec_plus(other),
    {
        StereoSample {
            left: channel_sum(self.left, other.left),
            right: channel_sum(self.right, other.right),
        }
    }

    /// Channel by channel, the sample times `num / den`, rounded toward zero.
    pub open spec fn spec_scaled(self, num: nat, den: nat) -> StereoSample {
        StereoSample {
            left: scaled_toward_zero(self.left as int, num, den) as i32,
            right: scaled_toward_zero(self.right as int, num, den) as i32,
        }
    }

    /// The sample times the ratio `num / den`, which is at most one.
    pub fn scaled(self, num: u16, den: u128) -> (scaled: StereoSample)
        requires
            0 < den,
            num <= den,
        ensures
            scaled == self.spec_scaled(num as nat, den as nat),
    {
        StereoSample {
            left: channel_scaled(self.left, num, den),
            right: channel_scaled(self.right, num, den),
        }
    }

    /// Channel by channel, the negated sample, saturating.
    pub open spec fn spec_inverted(self) -> StereoSample {
        StereoSample { left: clipped(-self.left) as i32, right: clipped(-self.right) as i32 }
    }

    #[verifier::when_used_as_spec(spec_inverted)]
    pub fn inverted(self) -> (inverted: StereoSample)
        ensures
            inverted == self.spec_inverted(),
    {
        StereoSample { left: channel_negated(self.left), right: channel_negated(self.right) }
    }
}

/// A batch of `count` silent frames.
pub open spec fn silence(count: nat) -> Seq<StereoSample> {
    Seq::new(count, |i: int| StereoSample::spec_silence())
}

/// `dest` with `source` added into it frame by frame, as far as both reach.
pub open spec fn merged(dest: Seq<StereoSample>, source: Seq<StereoSample>) -> Seq<StereoSample> {
    Seq::new(
        dest.len(),
        |i: int|
            if i < source.len() {
                dest[i].spec_plus(source[i])
            } else {
                dest[i]
            },
    )
}

/// Whether the two values and `rest` can be added up, in whichever order,
/// without any sum on the way leaving the range of a channel value.
pub open spec fn adds_up(rest: int, a: int, b: int) -> bool {
    &&& i32::MIN <= rest + a <= i32::MAX
    &&& i32::MIN <= rest + b <= i32::MAX
    &&& i32::MIN <= rest + a + b <= i32::MAX
}

/// The order in which two batches are added into a third does not matter, as
/// long as no sum on the way leaves the range of a channel value.
pub proof fn lemma_merge_order_is_free(
    dest: Seq<StereoSample>,
    first: Seq<StereoSample>,
    second: Seq<StereoSample>,
)
    requires
        first.len() == dest.len(),
        second.len() == dest.len(),
        forall|i: int|
            0 <= i < dest.len() ==> adds_up(
                (#[trigger] dest[i]).left as int,
                first[i].left as int,
                second[i].left as int,
            ) && adds_up(dest[i].right as int, first[i].right as int, second[i].right as int),
    ensures
        merged(merged(dest, first), second) == merged(merged(dest, second), first),
{
    assert forall|i: int| 0 <= i < dest.len() implies merged(merged(dest, first), second)[i]
        == merged(merged(dest, second), first)[i] by {
        assert(adds_up(dest[i].left as int, first[i].left as int, second[i].left as int));
    }
}

/// A batch of `count` silent frames.
pub fn silent_batch(count: usize) -> (batch: Vec<StereoSample>)
    ensures
        batch@ == silence(count as nat),
{
    let mut batch: Vec<StereoSample> = Vec::new();
    let mut i: usize = 0;
    while i < count
        invariant
            i <= count,
            batch@ == silence(i as nat),
        decreases count - i,
    {
        batch.push(StereoSample::silence());
        i += 1;
    }
    batch
}

/// A copy of `batch`.
pub fn copy_batch(batch: &Vec<StereoSample>) -> (copy: Vec<StereoSample>)
    ensures
        copy@ == batch@,
{
    let mut copy: Vec<StereoSample> = Vec::new();
    let mut i: usize = 0;
    while i < batch.len()
        invariant
            i <= batch.len(),
            copy@ == batch@.take(i as int),
        decreases batch.len() - i,
    {
        copy.push(batch[i]);
        i += 1;
    }
    copy
}

/// Adds `source`, which is as long as `dest`, into `dest` frame by frame.
pub fn merge(dest: &mut Vec<StereoSample>, source: &Vec<StereoSample>)
    requires
        old(dest)@.len() == source@.len(),
    ensures
        final(dest)@ == merged(old(dest)@, source@),
{
    let mut i: usize = 0;
    while i < dest.len() && i < source.len()
        invariant
            dest.len() == old(dest).len(),
            forall|j: int| 0 <= j < i ==> dest@[j] == old(dest)@[j].spec_plus(source@[j]),
            forall|j: int| i <= j < dest.len() ==> dest@[j] == old(dest)@[j],
            i <= dest.len(),
            i <= source.len(),
        decreases dest.len() - i,
    {
        let sum = dest[i].plus(source[i]);
        dest.set(i, sum);
        i += 1;
    }
}

} // verus!
