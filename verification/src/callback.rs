//! What the hardware's callback does with mixed samples.
//!
//! The mixer delivers signed 16-bit samples. Whenever the hardware asks for a
//! buffer, a scratch buffer of the same length is cleared and handed to the
//! mixer, and what the mixer wrote is then converted, sample by sample and in
//! order, into the representation of the hardware buffer.

use vstd::prelude::*;

verus! {

/// The unsigned sample that stands for the signed sample `sample`: the two
/// scales are 32768 apart, so that silence, 0, becomes 32768.
pub open spec fn unsigned_of(sample: i16) -> u16 {
    (sample + 32768) as u16
}

/// Converts a signed sample to the unsigned representation.
pub fn to_unsigned(sample: i16) -> (out: u16)
    ensures
        out == unsigned_of(sample),
{
    let shifted: i32 = sample as i32 + 32768;
    shifted as u16
}

/// A scratch buffer of `len` samples of silence.
pub open spec fn silence(len: nat) -> Seq<i16> {
    Seq::new(len, |i: int| 0i16)
}

/// Makes `scratch` hold `len` samples of silence, for the mixer to write
/// into. The buffer is reused from call to call.
pub fn prepare_scratch(scratch: &mut Vec<i16>, len: usize)
    ensures
        final(scratch)@ == silence(len as nat),
{
    scratch.clear();
    scratch.resize(len, 0);
    assert(scratch@ =~= silence(len as nat));
}

/// What a hardware buffer `before` of signed samples holds after `mixed` was
/// written to it: the samples of `mixed` in order, as far as both reach, and
/// behind them what it held before.
pub open spec fn written_signed(before: Seq<i16>, mixed: Seq<i16>) -> Seq<i16> {
    Seq::new(
        before.len(),
        |i: int|
            if i < mixed.len() {
                mixed[i]
            } else {
                before[i]
            },
    )
}

/// What a hardware buffer `before` of unsigned samples holds after `mixed`
/// was written to it: the samples of `mixed` in order, each converted, as far
/// as both reach, and behind them what it held before.
pub open spec fn written_unsigned(before: Seq<u16>, mixed: Seq<i16>) -> Seq<u16> {
    Seq::new(
        before.len(),
        |i: int|
            if i < mixed.len() {
                unsigned_of(mixed[i])
            } else {
                before[i]
            },
    )
}

/// Writes the mixed samples to a hardware buffer of signed samples.
pub fn write_signed(output: &mut [i16], mixed: &[i16])
    ensures
        final(output)@ == written_signed(old(output)@, mixed@),
{
    let count: usize = if output.len() < mixed.len() {
        output.len()
    } else {
        mixed.len()
    };
    let mut at: usize = 0;
    while at < count
        invariant
            at <= count,
            count <= mixed@.len(),
            count == output@.len() || count == mixed@.len(),
            output@.len() == old(output)@.len(),
            count <= output@.len(),
            forall|i: int| 0 <= i < at ==> output@[i] == mixed@[i],
            forall|i: int| at <= i < output@.len() ==> output@[i] == old(output)@[i],
        decreases count - at,
    {
        output[at] = mixed[at];
        at += 1;
    }
    assert(output@ =~= written_signed(old(output)@, mixed@));
}

/// Writes the mixed samples to a hardware buffer of unsigned samples.
pub fn write_unsigned(output: &mut [u16], mixed: &[i16])
    ensures
        final(output)@ == written_unsigned(old(output)@, mixed@),
{
    let count: usize = if output.len() < mixed.len() {
        output.len()
    } else {
        mixed.len()
    };
    let mut at: usize = 0;
    while at < count
        invariant
            at <= count,
            count <= mixed@.len(),
            count == output@.len() || count == mixed@.len(),
            output@.len() == old(output)@.len(),
            count <= output@.len(),
            forall|i: int| 0 <= i < at ==> output@[i] == unsigned_of(mixed@[i]),
            forall|i: int| at <= i < output@.len() ==> output@[i] == old(output)@[i],
        decreases count - at,
    {
        output[at] = to_unsigned(mixed[at]);
        at += 1;
    }
    assert(output@ =~= written_unsigned(old(output)@, mixed@));
}

} // verus!
