//! A signal for tests, as samples and as a WAV. It needs no file, and any frame that is misplaced or
//! repeated shows up.

use vstd::prelude::*;

verus! {

/// Sample rate of the WAVs built by [`wav`].
pub const RATE: u32 = 44_100;

/// The signal: a distinctive value per sample.
pub open spec fn signal(index: nat) -> int {
    (index * 7) % 20_001 - 10_000
}

/// The signal's sample at `index`.
pub fn sample_at(index: usize) -> (r: i16)
    requires
        index * 7 <= usize::MAX,
    ensures
        r == signal(index as nat),
{
    ((index * 7) % 20_001) as i16 - 10_000
}

/// The lowest `count` bytes of `n`, the lowest first.
pub open spec fn little_endian(n: nat, count: nat) -> Seq<u8>
    decreases count,
{
    if count == 0 {
        Seq::empty()
    } else {
        seq![(n % 256) as u8] + little_endian(n / 256, (count - 1) as nat)
    }
}

/// How 16 bits hold a sample: negative ones count down from the top.
pub open spec fn word(sample: int) -> nat {
    if sample < 0 {
        (65_536 + sample) as nat
    } else {
        sample as nat
    }
}

/// `count` samples of the signal from `from` on, two bytes each.
pub open spec fn signal_bytes(from: nat, count: nat) -> Seq<u8>
    decreases count,
{
    if count == 0 {
        Seq::empty()
    } else {
        signal_bytes(from, (count - 1) as nat) + little_endian(
            word(signal((from + count - 1) as nat)),
            2,
        )
    }
}

/// What stands before the samples of a WAV whose samples take `data` bytes: 16-bit stereo.
pub open spec fn wav_header(data: nat) -> Seq<u8> {
    seq![0x52u8, 0x49, 0x46, 0x46] + little_endian(36 + data, 4) + seq![
        0x57u8,
        0x41,
        0x56,
        0x45,
        0x66,
        0x6d,
        0x74,
        0x20,
    ] + little_endian(16, 4) + little_endian(1, 2) + little_endian(2, 2) + little_endian(
        RATE as nat,
        4,
    ) + little_endian(RATE as nat * 4, 4) + little_endian(4, 2) + little_endian(16, 2) + seq![
        0x64u8,
        0x61,
        0x74,
        0x61,
    ] + little_endian(data, 4)
}

fn push_number(out: &mut Vec<u8>, n: u32, count: usize)
    requires
        count <= 4,
    ensures
        final(out)@ == old(out)@ + little_endian(n as nat, count as nat),
{
    let mut rest: u32 = n;
    let mut left: usize = count;
    assert(out@ + little_endian(rest as nat, left as nat) =~= old(out)@ + little_endian(
        n as nat,
        count as nat,
    ));
    while left > 0
        invariant
            out@ + little_endian(rest as nat, left as nat) == old(out)@ + little_endian(
                n as nat,
                count as nat,
            ),
        decreases left,
    {
        let ghost before = out@;
        let byte: u8 = (rest % 256) as u8;
        out.push(byte);
        proof {
            assert(little_endian(rest as nat, left as nat) =~= seq![byte] + little_endian(
                (rest / 256) as nat,
                (left - 1) as nat,
            ));
            assert(before.push(byte) + little_endian((rest / 256) as nat, (left - 1) as nat)
                =~= before + little_endian(rest as nat, left as nat));
        }
        rest = rest / 256;
        left -= 1;
    }
    assert(out@ + little_endian(rest as nat, 0) =~= out@);
}

fn push_bytes(out: &mut Vec<u8>, bytes: &[u8])
    ensures
        final(out)@ == old(out)@ + bytes@,
{
    let mut i: usize = 0;
    assert(old(out)@ + bytes@.take(0) =~= old(out)@);
    while i < bytes.len()
        invariant
            i <= bytes@.len(),
            out@ == old(out)@ + bytes@.take(i as int),
        decreases bytes@.len() - i,
    {
        out.push(bytes[i]);
        assert(bytes@.take(i + 1) =~= bytes@.take(i as int).push(bytes@[i as int]));
        assert(out@ =~= old(out)@ + bytes@.take(i + 1));
        i += 1;
    }
    assert(bytes@.take(bytes@.len() as int) =~= bytes@);
}

fn sample_word(sample: i16) -> (r: u32)
    ensures
        r == word(sample as int),
{
    if sample < 0 {
        (65_536i32 + sample as i32) as u32
    } else {
        sample as u32
    }
}

/// A 16-bit stereo WAV with `frames` frames of the signal.
pub fn wav(frames: usize) -> (r: Vec<u8>)
    requires
        36 + frames * 4 <= u32::MAX,
        frames * 14 <= usize::MAX,
    ensures
        r@ == wav_header((frames * 4) as nat) + signal_bytes(0, (frames * 2) as nat),
{
    wav_slice(0, frames)
}

/// Like [`wav`], but holding frames `from_frame..from_frame + frames` of the same signal: what a
/// stream reopened partway through a track carries.
pub fn wav_slice(from_frame: usize, frames: usize) -> (r: Vec<u8>)
    requires
        36 + frames * 4 <= u32::MAX,
        (from_frame + frames) * 14 <= usize::MAX,
    ensures
        r@ == wav_header((frames * 4) as nat) + signal_bytes(
            (from_frame * 2) as nat,
            (frames * 2) as nat,
        ),
{
    let data: u32 = (frames * 4) as u32;
    let mut out: Vec<u8> = Vec::new();
    push_bytes(&mut out, &[0x52, 0x49, 0x46, 0x46]);
    push_number(&mut out, 36 + data, 4);
    push_bytes(&mut out, &[0x57, 0x41, 0x56, 0x45, 0x66, 0x6d, 0x74, 0x20]);
    push_number(&mut out, 16, 4);
    push_number(&mut out, 1, 2);
    push_number(&mut out, 2, 2);
    push_number(&mut out, RATE, 4);
    push_number(&mut out, RATE * 4, 4);
    push_number(&mut out, 4, 2);
    push_number(&mut out, 16, 2);
    push_bytes(&mut out, &[0x64, 0x61, 0x74, 0x61]);
    push_number(&mut out, data, 4);
    let ghost header = out@;
    assert(header =~= wav_header(data as nat));
    let from: usize = from_frame * 2;
    let end: usize = (from_frame + frames) * 2;
    let mut i: usize = from;
    assert(header + signal_bytes(from as nat, 0) =~= header);
    while i < end
        invariant
            from <= i <= end,
            end * 7 <= usize::MAX,
            out@ == header + signal_bytes(from as nat, (i - from) as nat),
        decreases end - i,
    {
        let ghost before = out@;
        push_number(&mut out, sample_word(sample_at(i)), 2);
        assert(out@ =~= header + signal_bytes(from as nat, (i + 1 - from) as nat));
        i += 1;
    }
    out
}

/// What a decoder makes of the signal's samples `from_sample..to_sample`: left-justified.
pub fn expected(from_sample: usize, to_sample: usize) -> (r: Vec<i32>)
    requires
        to_sample * 7 <= usize::MAX,
    ensures
        r@.len() == if from_sample <= to_sample {
            to_sample - from_sample
        } else {
            0
        },
        forall|i: int| 0 <= i < r@.len() ==> #[trigger] r@[i] == signal((from_sample + i) as nat)
            * 65_536,
{
    let mut out: Vec<i32> = Vec::new();
    let mut i: usize = from_sample;
    while i < to_sample
        invariant
            from_sample <= i,
            i <= to_sample || i == from_sample,
            to_sample * 7 <= usize::MAX,
            out@.len() == i - from_sample,
            forall|k: int| 0 <= k < out@.len() ==> #[trigger] out@[k] == signal(
                (from_sample + k) as nat,
            ) * 65_536,
        decreases to_sample - i,
    {
        out.push(sample_at(i) as i32 * 65_536);
        i += 1;
    }
    out
}

/// The samples stand in a WAV in order, the low byte of each first.
pub proof fn a_wav_holds_the_signal(from: nat, count: nat, index: nat)
    requires
        index < count,
    ensures
        signal_bytes(from, count).len() == 2 * count,
        signal_bytes(from, count)[2 * index as int] + 256 * signal_bytes(from, count)[2 * index as int
            + 1] == word(signal(from + index)),
    decreases count,
{
    let last = signal((from + count - 1) as nat);
    let n = word(last);
    reveal_with_fuel(little_endian, 3);
    assert(little_endian(n, 2) =~= seq![(n % 256) as u8, (n / 256 % 256) as u8]);
    let before = signal_bytes(from, (count - 1) as nat);
    if index < count - 1 {
        a_wav_holds_the_signal(from, (count - 1) as nat, index);
    } else {
        lemma_signal_length(from, (count - 1) as nat);
    }
}

proof fn lemma_signal_length(from: nat, count: nat)
    ensures
        signal_bytes(from, count).len() == 2 * count,
    decreases count,
{
    if count > 0 {
        lemma_signal_length(from, (count - 1) as nat);
        reveal_with_fuel(little_endian, 3);
    }
}

/// The signal rises by seven at each sample, from ten thousand below zero up to ten thousand above it
/// and then from the bottom again.
pub proof fn the_signal_rises_by_seven(index: nat)
    ensures
        -10_000 <= signal(index) <= 10_000,
        signal(0) == -10_000,
        signal(index + 1) == signal(index) + 7 || signal(index + 1) == signal(index) + 7 - 20_001,
        RATE == 44_100,
{
}

/// A sample is written in two bytes, a negative one as what is missing to the next power.
pub proof fn a_sample_is_written_in_two_bytes(sample: int)
    requires
        -32_768 <= sample < 32_768,
    ensures
        word(sample) < 65_536,
        sample >= 0 ==> word(sample) == sample,
        sample < 0 ==> word(sample) + (-sample) == 65_536,
{
}

/// A number is written in as many bytes as is said, the lowest first: they spell it again.
pub proof fn a_number_is_written_lowest_byte_first(n: nat)
    ensures
        n < 65_536 ==> {
            let two = little_endian(n, 2);
            two.len() == 2 && two[0] + 256 * two[1] == n
        },
        n < 4_294_967_296 ==> {
            let four = little_endian(n, 4);
            four.len() == 4 && four[0] + 256 * four[1] + 65_536 * four[2] + 16_777_216 * four[3] == n
        },
{
    reveal_with_fuel(little_endian, 5);
}

} // verus!
