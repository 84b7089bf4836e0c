//! WAV framing for captured audio.
//!
//! The byte payload of a WAV file is assembled here from PCM16 samples;
//! turning captured floating-point samples into PCM16 is the capture
//! layer's business.

use vstd::prelude::*;

verus! {

/// Errors that can occur when generating WAV data.
#[derive(Clone, Copy, Debug, PartialEq, Eq, Structural)]
pub enum WavError {
    /// The generated data exceeds the size limit of the format (4GB).
    SizeLimitExceeded,
}

impl WavError {
    /// A human readable description of the error.
    pub fn describe(&self) -> (r: &str)
        ensures
            r@ == "WAV file size exceeds 4GB limit"@,
    {
        match self {
            WavError::SizeLimitExceeded => "WAV file size exceeds 4GB limit",
        }
    }
}

/// The four bytes of a 32-bit number, least significant first.
pub open spec fn le4(n: u32) -> Seq<u8> {
    seq![
        (n & 0xff) as u8,
        ((n >> 8) & 0xff) as u8,
        ((n >> 16) & 0xff) as u8,
        ((n >> 24) & 0xff) as u8,
    ]
}

/// The two bytes of a 16-bit number, least significant first.
pub open spec fn le2(n: u16) -> Seq<u8> {
    seq![(n & 0xff) as u8, ((n >> 8) & 0xff) as u8]
}

/// The two bytes of one PCM16 sample, least significant first.
pub open spec fn sample_bytes(s: i16) -> Seq<u8> {
    le2(s as u16)
}

/// The bytes of a list of PCM16 samples, in order.
pub open spec fn samples_bytes(samples: Seq<i16>) -> Seq<u8>
    decreases samples.len(),
{
    if samples.len() == 0 {
        Seq::empty()
    } else {
        samples_bytes(samples.drop_last()) + sample_bytes(samples.last())
    }
}

/// The 44 header bytes of a WAV file holding `data_len` bytes of PCM16
/// sample data: the RIFF chunk, the format chunk and the data chunk header.
pub open spec fn wav_header(data_len: u32, sample_rate: u32, channels: u16) -> Seq<u8> {
    "RIFF"@.map_values(|c: char| c as u8) + le4((36 + data_len) as u32) + "WAVE"@.map_values(
        |c: char| c as u8,
    ) + "fmt "@.map_values(|c: char| c as u8) + le4(16) + le2(1) + le2(channels) + le4(sample_rate)
        + le4((sample_rate * (channels as u32) * 2) as u32) + le2((channels * 2) as u16) + le2(16)
        + "data"@.map_values(|c: char| c as u8) + le4(data_len)
}

/// Build WAV audio data from PCM16 samples.
///
/// Returns the complete little-endian WAV file: the 44-byte header followed
/// by the raw sample data. Fails exactly when the file would exceed the
/// 4GB limit the format imposes.
pub fn build_wav(samples: &Vec<i16>, sample_rate: u32, channels: u16) -> (r: Result<
    Vec<u8>,
    WavError,
>)
    requires
        sample_rate * (channels as u32) * 2 <= u32::MAX,
        channels * 2 <= u16::MAX,
    ensures
        44 + 2 * samples@.len() > u32::MAX <==> r matches Err(WavError::SizeLimitExceeded),
        r matches Ok(bytes) ==> bytes@ == wav_header(
            (2 * samples@.len()) as u32,
            sample_rate,
            channels,
        ) + samples_bytes(samples@),
{
    let sample_count = samples.len();
    if sample_count > ((u32::MAX - 44) / 2) as usize {
        return Err(WavError::SizeLimitExceeded);
    }
    let data_len: u32 = (sample_count as u32) * 2;
    let mut bytes: Vec<u8> = Vec::new();
    push_tag_riff(&mut bytes);
    push_le4(&mut bytes, 36 + data_len);
    push_tag_wave(&mut bytes);
    push_tag_fmt(&mut bytes);
    push_le4(&mut bytes, 16);
    push_le2(&mut bytes, 1);
    push_le2(&mut bytes, channels);
    push_le4(&mut bytes, sample_rate);
    push_le4(&mut bytes, sample_rate * (channels as u32) * 2);
    push_le2(&mut bytes, channels * 2);
    push_le2(&mut bytes, 16);
    push_tag_data(&mut bytes);
    push_le4(&mut bytes, data_len);
    let ghost header = bytes@;
    proof {
        assert(header =~= wav_header(data_len, sample_rate, channels));
    }
    let mut k: usize = 0;
    while k < sample_count
        invariant
            k <= sample_count,
            sample_count == samples@.len(),
            bytes@ == header + samples_bytes(samples@.take(k as int)),
        decreases sample_count - k,
    {
        let sample = samples[k];
        push_le2(&mut bytes, #[verifier::truncate] (sample as u16));
        proof {
            assert(samples@.take(k + 1).drop_last() =~= samples@.take(k as int));
            assert(samples@.take(k + 1).last() == samples@[k as int]);
            assert(bytes@ =~= header + samples_bytes(samples@.take(k + 1)));
        }
        k = k + 1;
    }
    proof {
        assert(samples@.take(sample_count as int) =~= samples@);
    }
    Ok(bytes)
}

/// Appends the two little-endian bytes of a 16-bit number.
fn push_le2(bytes: &mut Vec<u8>, n: u16)
    ensures
        final(bytes)@ == old(bytes)@ + le2(n),
{
    bytes.push((n & 0xff) as u8);
    bytes.push(((n >> 8) & 0xff) as u8);
    proof {
        assert(final(bytes)@ =~= old(bytes)@ + le2(n));
    }
}

/// Appends the four little-endian bytes of a 32-bit number.
fn push_le4(bytes: &mut Vec<u8>, n: u32)
    ensures
        final(bytes)@ == old(bytes)@ + le4(n),
{
    bytes.push((n & 0xff) as u8);
    bytes.push(((n >> 8) & 0xff) as u8);
    bytes.push(((n >> 16) & 0xff) as u8);
    bytes.push(((n >> 24) & 0xff) as u8);
    proof {
        assert(final(bytes)@ =~= old(bytes)@ + le4(n));
    }
}

/// Appends the RIFF chunk tag.
fn push_tag_riff(bytes: &mut Vec<u8>)
    ensures
        final(bytes)@ == old(bytes)@ + "RIFF"@.map_values(|c: char| c as u8),
{
    proof {
        reveal_strlit("RIFF");
    }
    bytes.push(0x52);
    bytes.push(0x49);
    bytes.push(0x46);
    bytes.push(0x46);
    proof {
        assert(final(bytes)@ =~= old(bytes)@ + "RIFF"@.map_values(|c: char| c as u8));
    }
}

/// Appends the WAVE format tag.
fn push_tag_wave(bytes: &mut Vec<u8>)
    ensures
        final(bytes)@ == old(bytes)@ + "WAVE"@.map_values(|c: char| c as u8),
{
    proof {
        reveal_strlit("WAVE");
    }
    bytes.push(0x57);
    bytes.push(0x41);
    bytes.push(0x56);
    bytes.push(0x45);
    proof {
        assert(final(bytes)@ =~= old(bytes)@ + "WAVE"@.map_values(|c: char| c as u8));
    }
}

/// Appends the format chunk tag.
fn push_tag_fmt(bytes: &mut Vec<u8>)
    ensures
        final(bytes)@ == old(bytes)@ + "fmt "@.map_values(|c: char| c as u8),
{
    proof {
        reveal_strlit("fmt ");
    }
    bytes.push(0x66);
    bytes.push(0x6d);
    bytes.push(0x74);
    bytes.push(0x20);
    proof {
        assert(final(bytes)@ =~= old(bytes)@ + "fmt "@.map_values(|c: char| c as u8));
    }
}

/// Appends the data chunk tag.
fn push_tag_data(bytes: &mut Vec<u8>)
    ensures
        final(bytes)@ == old(bytes)@ + "data"@.map_values(|c: char| c as u8),
{
    proof {
        reveal_strlit("data");
    }
    bytes.push(0x64);
    bytes.push(0x61);
    bytes.push(0x74);
    bytes.push(0x61);
    proof {
        assert(final(bytes)@ =~= old(bytes)@ + "data"@.map_values(|c: char| c as u8));
    }
}

} // verus!
