use vstd::prelude::*;

verus! {

/// Size of the canonical WAV header; PCM data follows it.
pub const WAV_HEADER_LEN: usize = 44;

/// Two little-endian bytes read as a signed 16-bit integer.
pub open spec fn le_i16_spec(lo: u8, hi: u8) -> i16 {
    let u = (hi as int) * 256 + (lo as int);
    if u >= 32768 {
        (u - 65536) as i16
    } else {
        u as i16
    }
}

pub open spec fn le_u16_spec(lo: u8, hi: u8) -> int {
    (hi as int) * 256 + (lo as int)
}

pub open spec fn le_u32_spec(b0: u8, b1: u8, b2: u8, b3: u8) -> int {
    (b3 as int) * 0x100_0000 + (b2 as int) * 0x1_0000 + (b1 as int) * 0x100 + (b0 as int)
}

pub open spec fn wav_channels(d: Seq<u8>) -> int {
    le_u16_spec(d[22], d[23])
}

pub open spec fn wav_sample_rate(d: Seq<u8>) -> int {
    le_u32_spec(d[24], d[25], d[26], d[27])
}

pub open spec fn wav_bits_per_sample(d: Seq<u8>) -> int {
    le_u16_spec(d[34], d[35])
}

/// The header is complete, carries the `RIFF` and `WAVE` markers, declares at
/// least one channel of 16-bit samples, and the file fits a RIFF chunk.
pub open spec fn wav_readable(d: Seq<u8>) -> bool {
    &&& WAV_HEADER_LEN <= d.len()
    &&& d[0] == 0x52u8 && d[1] == 0x49u8 && d[2] == 0x46u8 && d[3] == 0x46u8
    &&& d[8] == 0x57u8 && d[9] == 0x41u8 && d[10] == 0x56u8 && d[11] == 0x45u8
    &&& wav_bits_per_sample(d) == 16
    &&& wav_channels(d) > 0
}

/// Bytes per frame: two per channel.
pub open spec fn wav_frame_size(d: Seq<u8>) -> int {
    2 * wav_channels(d)
}

/// The first channel's sample of each complete frame after the header.
pub open spec fn wav_samples(d: Seq<u8>) -> Seq<i16> {
    let fs = wav_frame_size(d);
    Seq::new(
        ((d.len() - WAV_HEADER_LEN) as int / fs) as nat,
        |i: int| le_i16_spec(d[WAV_HEADER_LEN + i * fs], d[WAV_HEADER_LEN + i * fs + 1]),
    )
}

fn le_i16(lo: u8, hi: u8) -> (r: i16)
    ensures
        r == le_i16_spec(lo, hi),
{
    let u: u32 = (hi as u32) * 256 + lo as u32;
    if u >= 32768 {
        (u as i32 - 65536) as i16
    } else {
        u as i16
    }
}

/// Reads a 16-bit PCM WAV file: its samples (first channel only) and its
/// sample rate, or `None` when the file cannot be read.
pub fn parse_wav(data: &Vec<u8>) -> (r: Option<(Vec<i16>, u32)>)
    ensures
        match r {
            Some((samples, rate)) => wav_readable(data@) && samples@ == wav_samples(data@)
                && rate as int == wav_sample_rate(data@),
            None => !wav_readable(data@),
        },
{
    let n = data.len();
    if n < WAV_HEADER_LEN {
        return None;
    }
    if !(data[0] == 0x52 && data[1] == 0x49 && data[2] == 0x46 && data[3] == 0x46) {
        return None;
    }
    if !(data[8] == 0x57 && data[9] == 0x41 && data[10] == 0x56 && data[11] == 0x45) {
        return None;
    }
    let channels: usize = data[23] as usize * 256 + data[22] as usize;
    let rate: u32 = data[27] as u32 * 0x100_0000 + data[26] as u32 * 0x1_0000
        + data[25] as u32 * 0x100 + data[24] as u32;
    let bits: usize = data[35] as usize * 256 + data[34] as usize;
    if bits != 16 || channels == 0 {
        return None;
    }
    let fs = 2 * channels;
    let pcm_len = n - WAV_HEADER_LEN;
    let frames = pcm_len / fs;
    let ghost want = wav_samples(data@);
    let mut samples: Vec<i16> = Vec::new();
    let mut i: usize = 0;
    while i < frames
        invariant
            n == data@.len(),
            WAV_HEADER_LEN <= n,
            fs as int == wav_frame_size(data@),
            fs >= 2,
            pcm_len == n - WAV_HEADER_LEN,
            frames == pcm_len / fs,
            want == wav_samples(data@),
            i <= frames,
            samples@ == want.take(i as int),
        decreases frames - i,
    {
        assert(i * fs + fs <= pcm_len) by (nonlinear_arith)
            requires
                i < frames,
                frames == pcm_len / fs,
                fs >= 2,
        {
            assert((pcm_len / fs) * fs <= pcm_len) by (nonlinear_arith) requires fs >= 2;
            assert((i + 1) * fs <= (pcm_len / fs) * fs) by (nonlinear_arith) requires i + 1 <= pcm_len / fs, fs >= 2;
        }
        let off = WAV_HEADER_LEN + i * fs;
        let v = le_i16(data[off], data[off + 1]);
        samples.push(v);
        proof {
            assert(samples@ =~= want.take(i as int + 1));
        }
        i = i + 1;
    }
    proof {
        assert(samples@ =~= want);
    }
    Some((samples, rate))
}

} // verus!
