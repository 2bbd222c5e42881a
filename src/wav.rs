//! The WAVE container: its byte layout as spec functions, and the encoder
//! that builds it.

use vstd::prelude::*;

verus! {

/// The two bytes of a 16-bit value, least significant first.
pub open spec fn le16(v: u16) -> Seq<u8> {
    seq![(v % 256) as u8, (v / 256) as u8]
}

/// The four bytes of a 32-bit value, least significant first.
pub open spec fn le32(v: u32) -> Seq<u8> {
    seq![
        (v % 256) as u8,
        (v / 256 % 256) as u8,
        (v / 65536 % 256) as u8,
        (v / 16777216) as u8,
    ]
}

/// Appends `val` to `c` as two bytes, least significant first.
pub fn write_little_endian_u16(c: &mut Vec<u8>, val: u16)
    ensures
        final(c)@ == old(c)@ + le16(val),
{
    c.push((val % 256) as u8);
    c.push((val / 256) as u8);
    assert(c@ =~= old(c)@ + le16(val));
}

/// Appends `val` to `c` as four bytes, least significant first.
pub fn write_little_endian_u32(c: &mut Vec<u8>, val: u32)
    ensures
        final(c)@ == old(c)@ + le32(val),
{
    c.push((val % 256) as u8);
    c.push((val / 256 % 256) as u8);
    c.push((val / 65536 % 256) as u8);
    c.push((val / 16777216) as u8);
    assert(c@ =~= old(c)@ + le32(val));
}

/// "RIFF": the container's chunk identifier, as ASCII in reading order.
pub open spec fn riff_tag() -> Seq<u8> {
    seq![0x52u8, 0x49u8, 0x46u8, 0x46u8]
}

/// "WAVE": the RIFF form type.
pub open spec fn wave_tag() -> Seq<u8> {
    seq![0x57u8, 0x41u8, 0x56u8, 0x45u8]
}

/// "fmt ": the identifier of the format subchunk.
pub open spec fn fmt_tag() -> Seq<u8> {
    seq![0x66u8, 0x6du8, 0x74u8, 0x20u8]
}

/// "data": the identifier of the sample subchunk.
pub open spec fn data_tag() -> Seq<u8> {
    seq![0x64u8, 0x61u8, 0x74u8, 0x61u8]
}

/// The 44-byte header for stereo 16-bit PCM at `sample_rate`, with the given
/// values in the two size fields (offsets 4 and 40). The format subchunk holds
/// its size (16), the PCM format code (1), the channel count (2), the sample
/// rate, the byte rate and, in four bytes, the block align (4).
pub open spec fn header(sample_rate: u32, riff_size: u32, data_size: u32) -> Seq<u8> {
    riff_tag() + le32(riff_size) + wave_tag() + fmt_tag() + le32(16) + le16(1) + le16(2) + le32(
        sample_rate,
    ) + le32((sample_rate * 4) as u32) + le32(4) + data_tag() + le32(data_size)
}

/// A signed sample as the unsigned 16-bit value with the same two's-complement bits.
pub open spec fn sample_bits(s: i16) -> u16 {
    if s >= 0 {
        s as u16
    } else {
        (s + 65536) as u16
    }
}

/// The number of stereo frames encoded: the shorter channel's length.
pub open spec fn frame_count(left: Seq<i16>, right: Seq<i16>) -> nat {
    if left.len() <= right.len() {
        left.len()
    } else {
        right.len()
    }
}

/// The first `n` frames, each the left sample then the right one, little-endian.
pub open spec fn payload(left: Seq<i16>, right: Seq<i16>, n: nat) -> Seq<u8>
    decreases n,
{
    if n == 0 {
        seq![]
    } else {
        payload(left, right, (n - 1) as nat) + le16(sample_bits(left[n - 1])) + le16(
            sample_bits(right[n - 1]),
        )
    }
}

/// The complete file for the two channels at `sample_rate`.
pub open spec fn wav_file(sample_rate: u32, left: Seq<i16>, right: Seq<i16>) -> Seq<u8> {
    let n = frame_count(left, right);
    header(sample_rate, (36 + 4 * n) as u32, (4 * n) as u32) + payload(left, right, n)
}

/// `s` with the bytes from offset `at` on replaced by `b`.
pub open spec fn overwrite(s: Seq<u8>, at: int, b: Seq<u8>) -> Seq<u8> {
    s.subrange(0, at) + b + s.subrange(at + b.len(), s.len() as int)
}

/// The little-endian 32-bit value stored at offset `i` of `s`.
pub open spec fn u32_at(s: Seq<u8>, i: int) -> int {
    s[i] + 256 * s[i + 1] + 65536 * s[i + 2] + 16777216 * s[i + 3]
}

/// Each frame takes four bytes.
pub proof fn lemma_payload_len(left: Seq<i16>, right: Seq<i16>, n: nat)
    ensures
        payload(left, right, n).len() == 4 * n,
    decreases n,
{
    if n > 0 {
        lemma_payload_len(left, right, (n - 1) as nat);
    }
}

/// Reading four bytes written by `le32` gives back the value.
pub proof fn lemma_le32_round_trip(v: u32)
    ensures
        u32_at(le32(v), 0) == v,
{
    let x = v as int;
    assert(x == 256 * (x / 256) + x % 256) by (nonlinear_arith);
    assert(x / 256 == 256 * (x / 65536) + x / 256 % 256) by (nonlinear_arith);
    assert(x / 65536 == 256 * (x / 16777216) + x / 65536 % 256) by (nonlinear_arith);
}

/// What each field of a header followed by `rest` reads back as.
proof fn lemma_header_fields(sample_rate: u32, riff_size: u32, data_size: u32, rest: Seq<u8>)
    ensures
        ({
            let f = header(sample_rate, riff_size, data_size) + rest;
            &&& f.len() == 44 + rest.len()
            &&& f.subrange(0, 4) == riff_tag()
            &&& u32_at(f, 4) == riff_size
            &&& f.subrange(8, 12) == wave_tag()
            &&& f.subrange(12, 16) == fmt_tag()
            &&& u32_at(f, 24) == sample_rate
            &&& u32_at(f, 28) == (sample_rate * 4) as u32
            &&& u32_at(f, 32) == 4
            &&& f.subrange(36, 40) == data_tag()
            &&& u32_at(f, 40) == data_size
            &&& f.subrange(44, f.len() as int) == rest
        }),
{
    let f = header(sample_rate, riff_size, data_size) + rest;
    lemma_le32_round_trip(riff_size);
    lemma_le32_round_trip(sample_rate);
    lemma_le32_round_trip((sample_rate * 4) as u32);
    lemma_le32_round_trip(4);
    lemma_le32_round_trip(data_size);
    assert(f.subrange(0, 4) =~= riff_tag());
    assert(f.subrange(8, 12) =~= wave_tag());
    assert(f.subrange(12, 16) =~= fmt_tag());
    assert(f.subrange(36, 40) =~= data_tag());
    assert(f.subrange(44, f.len() as int) =~= rest);
}

/// Every file begins with "RIFF", names the form "WAVE", and opens its two
/// subchunks with "fmt " at offset 12 and "data" at offset 36; the RIFF size
/// at offset 4 is the file's length less eight, and the data size at offset 40
/// is its length less the 44 header bytes.
pub proof fn lemma_file_layout(sample_rate: u32, left: Seq<i16>, right: Seq<i16>)
    requires
        frame_count(left, right) <= MAX_FRAMES,
    ensures
        ({
            let f = wav_file(sample_rate, left, right);
            &&& f.subrange(0, 4) == riff_tag()
            &&& f.subrange(8, 12) == wave_tag()
            &&& f.subrange(12, 16) == fmt_tag()
            &&& f.subrange(36, 40) == data_tag()
            &&& u32_at(f, 4) == f.len() - 8
            &&& u32_at(f, 40) == f.len() - 44
        }),
{
    let n = frame_count(left, right);
    lemma_payload_len(left, right, n);
    lemma_header_fields(sample_rate, (36 + 4 * n) as u32, (4 * n) as u32, payload(left, right, n));
}

/// For every valid sample rate, the byte rate at offset 28 is four times the
/// sample rate, and the block align at offset 32 is four.
pub proof fn lemma_rates(sample_rate: u32, left: Seq<i16>, right: Seq<i16>)
    requires
        0 < sample_rate <= MAX_SAMPLE_RATE,
    ensures
        u32_at(wav_file(sample_rate, left, right), 28) == sample_rate * 4,
        u32_at(wav_file(sample_rate, left, right), 32) == 4,
{
    let n = frame_count(left, right);
    lemma_header_fields(sample_rate, (36 + 4 * n) as u32, (4 * n) as u32, payload(left, right, n));
}

/// Encoding `n` stereo frames and reading the header back gives a data size of
/// `4 * n` and the sample rate that was encoded.
pub proof fn lemma_round_trip(sample_rate: u32, left: Seq<i16>, right: Seq<i16>)
    requires
        left.len() == right.len(),
        left.len() <= MAX_FRAMES,
    ensures
        u32_at(wav_file(sample_rate, left, right), 40) == 4 * left.len(),
        u32_at(wav_file(sample_rate, left, right), 24) == sample_rate,
{
    let n = frame_count(left, right);
    lemma_header_fields(sample_rate, (36 + 4 * n) as u32, (4 * n) as u32, payload(left, right, n));
}

/// Overwrites the four bytes at offset `at` of `c` with `val`, least significant first.
fn put_little_endian_u32(c: &mut Vec<u8>, at: usize, val: u32)
    requires
        at + 4 <= old(c).len(),
    ensures
        final(c)@ == overwrite(old(c)@, at as int, le32(val)),
{
    c[at] = (val % 256) as u8;
    c[at + 1] = (val / 256 % 256) as u8;
    c[at + 2] = (val / 65536 % 256) as u8;
    c[at + 3] = (val / 16777216) as u8;
    assert(c@ =~= overwrite(old(c)@, at as int, le32(val)));
}

/// Appends a four-character identifier, as ASCII in reading order.
fn push_tag(c: &mut Vec<u8>, a: u8, b: u8, d: u8, e: u8)
    ensures
        final(c)@ == old(c)@ + seq![a, b, d, e],
{
    c.push(a);
    c.push(b);
    c.push(d);
    c.push(e);
    assert(c@ =~= old(c)@ + seq![a, b, d, e]);
}

/// The signed sample's two's-complement bits as an unsigned value.
fn sample_to_u16(s: i16) -> (r: u16)
    ensures
        r == sample_bits(s),
{
    if s >= 0 {
        s as u16
    } else {
        (s as i32 + 65536) as u16
    }
}


/// The signed sample whose two's-complement bits are `lo + 256 * hi`.
pub open spec fn sample_of(lo: u8, hi: u8) -> i16 {
    let u = lo + 256 * hi;
    if u < 32768 {
        u as i16
    } else {
        (u - 65536) as i16
    }
}

/// Reads a channel's raw bytes as 16-bit little-endian samples; an odd last
/// byte is no whole sample and is left out.
pub fn samples_from_le_bytes(bytes: &Vec<u8>) -> (r: Vec<i16>)
    ensures
        r@.len() == bytes@.len() / 2,
        forall|i: int|
            0 <= i < r@.len() ==> #[trigger] r@[i] == sample_of(bytes@[2 * i], bytes@[2 * i + 1]),
{
    let n: usize = bytes.len() / 2;
    let mut r: Vec<i16> = Vec::new();
    let mut i: usize = 0;
    while i < n
        invariant
            i <= n,
            n == bytes@.len() / 2,
            r@.len() == i,
            forall|j: int|
                0 <= j < i ==> #[trigger] r@[j] == sample_of(bytes@[2 * j], bytes@[2 * j + 1]),
        decreases n - i,
    {
        assert(2 * i + 1 < bytes.len()) by (nonlinear_arith)
            requires
                i < n,
                n == bytes.len() / 2,
        ;
        let lo = bytes[2 * i];
        let hi = bytes[2 * i + 1];
        let u: u32 = lo as u32 + 256 * hi as u32;
        let s: i16 = if u < 32768 {
            u as i16
        } else {
            (u as i32 - 65536) as i16
        };
        r.push(s);
        i = i + 1;
    }
    r
}

/// The largest sample rate whose byte rate (four bytes per frame) fits in 32 bits.
pub const MAX_SAMPLE_RATE: u32 = 1073741823;

/// The most frames whose file size, less the eight bytes before the RIFF size
/// field, fits in 32 bits.
pub const MAX_FRAMES: usize = 1073741814;

/// A stereo 16-bit PCM encoder: it holds the two channels' samples and the
/// sample rate, and builds the bytes of a WAVE file in its buffer.
pub struct WavFormat {
    l_channel: Vec<i16>,
    r_channel: Vec<i16>,
    contents: Vec<u8>,
    sample_rate: u32,
}

impl WavFormat {
    /// The left channel's samples.
    pub closed spec fn left(&self) -> Seq<i16> {
        self.l_channel@
    }

    /// The right channel's samples.
    pub closed spec fn right(&self) -> Seq<i16> {
        self.r_channel@
    }

    /// The sample rate, in frames per second.
    pub closed spec fn rate(&self) -> u32 {
        self.sample_rate
    }

    /// The bytes built so far.
    pub closed spec fn buffer(&self) -> Seq<u8> {
        self.contents@
    }

    /// The sample rate is positive and small enough for the byte rate to fit
    /// in 32 bits, and the frames are few enough for the sizes to fit too.
    pub open spec fn wf(&self) -> bool {
        0 < self.rate() <= MAX_SAMPLE_RATE && frame_count(self.left(), self.right())
            <= MAX_FRAMES
    }

    /// Binds the two channels and the sample rate; the buffer starts empty.
    pub fn new(l_channel: Vec<i16>, r_channel: Vec<i16>, sample_rate: u32) -> (r: WavFormat)
        requires
            0 < sample_rate <= MAX_SAMPLE_RATE,
            frame_count(l_channel@, r_channel@) <= MAX_FRAMES,
        ensures
            r.wf(),
            r.left() == l_channel@,
            r.right() == r_channel@,
            r.rate() == sample_rate,
            r.buffer() == Seq::<u8>::empty(),
    {
        WavFormat { l_channel, r_channel, contents: Vec::new(), sample_rate }
    }

    /// Appends the 44-byte header, with both size fields zero.
    pub fn write_header(&mut self)
        requires
            old(self).wf(),
        ensures
            final(self).left() == old(self).left(),
            final(self).right() == old(self).right(),
            final(self).rate() == old(self).rate(),
            final(self).buffer() == old(self).buffer() + header(old(self).rate(), 0, 0),
    {
        // two channels of two bytes each
        let byte_rate: u32 = self.sample_rate * 4;
        let block_align: u32 = 4;
        let c = &mut self.contents;

        // the file size less eight is known only at the end
        push_tag(c, 0x52, 0x49, 0x46, 0x46);
        write_little_endian_u32(c, 0);
        push_tag(c, 0x57, 0x41, 0x56, 0x45);
        assert(c@ =~= old(self).contents@ + riff_tag() + le32(0) + wave_tag());

        push_tag(c, 0x66, 0x6d, 0x74, 0x20);
        write_little_endian_u32(c, 16);
        write_little_endian_u16(c, 1);
        write_little_endian_u16(c, 2);
        write_little_endian_u32(c, self.sample_rate);
        write_little_endian_u32(c, byte_rate);
        write_little_endian_u32(c, block_align);

        // the payload size is known only at the end
        push_tag(c, 0x64, 0x61, 0x74, 0x61);
        write_little_endian_u32(c, 0);
        assert(self.contents@ =~= old(self).contents@ + header(self.sample_rate, 0, 0));
    }

    /// Appends the frames, each the left sample then the right one, two bytes
    /// each, least significant first, up to the end of the shorter channel.
    pub fn encode_samples(&mut self)
        requires
            old(self).wf(),
        ensures
            final(self).left() == old(self).left(),
            final(self).right() == old(self).right(),
            final(self).rate() == old(self).rate(),
            final(self).buffer() == old(self).buffer() + payload(
                old(self).left(),
                old(self).right(),
                frame_count(old(self).left(), old(self).right()),
            ),
    {
        let n: usize = if self.l_channel.len() <= self.r_channel.len() {
            self.l_channel.len()
        } else {
            self.r_channel.len()
        };
        let mut i: usize = 0;
        while i < n
            invariant
                i <= n,
                n == frame_count(self.l_channel@, self.r_channel@),
                self.l_channel == old(self).l_channel,
                self.r_channel == old(self).r_channel,
                self.sample_rate == old(self).sample_rate,
                self.contents@ == old(self).contents@ + payload(
                    self.l_channel@,
                    self.r_channel@,
                    i as nat,
                ),
            decreases n - i,
        {
            let l = sample_to_u16(self.l_channel[i]);
            let r = sample_to_u16(self.r_channel[i]);
            write_little_endian_u16(&mut self.contents, l);
            write_little_endian_u16(&mut self.contents, r);
            i = i + 1;
            assert(self.contents@ =~= old(self).contents@ + payload(
                self.l_channel@,
                self.r_channel@,
                i as nat,
            ));
        }
    }

    /// Stores the sizes that the buffer's length now fixes: the length less
    /// eight at offset 4, and the length less the header's 44 bytes at offset 40.
    pub fn finalize(&mut self)
        requires
            44 <= old(self).buffer().len() <= 0xFFFF_FFFF + 8,
        ensures
            final(self).left() == old(self).left(),
            final(self).right() == old(self).right(),
            final(self).rate() == old(self).rate(),
            final(self).buffer() == overwrite(
                overwrite(old(self).buffer(), 4, le32((old(self).buffer().len() - 8) as u32)),
                40,
                le32((old(self).buffer().len() - 44) as u32),
            ),
    {
        let len = self.contents.len();
        let riff_size = (len - 8) as u32;
        let data_size = (len - 44) as u32;
        put_little_endian_u32(&mut self.contents, 4, riff_size);
        put_little_endian_u32(&mut self.contents, 40, data_size);
    }

    /// Builds the complete file in the buffer, replacing what it held: the
    /// header, the frames up to the end of the shorter channel, and both sizes.
    pub fn write(&mut self)
        requires
            old(self).wf(),
        ensures
            final(self).left() == old(self).left(),
            final(self).right() == old(self).right(),
            final(self).rate() == old(self).rate(),
            final(self).buffer() == wav_file(old(self).rate(), old(self).left(), old(self).right()),
    {
        self.contents = Vec::new();
        self.write_header();
        self.encode_samples();
        let ghost n = frame_count(self.left(), self.right());
        let ghost body = payload(self.left(), self.right(), n);
        proof {
            lemma_payload_len(self.left(), self.right(), n);
            assert(self.buffer() =~= header(self.rate(), 0, 0) + body);
        }
        self.finalize();
        assert(self.buffer() =~= wav_file(self.rate(), self.left(), self.right()));
    }

    /// The bytes built so far.
    pub fn contents(&self) -> (r: &Vec<u8>)
        ensures
            r@ == self.buffer(),
    {
        &self.contents
    }

    /// The sample rate, in frames per second.
    pub fn sample_rate(&self) -> (r: u32)
        ensures
            r == self.rate(),
    {
        self.sample_rate
    }
}

} // verus!
