//! Splitting an Opus packet into its frames (RFC 6716, sections 3.1 to 3.4).
//!
//! Code 3 packets with variable frame sizes carry a length field for every
//! frame but the last, whose length is what remains. The self-delimiting
//! framing of RFC 6716 Appendix B, which also delimits the last frame, is not
//! handled here.
use vstd::prelude::*;
use vstd::slice::slice_subrange;
use crate::config::{config_from_index, config_spec, Config, FrameConfig};
use crate::length::{frame_length_spec, parse_frame_length};

verus! {

/// The largest frame the format allows, in bytes.
pub const MAX_FRAME_BYTES: usize = 1275;

/// The longest audio a packet may carry, in microseconds.
pub const MAX_PACKET_US: u32 = 120000;

/// Layout of the frames in a packet, from the two low bits of the TOC byte.
#[derive(Clone, Copy, Debug, PartialEq, Eq, Structural)]
pub enum Code {
    /// One frame.
    Code0,
    /// Two frames of equal size.
    Code1,
    /// Two frames, the first with an explicit length.
    Code2,
    /// Any number of frames (up to 120 ms of audio), of constant or
    /// variable size, with optional padding.
    Code3,
}

/// The code that the two low bits of `v` select.
pub open spec fn code_spec(v: int) -> Code {
    let c = v % 4;
    if c == 0 {
        Code::Code0
    } else if c == 1 {
        Code::Code1
    } else if c == 2 {
        Code::Code2
    } else {
        Code::Code3
    }
}

impl From<u8> for Code {
    /// The code selected by the two low bits of `value`.
    fn from(value: u8) -> (r: Code) {
        let c = value % 4;
        if c == 0 {
            Code::Code0
        } else if c == 1 {
            Code::Code1
        } else if c == 2 {
            Code::Code2
        } else {
            Code::Code3
        }
    }
}

impl vstd::std_specs::convert::FromSpecImpl<u8> for Code {
    open spec fn obeys_from_spec() -> bool {
        true
    }

    open spec fn from_spec(v: u8) -> Code {
        code_spec(v as int)
    }
}

/// Summary of a parsed packet.
#[derive(Clone, Copy, Debug, PartialEq, Eq, Structural)]
pub struct Info {
    /// Configuration shared by all frames of the packet.
    pub frame_config: FrameConfig,
    /// For a code 3 packet, whether its frames have variable sizes; `None`
    /// for the other codes.
    pub is_vbr: Option<bool>,
    /// Number of frames in the packet; zero only for a code 3 packet that
    /// declares no frames, which only lenient parsing accepts.
    pub num_frames: usize,
    /// Layout of the packet.
    pub code_no: Code,
}

/// Why a packet was rejected (RFC 6716, section 3.4).
#[derive(Clone, Copy, Debug, PartialEq, Eq, Structural)]
pub enum Error {
    /// The packet is empty.
    NoTOC,
    /// A frame is longer than 1275 bytes (strict parsing only).
    FrameTooBig,
    /// A code 1 packet whose length is odd.
    NonOddLength,
    /// The packet is too short for a length field, a frame or a header.
    PacketTooSmall,
    /// A declared length or padding runs past the end of the packet.
    LengthOverflow,
    /// A code 3 packet holds more than 120 ms of audio (strict parsing only).
    TooMuchAudio,
    /// The data of a constant-size code 3 packet does not split into its
    /// frames evenly.
    NonMultipleRemainder,
    /// A code 3 packet declares no frames (strict parsing only).
    NoAudio,
}

/// What [`parse`] returns besides the frames.
pub struct Internal<'a> {
    /// Summary of the packet.
    pub info: Info,
    /// For a padded packet, the total padding (its length bytes included)
    /// and the padding data, `None` when there is none; `None` for an
    /// unpadded packet.
    pub padding: Option<(usize, Option<&'a [u8]>)>,
}

/// The frame layout of a packet in byte offsets.
pub struct Layout {
    /// Summary of the packet.
    pub info: Info,
    /// Start and length of each frame.
    pub frames: Vec<(usize, usize)>,
    /// Bytes that belong neither to a frame nor to the padding: the TOC
    /// byte, the frame count byte and the frame length fields.
    pub header_len: usize,
    /// Total padding (its length bytes included) and the number of padding
    /// data bytes, which end the packet; `None` for an unpadded packet.
    pub padding: Option<(usize, usize)>,
}

/// The frame layout of a packet, as mathematical integers.
pub struct LayoutSpec {
    pub info: Info,
    pub frames: Seq<(int, int)>,
    pub header_len: int,
    pub padding: Option<(int, int)>,
}

pub open spec fn range_view(x: (usize, usize)) -> (int, int) {
    (x.0 as int, x.1 as int)
}

impl View for Layout {
    type V = LayoutSpec;

    open spec fn view(&self) -> LayoutSpec {
        LayoutSpec {
            info: self.info,
            frames: self.frames@.map_values(|x: (usize, usize)| range_view(x)),
            header_len: self.header_len as int,
            padding: match self.padding {
                None => None,
                Some((t, d)) => Some((t as int, d as int)),
            },
        }
    }
}

impl Layout {
    /// Every frame lies inside a packet of `n` bytes.
    pub open spec fn wf(&self, n: int) -> bool {
        &&& forall|i: int|
            0 <= i < self.frames@.len() ==> self.frames@[i].0 + self.frames@[i].1 <= n
        &&& self.padding matches Some((t, d)) ==> d <= t <= n
    }
}

/// The configuration part of a TOC byte.
pub open spec fn frame_config_spec(toc: u8) -> FrameConfig {
    FrameConfig { config: config_spec((toc / 8) as int), is_stereo: (toc / 4) % 2 == 1 }
}

/// A layout without padding.
pub open spec fn plain_layout(
    fc: FrameConfig,
    code: Code,
    is_vbr: Option<bool>,
    frames: Seq<(int, int)>,
    header_len: int,
) -> LayoutSpec {
    LayoutSpec {
        info: Info { frame_config: fc, is_vbr, num_frames: frames.len() as usize, code_no: code },
        frames,
        header_len,
        padding: None,
    }
}

/// Reads the padding length chain from byte `i` on: a byte of 255 stands for
/// 254 padding bytes and is followed by another length byte; any other byte
/// `v` stands for `v` padding bytes and ends the chain. Gives the number of
/// length bytes and of padding data bytes, or `None` when the packet ends
/// inside the chain.
pub open spec fn pad_chain(p: Seq<u8>, i: int) -> Option<(int, int)>
    decreases p.len() - i,
{
    if i < 0 || i >= p.len() {
        None
    } else if p[i] == 255 {
        match pad_chain(p, i + 1) {
            None => None,
            Some((a, b)) => Some((a + 1, b + 254)),
        }
    } else {
        Some((1, p[i] as int))
    }
}

/// A padding chain has at least one length byte.
pub proof fn lemma_pad_chain_positive(p: Seq<u8>, i: int)
    ensures
        pad_chain(p, i) matches Some((a, b)) ==> a >= 1 && b >= 0,
    decreases p.len() - i,
{
    if 0 <= i < p.len() && p[i] == 255 {
        lemma_pad_chain_positive(p, i + 1);
    }
}

/// `o` with `a` length bytes and `b` padding bytes added.
pub open spec fn shift_chain(o: Option<(int, int)>, a: int, b: int) -> Option<(int, int)> {
    match o {
        None => None,
        Some((x, y)) => Some((x + a, y + b)),
    }
}

/// Reads `count` length-prefixed frames from `pos`, none of which may reach
/// past `end`, after the frames `acc` and `hdr` length bytes already read.
/// Gives all frames, the position after the last one and the number of
/// length bytes, or `None` when a length field or a frame does not fit.
pub open spec fn vbr_frames(
    p: Seq<u8>,
    pos: int,
    end: int,
    count: nat,
    acc: Seq<(int, int)>,
    hdr: int,
) -> Option<(Seq<(int, int)>, int, int)>
    decreases count,
{
    if count == 0 {
        Some((acc, pos, hdr))
    } else {
        match frame_length_spec(p.subrange(pos, end)) {
            None => None,
            Some((l, k)) => {
                if pos + k + l > end {
                    None
                } else {
                    vbr_frames(p, pos + k + l, end, (count - 1) as nat, acc.push((pos + k, l as int)), hdr + k)
                }
            },
        }
    }
}

/// `m` frames of `len` bytes each, one after the other from `start`.
pub open spec fn cbr_frames(start: int, m: int, len: int) -> Seq<(int, int)> {
    Seq::new(m as nat, |i: int| (start + i * len, len))
}

/// A code 3 layout.
pub open spec fn code3_layout(
    fc: FrameConfig,
    vbr: bool,
    frames: Seq<(int, int)>,
    header_len: int,
    padding: Option<(int, int)>,
) -> LayoutSpec {
    LayoutSpec {
        info: Info {
            frame_config: fc,
            is_vbr: Some(vbr),
            num_frames: frames.len() as usize,
            code_no: Code::Code3,
        },
        frames,
        header_len,
        padding,
    }
}

/// What parsing the code 3 packet `p` gives.
pub open spec fn code3_spec(p: Seq<u8>, strict: bool) -> Result<LayoutSpec, Error> {
    let n = p.len() as int;
    if n < 2 {
        Err(Error::PacketTooSmall)
    } else {
        let fc = frame_config_spec(p[0]);
        let vbr = p[1] >= 128;
        let has_pad = (p[1] / 64) % 2 == 1;
        let m = (p[1] % 64) as int;
        if strict && m == 0 {
            Err(Error::NoAudio)
        } else if strict && fc.config.framesize_us * m > 120000 {
            Err(Error::TooMuchAudio)
        } else {
            let chain = if has_pad { pad_chain(p, 2) } else { Some((0int, 0int)) };
            match chain {
                None => Err(Error::LengthOverflow),
                Some((np, pl)) => {
                    if np + pl > n - 2 {
                        Err(Error::LengthOverflow)
                    } else {
                        let start = 2 + np;
                        let end = n - pl;
                        let padding = if has_pad { Some((np + pl, pl)) } else { None };
                        if m == 0 {
                            if end != start {
                                Err(Error::NonMultipleRemainder)
                            } else {
                                Ok(code3_layout(fc, vbr, seq![], 2, padding))
                            }
                        } else if vbr {
                            match vbr_frames(p, start, end, (m - 1) as nat, seq![], 0) {
                                None => Err(Error::PacketTooSmall),
                                Some((fs, pos, h)) => {
                                    if strict && end - pos > 1275 {
                                        Err(Error::FrameTooBig)
                                    } else {
                                        Ok(code3_layout(fc, vbr, fs.push((pos, end - pos)), 2 + h, padding))
                                    }
                                },
                            }
                        } else {
                            let r = end - start;
                            if r % m != 0 {
                                Err(Error::NonMultipleRemainder)
                            } else if strict && r / m > 1275 {
                                Err(Error::FrameTooBig)
                            } else {
                                Ok(code3_layout(fc, vbr, cbr_frames(start, m, r / m), 2, padding))
                            }
                        }
                    }
                },
            }
        }
    }
}

/// What parsing packet `p` gives, strictly or leniently.
pub open spec fn parse_spec(p: Seq<u8>, strict: bool) -> Result<LayoutSpec, Error> {
    let n = p.len() as int;
    if n == 0 {
        Err(Error::NoTOC)
    } else {
        let fc = frame_config_spec(p[0]);
        let code = p[0] % 4;
        if code == 0 {
            if strict && n - 1 > 1275 {
                Err(Error::FrameTooBig)
            } else {
                Ok(plain_layout(fc, Code::Code0, None, seq![(1, n - 1)], 1))
            }
        } else if code == 1 {
            let h = (n - 1) / 2;
            if n % 2 != 0 {
                Err(Error::NonOddLength)
            } else if strict && n - 1 - h > 1275 {
                Err(Error::FrameTooBig)
            } else {
                Ok(plain_layout(fc, Code::Code1, None, seq![(1, h), (1 + h, n - 1 - h)], 1))
            }
        } else if code == 2 {
            match frame_length_spec(p.subrange(1, n)) {
                None => Err(Error::PacketTooSmall),
                Some((l0, k0)) => {
                    let l = l0 as int;
                    let k = k0 as int;
                    if n - 1 - k < l {
                        Err(Error::LengthOverflow)
                    } else if strict && n - 1 - k - l > 1275 {
                        Err(Error::FrameTooBig)
                    } else {
                        Ok(
                            plain_layout(
                                fc,
                                Code::Code2,
                                None,
                                seq![(1 + k, l), (1 + k + l, n - 1 - k - l)],
                                1 + k,
                            ),
                        )
                    }
                },
            }
        } else {
            code3_spec(p, strict)
        }
    }
}

/// Works out the frame layout of `packet`. With `strict`, the packet must
/// also respect the frame size, duration and frame count limits.
pub fn layout(packet: &[u8], strict: bool) -> (r: Result<Layout, Error>)
    ensures
        match parse_spec(packet@, strict) {
            Ok(l) => r matches Ok(x) && x@ == l && x.wf(packet@.len() as int),
            Err(e) => r matches Err(x) && x == e,
        },
{
    let n = packet.len();
    if n == 0 {
        return Err(Error::NoTOC);
    }
    let toc = packet[0];
    let fc = FrameConfig { config: config_from_index(toc / 8), is_stereo: (toc / 4) % 2 == 1 };
    let code = toc % 4;
    let mut frames: Vec<(usize, usize)> = Vec::new();
    if code == 0 {
        if strict && n - 1 > MAX_FRAME_BYTES {
            return Err(Error::FrameTooBig);
        }
        frames.push((1, n - 1));
        let r = Layout {
            info: Info { frame_config: fc, is_vbr: None, num_frames: 1, code_no: Code::Code0 },
            frames,
            header_len: 1,
            padding: None,
        };
        assert(r@.frames =~= seq![(1int, n - 1)]);
        Ok(r)
    } else if code == 1 {
        if n % 2 != 0 {
            return Err(Error::NonOddLength);
        }
        let h = (n - 1) / 2;
        if strict && n - 1 - h > MAX_FRAME_BYTES {
            return Err(Error::FrameTooBig);
        }
        frames.push((1, h));
        frames.push((1 + h, n - 1 - h));
        let r = Layout {
            info: Info { frame_config: fc, is_vbr: None, num_frames: 2, code_no: Code::Code1 },
            frames,
            header_len: 1,
            padding: None,
        };
        assert(r@.frames =~= seq![(1int, h as int), (1 + h, n - 1 - h)]);
        Ok(r)
    } else if code == 2 {
        let (l, k) = match parse_frame_length(slice_subrange(packet, 1, n)) {
            None => {
                return Err(Error::PacketTooSmall);
            },
            Some(x) => x,
        };
        if n - 1 - k < l {
            return Err(Error::LengthOverflow);
        }
        if strict && n - 1 - k - l > MAX_FRAME_BYTES {
            return Err(Error::FrameTooBig);
        }
        frames.push((1 + k, l));
        frames.push((1 + k + l, n - 1 - k - l));
        let r = Layout {
            info: Info { frame_config: fc, is_vbr: None, num_frames: 2, code_no: Code::Code2 },
            frames,
            header_len: 1 + k,
            padding: None,
        };
        assert(r@.frames =~= seq![(1 + k, l as int), (1 + k + l, n - 1 - k - l)]);
        Ok(r)
    } else {
        layout_code3(packet, strict, fc)
    }
}

/// Reads the padding length chain of a code 3 packet; gives the number of
/// length bytes and of padding data bytes.
fn read_padding(packet: &[u8]) -> (r: Result<(usize, usize), Error>)
    requires
        packet@.len() >= 2,
    ensures
        match pad_chain(packet@, 2) {
            Some((np, pl)) => if np + pl > packet@.len() - 2 {
                r == Err::<(usize, usize), Error>(Error::LengthOverflow)
            } else {
                r == Ok::<(usize, usize), Error>((np as usize, pl as usize))
            },
            None => r == Err::<(usize, usize), Error>(Error::LengthOverflow),
        },
        r matches Ok((np, pl)) ==> np + pl <= packet@.len() - 2,
{
    let n = packet.len();
    let mut np: usize = 0;
    let mut pl: usize = 0;
    let mut room: usize = n - 2;
    loop
        invariant
            n == packet@.len(),
            n >= 2,
            np + pl + room == n - 2,
            pad_chain(packet@, 2) == shift_chain(pad_chain(packet@, 2 + np), np as int, pl as int),
        decreases room,
    {
        proof {
            lemma_pad_chain_positive(packet@, 2 + np);
            if 2 + np < n {
                lemma_pad_chain_positive(packet@, 3 + np);
            }
        }
        if room == 0 || 2 + np >= n {
            return Err(Error::LengthOverflow);
        }
        let b = packet[2 + np];
        if b == 255 {
            if room < 255 {
                return Err(Error::LengthOverflow);
            }
            np = np + 1;
            pl = pl + 254;
            room = room - 255;
        } else {
            if room - 1 < b as usize {
                return Err(Error::LengthOverflow);
            }
            np = np + 1;
            pl = pl + b as usize;
            return Ok((np, pl));
        }
    }
}

/// The code 3 part of [`layout`].
fn layout_code3(packet: &[u8], strict: bool, fc: FrameConfig) -> (r: Result<Layout, Error>)
    requires
        packet@.len() >= 1,
        packet@[0] % 4 == 3,
        fc == frame_config_spec(packet@[0]),
    ensures
        match code3_spec(packet@, strict) {
            Ok(l) => r matches Ok(x) && x@ == l && x.wf(packet@.len() as int),
            Err(e) => r matches Err(x) && x == e,
        },
{
    let n = packet.len();
    if n < 2 {
        return Err(Error::PacketTooSmall);
    }
    let fcb = packet[1];
    let vbr = fcb >= 128;
    let has_pad = (fcb / 64) % 2 == 1;
    let m = (fcb % 64) as usize;
    if strict && m == 0 {
        return Err(Error::NoAudio);
    }
    assert(fc.config.framesize_us <= 60000) by {
        crate::config::lemma_config_framesize((packet@[0] / 8) as int);
    }
    assert(fc.config.framesize_us * (m as u32) <= 60000 * 63) by (nonlinear_arith)
        requires fc.config.framesize_us <= 60000, m <= 63;
    if strict && fc.config.framesize_us * (m as u32) > MAX_PACKET_US {
        return Err(Error::TooMuchAudio);
    }
    let (np, pl) = if has_pad {
        match read_padding(packet) {
            Ok(x) => x,
            Err(e) => {
                return Err(e);
            },
        }
    } else {
        (0, 0)
    };
    proof {
        lemma_pad_chain_positive(packet@, 2);
    }
    let start = 2 + np;
    let end = n - pl;
    let padding = if has_pad { Some((np + pl, pl)) } else { None };
    let mut frames: Vec<(usize, usize)> = Vec::new();
    let mut header_len: usize = 2;
    let ghost pad_spec: Option<(int, int)> = if has_pad { Some(((np + pl) as int, pl as int)) } else { None };
    if m == 0 {
        if end != start {
            return Err(Error::NonMultipleRemainder);
        }
        assert(frames@.map_values(|x: (usize, usize)| range_view(x)) =~= seq![]);
    } else if vbr {
        let mut pos = start;
        let mut i: usize = 0;
        let mut hdr: usize = 0;
        assert(frames@.map_values(|x: (usize, usize)| range_view(x)) =~= seq![]);
        assert(code3_spec(packet@, strict) == match vbr_frames(packet@, start as int, end as int, (m - 1) as nat, seq![], 0) {
            None => Err(Error::PacketTooSmall),
            Some((fs, p, h)) => if strict && end - p > 1275 {
                Err(Error::FrameTooBig)
            } else {
                Ok(code3_layout(fc, vbr, fs.push((p, end - p)), 2 + h, pad_spec))
            },
        });
        while i < m - 1
            invariant
                n == packet@.len(),
                start <= pos <= end <= n,
                1 <= m <= 63,
                i <= m - 1,
                hdr <= pos - start,
                start >= 2,
                code3_spec(packet@, strict) == match vbr_frames(packet@, start as int, end as int, (m - 1) as nat, seq![], 0) {
                    None => Err(Error::PacketTooSmall),
                    Some((fs, p, h)) => if strict && end - p > 1275 {
                        Err(Error::FrameTooBig)
                    } else {
                        Ok(code3_layout(fc, vbr, fs.push((p, end - p)), 2 + h, pad_spec))
                    },
                },
                vbr_frames(packet@, start as int, end as int, (m - 1) as nat, seq![], 0)
                    == vbr_frames(packet@, pos as int, end as int, (m - 1 - i) as nat,
                        frames@.map_values(|x: (usize, usize)| range_view(x)), hdr as int),
                forall|j: int| 0 <= j < frames@.len() ==> frames@[j].0 + frames@[j].1 <= pos,
            decreases m - 1 - i,
        {
            let (l, k) = match parse_frame_length(slice_subrange(packet, pos, end)) {
                None => {
                    return Err(Error::PacketTooSmall);
                },
                Some(x) => x,
            };
            if l > end - pos - k {
                return Err(Error::PacketTooSmall);
            }
            let ghost old_frames = frames@;
            frames.push((pos + k, l));
            assert(frames@.map_values(|x: (usize, usize)| range_view(x)) =~= old_frames.map_values(
                |x: (usize, usize)| range_view(x),
            ).push((pos + k, l as int)));
            pos = pos + k + l;
            hdr = hdr + k;
            i = i + 1;
        }
        if strict && end - pos > MAX_FRAME_BYTES {
            return Err(Error::FrameTooBig);
        }
        let ghost old_frames = frames@;
        frames.push((pos, end - pos));
        assert(frames@.map_values(|x: (usize, usize)| range_view(x)) =~= old_frames.map_values(
            |x: (usize, usize)| range_view(x),
        ).push((pos as int, end - pos)));
        header_len = 2 + hdr;
        assert(forall|j: int| 0 <= j < frames@.len() ==> frames@[j].0 + frames@[j].1 <= n);
    } else {
        let r = end - start;
        if r % m != 0 {
            return Err(Error::NonMultipleRemainder);
        }
        let len = r / m;
        if strict && len > MAX_FRAME_BYTES {
            return Err(Error::FrameTooBig);
        }
        assert(r == m * len) by (nonlinear_arith)
            requires r % m == 0, len == r / m, m > 0;
        let mut pos = start;
        let mut i: usize = 0;
        assert(frames@.map_values(|x: (usize, usize)| range_view(x)) =~= cbr_frames(start as int, 0, len as int));
        assert(code3_spec(packet@, strict) == Ok::<LayoutSpec, Error>(
            code3_layout(fc, vbr, cbr_frames(start as int, m as int, len as int), 2, pad_spec)));
        while i < m
            invariant
                code3_spec(packet@, strict) == Ok::<LayoutSpec, Error>(
                    code3_layout(fc, vbr, cbr_frames(start as int, m as int, len as int), 2, pad_spec)),
                n == packet@.len(),
                end <= n,
                r == end - start,
                r == m * len,
                i <= m,
                pos == start + i * len,
                frames@.map_values(|x: (usize, usize)| range_view(x)) =~= cbr_frames(start as int, i as int, len as int),
                forall|j: int| 0 <= j < frames@.len() ==> frames@[j].0 + frames@[j].1 <= pos,
            decreases m - i,
        {
            assert(pos + len <= end) by (nonlinear_arith)
                requires pos == start + i * len, i < m, r == m * len, r == end - start;
            let ghost old_frames = frames@;
            frames.push((pos, len));
            assert(frames@.map_values(|x: (usize, usize)| range_view(x)) =~= old_frames.map_values(
                |x: (usize, usize)| range_view(x),
            ).push((pos as int, len as int)));
            assert(cbr_frames(start as int, i + 1, len as int) =~= cbr_frames(start as int, i as int, len as int).push((pos as int, len as int)));
            pos = pos + len;
            i = i + 1;
            assert(pos == start + i * len) by (nonlinear_arith)
                requires pos == start + (i - 1) * len + len;
        }
    }
    assert(code3_spec(packet@, strict) == Ok::<LayoutSpec, Error>(code3_layout(
        fc, vbr, frames@.map_values(|x: (usize, usize)| range_view(x)), header_len as int, pad_spec)));
    let num_frames = frames.len();
    let r = Layout {
        info: Info { frame_config: fc, is_vbr: Some(vbr), num_frames, code_no: Code::Code3 },
        frames,
        header_len,
        padding,
    };
    Ok(r)
}

/// `d` is the padding that the layout `l` of packet `p` describes.
pub open spec fn padding_matches(d: Option<(usize, Option<&[u8]>)>, l: Option<(int, int)>, p: Seq<u8>) -> bool {
    match (d, l) {
        (None, None) => true,
        (Some((t, data)), Some((lt, ld))) => t == lt && if ld == 0 {
            data is None
        } else {
            data matches Some(x) && x@ == p.subrange(p.len() - ld, p.len() as int)
        },
        _ => false,
    }
}

/// Frames `before.len()..` of `out` are the bytes of packet `p` that the
/// ranges `fs` describe, and `out` starts with `before`.
pub open spec fn frames_appended(before: Seq<&[u8]>, out: Seq<&[u8]>, fs: Seq<(int, int)>, p: Seq<u8>) -> bool {
    &&& out.len() == before.len() + fs.len()
    &&& out.subrange(0, before.len() as int) == before
    &&& forall|i: int|
        0 <= i < fs.len() ==> (#[trigger] out[before.len() + i])@ == p.subrange(fs[i].0, fs[i].0 + fs[i].1)
}

/// Parses an Opus packet that does not use self-delimiting framing. On
/// success the packet's frames, borrowed from `packet`, are appended to
/// `frames`; on failure `frames` is left as it was. `frames` is never
/// cleared: a caller that reuses it clears it between packets.
pub fn parse<'a>(frames: &mut Vec<&'a [u8]>, packet: &'a [u8], strict: bool) -> (r: Result<Internal<'a>, Error>)
    ensures
        match parse_spec(packet@, strict) {
            Ok(l) => r matches Ok(x) && x.info == l.info && padding_matches(x.padding, l.padding, packet@)
                && frames_appended(old(frames)@, final(frames)@, l.frames, packet@),
            Err(e) => r matches Err(x) && x == e && final(frames)@ == old(frames)@,
        },
{
    let lay = match layout(packet, strict) {
        Ok(x) => x,
        Err(e) => {
            return Err(e);
        },
    };
    let n = packet.len();
    let ghost start = frames@;
    let ghost fs = lay@.frames;
    let mut i: usize = 0;
    while i < lay.frames.len()
        invariant
            n == packet@.len(),
            lay.wf(n as int),
            fs == lay@.frames,
            i <= lay.frames@.len(),
            frames@.len() == start.len() + i,
            frames@.subrange(0, start.len() as int) == start,
            forall|j: int|
                0 <= j < i ==> (#[trigger] frames@[start.len() + j])@ == packet@.subrange(
                    fs[j].0,
                    fs[j].0 + fs[j].1,
                ),
        decreases lay.frames@.len() - i,
    {
        let (s, l) = lay.frames[i];
        let f = slice_subrange(packet, s, s + l);
        let ghost before = frames@;
        frames.push(f);
        assert(frames@.subrange(0, start.len() as int) =~= before.subrange(0, start.len() as int));
        assert forall|j: int| 0 <= j < i + 1 implies (#[trigger] frames@[start.len() + j])@ == packet@.subrange(
            fs[j].0,
            fs[j].0 + fs[j].1,
        ) by {
            if j < i {
                assert(frames@[start.len() + j] == before[start.len() + j]);
            }
        }
        i = i + 1;
    }
    let padding = match lay.padding {
        None => None,
        Some((total, data_len)) => {
            if data_len == 0 {
                Some((total, None))
            } else {
                Some((total, Some(slice_subrange(packet, n - data_len, n))))
            }
        },
    };
    Ok(Internal { info: lay.info, padding })
}

} // verus!
