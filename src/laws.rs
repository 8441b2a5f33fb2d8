//! Properties of packet parsing, proved over [`parse_spec`], which
//! [`crate::parser::parse`] and [`crate::parser::layout`] follow exactly.
use vstd::prelude::*;
use crate::length::frame_length_spec;
use crate::parser::LayoutSpec;
use crate::parser::{cbr_frames, lemma_pad_chain_positive, pad_chain, parse_spec, shift_chain, vbr_frames, Error};

verus! {

/// Total length of the frames `fs`.
pub open spec fn lens_sum(fs: Seq<(int, int)>) -> int
    decreases fs.len(),
{
    if fs.len() == 0 {
        0
    } else {
        lens_sum(fs.drop_last()) + fs.last().1
    }
}

/// Bytes that a padding description accounts for.
pub open spec fn padding_total(d: Option<(int, int)>) -> int {
    match d {
        None => 0,
        Some((t, _)) => t,
    }
}

/// The bytes of a code 3 packet left for frames once the TOC byte, the frame
/// count byte and the padding are taken away, when the padding fits.
pub open spec fn code3_remainder(p: Seq<u8>) -> Option<int> {
    let has_pad = (p[1] / 64) % 2 == 1;
    let chain = if has_pad { pad_chain(p, 2) } else { Some((0int, 0int)) };
    match chain {
        None => None,
        Some((np, pl)) => if np + pl > p.len() - 2 { None } else { Some(p.len() - 2 - np - pl) },
    }
}

proof fn lemma_lens_sum_push(fs: Seq<(int, int)>, x: (int, int))
    ensures
        lens_sum(fs.push(x)) == lens_sum(fs) + x.1,
{
    assert(fs.push(x).drop_last() =~= fs);
}

proof fn lemma_vbr_frames(p: Seq<u8>, pos: int, end: int, count: nat, acc: Seq<(int, int)>, hdr: int)
    requires
        pos <= end,
    ensures
        vbr_frames(p, pos, end, count, acc, hdr) matches Some((fs, e, h)) ==> {
            &&& pos <= e <= end
            &&& fs.len() == acc.len() + count
            &&& lens_sum(fs) - lens_sum(acc) + h - hdr == e - pos
        },
    decreases count,
{
    if count > 0 {
        if let Some((l, k)) = frame_length_spec(p.subrange(pos, end)) {
            if pos + k + l <= end {
                lemma_lens_sum_push(acc, (pos + k, l as int));
                lemma_vbr_frames(p, pos + k + l, end, (count - 1) as nat, acc.push((pos + k, l as int)), hdr + k);
            }
        }
    }
}

proof fn lemma_cbr_sum(start: int, m: int, len: int)
    requires
        m >= 0,
    ensures
        lens_sum(cbr_frames(start, m, len)) == m * len,
    decreases m,
{
    if m == 0 {
        assert(m * len == 0);
    } else {
        assert(cbr_frames(start, m, len).drop_last() =~= cbr_frames(start, m - 1, len));
        lemma_cbr_sum(start, m - 1, len);
        assert(cbr_frames(start, m, len).last().1 == len);
        assert(m * len == (m - 1) * len + len) by (nonlinear_arith);
    }
}

/// Parsing is a function of the packet's bytes and the mode alone: two parses
/// of the same bytes give the same summary, frame ranges and padding.
pub proof fn lemma_parse_deterministic(p: Seq<u8>, q: Seq<u8>, strict: bool)
    requires
        p == q,
    ensures
        parse_spec(p, strict) == parse_spec(q, strict),
{
}

/// Every byte of a parsed packet is accounted for: the frame lengths, the
/// padding (its length bytes included) and the header bytes (TOC byte, frame
/// count byte, frame length fields) add up to the packet's length.
pub proof fn lemma_bytes_accounted(p: Seq<u8>, strict: bool)
    ensures
        parse_spec(p, strict) matches Ok(l) ==> lens_sum(l.frames) + padding_total(l.padding)
            + l.header_len == p.len(),
{
    if p.len() > 0 {
        let code = p[0] % 4;
        if code == 0 {
            assert(lens_sum(seq![(1int, p.len() - 1)]) == lens_sum(seq![(1int, p.len() - 1)].drop_last()) + p.len() - 1);
            assert(seq![(1int, p.len() - 1)].drop_last() =~= seq![]);
        } else if code == 1 || code == 2 {
            if let Ok(l) = parse_spec(p, strict) {
                let a = l.frames[0];
                let b = l.frames[1];
                assert(l.frames =~= seq![a].push(b));
                assert(seq![a] =~= Seq::<(int, int)>::empty().push(a));
                lemma_lens_sum_push(Seq::<(int, int)>::empty(), a);
                lemma_lens_sum_push(seq![a], b);
            }
        } else if p.len() >= 2 {
            lemma_pad_chain_positive(p, 2);
            if let Ok(l) = parse_spec(p, strict) {
                let has_pad = (p[1] / 64) % 2 == 1;
                let chain = if has_pad { pad_chain(p, 2) } else { Some((0int, 0int)) };
                let (np, pl) = chain.unwrap();
                let start = 2 + np;
                let end = p.len() - pl;
                let m = (p[1] % 64) as int;
                if m == 0 {
                } else if p[1] >= 128 {
                    lemma_vbr_frames(p, start, end, (m - 1) as nat, seq![], 0);
                    let (fs, e, h) = vbr_frames(p, start, end, (m - 1) as nat, seq![], 0).unwrap();
                    lemma_lens_sum_push(fs, (e, end - e));
                } else {
                    let r = end - start;
                    lemma_cbr_sum(start, m, r / m);
                    assert(m * (r / m) == r) by (nonlinear_arith)
                        requires r % m == 0, m > 0;
                }
            }
        }
    }
}

/// Strict parsing rejects every packet that lenient parsing rejects, and
/// where it accepts a packet it gives what lenient parsing gives.
pub proof fn lemma_strict_refines_lenient(p: Seq<u8>)
    ensures
        parse_spec(p, false) is Err ==> parse_spec(p, true) is Err,
        parse_spec(p, true) is Ok ==> parse_spec(p, true) == parse_spec(p, false),
{
}

/// A code 0 packet of `1 + N` bytes holds one frame of `N` bytes, which strict
/// parsing rejects when `N` is over 1275.
pub proof fn lemma_code0_single_frame(p: Seq<u8>, strict: bool)
    requires
        p.len() >= 1,
        p[0] % 4 == 0,
    ensures
        strict && p.len() - 1 > 1275 ==> parse_spec(p, strict) == Err::<LayoutSpec, Error>(Error::FrameTooBig),
        !(strict && p.len() - 1 > 1275) ==> (parse_spec(p, strict) matches Ok(l) && l.frames == seq![(1int, p.len() - 1)]
            && l.info.num_frames == 1),
{
}

/// A code 1 packet of odd length is rejected; one of even length is split
/// after its TOC byte into two halves, the second taking the odd byte.
pub proof fn lemma_code1_halves(p: Seq<u8>, strict: bool)
    requires
        p.len() >= 1,
        p[0] % 4 == 1,
    ensures
        p.len() % 2 != 0 ==> parse_spec(p, strict) == Err::<LayoutSpec, Error>(Error::NonOddLength),
        p.len() % 2 == 0 && !strict ==> (parse_spec(p, strict) matches Ok(l) && l.frames == seq![
            (1int, (p.len() - 1) / 2),
            (1 + (p.len() - 1) / 2, p.len() - 1 - (p.len() - 1) / 2),
        ]),
{
}

/// In a code 2 packet, frame 0 has the declared length `L` and frame 1 the
/// rest of the packet after the length field; a length past the end of the
/// packet is rejected.
pub proof fn lemma_code2_lengths(p: Seq<u8>, strict: bool)
    requires
        p.len() >= 1,
        p[0] % 4 == 2,
    ensures
        frame_length_spec(p.subrange(1, p.len() as int)) is None ==> parse_spec(p, strict) == Err::<LayoutSpec, Error>(
            Error::PacketTooSmall),
        frame_length_spec(p.subrange(1, p.len() as int)) matches Some((l, k)) ==> {
            &&& l > p.len() - 1 - k ==> parse_spec(p, strict) == Err::<LayoutSpec, Error>(Error::LengthOverflow)
            &&& l <= p.len() - 1 - k && !strict ==> (parse_spec(p, strict) matches Ok(x) && x.frames.len() == 2
                && x.frames[0].1 == l && x.frames[1].1 == p.len() - 1 - k - l)
        },
{
}

/// A constant-size code 3 packet with `M` frames and `R` bytes left after its
/// headers and padding is accepted (leniently) exactly when `M` divides `R`,
/// and then holds `M` frames of `R / M` bytes.
pub proof fn lemma_code3_cbr(p: Seq<u8>)
    requires
        p.len() >= 2,
        p[0] % 4 == 3,
        p[1] < 128,
        p[1] % 64 > 0,
        code3_remainder(p) is Some,
    ensures
        ({
            let m = (p[1] % 64) as int;
            let r = code3_remainder(p).unwrap();
            &&& r % m != 0 ==> parse_spec(p, false) == Err::<LayoutSpec, Error>(Error::NonMultipleRemainder)
            &&& r % m == 0 ==> (parse_spec(p, false) matches Ok(l) && l.frames.len() == m
                && forall|i: int| 0 <= i < m ==> #[trigger] l.frames[i].1 == r / m)
        }),
{
}

/// In a variable-size code 3 packet the last frame takes what remains after
/// the explicit frames and their length fields; when nothing can remain the
/// packet is rejected as too small.
pub proof fn lemma_code3_vbr_last_frame(p: Seq<u8>)
    requires
        p.len() >= 2,
        p[0] % 4 == 3,
        p[1] >= 128,
        p[1] % 64 > 0,
        code3_remainder(p) is Some,
    ensures
        parse_spec(p, false) is Err ==> parse_spec(p, false) == Err::<LayoutSpec, Error>(Error::PacketTooSmall),
        parse_spec(p, false) matches Ok(l) ==> {
            &&& l.frames.len() == p[1] % 64
            &&& l.frames.last().1 == code3_remainder(p).unwrap() - lens_sum(l.frames.drop_last())
                - (l.header_len - 2)
            &&& l.frames.last().1 >= 0
        },
{
    lemma_pad_chain_positive(p, 2);
    let has_pad = (p[1] / 64) % 2 == 1;
    let chain = if has_pad { pad_chain(p, 2) } else { Some((0int, 0int)) };
    let (np, pl) = chain.unwrap();
    let m = (p[1] % 64) as int;
    lemma_vbr_frames(p, 2 + np, p.len() - pl, (m - 1) as nat, seq![], 0);
    if let Ok(l) = parse_spec(p, false) {
        let (fs, e, h) = vbr_frames(p, 2 + np, p.len() - pl, (m - 1) as nat, seq![], 0).unwrap();
        assert(l.frames.drop_last() =~= fs);
    }
}

/// A padding length byte of 255 stands for 254 bytes and needs a byte after
/// it; any other byte `v` stands for `v` bytes and ends the chain. A padded
/// packet that parses has at most `N - 2` bytes of padding and padding length.
pub proof fn lemma_padding_chain(p: Seq<u8>, i: int, strict: bool)
    requires
        0 <= i < p.len(),
    ensures
        p[i] == 255 ==> pad_chain(p, i) == shift_chain(pad_chain(p, i + 1), 1, 254),
        p[i] == 255 && i + 1 >= p.len() ==> pad_chain(p, i) is None,
        p[i] != 255 ==> pad_chain(p, i) == Some((1int, p[i] as int)),
        parse_spec(p, strict) matches Ok(l) ==> (l.padding matches Some((t, d)) ==> 0 <= d <= t <= p.len() - 2),
{
    if p.len() >= 2 && p[0] % 4 == 3 {
        lemma_pad_chain_positive(p, 2);
        if (p[1] / 64) % 2 == 1 && pad_chain(p, 2) is Some {
            let (np, pl) = pad_chain(p, 2).unwrap();
            assert(np >= 1 && pl >= 0);
        }
    }
}

} // verus!
