use opus_rs::config::{config_from_index, config_table, Bandwidth, Config, FrameConfig, Mode};
use opus_rs::length::parse_frame_length;
use opus_rs::parser::{layout, parse, Code, Error, Info};

fn frames_of(packet: &[u8], strict: bool) -> Result<Vec<Vec<u8>>, Error> {
    let mut frames: Vec<&[u8]> = Vec::new();
    parse(&mut frames, packet, strict)?;
    Ok(frames.iter().map(|f| f.to_vec()).collect())
}

fn accounted(packet: &[u8], strict: bool) -> usize {
    let l = layout(packet, strict).unwrap();
    let frames: usize = l.frames.iter().map(|f| f.1).sum();
    let padding = match l.padding {
        Some((t, _)) => t,
        None => 0,
    };
    frames + padding + l.header_len
}

#[test]
fn config_table_entries() {
    let silk = |b, f| Config { mode: Mode::SILK, bandwith: b, framesize_us: f };
    assert_eq!(config_from_index(0), silk(Bandwidth::Narrow, 10000));
    assert_eq!(config_from_index(7), silk(Bandwidth::Medium, 60000));
    assert_eq!(config_from_index(11), silk(Bandwidth::Wide, 60000));
    assert_eq!(
        config_from_index(13),
        Config { mode: Mode::Hybrid, bandwith: Bandwidth::SuperWide, framesize_us: 20000 }
    );
    assert_eq!(
        config_from_index(14),
        Config { mode: Mode::Hybrid, bandwith: Bandwidth::FullBand, framesize_us: 10000 }
    );
    assert_eq!(
        config_from_index(16),
        Config { mode: Mode::CELT, bandwith: Bandwidth::Narrow, framesize_us: 2500 }
    );
    assert_eq!(
        config_from_index(22),
        Config { mode: Mode::CELT, bandwith: Bandwidth::Wide, framesize_us: 10000 }
    );
    assert_eq!(
        config_from_index(31),
        Config { mode: Mode::CELT, bandwith: Bandwidth::FullBand, framesize_us: 20000 }
    );
}

#[test]
fn config_table_distinct_and_ordered() {
    let t = config_table();
    assert_eq!(t.len(), 32);
    for i in 0..32 {
        assert_eq!(t[i], config_from_index(i as u8));
        for j in 0..32 {
            if i != j {
                assert_ne!(t[i], t[j]);
            }
        }
    }
}

#[test]
fn config_defaults() {
    let c = Config::default();
    assert_eq!(c, Config { mode: Mode::CELT, bandwith: Bandwidth::FullBand, framesize_us: 20000 });
    let f = FrameConfig::default();
    assert_eq!(f, FrameConfig { config: c, is_stereo: true });
}

#[test]
fn frame_length_one_byte() {
    assert_eq!(parse_frame_length(&[0]), Some((0, 1)));
    assert_eq!(parse_frame_length(&[100, 7]), Some((100, 1)));
    assert_eq!(parse_frame_length(&[251]), Some((251, 1)));
}

#[test]
fn frame_length_two_bytes() {
    assert_eq!(parse_frame_length(&[252, 0]), Some((252, 2)));
    assert_eq!(parse_frame_length(&[252, 1]), Some((256, 2)));
    assert_eq!(parse_frame_length(&[253, 10, 99]), Some((293, 2)));
    assert_eq!(parse_frame_length(&[255, 255]), Some((1275, 2)));
}

#[test]
fn frame_length_insufficient() {
    assert_eq!(parse_frame_length(&[]), None);
    assert_eq!(parse_frame_length(&[252]), None);
    assert_eq!(parse_frame_length(&[255]), None);
}

#[test]
fn empty_packet_has_no_toc() {
    let mut frames: Vec<&[u8]> = Vec::new();
    assert!(matches!(parse(&mut frames, &[], false), Err(Error::NoTOC)));
    assert!(matches!(parse(&mut frames, &[], true), Err(Error::NoTOC)));
    assert!(frames.is_empty());
}

#[test]
fn toc_fields() {
    // config 31, stereo, code 0
    let mut frames: Vec<&[u8]> = Vec::new();
    let r = parse(&mut frames, &[0xFC, 9, 8], true).unwrap();
    assert_eq!(
        r.info,
        Info {
            frame_config: FrameConfig { config: config_from_index(31), is_stereo: true },
            is_vbr: None,
            num_frames: 1,
            code_no: Code::Code0,
        }
    );
    assert!(r.padding.is_none());
    // config 1, mono, code 1
    let r = parse(&mut frames, &[0x09, 1, 2, 3], true).unwrap();
    assert_eq!(r.info.frame_config.config, config_from_index(1));
    assert!(!r.info.frame_config.is_stereo);
    assert_eq!(r.info.code_no, Code::Code1);
}

#[test]
fn code_from_low_bits() {
    assert_eq!(Code::from(0), Code::Code0);
    assert_eq!(Code::from(1), Code::Code1);
    assert_eq!(Code::from(2), Code::Code2);
    assert_eq!(Code::from(3), Code::Code3);
}

#[test]
fn code0_single_frame() {
    assert_eq!(frames_of(&[0x00, 1, 2, 3], true).unwrap(), vec![vec![1, 2, 3]]);
    assert_eq!(frames_of(&[0x00], true).unwrap(), vec![Vec::<u8>::new()]);
}

#[test]
fn code0_frame_too_big() {
    let mut p = vec![0u8; 1276];
    assert_eq!(frames_of(&p, true).unwrap(), vec![vec![0u8; 1275]]);
    p.push(0);
    assert_eq!(frames_of(&p, true), Err(Error::FrameTooBig));
    assert_eq!(frames_of(&p, false).unwrap(), vec![vec![0u8; 1276]]);
}

#[test]
fn code1_splits_remainder() {
    assert_eq!(frames_of(&[0x01, 1, 2, 3], true).unwrap(), vec![vec![1], vec![2, 3]]);
    assert_eq!(frames_of(&[0x01, 7], true).unwrap(), vec![vec![], vec![7]]);
}

#[test]
fn code1_odd_length_rejected() {
    assert_eq!(frames_of(&[0x01, 1, 2], false), Err(Error::NonOddLength));
    assert_eq!(frames_of(&[0x01], true), Err(Error::NonOddLength));
}

#[test]
fn code1_frame_too_big() {
    let mut p = vec![0x01u8];
    p.extend(vec![5u8; 2553]);
    assert_eq!(frames_of(&p, true), Err(Error::FrameTooBig));
    let f = frames_of(&p, false).unwrap();
    assert_eq!(f[0].len(), 1276);
    assert_eq!(f[1].len(), 1277);
}

#[test]
fn code2_two_frames() {
    assert_eq!(frames_of(&[0x02, 2, 1, 2, 3, 4, 5], true).unwrap(), vec![vec![1, 2], vec![3, 4, 5]]);
    assert_eq!(frames_of(&[0x02, 0], true).unwrap(), vec![vec![], vec![]]);
    let l = layout(&[0x02, 2, 1, 2, 3, 4, 5], true).unwrap();
    assert_eq!(l.frames, vec![(2, 2), (4, 3)]);
    assert_eq!(l.header_len, 2);
}

#[test]
fn code2_two_byte_length() {
    let mut p = vec![0x02u8, 252, 1];
    p.extend(vec![1u8; 256]);
    p.extend(vec![2u8; 3]);
    let f = frames_of(&p, true).unwrap();
    assert_eq!(f, vec![vec![1u8; 256], vec![2u8; 3]]);
}

#[test]
fn code2_errors() {
    assert_eq!(frames_of(&[0x02], false), Err(Error::PacketTooSmall));
    assert_eq!(frames_of(&[0x02, 252], false), Err(Error::PacketTooSmall));
    assert_eq!(frames_of(&[0x02, 5, 1, 2], false), Err(Error::LengthOverflow));
    let mut p = vec![0x02u8, 0];
    p.extend(vec![0u8; 1276]);
    assert_eq!(frames_of(&p, true), Err(Error::FrameTooBig));
    assert_eq!(frames_of(&p, false).unwrap()[1].len(), 1276);
}

#[test]
fn code3_cbr_even_split() {
    let p = [0x03, 0x03, 1, 2, 3, 4, 5, 6];
    assert_eq!(frames_of(&p, true).unwrap(), vec![vec![1, 2], vec![3, 4], vec![5, 6]]);
    let mut frames: Vec<&[u8]> = Vec::new();
    let r = parse(&mut frames, &p, true).unwrap();
    assert_eq!(r.info.is_vbr, Some(false));
    assert_eq!(r.info.num_frames, 3);
    assert_eq!(r.info.code_no, Code::Code3);
    assert_eq!(layout(&p, true).unwrap().frames, vec![(2, 2), (4, 2), (6, 2)]);
}

#[test]
fn code3_cbr_non_multiple() {
    assert_eq!(frames_of(&[0x03, 0x03, 1, 2, 3, 4, 5, 6, 7], false), Err(Error::NonMultipleRemainder));
}

#[test]
fn code3_too_small() {
    assert_eq!(frames_of(&[0x03], false), Err(Error::PacketTooSmall));
}

#[test]
fn code3_no_audio() {
    assert_eq!(frames_of(&[0x03, 0x00], true), Err(Error::NoAudio));
    let mut frames: Vec<&[u8]> = Vec::new();
    let r = parse(&mut frames, &[0x03, 0x00], false).unwrap();
    assert_eq!(r.info.num_frames, 0);
    assert!(frames.is_empty());
    assert_eq!(frames_of(&[0x03, 0x00, 1], false), Err(Error::NonMultipleRemainder));
}

#[test]
fn code3_too_much_audio() {
    // config 3: SILK narrow-band, 60 ms frames
    let p = [0x1B, 0x03, 1, 2, 3];
    assert_eq!(frames_of(&p, true), Err(Error::TooMuchAudio));
    assert_eq!(frames_of(&p, false).unwrap(), vec![vec![1], vec![2], vec![3]]);
    let p = [0x1B, 0x02, 1, 2];
    assert_eq!(frames_of(&p, true).unwrap(), vec![vec![1], vec![2]]);
}

#[test]
fn code3_vbr_last_frame_takes_rest() {
    let p = [0x03, 0x83, 1, 10, 2, 20, 21, 30, 31];
    assert_eq!(frames_of(&p, true).unwrap(), vec![vec![10], vec![20, 21], vec![30, 31]]);
    let l = layout(&p, true).unwrap();
    assert_eq!(l.frames, vec![(3, 1), (5, 2), (7, 2)]);
    assert_eq!(l.header_len, 4);
    assert_eq!(l.info.is_vbr, Some(true));
}

#[test]
fn code3_vbr_too_small() {
    assert_eq!(frames_of(&[0x03, 0x82, 5, 1], false), Err(Error::PacketTooSmall));
    assert_eq!(frames_of(&[0x03, 0x82], false), Err(Error::PacketTooSmall));
    assert_eq!(frames_of(&[0x03, 0x82, 0], false).unwrap(), vec![vec![], vec![]]);
}

#[test]
fn code3_vbr_last_frame_too_big() {
    let mut p = vec![0x03u8, 0x82, 0];
    p.extend(vec![0u8; 1276]);
    assert_eq!(frames_of(&p, true), Err(Error::FrameTooBig));
    assert_eq!(frames_of(&p, false).unwrap()[1].len(), 1276);
}

#[test]
fn code3_padding_data() {
    let p = [0x03, 0x41, 2, 7, 8, 0, 0];
    let mut frames: Vec<&[u8]> = Vec::new();
    let r = parse(&mut frames, &p, true).unwrap();
    assert_eq!(frames, vec![&[7u8, 8][..]]);
    let (total, data) = r.padding.unwrap();
    assert_eq!(total, 3);
    assert_eq!(data.unwrap(), &[0u8, 0][..]);
}

#[test]
fn code3_padding_single_byte() {
    let p = [0x03, 0x41, 0, 7];
    let mut frames: Vec<&[u8]> = Vec::new();
    let r = parse(&mut frames, &p, true).unwrap();
    assert_eq!(frames, vec![&[7u8][..]]);
    assert_eq!(r.padding.unwrap().0, 1);
    assert!(r.padding.unwrap().1.is_none());
}

#[test]
fn code3_padding_chain() {
    let mut p = vec![0x03u8, 0x41, 255, 0];
    p.extend(vec![0u8; 254]);
    p.insert(4, 9);
    p.insert(5, 9);
    let mut frames: Vec<&[u8]> = Vec::new();
    let r = parse(&mut frames, &p, true).unwrap();
    assert_eq!(frames, vec![&[9u8, 9][..]]);
    assert_eq!(r.padding.unwrap().0, 256);
    assert_eq!(r.padding.unwrap().1.unwrap().len(), 254);
}

#[test]
fn code3_padding_overflow() {
    assert_eq!(frames_of(&[0x03, 0x41, 255], false), Err(Error::LengthOverflow));
    assert_eq!(frames_of(&[0x03, 0x41], false), Err(Error::LengthOverflow));
    assert_eq!(frames_of(&[0x03, 0x41, 10, 1], false), Err(Error::LengthOverflow));
    assert_eq!(frames_of(&[0x03, 0x41, 1], false), Err(Error::LengthOverflow));
}

#[test]
fn parse_appends_and_keeps_on_error() {
    let a = [0x00u8, 1];
    let b = [0x01u8, 2, 3, 4];
    let mut frames: Vec<&[u8]> = Vec::new();
    parse(&mut frames, &a, true).unwrap();
    parse(&mut frames, &b, true).unwrap();
    assert_eq!(frames, vec![&[1u8][..], &[2u8][..], &[3u8, 4][..]]);
    assert!(parse(&mut frames, &[0x01, 1, 2], true).is_err());
    assert_eq!(frames.len(), 3);
}

#[test]
fn parse_twice_same_result() {
    let packets: Vec<Vec<u8>> = vec![
        vec![0x03, 0xC3, 1, 1, 10, 2, 20, 21, 30, 31, 0],
        vec![0x02, 2, 1, 2, 3],
        vec![0x03, 0x43, 3, 1, 2, 3, 0, 0, 0],
    ];
    for p in &packets {
        for strict in [false, true] {
            let mut f1: Vec<&[u8]> = Vec::new();
            let mut f2: Vec<&[u8]> = Vec::new();
            let r1 = parse(&mut f1, p, strict).unwrap();
            let r2 = parse(&mut f2, p, strict).unwrap();
            assert_eq!(r1.info, r2.info);
            assert_eq!(r1.padding, r2.padding);
            assert_eq!(f1, f2);
            let l1 = layout(p, strict).unwrap();
            let l2 = layout(p, strict).unwrap();
            assert_eq!(l1.frames, l2.frames);
            assert_eq!(l1.padding, l2.padding);
        }
    }
}

#[test]
fn bytes_all_accounted() {
    let packets: Vec<Vec<u8>> = vec![
        vec![0x00, 1, 2, 3],
        vec![0x01, 1, 2, 3],
        vec![0x02, 2, 1, 2, 3],
        vec![0x03, 0x03, 1, 2, 3, 4, 5, 6],
        vec![0x03, 0x83, 1, 10, 2, 20, 21, 30, 31],
        vec![0x03, 0xC3, 1, 1, 10, 2, 20, 21, 30, 31, 0],
        vec![0x03, 0x41, 2, 7, 8, 0, 0],
        vec![0x03, 0x00],
    ];
    for p in &packets {
        assert_eq!(accounted(p, false), p.len());
    }
    let l = layout(&[0x03, 0xC3, 1, 1, 10, 2, 20, 21, 30, 31, 0], false).unwrap();
    assert_eq!(l.frames, vec![(4, 1), (6, 2), (8, 2)]);
    assert_eq!(l.padding, Some((2, 1)));
}

#[test]
fn strict_rejects_what_lenient_rejects() {
    let packets: Vec<Vec<u8>> = vec![
        vec![],
        vec![0x01, 1, 2],
        vec![0x02, 5, 1],
        vec![0x03, 0x03, 1, 2, 3, 4],
        vec![0x03, 0x82, 5, 1],
        vec![0x03, 0x41, 9],
        vec![0x03, 0x00],
        vec![0x1B, 0x03, 1, 2, 3],
    ];
    for p in &packets {
        let lenient = layout(p, false);
        let strict = layout(p, true);
        if lenient.is_err() {
            assert!(strict.is_err());
        }
        if let Ok(s) = strict {
            let l = lenient.unwrap();
            assert_eq!(s.frames, l.frames);
            assert_eq!(s.info, l.info);
        }
    }
    assert!(layout(&[0x03, 0x00], false).is_ok());
    assert!(layout(&[0x03, 0x00], true).is_err());
}
