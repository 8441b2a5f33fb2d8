//! The coding configuration carried by the TOC byte (RFC 6716, section 3.1).
use vstd::prelude::*;

verus! {

/// Operating mode used for packet coding.
#[derive(Clone, Copy, Debug, PartialEq, Eq, Structural)]
pub enum Mode {
    /// SILK-only mode, for low bitrates at wide-band or narrower bandwidths.
    SILK,
    /// CELT-only mode, for very low delay speech and for music.
    CELT,
    /// Hybrid (SILK+CELT) mode, for super-wide-band or full-band speech.
    Hybrid,
}

/// Bandwidth of the transmitted signal.
#[derive(Clone, Copy, Debug, PartialEq, Eq, Structural)]
pub enum Bandwidth {
    /// 0-4 kHz (8 kHz sample rate).
    Narrow,
    /// 0-6 kHz (12 kHz sample rate).
    Medium,
    /// 0-8 kHz (16 kHz sample rate).
    Wide,
    /// 0-12 kHz (24 kHz sample rate).
    SuperWide,
    /// 0-20 kHz (48 kHz sample rate).
    FullBand,
}

/// The configuration field of the TOC byte.
#[derive(Clone, Copy, Debug, PartialEq, Eq, Structural)]
pub struct Config {
    pub mode: Mode,
    pub bandwith: Bandwidth,
    /// Length of one frame in microseconds: 2500, 5000, 10000, 20000, 40000
    /// or 60000.
    pub framesize_us: u32,
}

/// Coding configuration shared by all frames of a packet.
#[derive(Clone, Copy, Debug, PartialEq, Eq, Structural)]
pub struct FrameConfig {
    /// The configuration field of the TOC byte.
    pub config: Config,
    /// Stereo or mono signal.
    pub is_stereo: bool,
}

/// The frame size, in microseconds, of position `k` (0 to 3) in a group of
/// four SILK or CELT configurations.
pub open spec fn silk_framesize(k: int) -> u32 {
    if k == 0 { 10000 } else if k == 1 { 20000 } else if k == 2 { 40000 } else { 60000 }
}

pub open spec fn celt_framesize(k: int) -> u32 {
    if k == 0 { 2500 } else if k == 1 { 5000 } else if k == 2 { 10000 } else { 20000 }
}

/// The configuration that the 5-bit index `i` stands for: SILK at narrow,
/// medium and wide bandwidth over 10/20/40/60 ms (0 to 11), Hybrid at
/// super-wide and full band over 10/20 ms (12 to 15), CELT at narrow, wide,
/// super-wide and full band over 2.5/5/10/20 ms (16 to 31).
pub open spec fn config_spec(i: int) -> Config
    recommends
        0 <= i < 32,
{
    if i < 12 {
        Config {
            mode: Mode::SILK,
            bandwith: if i < 4 {
                Bandwidth::Narrow
            } else if i < 8 {
                Bandwidth::Medium
            } else {
                Bandwidth::Wide
            },
            framesize_us: silk_framesize(i % 4),
        }
    } else if i < 16 {
        Config {
            mode: Mode::Hybrid,
            bandwith: if i < 14 { Bandwidth::SuperWide } else { Bandwidth::FullBand },
            framesize_us: if i % 2 == 0 { 10000 } else { 20000 },
        }
    } else {
        Config {
            mode: Mode::CELT,
            bandwith: if i < 20 {
                Bandwidth::Narrow
            } else if i < 24 {
                Bandwidth::Wide
            } else if i < 28 {
                Bandwidth::SuperWide
            } else {
                Bandwidth::FullBand
            },
            framesize_us: celt_framesize(i % 4),
        }
    }
}

/// Looks up the configuration for a 5-bit configuration index.
pub fn config_from_index(index: u8) -> (r: Config)
    requires
        index < 32,
    ensures
        r == config_spec(index as int),
{
    let m = Mode::SILK;
    let h = Mode::Hybrid;
    let c = Mode::CELT;
    let (mode, bandwith, framesize_us) = match index {
        0 => (m, Bandwidth::Narrow, 10000u32),
        1 => (m, Bandwidth::Narrow, 20000),
        2 => (m, Bandwidth::Narrow, 40000),
        3 => (m, Bandwidth::Narrow, 60000),
        4 => (m, Bandwidth::Medium, 10000),
        5 => (m, Bandwidth::Medium, 20000),
        6 => (m, Bandwidth::Medium, 40000),
        7 => (m, Bandwidth::Medium, 60000),
        8 => (m, Bandwidth::Wide, 10000),
        9 => (m, Bandwidth::Wide, 20000),
        10 => (m, Bandwidth::Wide, 40000),
        11 => (m, Bandwidth::Wide, 60000),
        12 => (h, Bandwidth::SuperWide, 10000),
        13 => (h, Bandwidth::SuperWide, 20000),
        14 => (h, Bandwidth::FullBand, 10000),
        15 => (h, Bandwidth::FullBand, 20000),
        16 => (c, Bandwidth::Narrow, 2500),
        17 => (c, Bandwidth::Narrow, 5000),
        18 => (c, Bandwidth::Narrow, 10000),
        19 => (c, Bandwidth::Narrow, 20000),
        20 => (c, Bandwidth::Wide, 2500),
        21 => (c, Bandwidth::Wide, 5000),
        22 => (c, Bandwidth::Wide, 10000),
        23 => (c, Bandwidth::Wide, 20000),
        24 => (c, Bandwidth::SuperWide, 2500),
        25 => (c, Bandwidth::SuperWide, 5000),
        26 => (c, Bandwidth::SuperWide, 10000),
        27 => (c, Bandwidth::SuperWide, 20000),
        28 => (c, Bandwidth::FullBand, 2500),
        29 => (c, Bandwidth::FullBand, 5000),
        30 => (c, Bandwidth::FullBand, 10000),
        _ => (c, Bandwidth::FullBand, 20000),
    };
    Config { mode, bandwith, framesize_us }
}

/// The whole configuration table, indexed by the configuration field.
pub fn config_table() -> (r: Vec<Config>)
    ensures
        r@.len() == 32,
        forall|i: int| 0 <= i < 32 ==> r@[i] == config_spec(i),
{
    let mut r: Vec<Config> = Vec::new();
    let mut i: u8 = 0;
    while i < 32
        invariant
            i <= 32,
            r@.len() == i as int,
            forall|j: int| 0 <= j < i ==> r@[j] == config_spec(j),
        decreases 32 - i,
    {
        r.push(config_from_index(i));
        i = i + 1;
    }
    r
}

/// The table holds 32 distinct configurations: no two indices share one.
pub proof fn lemma_config_table_distinct(i: int, j: int)
    requires
        0 <= i < 32,
        0 <= j < 32,
        i != j,
    ensures
        config_spec(i) != config_spec(j),
{
}

/// Every configuration lasts between 2.5 and 60 ms per frame.
pub proof fn lemma_config_framesize(i: int)
    requires
        0 <= i < 32,
    ensures
        2500 <= config_spec(i).framesize_us <= 60000,
{
}

impl Default for Config {
    /// Full-band CELT with 20 ms frames, the defaults of libopus.
    fn default() -> (r: Config)
        ensures
            r == (Config { mode: Mode::CELT, bandwith: Bandwidth::FullBand, framesize_us: 20000 }),
    {
        Config { mode: Mode::CELT, bandwith: Bandwidth::FullBand, framesize_us: 20000 }
    }
}

impl Default for FrameConfig {
    /// Full-band stereo CELT with 20 ms frames.
    fn default() -> (r: FrameConfig)
        ensures
            r == (FrameConfig {
                config: Config { mode: Mode::CELT, bandwith: Bandwidth::FullBand, framesize_us: 20000 },
                is_stereo: true,
            }),
    {
        FrameConfig { config: Config::default(), is_stereo: true }
    }
}

} // verus!
