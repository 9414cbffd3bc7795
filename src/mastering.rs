//! The settings of the mastering chain that each profile selects.

use vstd::prelude::*;

use crate::types::MasterProfile;

verus! {

/// Crossover between the low and the mid band, in Hz.
pub const LOW_MID_CROSSOVER_HZ: u32 = 200;

/// Crossover between the mid and the high band, in Hz.
pub const MID_HIGH_CROSSOVER_HZ: u32 = 2000;

/// Centre of the peaking band, in Hz.
pub const PEAK_BAND_HZ: u32 = 2000;

/// The true-peak ceiling that quality control allows, in dBTP.
pub const QC_TRUE_PEAK_MAX_DB: i32 = -2;

/// Release time of the limiter's gain, in ms.
pub const LIMITER_RELEASE_MS: u32 = 100;

/// The shape of one EQ band.
#[derive(Debug, Clone, Copy, PartialEq, Eq, Structural)]
pub enum BandShape {
    LowShelf,
    Peak,
    HighShelf,
}

/// One EQ band: its shape, frequency and gain in hundredths of a dB.
#[derive(Debug, Clone, Copy, PartialEq, Eq, Structural)]
pub struct EqBand {
    pub shape: BandShape,
    pub freq_hz: u32,
    pub gain_cdb: i32,
}

/// The three EQ bands of a profile, before any is skipped.
pub open spec fn profile_eq(p: MasterProfile) -> Seq<EqBand> {
    let (low, low_hz, peak, high, high_hz) = match p {
        MasterProfile::Balanced => (0i32, 80u32, 0i32, 50i32, 12000u32),
        MasterProfile::Warm => (150i32, 100u32, -50i32, -100i32, 8000u32),
        MasterProfile::Punchy => (200i32, 60u32, 100i32, 150i32, 10000u32),
        MasterProfile::Custom => (0i32, 80u32, 0i32, 0i32, 12000u32),
    };
    seq![
        EqBand { shape: BandShape::LowShelf, freq_hz: low_hz, gain_cdb: low },
        EqBand { shape: BandShape::Peak, freq_hz: 2000u32, gain_cdb: peak },
        EqBand { shape: BandShape::HighShelf, freq_hz: high_hz, gain_cdb: high },
    ]
}

/// A band is applied only where its gain exceeds 0.01 dB in magnitude.
pub open spec fn band_applies(b: EqBand) -> bool {
    b.gain_cdb > 1 || b.gain_cdb < -1
}

/// The bands of `bands` that apply, in order.
pub open spec fn applied_bands(bands: Seq<EqBand>) -> Seq<EqBand>
    decreases bands.len(),
{
    if bands.len() == 0 {
        seq![]
    } else {
        let rest = applied_bands(bands.drop_last());
        if band_applies(bands.last()) {
            rest.push(bands.last())
        } else {
            rest
        }
    }
}

/// The EQ bands that mastering applies for a profile, low to high.
pub fn eq_bands(profile: MasterProfile) -> (r: Vec<EqBand>)
    ensures
        r@ == applied_bands(profile_eq(profile)),
{
    let (low, low_hz, peak, high, high_hz): (i32, u32, i32, i32, u32) = match profile {
        MasterProfile::Balanced => (0, 80, 0, 50, 12000),
        MasterProfile::Warm => (150, 100, -50, -100, 8000),
        MasterProfile::Punchy => (200, 60, 100, 150, 10000),
        MasterProfile::Custom => (0, 80, 0, 0, 12000),
    };
    let mut all: Vec<EqBand> = Vec::new();
    all.push(EqBand { shape: BandShape::LowShelf, freq_hz: low_hz, gain_cdb: low });
    all.push(EqBand { shape: BandShape::Peak, freq_hz: PEAK_BAND_HZ, gain_cdb: peak });
    all.push(EqBand { shape: BandShape::HighShelf, freq_hz: high_hz, gain_cdb: high });
    assert(all@ =~= profile_eq(profile));
    let mut r: Vec<EqBand> = Vec::new();
    let mut i: usize = 0;
    while i < all.len()
        invariant
            all@ == profile_eq(profile),
            0 <= i <= all@.len(),
            r@ == applied_bands(all@.subrange(0, i as int)),
        decreases all@.len() - i,
    {
        let b = all[i];
        assert(all@.subrange(0, i as int + 1).drop_last() =~= all@.subrange(0, i as int));
        if b.gain_cdb > 1 || b.gain_cdb < -1 {
            r.push(b);
        }
        i = i + 1;
    }
    assert(all@.subrange(0, all@.len() as int) =~= all@);
    r
}

/// One of the three crossover bands.
#[derive(Debug, Clone, Copy, PartialEq, Eq, Structural)]
pub enum Band {
    Low,
    Mid,
    High,
}

/// The envelope compressor of one band: times in ms, ratio in tenths
/// (`20` is 2:1), threshold in dB.
#[derive(Debug, Clone, Copy, PartialEq, Eq, Structural)]
pub struct BandCompressor {
    pub attack_ms: u32,
    pub release_ms: u32,
    pub ratio_tenths: u32,
    pub threshold_db: i32,
}

/// The compressor of a band under a profile. `Custom` compresses as `Balanced`.
pub open spec fn band_compressor(p: MasterProfile, b: Band) -> BandCompressor {
    let (attack_ms, release_ms) = match b {
        Band::Low => (20u32, 200u32),
        Band::Mid => (10u32, 100u32),
        Band::High => (5u32, 50u32),
    };
    let (ratio_tenths, threshold_db) = match (p, b) {
        (MasterProfile::Warm, Band::Low) => (30u32, -16i32),
        (MasterProfile::Warm, Band::Mid) => (20u32, -18i32),
        (MasterProfile::Warm, Band::High) => (15u32, -20i32),
        (MasterProfile::Punchy, Band::Low) => (40u32, -14i32),
        (MasterProfile::Punchy, Band::Mid) => (30u32, -14i32),
        (MasterProfile::Punchy, Band::High) => (25u32, -12i32),
        (_, Band::Low) => (20u32, -18i32),
        (_, Band::Mid) => (20u32, -16i32),
        (_, Band::High) => (20u32, -14i32),
    };
    BandCompressor { attack_ms, release_ms, ratio_tenths, threshold_db }
}

/// The compressor of `band` under `profile`.
pub fn compressor(profile: MasterProfile, band: Band) -> (r: BandCompressor)
    ensures
        r == band_compressor(profile, band),
{
    let (attack_ms, release_ms): (u32, u32) = match band {
        Band::Low => (20, 200),
        Band::Mid => (10, 100),
        Band::High => (5, 50),
    };
    let (ratio_tenths, threshold_db): (u32, i32) = match (profile, band) {
        (MasterProfile::Warm, Band::Low) => (30, -16),
        (MasterProfile::Warm, Band::Mid) => (20, -18),
        (MasterProfile::Warm, Band::High) => (15, -20),
        (MasterProfile::Punchy, Band::Low) => (40, -14),
        (MasterProfile::Punchy, Band::Mid) => (30, -14),
        (MasterProfile::Punchy, Band::High) => (25, -12),
        (_, Band::Low) => (20, -18),
        (_, Band::Mid) => (20, -16),
        (_, Band::High) => (20, -14),
    };
    BandCompressor { attack_ms, release_ms, ratio_tenths, threshold_db }
}

/// The saturation drive of a profile, in hundredths; `None` where the
/// profile applies no saturation.
pub open spec fn profile_drive(p: MasterProfile) -> Option<u32> {
    match p {
        MasterProfile::Warm => Some(30u32),
        MasterProfile::Punchy => Some(50u32),
        _ => None,
    }
}

/// The saturation drive of `profile`, in hundredths, if it saturates.
pub fn saturation_drive(profile: MasterProfile) -> (r: Option<u32>)
    ensures
        r == profile_drive(profile),
{
    match profile {
        MasterProfile::Warm => Some(30),
        MasterProfile::Punchy => Some(50),
        _ => None,
    }
}

/// The limiter's look-ahead at `rate`: 5 ms of frames.
pub fn lookahead_frames(rate: u32) -> (r: usize)
    ensures
        r == rate / 200,
{
    (rate / 200) as usize
}

} // verus!
