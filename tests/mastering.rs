use worker_dsp::analysis::{chunk_ranges, spectrum_windows};
use worker_dsp::mastering::{
    compressor, eq_bands, lookahead_frames, saturation_drive, Band, BandCompressor, BandShape,
    EqBand,
};
use worker_dsp::types::MasterProfile;

#[test]
fn eq_bands_skip_flat_ones() {
    assert_eq!(
        eq_bands(MasterProfile::Balanced),
        vec![EqBand { shape: BandShape::HighShelf, freq_hz: 12000, gain_cdb: 50 }]
    );
    assert!(eq_bands(MasterProfile::Custom).is_empty());
    assert_eq!(
        eq_bands(MasterProfile::Warm),
        vec![
            EqBand { shape: BandShape::LowShelf, freq_hz: 100, gain_cdb: 150 },
            EqBand { shape: BandShape::Peak, freq_hz: 2000, gain_cdb: -50 },
            EqBand { shape: BandShape::HighShelf, freq_hz: 8000, gain_cdb: -100 },
        ]
    );
    assert_eq!(eq_bands(MasterProfile::Punchy).len(), 3);
}

#[test]
fn compressor_table() {
    assert_eq!(
        compressor(MasterProfile::Balanced, Band::Low),
        BandCompressor { attack_ms: 20, release_ms: 200, ratio_tenths: 20, threshold_db: -18 }
    );
    assert_eq!(
        compressor(MasterProfile::Warm, Band::High),
        BandCompressor { attack_ms: 5, release_ms: 50, ratio_tenths: 15, threshold_db: -20 }
    );
    assert_eq!(
        compressor(MasterProfile::Punchy, Band::Mid),
        BandCompressor { attack_ms: 10, release_ms: 100, ratio_tenths: 30, threshold_db: -14 }
    );
    assert_eq!(
        compressor(MasterProfile::Custom, Band::High),
        compressor(MasterProfile::Balanced, Band::High)
    );
}

#[test]
fn saturation_only_warm_and_punchy() {
    assert_eq!(saturation_drive(MasterProfile::Warm), Some(30));
    assert_eq!(saturation_drive(MasterProfile::Punchy), Some(50));
    assert_eq!(saturation_drive(MasterProfile::Balanced), None);
    assert_eq!(saturation_drive(MasterProfile::Custom), None);
}

#[test]
fn lookahead_is_5_ms() {
    assert_eq!(lookahead_frames(44100), 220);
    assert_eq!(lookahead_frames(48000), 240);
}

#[test]
fn chunks_cover_the_buffer() {
    assert_eq!(chunk_ranges(10, 4), vec![(0, 4), (4, 8), (8, 10)]);
    assert_eq!(chunk_ranges(8, 4), vec![(0, 4), (4, 8)]);
    assert!(chunk_ranges(0, 4096).is_empty());
    assert_eq!(chunk_ranges(5000, 4096), vec![(0, 4096), (4096, 5000)]);
}

#[test]
fn spectrum_window_count() {
    assert_eq!(spectrum_windows(4095), None);
    assert_eq!(spectrum_windows(4096), Some(1));
    assert_eq!(spectrum_windows(8192), Some(3));
    assert_eq!(spectrum_windows(44100 * 5), Some(106));
}
