use worker_dsp::codec::{
    codec_progress, decode_args, encode_args, parse_codec, CodecError, CodecFormat,
};

#[test]
fn codec_label_splits() {
    assert_eq!(parse_codec("aac-128"), Ok(("aac".to_string(), 128)));
    assert_eq!(parse_codec("mp3-320"), Ok(("mp3".to_string(), 320)));
    assert_eq!(parse_codec("opus-+96"), Ok(("opus".to_string(), 96)));
}

#[test]
fn codec_label_errors() {
    assert_eq!(parse_codec("aac"), Err(CodecError::Malformed));
    assert_eq!(parse_codec("aac-128-x"), Err(CodecError::Malformed));
    assert_eq!(parse_codec("aac-"), Err(CodecError::BadBitrate));
    assert_eq!(parse_codec("aac-12k"), Err(CodecError::BadBitrate));
    assert_eq!(parse_codec("aac-4294967296"), Err(CodecError::BadBitrate));
    assert_eq!(parse_codec("aac-4294967295"), Ok(("aac".to_string(), 4294967295)));
}

#[test]
fn codec_formats() {
    assert_eq!(CodecFormat::from_name("aac"), Ok(CodecFormat::Aac));
    assert_eq!(CodecFormat::from_name("opus"), Ok(CodecFormat::Opus));
    assert_eq!(CodecFormat::from_name("flac"), Err(CodecError::Unsupported));
    assert_eq!(CodecFormat::Aac.extension(), "m4a");
    assert_eq!(CodecFormat::Mp3.extension(), "mp3");
    assert_eq!(CodecFormat::Opus.extension(), "ogg");
}

#[test]
fn encoder_arguments() {
    assert_eq!(encode_args(CodecFormat::Mp3, 320), vec!["-c:a", "libmp3lame", "-b:a", "320k"]);
    assert_eq!(encode_args(CodecFormat::Aac, 64), vec!["-c:a", "aac", "-b:a", "64k"]);
    assert_eq!(encode_args(CodecFormat::Opus, 96), vec!["-c:a", "libopus", "-b:a", "96k"]);
    assert_eq!(decode_args(), vec!["-c:a", "pcm_s24le"]);
}

#[test]
fn progress_spreads_over_codecs() {
    assert_eq!(codec_progress(0, 2), 20);
    assert_eq!(codec_progress(1, 2), 50);
    assert_eq!(codec_progress(2, 3), 60);
    assert_eq!(codec_progress(0, 1), 20);
}
