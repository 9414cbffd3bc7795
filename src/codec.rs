//! The lossy codec bridge: codec labels, encoder arguments, progress.

use vstd::prelude::*;

use crate::text::{
    decimal, decimal_text, find_char, first_index, is_u32_text, joined, parse_u32, same_text,
    u32_text_value,
};

verus! {

/// Why a codec label was refused.
#[derive(Debug, Clone, Copy, PartialEq, Eq, Structural)]
pub enum CodecError {
    /// The label is not one format name, one `-` and one bitrate.
    Malformed,
    /// The part after the `-` is not an unsigned 32-bit number.
    BadBitrate,
    /// The format name is none of `aac`, `mp3`, `opus`.
    Unsupported,
}

/// The label has exactly one `-`.
pub open spec fn one_dash(s: Seq<char>) -> bool {
    match first_index(s, '-') {
        Some(i) => first_index(s.skip(i + 1), '-') is None,
        None => false,
    }
}

/// The format part of a label with one `-`.
pub open spec fn label_format(s: Seq<char>) -> Seq<char> {
    s.take(first_index(s, '-')->0)
}

/// The bitrate part of a label with one `-`.
pub open spec fn label_bitrate(s: Seq<char>) -> Seq<char> {
    s.skip(first_index(s, '-')->0 + 1)
}

/// Splits a label shaped `<format>-<kbps>`, such as `aac-128`.
pub fn parse_codec(codec: &str) -> (r: Result<(String, u32), CodecError>)
    ensures
        !one_dash(codec@) ==> r == Err::<(String, u32), CodecError>(CodecError::Malformed),
        one_dash(codec@) && !is_u32_text(label_bitrate(codec@)) ==> r == Err::<
            (String, u32),
            CodecError,
        >(CodecError::BadBitrate),
        one_dash(codec@) && is_u32_text(label_bitrate(codec@)) ==> (r matches Ok(p) && p.0@
            == label_format(codec@) && p.1 as int == u32_text_value(label_bitrate(codec@))),
{
    let n = codec.unicode_len();
    match find_char(codec, '-') {
        None => Err(CodecError::Malformed),
        Some(i) => {
            let rest = codec.substring_char(i + 1, n);
            assert(rest@ =~= codec@.skip(i + 1));
            match find_char(rest, '-') {
                Some(_) => Err(CodecError::Malformed),
                None => {
                    let head = codec.substring_char(0, i);
                    assert(head@ =~= codec@.take(i as int));
                    match parse_u32(rest) {
                        None => Err(CodecError::BadBitrate),
                        Some(b) => Ok((String::from_str(head), b)),
                    }
                },
            }
        },
    }
}

/// A lossy format that the external encoder produces.
#[derive(Debug, Clone, Copy, PartialEq, Eq, Structural)]
pub enum CodecFormat {
    Aac,
    Mp3,
    Opus,
}

/// The format that a name selects, if any.
pub open spec fn format_named(s: Seq<char>) -> Option<CodecFormat> {
    if s == "aac"@ {
        Some(CodecFormat::Aac)
    } else if s == "mp3"@ {
        Some(CodecFormat::Mp3)
    } else if s == "opus"@ {
        Some(CodecFormat::Opus)
    } else {
        None
    }
}

/// The file extension of each format's container.
pub open spec fn format_extension(f: CodecFormat) -> Seq<char> {
    match f {
        CodecFormat::Aac => "m4a"@,
        CodecFormat::Mp3 => "mp3"@,
        CodecFormat::Opus => "ogg"@,
    }
}

/// The encoder that writes each format.
pub open spec fn format_encoder(f: CodecFormat) -> Seq<char> {
    match f {
        CodecFormat::Aac => "aac"@,
        CodecFormat::Mp3 => "libmp3lame"@,
        CodecFormat::Opus => "libopus"@,
    }
}

/// The encoder arguments for a format at a bitrate in kbps:
/// `-c:a <encoder> -b:a <kbps>k`.
pub open spec fn encode_args_of(f: CodecFormat, kbps: nat) -> Seq<Seq<char>> {
    seq!["-c:a"@, format_encoder(f), "-b:a"@, decimal_text(kbps) + "k"@]
}

/// The arguments that decode a file back to 24-bit linear PCM.
pub open spec fn decode_args_of() -> Seq<Seq<char>> {
    seq!["-c:a"@, "pcm_s24le"@]
}

impl CodecFormat {
    /// The format that a name selects.
    pub fn from_name(s: &str) -> (r: Result<CodecFormat, CodecError>)
        ensures
            format_named(s@) matches Some(f) ==> r == Ok::<CodecFormat, CodecError>(f),
            format_named(s@) is None ==> r == Err::<CodecFormat, CodecError>(
                CodecError::Unsupported,
            ),
    {
        if same_text(s, "aac") {
            Ok(CodecFormat::Aac)
        } else if same_text(s, "mp3") {
            Ok(CodecFormat::Mp3)
        } else if same_text(s, "opus") {
            Ok(CodecFormat::Opus)
        } else {
            Err(CodecError::Unsupported)
        }
    }

    /// The file extension of the format's container.
    pub fn extension(&self) -> (r: &'static str)
        ensures
            r@ == format_extension(*self),
    {
        match self {
            CodecFormat::Aac => "m4a",
            CodecFormat::Mp3 => "mp3",
            CodecFormat::Opus => "ogg",
        }
    }

    /// The encoder that writes the format.
    pub fn encoder(&self) -> (r: &'static str)
        ensures
            r@ == format_encoder(*self),
    {
        match self {
            CodecFormat::Aac => "aac",
            CodecFormat::Mp3 => "libmp3lame",
            CodecFormat::Opus => "libopus",
        }
    }
}

/// The encoder arguments for `format` at `kbps`.
pub fn encode_args(format: CodecFormat, kbps: u32) -> (r: Vec<String>)
    ensures
        r@.map_values(|a: String| a@) == encode_args_of(format, kbps as nat),
{
    let mut r: Vec<String> = Vec::new();
    r.push(String::from_str("-c:a"));
    r.push(String::from_str(format.encoder()));
    r.push(String::from_str("-b:a"));
    let k = decimal(kbps as u64);
    r.push(joined(k.as_str(), "k"));
    assert(r@.map_values(|a: String| a@) =~= encode_args_of(format, kbps as nat));
    r
}

/// The arguments that decode an encoded file back to 24-bit linear PCM.
pub fn decode_args() -> (r: Vec<String>)
    ensures
        r@.map_values(|a: String| a@) == decode_args_of(),
{
    let mut r: Vec<String> = Vec::new();
    r.push(String::from_str("-c:a"));
    r.push(String::from_str("pcm_s24le"));
    assert(r@.map_values(|a: String| a@) =~= decode_args_of());
    r
}

/// The progress reported when codec `index` of `count` starts: the span
/// from 20 to 80 shared out evenly.
pub fn codec_progress(index: usize, count: usize) -> (r: u8)
    requires
        index < count,
    ensures
        r as int == 20 + index * 60 / (count as int),
        20 <= r < 80,
{
    assert(index * 60 / (count as int) < 60) by (nonlinear_arith)
        requires
            0 <= index < count,
    ;
    let step = (index as u128 * 60 / count as u128) as u8;
    20 + step
}

} // verus!
