//! The command-line client's parsing of names given by the user.
use vstd::prelude::*;
use vstd::string::*;

use crate::audio::{output_format_name, waveform_name, OutputFormat, SampleFormat, WaveformKind, spec_format_of_lowercase};
use crate::device::StreamDirection;
use crate::text::{all_ascii, ascii_lower, str_equals, to_lowercase, unicode_lowercase};

verus! {

/// The waveform named by an already lowercased name.
pub open spec fn spec_waveform_of(lower: Seq<char>) -> Option<WaveformKind> {
    if lower == "sine"@ {
        Some(WaveformKind::Sine)
    } else if lower == "square"@ {
        Some(WaveformKind::Square)
    } else if lower == "sawtooth"@ || lower == "saw"@ {
        Some(WaveformKind::Sawtooth)
    } else if lower == "noise"@ || lower == "white"@ {
        Some(WaveformKind::Noise)
    } else {
        None
    }
}

/// The error for a waveform name that is not known.
pub open spec fn unknown_waveform_message(lower: Seq<char>) -> Seq<char> {
    "Unknown waveform: "@ + lower + ". Use: sine, square, sawtooth, noise"@
}

/// The waveform named by a lowercased name, or the error message for it.
pub fn waveform_from_lowercase(lower: &str) -> (r: Result<WaveformKind, String>)
    ensures
        match spec_waveform_of(lower@) {
            Some(w) => r == Ok::<WaveformKind, String>(w),
            None => r matches Err(e) && e@ == unknown_waveform_message(lower@),
        },
{
    if str_equals(lower, "sine") {
        Ok(WaveformKind::Sine)
    } else if str_equals(lower, "square") {
        Ok(WaveformKind::Square)
    } else if str_equals(lower, "sawtooth") || str_equals(lower, "saw") {
        Ok(WaveformKind::Sawtooth)
    } else if str_equals(lower, "noise") || str_equals(lower, "white") {
        Ok(WaveformKind::Noise)
    } else {
        let mut e = String::from_str("Unknown waveform: ");
        e.append(lower);
        e.append(". Use: sine, square, sawtooth, noise");
        Err(e)
    }
}

/// The waveform a user named, compared without regard to case.
pub fn parse_waveform(name: &str) -> (r: Result<WaveformKind, String>)
    ensures
        match spec_waveform_of(unicode_lowercase(name@)) {
            Some(w) => r == Ok::<WaveformKind, String>(w),
            None => r matches Err(e) && e@ == unknown_waveform_message(unicode_lowercase(name@)),
        },
        all_ascii(name@) ==> match spec_waveform_of(name@.map_values(|c: char| ascii_lower(c))) {
            Some(x) => r == Ok::<WaveformKind, String>(x),
            None => r is Err,
        },
{
    let lower = to_lowercase(name);
    waveform_from_lowercase(lower.as_str())
}

/// The stream direction named by an already lowercased name.
pub open spec fn spec_direction_of(lower: Seq<char>) -> Option<StreamDirection> {
    if lower == "in"@ {
        Some(StreamDirection::In)
    } else if lower == "out"@ {
        Some(StreamDirection::Out)
    } else {
        None
    }
}

/// The error for a direction name that is not known.
pub open spec fn unknown_direction_message(lower: Seq<char>) -> Seq<char> {
    "Unknown direction: "@ + lower + ". Use: in, out"@
}

/// The stream direction named by a lowercased name, or the error message.
pub fn direction_from_lowercase(lower: &str) -> (r: Result<StreamDirection, String>)
    ensures
        match spec_direction_of(lower@) {
            Some(d) => r == Ok::<StreamDirection, String>(d),
            None => r matches Err(e) && e@ == unknown_direction_message(lower@),
        },
{
    if str_equals(lower, "in") {
        Ok(StreamDirection::In)
    } else if str_equals(lower, "out") {
        Ok(StreamDirection::Out)
    } else {
        let mut e = String::from_str("Unknown direction: ");
        e.append(lower);
        e.append(". Use: in, out");
        Err(e)
    }
}

/// The stream direction a user named, compared without regard to case.
pub fn parse_direction(name: &str) -> (r: Result<StreamDirection, String>)
    ensures
        match spec_direction_of(unicode_lowercase(name@)) {
            Some(d) => r == Ok::<StreamDirection, String>(d),
            None => r matches Err(e) && e@ == unknown_direction_message(unicode_lowercase(name@)),
        },
        all_ascii(name@) ==> match spec_direction_of(name@.map_values(|c: char| ascii_lower(c))) {
            Some(x) => r == Ok::<StreamDirection, String>(x),
            None => r is Err,
        },
{
    let lower = to_lowercase(name);
    direction_from_lowercase(lower.as_str())
}

/// The stream sample format named by an already lowercased name.
pub open spec fn spec_stream_format_of(lower: Seq<char>) -> Option<SampleFormat> {
    if lower == "s16le"@ {
        Some(SampleFormat::S16LE)
    } else if lower == "f32le"@ {
        Some(SampleFormat::F32LE)
    } else {
        None
    }
}

/// The error for a stream format name that is not known.
pub open spec fn unknown_stream_format_message(lower: Seq<char>) -> Seq<char> {
    "Unknown format: "@ + lower + ". Use: s16le, f32le"@
}

/// The stream sample format named by a lowercased name, or the error message.
pub fn stream_format_from_lowercase(lower: &str) -> (r: Result<SampleFormat, String>)
    ensures
        match spec_stream_format_of(lower@) {
            Some(f) => r == Ok::<SampleFormat, String>(f),
            None => r matches Err(e) && e@ == unknown_stream_format_message(lower@),
        },
{
    if str_equals(lower, "s16le") {
        Ok(SampleFormat::S16LE)
    } else if str_equals(lower, "f32le") {
        Ok(SampleFormat::F32LE)
    } else {
        let mut e = String::from_str("Unknown format: ");
        e.append(lower);
        e.append(". Use: s16le, f32le");
        Err(e)
    }
}

/// The stream sample format a user named, compared without regard to case.
pub fn parse_stream_format(name: &str) -> (r: Result<SampleFormat, String>)
    ensures
        match spec_stream_format_of(unicode_lowercase(name@)) {
            Some(f) => r == Ok::<SampleFormat, String>(f),
            None => r matches Err(e) && e@ == unknown_stream_format_message(unicode_lowercase(name@)),
        },
        all_ascii(name@) ==> match spec_stream_format_of(name@.map_values(|c: char| ascii_lower(c))) {
            Some(x) => r == Ok::<SampleFormat, String>(x),
            None => r is Err,
        },
{
    let lower = to_lowercase(name);
    stream_format_from_lowercase(lower.as_str())
}

/// A recording format named on the command line (lowercased): only the
/// three format names, not other extensions.
pub open spec fn spec_record_format_of(lower: Seq<char>) -> Option<OutputFormat> {
    if lower == "wav"@ {
        Some(OutputFormat::Wav)
    } else if lower == "flac"@ {
        Some(OutputFormat::Flac)
    } else if lower == "ogg"@ {
        Some(OutputFormat::Ogg)
    } else {
        None
    }
}

/// The error for a recording format name that is not known.
pub open spec fn unknown_record_format_message(lower: Seq<char>) -> Seq<char> {
    "Unknown format: "@ + lower + ". Use: wav, flac, ogg"@
}

/// No character is a `.`.
pub open spec fn no_dot(s: Seq<char>) -> bool {
    forall|i: int| 0 <= i < s.len() ==> s[i] != '.'
}

/// No character is a `/`.
pub open spec fn no_slash(s: Seq<char>) -> bool {
    forall|i: int| 0 <= i < s.len() ==> s[i] != '/'
}

/// What a path's extension is, as `Path::extension` finds it.
pub uninterp spec fn path_extension(path: Seq<char>) -> Option<Seq<char>>;

/// Calls `Path::extension` on the path and keeps the extension when it is
/// valid UTF-8 (always, for a path given as `&str`). The contract names the
/// result and states what std documents of its simple cases: a path with no
/// `.` has no extension, and an extension, taken after the last `.` of the
/// file name, holds neither `.` nor `/`. The rest of the component rules of
/// `std::path` are not written out here.
#[verifier::external_body]
fn extension_of(path: &str) -> (r: Option<String>)
    ensures
        match r {
            Some(e) => path_extension(path@) == Some(e@),
            None => path_extension(path@) is None,
        },
        no_dot(path@) ==> r is None,
        r matches Some(e) ==> no_dot(e@) && no_slash(e@),
{
    match std::path::Path::new(path).extension() {
        Some(e) => match e.to_str() {
            Some(s) => Some(s.to_string()),
            None => None,
        },
        None => None,
    }
}

/// The format of a recording whose extension (if any) is given: a named format
/// wins, and must be one of wav, flac, ogg; else the extension decides, and
/// may name no format.
pub open spec fn spec_record_format(
    named_lower: Option<Seq<char>>,
    extension: Option<Seq<char>>,
) -> Result<Option<OutputFormat>, Seq<char>> {
    match named_lower {
        Some(lower) => match spec_record_format_of(lower) {
            Some(f) => Ok(Some(f)),
            None => Err(unknown_record_format_message(lower)),
        },
        None => match extension {
            Some(ext) => Ok(spec_format_of_lowercase(unicode_lowercase(ext))),
            None => Ok(None),
        },
    }
}

/// The format of a recording, from the named format if one was given, else
/// from the extension of the file path.
pub fn resolve_record_format(format: Option<&str>, file_path: &str) -> (r: Result<Option<OutputFormat>, String>)
    ensures
        match spec_record_format(
            match format {
                Some(f) => Some(unicode_lowercase(f@)),
                None => None,
            },
            path_extension(file_path@),
        ) {
            Ok(f) => r == Ok::<Option<OutputFormat>, String>(f),
            Err(m) => r matches Err(e) && e@ == m,
        },
        format is None && no_dot(file_path@) ==> r == Ok::<Option<OutputFormat>, String>(None),
        match format {
            Some(f) => all_ascii(f@) ==> match spec_record_format_of(f@.map_values(|c: char| ascii_lower(c))) {
                Some(x) => r == Ok::<Option<OutputFormat>, String>(Some(x)),
                None => r is Err,
            },
            None => true,
        },
{
    match format {
        Some(name) => {
            let lower = to_lowercase(name);
            let l = lower.as_str();
            if str_equals(l, "wav") {
                Ok(Some(OutputFormat::Wav))
            } else if str_equals(l, "flac") {
                Ok(Some(OutputFormat::Flac))
            } else if str_equals(l, "ogg") {
                Ok(Some(OutputFormat::Ogg))
            } else {
                let mut e = String::from_str("Unknown format: ");
                e.append(l);
                e.append(". Use: wav, flac, ogg");
                Err(e)
            }
        },
        None => match extension_of(file_path) {
            Some(ext) => Ok(OutputFormat::from_extension(ext.as_str())),
            None => Ok(None),
        },
    }
}

/// Naming law: every waveform, recording format and stream direction is
/// found again from the name it is displayed under, and from the short
/// aliases (`saw`, `white`, `oga`); a stream format is found from its
/// display name in lowercase, and S32LE, which streams do not take from the
/// command line, is not found.
pub proof fn law_names_parse_back(w: WaveformKind, f: OutputFormat)
    ensures
        spec_waveform_of(waveform_name(w)) == Some(w),
        spec_waveform_of("saw"@) == Some(WaveformKind::Sawtooth),
        spec_waveform_of("white"@) == Some(WaveformKind::Noise),
        spec_record_format_of(output_format_name(f)) == Some(f),
        spec_format_of_lowercase(output_format_name(f)) == Some(f),
        spec_format_of_lowercase("oga"@) == Some(OutputFormat::Ogg),
        spec_direction_of("in"@) == Some(StreamDirection::In),
        spec_direction_of("out"@) == Some(StreamDirection::Out),
        spec_stream_format_of("s16le"@) == Some(SampleFormat::S16LE),
        spec_stream_format_of("f32le"@) == Some(SampleFormat::F32LE),
        spec_stream_format_of("s32le"@) is None,
{
    reveal_strlit("sine");
    reveal_strlit("square");
    reveal_strlit("sawtooth");
    reveal_strlit("saw");
    reveal_strlit("noise");
    reveal_strlit("white");
    reveal_strlit("wav");
    reveal_strlit("flac");
    reveal_strlit("ogg");
    reveal_strlit("oga");
    reveal_strlit("in");
    reveal_strlit("out");
    reveal_strlit("s16le");
    reveal_strlit("f32le");
    reveal_strlit("s32le");
    assert("white"@[0] != "noise"@[0]);
    assert("square"@.len() != "sine"@.len());
    assert("saw"@.len() != "sine"@.len() && "saw"@.len() != "square"@.len() && "saw"@.len() != "sawtooth"@.len());
    assert("white"@.len() != "sine"@.len() && "white"@.len() != "square"@.len() && "white"@.len() != "sawtooth"@.len()
        && "white"@.len() != "saw"@.len());
    assert("sawtooth"@.len() != "sine"@.len() && "sawtooth"@.len() != "square"@.len());
    assert("noise"@.len() != "sine"@.len() && "noise"@.len() != "square"@.len() && "noise"@.len() != "sawtooth"@.len()
        && "noise"@.len() != "saw"@.len());
    assert("flac"@.len() != "wav"@.len() && "ogg"@[0] != "wav"@[0] && "ogg"@.len() != "flac"@.len());
    assert("oga"@[0] != "wav"@[0] && "oga"@.len() != "flac"@.len());
    assert("out"@.len() != "in"@.len());
    assert("f32le"@[0] != "s16le"@[0] && "s32le"@[1] != "s16le"@[1] && "s32le"@[0] != "f32le"@[0]);
    match w {
        WaveformKind::Sine => {},
        WaveformKind::Square => {},
        WaveformKind::Sawtooth => {},
        WaveformKind::Noise => {},
    }
    match f {
        OutputFormat::Wav => {},
        OutputFormat::Flac => {},
        OutputFormat::Ogg => {},
    }
}

} // verus!
