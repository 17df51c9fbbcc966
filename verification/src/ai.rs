//! Media generation requests: what is checked before an AI credit is spent,
//! and how the returned media is decoded.

use crate::paths::extension_spec;
use crate::text::{ascii_lower, is_blank, owned, same_text, to_ascii_lowercase, trim, trim_ws};
use base64::Engine;
use vstd::prelude::*;

verus! {

/// Why a generation request was refused before or after it was sent.
#[derive(Debug, Clone)]
pub enum AiError {
    /// The prompt is blank.
    EmptyPrompt,
    /// The output path has no file extension.
    NoExtension,
    /// The output path's extension is not one the media type allows.
    WrongExtension,
    /// The output file exists and replacing it was not asked for.
    OutputExists,
    /// The output path is a directory.
    OutputIsDirectory,
    /// Audio output must end in `.mp3` or `.wav`.
    NotAudioPath,
    /// The requested audio format differs from the output's extension.
    FormatMismatch { format: String, extension: String },
    /// Fast video generation is limited to 15 seconds.
    FastVideoTooLong,
    /// The service returned no image.
    NoImageData,
    /// The service returned media that is not valid base64.
    InvalidMedia,
}

/// Refuse a blank prompt.
pub fn validate_prompt(prompt: &str) -> (r: Result<(), AiError>)
    ensures
        r is Ok <==> trim_ws(prompt@).len() > 0,
        r matches Err(e) ==> e is EmptyPrompt,
{
    if is_blank(prompt) {
        return Err(AiError::EmptyPrompt);
    }
    Ok(())
}

/// The output path's extension in ASCII lower case.
pub fn output_extension(path: &str) -> (r: Result<String, AiError>)
    ensures
        extension_spec(path@) matches Some(x) ==> (r matches Ok(e) && e@ == ascii_lower(x)),
        extension_spec(path@) is None ==> (r matches Err(e) && e is NoExtension),
{
    match crate::paths::extension(path) {
        Some(e) => Ok(to_ascii_lowercase(e.as_str())),
        None => Err(AiError::NoExtension),
    }
}

/// The media file types the generators write.
#[derive(Clone, Copy, Debug, PartialEq, Eq, Structural)]
pub enum MediaKind {
    /// `.png`
    Image,
    /// `.mp3` or `.wav`
    Audio,
    /// `.mp4`
    Video,
}

/// The lower-case extensions a media kind may be written with.
pub open spec fn allows(kind: MediaKind, ext: Seq<char>) -> bool {
    match kind {
        MediaKind::Image => ext == "png"@,
        MediaKind::Audio => ext == "mp3"@ || ext == "wav"@,
        MediaKind::Video => ext == "mp4"@,
    }
}

/// Whether `kind` may be written with the lower-case extension `ext`.
fn allowed_extension(kind: MediaKind, ext: &str) -> (r: bool)
    ensures
        r == allows(kind, ext@),
{
    match kind {
        MediaKind::Image => same_text(ext, "png"),
        MediaKind::Audio => same_text(ext, "mp3") || same_text(ext, "wav"),
        MediaKind::Video => same_text(ext, "mp4"),
    }
}

/// What refusing an output path depends on: its extension must suit the
/// media kind, an existing file is kept unless `force`, and a directory is
/// never written.
pub open spec fn output_outcome(
    path: Seq<char>,
    kind: MediaKind,
    force: bool,
    exists: bool,
    is_dir: bool,
) -> Option<AiError> {
    match extension_spec(path) {
        None => Some(AiError::NoExtension),
        Some(x) => if !allows(kind, ascii_lower(x)) {
            Some(AiError::WrongExtension)
        } else if exists && !force {
            Some(AiError::OutputExists)
        } else if is_dir {
            Some(AiError::OutputIsDirectory)
        } else {
            None
        },
    }
}

/// Check an output path against the media kind and what is on disk there
/// (`exists`, `is_dir`), refusing to overwrite without `force`.
pub fn check_output(path: &str, kind: MediaKind, force: bool, exists: bool, is_dir: bool) -> (r:
    Result<(), AiError>)
    ensures
        r is Ok <==> output_outcome(path@, kind, force, exists, is_dir) is None,
        r matches Err(e) ==> Some(e) == output_outcome(path@, kind, force, exists, is_dir),
{
    let extension = output_extension(path)?;
    if !allowed_extension(kind, extension.as_str()) {
        return Err(AiError::WrongExtension);
    }
    if exists && !force {
        return Err(AiError::OutputExists);
    }
    if is_dir {
        return Err(AiError::OutputIsDirectory);
    }
    Ok(())
}

/// An image generation request.
#[derive(Debug, Clone)]
pub struct ImageRequest {
    pub prompt: String,
    pub tier: String,
    pub size: String,
}

/// An audio generation request.
#[derive(Debug, Clone)]
pub struct AudioRequest {
    pub prompt: String,
    pub format: String,
}

/// A video generation request.
#[derive(Debug, Clone)]
pub struct VideoRequest {
    pub prompt: String,
    pub model: String,
    pub duration: u32,
    pub resolution: String,
    pub ratio: String,
    pub generate_audio: bool,
    pub seed: Option<i32>,
}

/// The request for one image written as PNG to `output`.
pub fn image_request(
    prompt: &str,
    output: &str,
    tier: &str,
    size: &str,
    force: bool,
    exists: bool,
    is_dir: bool,
) -> (r: Result<ImageRequest, AiError>)
    ensures
        trim_ws(prompt@).len() == 0 ==> (r matches Err(e) && e is EmptyPrompt),
        trim_ws(prompt@).len() > 0 ==> match output_outcome(
            output@,
            MediaKind::Image,
            force,
            exists,
            is_dir,
        ) {
            Some(e) => r == Err::<ImageRequest, AiError>(e),
            None => r matches Ok(q) && q.prompt@ == trim_ws(prompt@) && q.tier@ == tier@ && q.size@
                == size@,
        },
{
    validate_prompt(prompt)?;
    check_output(output, MediaKind::Image, force, exists, is_dir)?;
    Ok(ImageRequest { prompt: trim(prompt), tier: owned(tier), size: owned(size) })
}

/// The request for audio written to `output`, whose extension sets the
/// format unless one is requested, and then must agree with it.
pub fn audio_request(
    prompt: &str,
    output: &str,
    requested_format: Option<&str>,
    force: bool,
    exists: bool,
    is_dir: bool,
) -> (r: Result<AudioRequest, AiError>)
    ensures
        trim_ws(prompt@).len() == 0 ==> (r matches Err(e) && e is EmptyPrompt),
        trim_ws(prompt@).len() > 0 ==> match extension_spec(output@) {
            None => r matches Err(e) && e is NoExtension,
            Some(x) => {
                let ext = ascii_lower(x);
                let format = match requested_format {
                    Some(f) => f@,
                    None => ext,
                };
                if !(ext == "mp3"@ || ext == "wav"@) {
                    r matches Err(e) && e is NotAudioPath
                } else if format != ext {
                    r matches Err(e) && e matches AiError::FormatMismatch { format: f, extension: x2 }
                        && f@ == format && x2@ == ext
                } else {
                    match output_outcome(output@, MediaKind::Audio, force, exists, is_dir) {
                        Some(e) => r == Err::<AudioRequest, AiError>(e),
                        None => r matches Ok(q) && q.prompt@ == trim_ws(prompt@) && q.format@
                            == ext,
                    }
                }
            },
        },
{
    validate_prompt(prompt)?;
    let extension = output_extension(output)?;
    if !(same_text(extension.as_str(), "mp3") || same_text(extension.as_str(), "wav")) {
        return Err(AiError::NotAudioPath);
    }
    let format = match requested_format {
        Some(f) => owned(f),
        None => extension.clone(),
    };
    if !same_text(format.as_str(), extension.as_str()) {
        return Err(AiError::FormatMismatch { format, extension });
    }
    check_output(output, MediaKind::Audio, force, exists, is_dir)?;
    Ok(AudioRequest { prompt: trim(prompt), format })
}

/// The request for a video written as MP4 to `output`; the fast model is
/// limited to 15 seconds.
pub fn video_request(
    prompt: &str,
    output: &str,
    model: &str,
    duration: u32,
    resolution: &str,
    ratio: &str,
    generate_audio: bool,
    seed: Option<i32>,
    force: bool,
    exists: bool,
    is_dir: bool,
) -> (r: Result<VideoRequest, AiError>)
    ensures
        trim_ws(prompt@).len() == 0 ==> (r matches Err(e) && e is EmptyPrompt),
        trim_ws(prompt@).len() > 0 && model@ == "fast"@ && duration > 15 ==> (r matches Err(e)
            && e is FastVideoTooLong),
        trim_ws(prompt@).len() > 0 && !(model@ == "fast"@ && duration > 15) ==> match output_outcome(
            output@,
            MediaKind::Video,
            force,
            exists,
            is_dir,
        ) {
            Some(e) => r == Err::<VideoRequest, AiError>(e),
            None => r matches Ok(q) && q.prompt@ == trim_ws(prompt@) && q.model@ == model@
                && q.duration == duration && q.resolution@ == resolution@ && q.ratio@ == ratio@
                && q.generate_audio == generate_audio && q.seed == seed,
        },
{
    validate_prompt(prompt)?;
    if same_text(model, "fast") && duration > 15 {
        return Err(AiError::FastVideoTooLong);
    }
    check_output(output, MediaKind::Video, force, exists, is_dir)?;
    Ok(
        VideoRequest {
            prompt: trim(prompt),
            model: owned(model),
            duration,
            resolution: owned(resolution),
            ratio: owned(ratio),
            generate_audio,
            seed,
        },
    )
}

/// The first image's encoded data, when the service returned one.
pub fn first_image_data(data: Vec<Option<String>>) -> (r: Result<String, AiError>)
    ensures
        data@.len() > 0 && data@[0] is Some ==> (r matches Ok(s) && Some(s) == data@[0]),
        !(data@.len() > 0 && data@[0] is Some) ==> (r matches Err(e) && e is NoImageData),
{
    let mut data = data;
    if data.len() == 0 {
        return Err(AiError::NoImageData);
    }
    match data.remove(0) {
        Some(s) => Ok(s),
        None => Err(AiError::NoImageData),
    }
}

/// The bytes that standard, padded base64 decoding gives for a text, if it is valid.
pub uninterp spec fn standard_base64_decoding(encoded: Seq<char>) -> Option<Seq<u8>>;

/// `base64`'s `STANDARD.decode`: the bytes that standard, padded base64 gives
/// for `encoded`, or nothing when it is not valid base64. The decoding
/// itself is named here, not written out.
#[verifier::external_body]
fn decode_standard_base64(encoded: &str) -> (r: Option<Vec<u8>>)
    ensures
        r matches Some(b) ==> standard_base64_decoding(encoded@) == Some(b@),
        r is None ==> standard_base64_decoding(encoded@) is None,
{
    base64::engine::general_purpose::STANDARD.decode(encoded).ok()
}

/// The media bytes, given what decoding returned.
pub fn media_bytes(decoded: Option<Vec<u8>>) -> (r: Result<Vec<u8>, AiError>)
    ensures
        decoded matches Some(b) ==> (r matches Ok(x) && x@ == b@),
        decoded is None ==> (r matches Err(e) && e is InvalidMedia),
{
    match decoded {
        Some(b) => Ok(b),
        None => Err(AiError::InvalidMedia),
    }
}

/// Decode the returned media, refusing data that is not base64.
pub fn decode_media(encoded: &str) -> (r: Result<Vec<u8>, AiError>)
    ensures
        standard_base64_decoding(encoded@) matches Some(b) ==> (r matches Ok(x) && x@ == b),
        standard_base64_decoding(encoded@) is None ==> (r matches Err(e) && e is InvalidMedia),
{
    media_bytes(decode_standard_base64(encoded))
}

} // verus!
