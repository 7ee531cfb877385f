//! Quick sprites: the image-to-video-to-sprite-sheet pipeline's choices of
//! source, defaults, output manifests and the data URI that carries the
//! source image to the video provider.

use vstd::prelude::*;
use base64::Engine;
use crate::text::{lowercase, str_eq, to_lowercase};
pub use crate::sprites::FrameRect;

verus! {

/// Generation mode for quick sprites.
#[derive(Debug, Clone, Copy, PartialEq, Eq, Structural)]
pub enum QuickSpritesMode {
    /// Generate from existing image asset.
    FromImage,
    /// Generate from prompt (image gen first).
    FromPrompt,
}

impl QuickSpritesMode {
    /// The mode's name as the job metadata records it.
    pub fn metadata_name(&self) -> (s: &'static str)
        ensures
            s@ == (match *self {
                QuickSpritesMode::FromImage => "fromimage"@,
                QuickSpritesMode::FromPrompt => "fromprompt"@,
            }),
    {
        match self {
            QuickSpritesMode::FromImage => "fromimage",
            QuickSpritesMode::FromPrompt => "fromprompt",
        }
    }
}

/// Output format for sprite sheet manifests.
#[derive(Debug, Clone, Copy, PartialEq, Eq, Structural)]
pub enum QuickSpritesOutputFormat {
    Json,
    Aseprite,
    Both,
}

impl QuickSpritesOutputFormat {
    /// The default output format: both manifests.
    pub fn default() -> (f: QuickSpritesOutputFormat)
        ensures
            f == QuickSpritesOutputFormat::Both,
    {
        QuickSpritesOutputFormat::Both
    }

    /// Whether the canonical JSON manifest is written.
    pub fn writes_json(&self) -> (r: bool)
        ensures
            r == (*self == QuickSpritesOutputFormat::Json || *self == QuickSpritesOutputFormat::Both),
    {
        match self {
            QuickSpritesOutputFormat::Json | QuickSpritesOutputFormat::Both => true,
            QuickSpritesOutputFormat::Aseprite => false,
        }
    }

    /// Whether the Aseprite JSON is written.
    pub fn writes_aseprite(&self) -> (r: bool)
        ensures
            r == (*self == QuickSpritesOutputFormat::Aseprite || *self == QuickSpritesOutputFormat::Both),
    {
        match self {
            QuickSpritesOutputFormat::Aseprite | QuickSpritesOutputFormat::Both => true,
            QuickSpritesOutputFormat::Json => false,
        }
    }
}

/// Checks that the job carries what its mode needs: a source file for an
/// existing image, image generation parameters for a prompt.
pub fn check_source(mode: QuickSpritesMode, has_source_file: bool, has_image_gen_params: bool) -> (r: Result<(), String>)
    ensures
        mode == QuickSpritesMode::FromImage ==> (has_source_file ==> r is Ok) && (!has_source_file ==> (r matches Err(
            e,
        ) && e@ == "FromImage mode requires source_file_path"@)),
        mode == QuickSpritesMode::FromPrompt ==> (has_image_gen_params ==> r is Ok) && (!has_image_gen_params ==> (
        r matches Err(e) && e@ == "FromPrompt mode requires image_gen_params"@)),
{
    match mode {
        QuickSpritesMode::FromImage => if has_source_file {
            Ok(())
        } else {
            Err(String::from_str("FromImage mode requires source_file_path"))
        },
        QuickSpritesMode::FromPrompt => if has_image_gen_params {
            Ok(())
        } else {
            Err(String::from_str("FromPrompt mode requires image_gen_params"))
        },
    }
}

/// Seconds of video asked for: the job's value, else 4.
pub fn video_duration_secs(requested: Option<u8>) -> (d: u8)
    ensures
        d == match requested {
            Some(v) => v,
            None => 4u8,
        },
{
    match requested {
        Some(v) => v,
        None => 4,
    }
}

/// The MIME type of an image file by its lower-cased extension (PNG by default).
pub open spec fn image_mime(ext: Seq<char>) -> Seq<char> {
    if ext == "png"@ {
        "image/png"@
    } else if ext == "jpg"@ || ext == "jpeg"@ {
        "image/jpeg"@
    } else if ext == "gif"@ {
        "image/gif"@
    } else if ext == "webp"@ {
        "image/webp"@
    } else if ext == "bmp"@ {
        "image/bmp"@
    } else {
        "image/png"@
    }
}

/// The MIME type for a file extension, compared without regard to case;
/// a file without extension counts as PNG.
pub fn image_mime_type(extension: Option<&str>) -> (r: &'static str)
    ensures
        extension matches Some(e) ==> r@ == image_mime(lowercase(e@)),
        extension is None ==> r@ == "image/png"@,
{
    match extension {
        None => "image/png",
        Some(e) => {
            let ext = to_lowercase(e);
            let x = ext.as_str();
            if str_eq(x, "png") {
                "image/png"
            } else if str_eq(x, "jpg") || str_eq(x, "jpeg") {
                "image/jpeg"
            } else if str_eq(x, "gif") {
                "image/gif"
            } else if str_eq(x, "webp") {
                "image/webp"
            } else if str_eq(x, "bmp") {
                "image/bmp"
            } else {
                "image/png"
            }
        },
    }
}

/// The character of a six-bit value in the standard base64 alphabet
/// (`A`-`Z`, `a`-`z`, `0`-`9`, `+`, `/`).
pub open spec fn base64_char(v: int) -> char {
    if v < 26 {
        (65 + v) as char
    } else if v < 52 {
        (97 + v - 26) as char
    } else if v < 62 {
        (48 + v - 52) as char
    } else if v == 62 {
        '+'
    } else {
        '/'
    }
}

/// Standard base64 with padding (RFC 4648): each group of three bytes
/// becomes four characters of six bits each, most significant first; a final
/// group of one or two bytes is padded with zero bits and `=`.
pub open spec fn base64_standard(bytes: Seq<u8>) -> Seq<char>
    decreases bytes.len(),
{
    if bytes.len() == 0 {
        Seq::empty()
    } else if bytes.len() == 1 {
        let b0 = bytes[0] as int;
        seq![base64_char(b0 / 4), base64_char((b0 % 4) * 16), '=', '=']
    } else if bytes.len() == 2 {
        let b0 = bytes[0] as int;
        let b1 = bytes[1] as int;
        seq![base64_char(b0 / 4), base64_char((b0 % 4) * 16 + b1 / 16), base64_char((b1 % 16) * 4), '=']
    } else {
        let n = (bytes[0] as int) * 65536 + (bytes[1] as int) * 256 + (bytes[2] as int);
        seq![base64_char(n / 262144), base64_char((n / 4096) % 64), base64_char((n / 64) % 64), base64_char(n % 64)]
            + base64_standard(bytes.subrange(3, bytes.len() as int))
    }
}

/// The length of the padded base64 text of `n` bytes.
pub open spec fn base64_len(n: int) -> int {
    (n / 3) * 4 + if n % 3 > 0 {
        4int
    } else {
        0int
    }
}

/// Encodes bytes with `base64::engine::general_purpose::STANDARD.encode`,
/// the standard alphabet with padding; the result is `base64_standard` of
/// the bytes, of the padded length. The crate panics when that length overflows `usize`,
/// which `requires` rules out.
#[verifier::external_body]
fn encode_base64(bytes: &[u8]) -> (r: String)
    requires
        base64_len(bytes@.len() as int) <= usize::MAX,
    ensures
        r@ == base64_standard(bytes@),
        r@.len() == base64_len(bytes@.len() as int),
{
    base64::engine::general_purpose::STANDARD.encode(bytes)
}

/// A data URI carrying the bytes: `data:<mime>;base64,<base64 of the bytes>`.
pub fn data_uri(mime_type: &str, bytes: &[u8]) -> (r: String)
    requires
        base64_len(bytes@.len() as int) <= usize::MAX,
    ensures
        r@ == "data:"@ + mime_type@ + ";base64,"@ + base64_standard(bytes@),
{
    let encoded = encode_base64(bytes);
    let mut s = String::from_str("data:");
    s.append(mime_type);
    s.append(";base64,");
    s.append(encoded.as_str());
    s
}

} // verus!
