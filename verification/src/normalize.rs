//! The normalizer: repairs alpha data and re-encodes a raw RGBA pixel buffer
//! into a losslessly compressed, transport-encoded representation.
//!
//! The clipboard reader upstream is known to sometimes deliver zeroed alpha
//! bytes, which would render the image fully transparent; every alpha byte is
//! therefore forced to 255 before encoding. The repaired grid is encoded as
//! PNG (lossless, dimensions preserved), base64-encoded, and wrapped in a
//! self-describing `data:image/png;base64,` prefix so consumers can use the
//! string verbatim.

use vstd::prelude::*;
use vstd::string::StringExecFns;
use crate::errors::PipelineError;

verus! {

/// A raw clipboard image: RGBA8 interleaved bytes plus the declared
/// dimensions. A consistent image holds exactly `width * height * 4` bytes.
pub struct RawImage {
    /// RGBA8 interleaved pixel bytes, row-major, no padding.
    pub pixels: Vec<u8>,
    /// Image width in pixels.
    pub width: u32,
    /// Image height in pixels.
    pub height: u32,
}

impl RawImage {
    /// The buffer length a consistent image must have.
    pub open spec fn expected_len(self) -> int {
        self.width * self.height * 4
    }
}

/// A normalized image: the transport payload plus the echoed dimensions.
pub struct ProcessedImage {
    /// `data:image/png;base64,<payload>`: the PNG encoding of the repaired
    /// pixel grid, base64-encoded, behind a self-describing prefix.
    pub base64_data: String,
    /// Width of the encoded image (echoed from the input).
    pub width: u32,
    /// Height of the encoded image (echoed from the input).
    pub height: u32,
    /// Same as `width`: no resizing takes place.
    pub original_width: u32,
    /// Same as `height`: no resizing takes place.
    pub original_height: u32,
}

/// A normalized image together with the byte size of the raw buffer it was
/// made from — an explicit measure of savings versus the transport payload.
pub struct ProcessedImageWithSize {
    /// `data:image/png;base64,<payload>`, as in `ProcessedImage`.
    pub base64_data: String,
    /// Width of the encoded image.
    pub width: u32,
    /// Height of the encoded image.
    pub height: u32,
    /// Byte size of the raw, pre-compression RGBA buffer.
    pub original_size: usize,
}

// ---------------------------------------------------------------------------
// Alpha repair
// ---------------------------------------------------------------------------

/// The buffer with every alpha byte (every 4th byte, starting at index 3)
/// forced to 255, all other bytes unchanged.
pub open spec fn spec_repair_alpha(s: Seq<u8>) -> Seq<u8> {
    Seq::new(s.len(), |i: int| if i % 4 == 3 { 255u8 } else { s[i] })
}

/// Law: alpha repair is idempotent. Repairing an already-repaired buffer
/// changes nothing, so normalizing twice leaves the alpha channel
/// byte-identical.
pub proof fn lemma_repair_alpha_idempotent(s: Seq<u8>)
    ensures
        spec_repair_alpha(spec_repair_alpha(s)) == spec_repair_alpha(s),
{
    assert(spec_repair_alpha(spec_repair_alpha(s)) =~= spec_repair_alpha(s));
}

/// Forces every alpha byte to fully opaque, in place.
fn repair_alpha(pixels: &mut Vec<u8>)
    ensures
        final(pixels)@ == spec_repair_alpha(old(pixels)@),
{
    let len: usize = pixels.len();
    let pixel_count: usize = len / 4;
    let mut k: usize = 0;
    while k < pixel_count
        invariant
            len == pixels@.len(),
            pixel_count == len as int / 4,
            k <= pixel_count,
            forall|j: int| 0 <= j < len && j % 4 == 3 && j / 4 < k ==> pixels@[j] == 255u8,
            forall|j: int|
                0 <= j < len && !(j % 4 == 3 && j / 4 < k) ==> pixels@[j] == old(pixels)@[j],
        decreases pixel_count - k,
    {
        proof {
            vstd::arithmetic::div_mod::lemma_fundamental_div_mod(len as int, 4);
            assert(k * 4 + 3 < len);
        }
        let idx: usize = k * 4 + 3;
        pixels.set(idx, 255);
        proof {
            assert(idx as int % 4 == 3);
            assert(idx as int / 4 == k as int);
        }
        k = k + 1;
    }
    proof {
        assert forall|j: int| 0 <= j < len && #[trigger] (j % 4) == 3 implies j / 4 < pixel_count by {
            vstd::arithmetic::div_mod::lemma_fundamental_div_mod(j, 4);
            vstd::arithmetic::div_mod::lemma_fundamental_div_mod(len as int, 4);
        }
        assert(pixels@ =~= spec_repair_alpha(old(pixels)@));
    }
}

// ---------------------------------------------------------------------------
// Trusted encoding boundary
// ---------------------------------------------------------------------------

/// The PNG encoding of a `width` x `height` RGBA8 pixel grid. The encoder is
/// deterministic, so the bytes are a function of the arguments alone; they
/// are not further specified here.
pub uninterp spec fn png_bytes_of(pixels: Seq<u8>, width: u32, height: u32) -> Seq<u8>;

/// Relies on `image::ImageBuffer::from_raw` (which accepts a container of
/// exactly `width * height * 4` bytes, so it succeeds here) and
/// `image::DynamicImage::write_to` with `ImageFormat::Png`: a deterministic,
/// lossless encoding of the pixel grid. On this path the PNG writer's
/// initialization rejects exactly zero width or zero height and nothing
/// else, and writing into the in-memory cursor cannot fail, so success is
/// owed whenever both dimensions are positive.
#[verifier::external_body]
fn encode_png(pixels: Vec<u8>, width: u32, height: u32) -> (r: Result<Vec<u8>, String>)
    requires
        pixels@.len() == width * height * 4,
    ensures
        r matches Ok(b) ==> b@ == png_bytes_of(pixels@, width, height),
        width > 0 && height > 0 ==> r is Ok,
{
    let buffer = image::ImageBuffer::<image::Rgba<u8>, Vec<u8>>::from_raw(width, height, pixels)
        .ok_or_else(|| "Failed to create image buffer".to_string())?;
    let img = image::DynamicImage::ImageRgba8(buffer);
    let mut png_buffer: Vec<u8> = Vec::new();
    let mut cursor = std::io::Cursor::new(&mut png_buffer);
    img.write_to(&mut cursor, image::ImageFormat::Png).map_err(|e| format!("{}", e))?;
    Ok(png_buffer)
}

/// The base64 rendering (standard alphabet, padded) of a byte sequence. A
/// function of the bytes alone; beyond its length it is not further
/// specified here.
pub uninterp spec fn base64_of(bytes: Seq<u8>) -> Seq<char>;

/// Relies on `base64::engine::general_purpose::STANDARD.encode`: the standard
/// alphabet with padding, four output characters for every three input bytes
/// (rounded up), depending on the input bytes alone.
#[verifier::external_body]
fn base64_encode(bytes: &Vec<u8>) -> (r: String)
    ensures
        r@ == base64_of(bytes@),
        r@.len() == 4 * ((bytes@.len() + 2) / 3),
{
    base64::Engine::encode(&base64::engine::general_purpose::STANDARD, bytes)
}

// ---------------------------------------------------------------------------
// Transport framing
// ---------------------------------------------------------------------------

/// The fixed self-describing transport prefix.
pub open spec fn spec_data_url_prefix() -> Seq<char> {
    "data:image/png;base64,"@
}

/// A transport payload: the fixed prefix followed by the base64 text.
pub open spec fn spec_data_url(payload: Seq<char>) -> Seq<char> {
    spec_data_url_prefix() + payload
}

/// Law (transport round trip, framing part): the prefix is 22 characters
/// long, so dropping the first 22 characters of a transport payload recovers
/// the base64 text exactly. The compression round trip itself is a property
/// of the PNG codec and is exercised by tests, not proved here.
pub proof fn lemma_data_url_payload(payload: Seq<char>)
    ensures
        spec_data_url(payload).skip(22) == payload,
        spec_data_url(payload).take(22) == spec_data_url_prefix(),
{
    reveal_strlit("data:image/png;base64,");
    assert(spec_data_url_prefix().len() == 22);
    assert(spec_data_url(payload).skip(22) =~= payload);
    assert(spec_data_url(payload).take(22) =~= spec_data_url_prefix());
}

/// Wraps a base64 payload in the fixed `data:image/png;base64,` prefix.
pub fn make_data_url(payload: String) -> (r: String)
    ensures
        r@ == spec_data_url(payload@),
{
    let mut s: String = String::from_str("data:image/png;base64,");
    s.append(payload.as_str());
    s
}

// ---------------------------------------------------------------------------
// The normalizer
// ---------------------------------------------------------------------------

/// The transport payload a successful normalization of `p` at `w` x `h`
/// produces.
pub open spec fn spec_normalized_payload(p: Seq<u8>, w: u32, h: u32) -> Seq<char> {
    spec_data_url(base64_of(png_bytes_of(spec_repair_alpha(p), w, h)))
}

/// Normalizes a raw RGBA buffer: alpha repair, lossless PNG re-encode at the
/// declared dimensions, base64 transport encoding.
///
/// Fails with `BufferSizeMismatch` exactly when the buffer length is
/// inconsistent with the dimensions. A consistent buffer with positive
/// dimensions is owed the normalized payload; only the degenerate
/// zero-dimension case (which PNG forbids) can surface `EncodeFailure` with
/// the encoder's cause text.
pub fn process_image_internal(rgba_data: Vec<u8>, width: u32, height: u32) -> (r: Result<
    ProcessedImage,
    PipelineError,
>)
    ensures
        rgba_data@.len() != width * height * 4 <==> (r matches Err(e) && e is BufferSizeMismatch),
        rgba_data@.len() == width * height * 4 && width > 0 && height > 0 ==> r is Ok,
        rgba_data@.len() == width * height * 4 ==> match r {
            Ok(pi) => pi.base64_data@ == spec_normalized_payload(rgba_data@, width, height)
                && pi.width == width && pi.height == height && pi.original_width == width
                && pi.original_height == height,
            Err(e) => e is EncodeFailure,
        },
{
    let wu: u128 = width as u128;
    let hu: u128 = height as u128;
    proof {
        assert(wu * hu <= 0xFFFF_FFFF * 0xFFFF_FFFF) by (nonlinear_arith)
            requires
                wu <= 0xFFFF_FFFF,
                hu <= 0xFFFF_FFFF,
        ;
    }
    let expected: u128 = wu * hu * 4;
    if (rgba_data.len() as u128) != expected {
        return Err(PipelineError::BufferSizeMismatch);
    }
    let mut fixed_rgba: Vec<u8> = rgba_data;
    repair_alpha(&mut fixed_rgba);
    let png_buffer: Vec<u8> = match encode_png(fixed_rgba, width, height) {
        Ok(b) => b,
        Err(cause) => {
            return Err(PipelineError::EncodeFailure(cause));
        },
    };
    let base64_str: String = base64_encode(&png_buffer);
    let data_url: String = make_data_url(base64_str);
    Ok(
        ProcessedImage {
            base64_data: data_url,
            width,
            height,
            original_width: width,
            original_height: height,
        },
    )
}

} // verus!
