use vstd::prelude::*;
use crate::format::ExportFormat;

verus! {

/// A decoded document as plain values: its reported dimensions and the
/// flattened composite as RGBA bytes, four per pixel.  The caller
/// obtains these from the outside decoder; the decoder can fault on
/// malformed documents, and an unwind cannot be caught here, so the
/// call itself stands in the unverified shell behind a guard and this
/// library takes its result as a value.
pub struct DecodedImage {
    pub width: u32,
    pub height: u32,
    pub pixels: Vec<u8>,
}

impl DecodedImage {
    /// What a successful decode yields: dimensions within the document
    /// format's limits, and a buffer of exactly width*height*4 bytes.
    pub open spec fn wf(&self) -> bool {
        &&& self.pixels@.len() == 4 * self.width * self.height
        &&& 1 <= self.width <= 30000
        &&& 1 <= self.height <= 30000
    }
}

/// The classified per-document failures.  They are reported, never
/// propagated: a failed export must not stop the watch or other
/// exports.
#[derive(Clone, Copy, Debug, PartialEq, Eq, Structural)]
pub enum ExportError {
    /// The document's bytes could not be read from disk.
    UnreadableDocument,
    /// The document's bytes do not parse as a layered-image document.
    UnparseableDocument,
    /// The decoded buffer does not match the reported dimensions.
    ImageBufferConstructionFailure,
    /// The output could not be encoded or written.
    UnwritableOutput,
}

/// The report an export worker produces for one document.
pub struct ExportOutcome {
    pub path: Vec<u8>,
    pub result: Result<(), ExportError>,
}

// What the outside encoder computes from the dimensions, the pixels
// and the chosen format alone: the encoded bytes, or None when the
// encoder rejects the image.
pub uninterp spec fn encoded_image(width: u32, height: u32, pixels: Seq<u8>, as_jpeg: bool) -> Option<
    Seq<u8>,
>;

#[verifier::external_type_specification]
#[verifier::external_body]
pub struct ExImageError(image::ImageError);

/// Relies on image::ImageBuffer::from_raw, which accepts a buffer of
/// exactly width*height*4 RGBA bytes, and on ImageBuffer::write_to,
/// which encodes the buffer into the chosen format in memory; the
/// encoded bytes, or the encoder's refusal, depend only on the
/// dimensions, the pixels and the format.
#[verifier::external_body]
fn encode_rgba_pixels(width: u32, height: u32, pixels: Vec<u8>, format: ExportFormat) -> (r: Result<
    Vec<u8>,
    image::ImageError,
>)
    requires
        pixels@.len() == 4 * width * height,
    ensures
        r is Ok <==> encoded_image(width, height, pixels@, format.is_jpeg()) is Some,
        r matches Ok(out) ==> encoded_image(width, height, pixels@, format.is_jpeg()) == Some(out@),
{
    let buffer = image::ImageBuffer::<image::Rgba<u8>, Vec<u8>>::from_raw(width, height, pixels)
        .unwrap();
    let target = match format {
        ExportFormat::Png => image::ImageFormat::Png,
        ExportFormat::Jpg => image::ImageFormat::Jpeg,
    };
    let mut cursor = std::io::Cursor::new(Vec::new());
    match buffer.write_to(&mut cursor, target) {
        Ok(()) => Ok(cursor.into_inner()),
        Err(e) => Err(e),
    }
}

/// What encoding returns for given dimensions, pixels and format: a
/// buffer of the wrong size is rejected before the encoder runs, and
/// an encoder refusal is an UnwritableOutput failure.
pub open spec fn encode_spec(width: u32, height: u32, pixels: Seq<u8>, as_jpeg: bool) -> Result<
    Seq<u8>,
    ExportError,
> {
    if pixels.len() != 4 * width * height {
        Err(ExportError::ImageBufferConstructionFailure)
    } else {
        match encoded_image(width, height, pixels, as_jpeg) {
            Some(out) => Ok(out),
            None => Err(ExportError::UnwritableOutput),
        }
    }
}

/// Encodes decoded pixel data into the target format.
pub fn encode_pixels(img: DecodedImage, format: ExportFormat) -> (r: Result<Vec<u8>, ExportError>)
    ensures
        r is Ok <==> encode_spec(img.width, img.height, img.pixels@, format.is_jpeg()) is Ok,
        r matches Ok(out) ==> encode_spec(img.width, img.height, img.pixels@, format.is_jpeg())
            == Ok::<Seq<u8>, ExportError>(out@),
        r matches Err(e) ==> encode_spec(img.width, img.height, img.pixels@, format.is_jpeg())
            == Err::<Seq<u8>, ExportError>(e),
{
    let w: u128 = img.width as u128;
    let h: u128 = img.height as u128;
    proof {
        assert(4u128 * w * h <= 4u128 * 0xffff_ffffu128 * 0xffff_ffffu128) by (nonlinear_arith)
            requires
                w <= 0xffff_ffffu128,
                h <= 0xffff_ffffu128,
        ;
    }
    let expected: u128 = 4u128 * w * h;
    if (img.pixels.len() as u128) != expected {
        return Err(ExportError::ImageBufferConstructionFailure);
    }
    match encode_rgba_pixels(img.width, img.height, img.pixels, format) {
        Ok(out) => Ok(out),
        Err(_) => Err(ExportError::UnwritableOutput),
    }
}

/// What converting one decode result returns, as a function of that
/// result and the format alone.
pub open spec fn convert_decoded_spec(
    decoded: Result<DecodedImage, ExportError>,
    as_jpeg: bool,
) -> Result<Seq<u8>, ExportError> {
    match decoded {
        Err(e) => Err(e),
        Ok(img) => encode_spec(img.width, img.height, img.pixels@, as_jpeg),
    }
}

/// The compute core of an export worker, downstream of the outside
/// decoder: the caller reads the document, decodes it behind its fault
/// guard, hands the result here, and writes the returned bytes to the
/// output path.  A decode failure keeps its classification; decoded
/// pixels are encoded into the target format.
pub fn convert_decoded(decoded: Result<DecodedImage, ExportError>, format: ExportFormat) -> (r:
    Result<Vec<u8>, ExportError>)
    ensures
        r is Ok <==> convert_decoded_spec(decoded, format.is_jpeg()) is Ok,
        r matches Ok(out) ==> convert_decoded_spec(decoded, format.is_jpeg()) == Ok::<
            Seq<u8>,
            ExportError,
        >(out@),
        r matches Err(e) ==> convert_decoded_spec(decoded, format.is_jpeg()) == Err::<
            Seq<u8>,
            ExportError,
        >(e),
{
    match decoded {
        Err(e) => Err(e),
        Ok(img) => encode_pixels(img, format),
    }
}

/// Round trip: a well-formed decoded image reaches the encoder at
/// exactly its reported dimensions — its buffer holds width*height
/// pixels of four bytes each, so the size check cannot reject it, and
/// a successful conversion returns precisely the encoding of those
/// dimensions and pixels; nothing is resized or substituted on the way
/// to the encoder.
pub proof fn lemma_round_trip_dimensions(img: DecodedImage, as_jpeg: bool)
    requires
        img.wf(),
    ensures
        encode_spec(img.width, img.height, img.pixels@, as_jpeg) != Err::<Seq<u8>, ExportError>(
            ExportError::ImageBufferConstructionFailure,
        ),
        encode_spec(img.width, img.height, img.pixels@, as_jpeg) is Ok ==> encode_spec(
            img.width,
            img.height,
            img.pixels@,
            as_jpeg,
        ) == Ok::<Seq<u8>, ExportError>(
            encoded_image(img.width, img.height, img.pixels@, as_jpeg)->Some_0,
        ),
{
}

} // verus!
