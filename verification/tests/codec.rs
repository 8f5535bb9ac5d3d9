use psd_watch::classify::{EventCategory, PathInfo};
use psd_watch::convert::{convert_decoded, encode_pixels, DecodedImage, ExportError};
use psd_watch::dispatch::{Dispatcher, LoopState};
use psd_watch::format::ExportFormat;
use psd_watch::framing::check_framing;

/// A minimal valid document: a 1x1 RGB image, 8 bits per channel, raw
/// (uncompressed) image data, with one red pixel.
fn minimal_document() -> Vec<u8> {
    let mut bytes: Vec<u8> = Vec::new();
    // file header: signature, version 1, six reserved zero bytes
    bytes.extend_from_slice(b"8BPS");
    bytes.extend_from_slice(&[0, 1]);
    bytes.extend_from_slice(&[0, 0, 0, 0, 0, 0]);
    // three channels, height 1, width 1, depth 8, color mode RGB
    bytes.extend_from_slice(&[0, 3]);
    bytes.extend_from_slice(&[0, 0, 0, 1]);
    bytes.extend_from_slice(&[0, 0, 0, 1]);
    bytes.extend_from_slice(&[0, 8]);
    bytes.extend_from_slice(&[0, 3]);
    // empty color mode data, image resources, layer and mask sections
    bytes.extend_from_slice(&[0, 0, 0, 0]);
    bytes.extend_from_slice(&[0, 0, 0, 0]);
    bytes.extend_from_slice(&[0, 0, 0, 0]);
    // image data: raw compression, then one byte per channel (R, G, B)
    bytes.extend_from_slice(&[0, 0]);
    bytes.extend_from_slice(&[255, 0, 0]);
    bytes
}

/// The shell's decode step, as tests exercise it: the library's
/// framing gate, then the real outside decoder.
fn decode_document(bytes: &Vec<u8>) -> Result<DecodedImage, ExportError> {
    if !check_framing(bytes) {
        return Err(ExportError::UnparseableDocument);
    }
    psd::Psd::from_bytes(bytes)
        .map(|p| DecodedImage { width: p.width(), height: p.height(), pixels: p.rgba() })
        .map_err(|_| ExportError::UnparseableDocument)
}

#[test]
fn decode_valid_document() {
    let img = decode_document(&minimal_document()).expect("the minimal document should decode");
    assert_eq!(img.width, 1);
    assert_eq!(img.height, 1);
    assert_eq!(img.pixels, vec![255, 0, 0, 255]);
}

#[test]
fn decode_corrupt_document() {
    let garbage = b"this is not a layered-image document".to_vec();
    assert_eq!(decode_document(&garbage).err(), Some(ExportError::UnparseableDocument));
}

#[test]
fn convert_corrupt_document_is_unparseable() {
    let garbage = vec![0u8; 64];
    let result = convert_decoded(decode_document(&garbage), ExportFormat::Png);
    assert_eq!(result.err(), Some(ExportError::UnparseableDocument));
}

#[test]
fn convert_to_png_produces_png_bytes() {
    let out = convert_decoded(decode_document(&minimal_document()), ExportFormat::Png)
        .expect("PNG conversion should succeed");
    assert_eq!(&out[0..4], &[137, 80, 78, 71]);
}

#[test]
fn converted_png_keeps_dimensions() {
    // round trip: the encoded image has the document's reported size
    let out = convert_decoded(decode_document(&minimal_document()), ExportFormat::Png).unwrap();
    let img = image::load_from_memory(&out).expect("the output should decode as an image");
    assert_eq!(img.width(), 1);
    assert_eq!(img.height(), 1);
}

#[test]
fn convert_to_jpeg_reports_unwritable() {
    // the encoder refuses RGBA input for JPEG, as it always has here:
    // the failure is classified, not propagated
    let result = convert_decoded(decode_document(&minimal_document()), ExportFormat::Jpg);
    assert_eq!(result.err(), Some(ExportError::UnwritableOutput));
}

#[test]
fn encode_mismatched_buffer_is_rejected() {
    let bad = DecodedImage { width: 2, height: 2, pixels: vec![0, 0, 0, 255] };
    let result = encode_pixels(bad, ExportFormat::Png);
    assert_eq!(result.err(), Some(ExportError::ImageBufferConstructionFailure));
}

#[test]
fn header_only_document_is_rejected() {
    // a bare valid header with nothing after it must fail, not fault
    let doc = minimal_document()[0..26].to_vec();
    assert!(!check_framing(&doc));
    assert_eq!(decode_document(&doc).err(), Some(ExportError::UnparseableDocument));
}

#[test]
fn truncated_document_is_rejected() {
    // cut inside the section framing: the declared lengths no longer
    // fit in the file
    let doc = minimal_document()[0..32].to_vec();
    assert!(!check_framing(&doc));
    assert_eq!(decode_document(&doc).err(), Some(ExportError::UnparseableDocument));
}

#[test]
fn zip_compression_is_rejected() {
    // compression marker 2 names a ZIP variant the decoder cannot take
    let mut doc = minimal_document();
    let n = doc.len();
    doc[n - 5] = 0;
    doc[n - 4] = 2;
    assert!(!check_framing(&doc));
    assert_eq!(decode_document(&doc).err(), Some(ExportError::UnparseableDocument));
}

#[test]
fn oversized_channel_data_is_rejected() {
    // more channel bytes than the 1x1 dimensions admit
    let mut doc = minimal_document();
    doc.extend_from_slice(&[7; 27]);
    assert!(!check_framing(&doc));
    assert_eq!(decode_document(&doc).err(), Some(ExportError::UnparseableDocument));
}

#[test]
fn channel_count_high_byte_is_ignored() {
    // the decoder truncates the declared channel count to its low
    // byte; the framing gate must judge the same count it will use
    let mut doc = minimal_document();
    doc[12] = 1;
    assert!(check_framing(&doc));
    let img = decode_document(&doc).expect("the decoder reads the count's low byte");
    assert_eq!(img.pixels, vec![255, 0, 0, 255]);
}

#[test]
fn rle_document_decodes() {
    // the same 1x1 red pixel, RLE-compressed: a scan-line count table
    // of three two-byte counts, then one literal byte per channel
    let mut doc = minimal_document();
    doc.truncate(doc.len() - 5);
    doc.extend_from_slice(&[0, 1]);
    doc.extend_from_slice(&[0, 2, 0, 2, 0, 2]);
    doc.extend_from_slice(&[0, 255, 0, 0, 0, 0]);
    assert!(check_framing(&doc));
    let img = decode_document(&doc).expect("the RLE document should decode");
    assert_eq!((img.width, img.height), (1, 1));
    assert_eq!(img.pixels, vec![255, 0, 0, 255]);
}

#[test]
fn corrupt_document_does_not_stop_watching() {
    // a malformed document fails to decode, the loop keeps watching,
    // and a later valid save of the same path still exports
    let mut dispatcher = Dispatcher::new(ExportFormat::Png, 100);
    let infos = vec![PathInfo { path: b"w/a.psd".to_vec(), is_regular_file: true }];

    let first = dispatcher.handle_notification(EventCategory::Modified, &infos, 0);
    assert_eq!(first.len(), 1);
    let garbage = vec![1u8; 32];
    assert_eq!(
        convert_decoded(decode_document(&garbage), ExportFormat::Png).err(),
        Some(ExportError::UnparseableDocument)
    );
    assert_eq!(dispatcher.state, LoopState::Watching);

    let second = dispatcher.handle_notification(EventCategory::Modified, &infos, 150);
    assert_eq!(second.len(), 1);
    let out = convert_decoded(decode_document(&minimal_document()), ExportFormat::Png);
    assert!(out.is_ok());
}
