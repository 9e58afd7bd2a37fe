use sheet_extract::image::decode_image_data;
use sheet_extract::image::prepare_save_image;
use sheet_extract::image::SaveImageRequest;
use sheet_extract::qr::generate_qrcode;

#[test]
fn decodes_plain_base64() {
    let bytes = decode_image_data("aGVsbG8=").unwrap();
    assert_eq!(bytes, b"hello");
}

#[test]
fn strips_data_uri_prefix_before_decoding() {
    let bytes = decode_image_data("data:image/png;base64,aGVsbG8=").unwrap();
    assert_eq!(bytes, b"hello");
}

#[test]
fn empty_payload_decodes_to_no_bytes() {
    let bytes = decode_image_data("").unwrap();
    assert_eq!(bytes.len(), 0);
}

#[test]
fn invalid_base64_is_an_error() {
    let err = decode_image_data("!!!not base64!!!").unwrap_err();
    assert!(err.starts_with("Failed to decode image data: "));
}

#[test]
fn save_request_payload_is_decoded() {
    let request = SaveImageRequest {
        directory: "out".to_string(),
        filename: "img.png".to_string(),
        data: "data:image/png;base64,iVBORw0KGgo=".to_string(),
    };
    let bytes = prepare_save_image(&request).unwrap();
    // the PNG magic header survives the round trip
    assert_eq!(&bytes[..4], &[0x89, b'P', b'N', b'G']);
}

#[test]
fn qrcode_is_svg_and_deterministic() {
    let svg = generate_qrcode("hello").unwrap();
    assert_ne!(svg, "hello");
    assert!(svg.contains("svg"));
    assert_eq!(generate_qrcode("hello").unwrap(), svg);
    assert_ne!(generate_qrcode("other").unwrap(), svg);
}

#[test]
fn oversized_qrcode_payload_is_rejected() {
    // far beyond the byte capacity of the largest QR code
    let big = "x".repeat(3000);
    assert!(generate_qrcode(&big).is_none());
}
