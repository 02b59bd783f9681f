use random_restaurant::multipart::{encode_multipart, make_boundary, parse_multipart};

#[test]
fn boundary_has_the_documented_shape() {
    let b = make_boundary();
    assert_eq!(b.len(), 56);
    for i in 0..24 {
        assert_eq!(b[i], b'-');
    }
    for i in 24..56 {
        assert!(b[i].is_ascii_alphanumeric(), "byte {} is not alphanumeric", b[i]);
    }
}

#[test]
fn fresh_boundaries_differ() {
    // 32 random alphanumerics make a repeat vanishingly unlikely.
    let a = make_boundary();
    let b = make_boundary();
    assert_ne!(a, b);
}

#[test]
fn body_layout_is_byte_exact() {
    let boundary = b"BBBB".to_vec();
    let body = encode_multipart(
        &boundary,
        &b"photo.jpg".to_vec(),
        &b"image/jpeg".to_vec(),
        &b"RAWBYTES".to_vec(),
        Some(&b"a caption".to_vec()),
    );
    let expected = format!(
        "--BBBB\r\nContent-Disposition: form-data; name=\"file\"; filename=\"photo.jpg\"\r\n\
         Content-Type: image/jpeg\r\n\r\nRAWBYTES\r\n--BBBB\r\n\
         Content-Disposition: form-data; name=\"description\";\r\n\r\na caption\r\n--BBBB--\r\n"
    );
    assert_eq!(body, expected.into_bytes());
}

#[test]
fn body_without_text_field_leaves_it_empty() {
    let boundary = b"BBBB".to_vec();
    let body = encode_multipart(
        &boundary,
        &b"f.png".to_vec(),
        &b"image/png".to_vec(),
        &b"x".to_vec(),
        None,
    );
    let expected = format!(
        "--BBBB\r\nContent-Disposition: form-data; name=\"file\"; filename=\"f.png\"\r\n\
         Content-Type: image/png\r\n\r\nx\r\n--BBBB\r\n\
         Content-Disposition: form-data; name=\"description\";\r\n\r\n\r\n--BBBB--\r\n"
    );
    assert_eq!(body, expected.into_bytes());
}

#[test]
fn roundtrip_with_description() {
    let boundary = make_boundary();
    let file: Vec<u8> = vec![0, 159, 146, 150, 13, 10, 0, 255];
    let body = encode_multipart(
        &boundary,
        &b"photo.jpg".to_vec(),
        &b"image/jpeg".to_vec(),
        &file,
        Some(&b"a quiet terrace".to_vec()),
    );
    let parts = parse_multipart(&body, &boundary).expect("a produced body must parse");
    assert_eq!(parts.filename, b"photo.jpg".to_vec());
    assert_eq!(parts.content_type, b"image/jpeg".to_vec());
    assert_eq!(parts.file, file);
    assert_eq!(parts.text, b"a quiet terrace".to_vec());
}

#[test]
fn roundtrip_without_description_recovers_empty_text() {
    let boundary = make_boundary();
    let body = encode_multipart(
        &boundary,
        &b"p.png".to_vec(),
        &b"image/png".to_vec(),
        &b"BYTES".to_vec(),
        None,
    );
    let parts = parse_multipart(&body, &boundary).expect("a produced body must parse");
    assert_eq!(parts.filename, b"p.png".to_vec());
    assert_eq!(parts.text, Vec::<u8>::new());
}

#[test]
fn corrupt_body_does_not_parse() {
    let boundary = make_boundary();
    let mut body = encode_multipart(
        &boundary,
        &b"p.png".to_vec(),
        &b"image/png".to_vec(),
        &b"BYTES".to_vec(),
        None,
    );
    body.truncate(body.len() - 1);
    assert!(parse_multipart(&body, &boundary).is_none());
    assert!(parse_multipart(&b"not multipart".to_vec(), &boundary).is_none());
}
