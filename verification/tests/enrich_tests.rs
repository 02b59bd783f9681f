use random_restaurant::enrich::{
    build_photo_multipart, materialize_photo, read_description, read_place_details,
};
use random_restaurant::errors::PipelineError;
use random_restaurant::fetch::HttpResponse;
use random_restaurant::model::{Photo, Place};
use random_restaurant::multipart::parse_multipart;
use random_restaurant::publish::{collect_media_ids, read_media_id};

fn image_response(length: &[u8], body: &[u8]) -> HttpResponse {
    HttpResponse {
        status: 200,
        location: None,
        content_type: Some(b"image/jpeg".to_vec()),
        content_disposition: Some(b"inline; filename=\"p.jpg\"".to_vec()),
        content_length: Some(length.to_vec()),
        body: body.to_vec(),
    }
}

#[test]
fn materialize_fills_every_field() {
    let mut photo = Photo::stub("ref-1".to_string());
    let r = materialize_photo(&mut photo, image_response(b"8", b"IMGBYTES"));
    assert!(r.is_ok());
    assert_eq!(photo.content_length, Some(8));
    assert_eq!(photo.content_type, Some(b"image/jpeg".to_vec()));
    assert_eq!(photo.content_disposition, Some(b"inline; filename=\"p.jpg\"".to_vec()));
    assert_eq!(photo.bytes, b"IMGBYTES".to_vec());
    assert_eq!(photo.reference, "ref-1");
}

#[test]
fn missing_or_bad_content_length_is_schema_violation() {
    let mut photo = Photo::stub("r".to_string());
    let mut res = image_response(b"8", b"IMGBYTES");
    res.content_length = None;
    assert_eq!(materialize_photo(&mut photo, res), Err(PipelineError::SchemaViolation));
    let bad = image_response(b"12x", b"IMGBYTES");
    assert_eq!(materialize_photo(&mut photo, bad), Err(PipelineError::SchemaViolation));
    let huge = image_response(b"99999999999", b"IMGBYTES");
    assert_eq!(materialize_photo(&mut photo, huge), Err(PipelineError::SchemaViolation));
    assert_eq!(photo.bytes, Vec::<u8>::new());
}

#[test]
fn description_is_read_from_the_caption_response() {
    let mut photo = Photo::stub("r".to_string());
    let body = b"{\"description\":\"a quiet terrace\"}".to_vec();
    assert!(read_description(&mut photo, &body).is_ok());
    assert_eq!(photo.description, Some(b"a quiet terrace".to_vec()));
}

#[test]
fn caption_response_without_description_fails() {
    let mut photo = Photo::stub("r".to_string());
    let body = b"{\"note\":\"x\"}".to_vec();
    assert_eq!(read_description(&mut photo, &body), Err(PipelineError::SchemaViolation));
    assert_eq!(read_description(&mut photo, &b"not json".to_vec()),
        Err(PipelineError::SchemaViolation));
    assert_eq!(photo.description, None);
}

#[test]
fn details_write_address_and_cap_stubs_at_four() {
    let mut place = Place::new();
    let body = b"{\"result\":{\"formatted_address\":\"1 Main St\",\"photos\":[\
        {\"photo_reference\":\"r0\"},{\"photo_reference\":\"r1\"},{\"photo_reference\":null},\
        {\"photo_reference\":\"r3\"},{\"photo_reference\":\"r4\"},{\"photo_reference\":\"r5\"}]}}"
        .to_vec();
    assert!(read_place_details(&mut place, &body).is_ok());
    assert_eq!(place.address, "1 Main St");
    let refs: Vec<&str> = place.photos.iter().map(|p| p.reference.as_str()).collect();
    assert_eq!(refs, vec!["r0", "r1", "r3"]);
}

#[test]
fn details_without_photos_leave_the_photo_list_empty() {
    let mut place = Place::new();
    let body = b"{\"result\":{\"formatted_address\":\"2 Side St\"}}".to_vec();
    assert!(read_place_details(&mut place, &body).is_ok());
    assert_eq!(place.address, "2 Side St");
    assert!(place.photos.is_empty());
}

#[test]
fn wrong_typed_reference_in_the_first_four_slots_fails() {
    let mut place = Place::new();
    let body = b"{\"result\":{\"formatted_address\":\"1 Main St\",\"photos\":[\
        {\"photo_reference\":\"r0\"},{\"photo_reference\":123}]}}"
        .to_vec();
    assert_eq!(read_place_details(&mut place, &body), Err(PipelineError::SchemaViolation));
    assert_eq!(place.address, "");
    assert!(place.photos.is_empty());
}

#[test]
fn wrong_typed_reference_beyond_the_fourth_slot_is_ignored() {
    let mut place = Place::new();
    let body = b"{\"result\":{\"formatted_address\":\"1 Main St\",\"photos\":[\
        {\"photo_reference\":\"r0\"},{\"photo_reference\":\"r1\"},{\"photo_reference\":\"r2\"},\
        {\"photo_reference\":\"r3\"},{\"photo_reference\":123}]}}"
        .to_vec();
    assert!(read_place_details(&mut place, &body).is_ok());
    let refs: Vec<&str> = place.photos.iter().map(|p| p.reference.as_str()).collect();
    assert_eq!(refs, vec!["r0", "r1", "r2", "r3"]);
}

#[test]
fn details_without_address_fail() {
    let mut place = Place::new();
    let body = b"{\"result\":{}}".to_vec();
    assert_eq!(read_place_details(&mut place, &body), Err(PipelineError::SchemaViolation));
    assert_eq!(place.address, "");
}

#[test]
fn photo_multipart_roundtrips_through_its_own_boundary() {
    let mut photo = Photo::stub("r".to_string());
    assert!(materialize_photo(&mut photo, image_response(b"8", b"IMGBYTES")).is_ok());
    photo.description = Some(b"caption".to_vec());
    let (boundary, body) = build_photo_multipart(&photo).expect("all parts present");
    let parts = parse_multipart(&body, &boundary).expect("produced body parses");
    assert_eq!(parts.filename, b"p.jpg".to_vec());
    assert_eq!(parts.content_type, b"image/jpeg".to_vec());
    assert_eq!(parts.file, b"IMGBYTES".to_vec());
    assert_eq!(parts.text, b"caption".to_vec());
}

#[test]
fn photo_without_filename_cannot_be_encoded() {
    let mut photo = Photo::stub("r".to_string());
    let mut res = image_response(b"8", b"IMGBYTES");
    res.content_disposition = Some(b"inline".to_vec());
    assert!(materialize_photo(&mut photo, res).is_ok());
    assert!(matches!(build_photo_multipart(&photo), Err(PipelineError::SchemaViolation)));
}

#[test]
fn media_id_is_parsed_from_the_upload_response() {
    let mut photo = Photo::stub("r".to_string());
    assert!(read_media_id(&mut photo, &b"{\"id\":\"123456789\"}".to_vec()).is_ok());
    assert_eq!(photo.media_id, Some(123456789));
    assert!(read_media_id(&mut photo, &b"{\"id\":\"9223372036854775807\"}".to_vec()).is_ok());
    assert_eq!(photo.media_id, Some(i64::MAX));
}

#[test]
fn non_numeric_or_missing_media_id_fails() {
    let mut photo = Photo::stub("r".to_string());
    assert_eq!(read_media_id(&mut photo, &b"{\"id\":\"abc\"}".to_vec()),
        Err(PipelineError::SchemaViolation));
    assert_eq!(read_media_id(&mut photo, &b"{\"id\":\"9223372036854775808\"}".to_vec()),
        Err(PipelineError::SchemaViolation));
    assert_eq!(read_media_id(&mut photo, &b"{}".to_vec()),
        Err(PipelineError::SchemaViolation));
    assert_eq!(photo.media_id, None);
}

#[test]
fn media_ids_are_collected_in_place_order() {
    let mut place = Place::new();
    for (i, id) in [(0, 11i64), (1, 22), (2, 33)] {
        let mut p = Photo::stub(format!("r{}", i));
        p.media_id = Some(id);
        place.photos.push(p);
    }
    assert_eq!(collect_media_ids(&place), Ok(vec![11, 22, 33]));
}

#[test]
fn a_photo_without_media_id_blocks_posting() {
    let mut place = Place::new();
    let mut a = Photo::stub("a".to_string());
    a.media_id = Some(1);
    place.photos.push(a);
    place.photos.push(Photo::stub("b".to_string()));
    assert_eq!(collect_media_ids(&place), Err(PipelineError::SchemaViolation));
}
