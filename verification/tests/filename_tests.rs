use random_restaurant::filename::extract_filename;

#[test]
fn quoted_filename_is_extracted() {
    let header = b"form-data; name=\"file\"; filename=\"photo.jpg\"".to_vec();
    assert_eq!(extract_filename(&header), Some(b"photo.jpg".to_vec()));
}

#[test]
fn header_without_filename_segment_yields_nothing() {
    let header = b"form-data; name=\"file\"".to_vec();
    assert_eq!(extract_filename(&header), None);
}

#[test]
fn unquoted_filename_is_extracted() {
    let header = b"attachment; filename=report.pdf".to_vec();
    assert_eq!(extract_filename(&header), Some(b"report.pdf".to_vec()));
}

#[test]
fn surrounding_whitespace_is_trimmed() {
    let header = b"form-data;   filename=\"a b.png\"  ; name=\"file\"".to_vec();
    assert_eq!(extract_filename(&header), Some(b"a b.png".to_vec()));
}

#[test]
fn first_matching_segment_wins() {
    let header = b"filename=\"one\"; filename=\"two\"".to_vec();
    assert_eq!(extract_filename(&header), Some(b"one".to_vec()));
}

#[test]
fn empty_value_is_still_a_match() {
    let header = b"form-data; filename=".to_vec();
    assert_eq!(extract_filename(&header), Some(Vec::new()));
}
