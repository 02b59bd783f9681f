//! The `multipart/form-data` encoder and its inverse. The body carries one
//! file part and one text part between a random boundary; its layout is
//! byte-exact, and parsing a produced body recovers the parts.

use vstd::prelude::*;

use crate::bytestr::ascii_bytes_of;
use crate::bytestr::ascii_str_bytes;
use crate::bytestr::contains_sub;
use crate::bytestr::extend_bytes;
use crate::bytestr::find_sub;
use crate::bytestr::find_sub_exec;
use crate::bytestr::lemma_find_sub_at_seam;
use crate::bytestr::starts_with;
use crate::bytestr::strip_prefix_exec;
use crate::bytestr::strip_prefix_spec;

verus! {

/// The bytes `\r\n`.
pub open spec fn crlf() -> Seq<u8> {
    seq![13u8, 10u8]
}

/// The bytes `--`.
pub open spec fn dashes() -> Seq<u8> {
    seq![45u8, 45u8]
}

/// The file part's header up to the opening filename quote.
pub open spec fn file_part_header() -> Seq<u8> {
    ascii_bytes_of("Content-Disposition: form-data; name=\"file\"; filename=\""@)
}

/// The bytes between the filename and the content type.
pub open spec fn content_type_label() -> Seq<u8> {
    ascii_bytes_of("\"\r\nContent-Type: "@)
}

/// The text part's whole header.
pub open spec fn text_part_header() -> Seq<u8> {
    ascii_bytes_of("Content-Disposition: form-data; name=\"description\";\r\n\r\n"@)
}

/// The delimiter that closes a part: `\r\n--` then the boundary.
pub open spec fn part_delimiter(boundary: Seq<u8>) -> Seq<u8> {
    crlf() + dashes() + boundary
}

/// An ASCII letter or digit.
pub open spec fn is_alnum_byte(b: u8) -> bool {
    (48 <= b <= 57) || (65 <= b <= 90) || (97 <= b <= 122)
}

/// A well-formed boundary: 24 dashes, then 32 alphanumerics.
pub open spec fn boundary_wf(b: Seq<u8>) -> bool {
    &&& b.len() == 56
    &&& forall|i: int| 0 <= i < 24 ==> #[trigger] b[i] == 45
    &&& forall|i: int| 24 <= i < b.len() ==> is_alnum_byte(#[trigger] b[i])
}

/// The exact body layout: opening boundary line, file part header with the
/// filename and content type, the raw file bytes, the text part header,
/// the text, and the closing boundary line.
pub open spec fn multipart_body_spec(
    boundary: Seq<u8>,
    filename: Seq<u8>,
    content_type: Seq<u8>,
    file: Seq<u8>,
    text: Seq<u8>,
) -> Seq<u8> {
    dashes() + boundary + crlf() + file_part_header() + filename + content_type_label()
        + content_type + crlf() + crlf() + file + part_delimiter(boundary) + crlf()
        + text_part_header() + text + part_delimiter(boundary) + dashes() + crlf()
}

/// Relies on rand's `Alphanumeric` distribution sampled through
/// `Rng::sample_iter`: every drawn byte is an ASCII letter or digit. The
/// draw is random, so nothing relates one call to another.
#[verifier::external_body]
fn random_alnum_bytes() -> (r: Vec<u8>)
    ensures
        r@.len() == 32,
        forall|i: int| 0 <= i < r@.len() ==> is_alnum_byte(#[trigger] r@[i]),
{
    rand::Rng::sample_iter(rand::rng(), &rand::distr::Alphanumeric).take(32).collect()
}

/// A fresh boundary: 24 dashes and 32 random alphanumerics. Generated anew
/// for every body so that it never collides with payload content in
/// practice; the contract promises only its shape.
pub fn make_boundary() -> (r: Vec<u8>)
    ensures
        boundary_wf(r@),
{
    let mut b: Vec<u8> = Vec::new();
    let mut i: usize = 0;
    while i < 24
        invariant
            i <= 24,
            b@.len() == i,
            forall|j: int| 0 <= j < i ==> #[trigger] b@[j] == 45,
        decreases 24 - i,
    {
        b.push(45);
        i += 1;
    }
    let tail = random_alnum_bytes();
    extend_bytes(&mut b, tail.as_slice());
    proof {
        assert forall|i: int| 24 <= i < b@.len() implies is_alnum_byte(#[trigger] b@[i]) by {
            assert(b@[i] == tail@[i - 24]);
        }
    }
    b
}

/// Encodes the multipart body for one file and an optional text field; a
/// missing text field leaves the text part empty.
pub fn encode_multipart(
    boundary: &Vec<u8>,
    filename: &Vec<u8>,
    content_type: &Vec<u8>,
    file: &Vec<u8>,
    text: Option<&Vec<u8>>,
) -> (r: Vec<u8>)
    ensures
        r@ == multipart_body_spec(
            boundary@,
            filename@,
            content_type@,
            file@,
            match text {
                Some(t) => t@,
                None => Seq::<u8>::empty(),
            },
        ),
{
    proof {
        reveal_strlit("Content-Disposition: form-data; name=\"file\"; filename=\"");
        reveal_strlit("\"\r\nContent-Type: ");
        reveal_strlit("Content-Disposition: form-data; name=\"description\";\r\n\r\n");
        reveal_strlit("\r\n");
        reveal_strlit("--");
    }
    let crlf_b = ascii_str_bytes("\r\n");
    let dash_b = ascii_str_bytes("--");
    proof {
        assert(crlf_b@ =~= crlf());
        assert(dash_b@ =~= dashes());
    }
    let mut body: Vec<u8> = Vec::new();
    extend_bytes(&mut body, dash_b.as_slice());
    extend_bytes(&mut body, boundary.as_slice());
    extend_bytes(&mut body, crlf_b.as_slice());
    extend_bytes(
        &mut body,
        ascii_str_bytes(
            "Content-Disposition: form-data; name=\"file\"; filename=\"",
        ).as_slice(),
    );
    extend_bytes(&mut body, filename.as_slice());
    extend_bytes(&mut body, ascii_str_bytes("\"\r\nContent-Type: ").as_slice());
    extend_bytes(&mut body, content_type.as_slice());
    extend_bytes(&mut body, crlf_b.as_slice());
    extend_bytes(&mut body, crlf_b.as_slice());
    extend_bytes(&mut body, file.as_slice());
    extend_bytes(&mut body, crlf_b.as_slice());
    extend_bytes(&mut body, dash_b.as_slice());
    extend_bytes(&mut body, boundary.as_slice());
    extend_bytes(&mut body, crlf_b.as_slice());
    extend_bytes(
        &mut body,
        ascii_str_bytes(
            "Content-Disposition: form-data; name=\"description\";\r\n\r\n",
        ).as_slice(),
    );
    match text {
        Some(t) => extend_bytes(&mut body, t.as_slice()),
        None => (),
    }
    extend_bytes(&mut body, crlf_b.as_slice());
    extend_bytes(&mut body, dash_b.as_slice());
    extend_bytes(&mut body, boundary.as_slice());
    extend_bytes(&mut body, dash_b.as_slice());
    extend_bytes(&mut body, crlf_b.as_slice());
    proof {
        let t_view = match text {
            Some(t) => t@,
            None => Seq::<u8>::empty(),
        };
        assert(body@ =~= multipart_body_spec(
            boundary@,
            filename@,
            content_type@,
            file@,
            t_view,
        ));
    }
    body
}

/// The parts a parse recovers from a body.
pub struct MultipartParts {
    pub filename: Vec<u8>,
    pub content_type: Vec<u8>,
    pub file: Vec<u8>,
    pub text: Vec<u8>,
}
/// What parsing a body against a boundary yields: the filename, content
/// type, file bytes and text field, when the body has exactly the layout
/// `multipart_body_spec` lays down. The payload half is split off into
/// `parse_payloads_spec`.
pub open spec fn parse_payloads_spec(r4: Seq<u8>, boundary: Seq<u8>) -> Option<(Seq<u8>, Seq<u8>)> {
    let d = part_delimiter(boundary);
    match find_sub(r4, d) {
        None => None,
        Some(k) => {
            let file = r4.subrange(0, k);
            match strip_prefix_spec(r4.skip(k), d + crlf() + text_part_header()) {
                None => None,
                Some(r5) => match find_sub(r5, d) {
                    None => None,
                    Some(m) => {
                        let text = r5.subrange(0, m);
                        if r5.skip(m) == d + dashes() + crlf() {
                            Some((file, text))
                        } else {
                            None
                        }
                    },
                },
            }
        },
    }
}

/// What parsing a body against a boundary yields, when the body has
/// exactly the layout `multipart_body_spec` lays down.
pub open spec fn parse_multipart_spec(body: Seq<u8>, boundary: Seq<u8>) -> Option<
    (Seq<u8>, Seq<u8>, Seq<u8>, Seq<u8>),
> {
    match strip_prefix_spec(body, dashes() + boundary + crlf()) {
        None => None,
        Some(r1) => match strip_prefix_spec(r1, file_part_header()) {
            None => None,
            Some(r2) => match find_sub(r2, seq![34u8]) {
                None => None,
                Some(i) => {
                    let filename = r2.subrange(0, i);
                    match strip_prefix_spec(r2.skip(i), content_type_label()) {
                        None => None,
                        Some(r3) => match find_sub(r3, crlf()) {
                            None => None,
                            Some(j) => {
                                let content_type = r3.subrange(0, j);
                                match strip_prefix_spec(r3.skip(j), crlf() + crlf()) {
                                    None => None,
                                    Some(r4) => match parse_payloads_spec(r4, boundary) {
                                        None => None,
                                        Some((file, text)) => Some(
                                            (filename, content_type, file, text),
                                        ),
                                    },
                                }
                            },
                        },
                    }
                },
            },
        },
    }
}

/// Parses a multipart body back into its parts.
pub fn parse_multipart(body: &Vec<u8>, boundary: &Vec<u8>) -> (r: Option<MultipartParts>)
    ensures
        match r {
            Some(p) => parse_multipart_spec(body@, boundary@) == Some(
                (p.filename@, p.content_type@, p.file@, p.text@),
            ),
            None => parse_multipart_spec(body@, boundary@) is None,
        },
{
    proof {
        reveal_strlit("Content-Disposition: form-data; name=\"file\"; filename=\"");
        reveal_strlit("\"\r\nContent-Type: ");
        reveal_strlit("Content-Disposition: form-data; name=\"description\";\r\n\r\n");
        reveal_strlit("\r\n");
        reveal_strlit("--");
        reveal_strlit("\"");
    }
    let crlf_b = ascii_str_bytes("\r\n");
    let dash_b = ascii_str_bytes("--");
    let quote_b = ascii_str_bytes("\"");
    proof {
        assert(crlf_b@ =~= crlf());
        assert(dash_b@ =~= dashes());
        assert(quote_b@ =~= seq![34u8]);
    }
    let ghost d = part_delimiter(boundary@);

    // The opening boundary line.
    let mut open_line: Vec<u8> = Vec::new();
    extend_bytes(&mut open_line, dash_b.as_slice());
    extend_bytes(&mut open_line, boundary.as_slice());
    extend_bytes(&mut open_line, crlf_b.as_slice());
    proof {
        assert(open_line@ =~= dashes() + boundary@ + crlf());
    }
    let r1 = match strip_prefix_exec(body.as_slice(), open_line.as_slice()) {
        Some(r) => r,
        None => {
            return None;
        },
    };
    let header1 = ascii_str_bytes("Content-Disposition: form-data; name=\"file\"; filename=\"");
    let r2 = match strip_prefix_exec(r1, header1.as_slice()) {
        Some(r) => r,
        None => {
            return None;
        },
    };
    let i = match find_sub_exec(r2, quote_b.as_slice()) {
        Some(i) => i,
        None => {
            return None;
        },
    };
    let filename = vstd::slice::slice_to_vec(vstd::slice::slice_subrange(r2, 0, i));
    let after_name = vstd::slice::slice_subrange(r2, i, r2.len());
    proof {
        assert(after_name@ =~= r2@.skip(i as int));
    }
    let ct_label = ascii_str_bytes("\"\r\nContent-Type: ");
    let r3 = match strip_prefix_exec(after_name, ct_label.as_slice()) {
        Some(r) => r,
        None => {
            return None;
        },
    };
    let j = match find_sub_exec(r3, crlf_b.as_slice()) {
        Some(j) => j,
        None => {
            return None;
        },
    };
    let content_type = vstd::slice::slice_to_vec(vstd::slice::slice_subrange(r3, 0, j));
    let after_ct = vstd::slice::slice_subrange(r3, j, r3.len());
    proof {
        assert(after_ct@ =~= r3@.skip(j as int));
    }
    let mut two_crlf: Vec<u8> = Vec::new();
    extend_bytes(&mut two_crlf, crlf_b.as_slice());
    extend_bytes(&mut two_crlf, crlf_b.as_slice());
    proof {
        assert(two_crlf@ =~= crlf() + crlf());
    }
    let r4 = match strip_prefix_exec(after_ct, two_crlf.as_slice()) {
        Some(r) => r,
        None => {
            return None;
        },
    };

    // The part delimiter: CRLF, two dashes, the boundary.
    let mut delim: Vec<u8> = Vec::new();
    extend_bytes(&mut delim, crlf_b.as_slice());
    extend_bytes(&mut delim, dash_b.as_slice());
    extend_bytes(&mut delim, boundary.as_slice());
    proof {
        assert(delim@ =~= d);
    }
    let k = match find_sub_exec(r4, delim.as_slice()) {
        Some(k) => k,
        None => {
            return None;
        },
    };
    let file = vstd::slice::slice_to_vec(vstd::slice::slice_subrange(r4, 0, k));
    let after_file = vstd::slice::slice_subrange(r4, k, r4.len());
    proof {
        assert(after_file@ =~= r4@.skip(k as int));
    }
    let header2 = ascii_str_bytes("Content-Disposition: form-data; name=\"description\";\r\n\r\n");
    let mut mid: Vec<u8> = Vec::new();
    extend_bytes(&mut mid, delim.as_slice());
    extend_bytes(&mut mid, crlf_b.as_slice());
    extend_bytes(&mut mid, header2.as_slice());
    proof {
        assert(mid@ =~= d + crlf() + text_part_header());
    }
    let r5 = match strip_prefix_exec(after_file, mid.as_slice()) {
        Some(r) => r,
        None => {
            return None;
        },
    };
    let m = match find_sub_exec(r5, delim.as_slice()) {
        Some(m) => m,
        None => {
            return None;
        },
    };
    let text = vstd::slice::slice_to_vec(vstd::slice::slice_subrange(r5, 0, m));
    let after_text = vstd::slice::slice_subrange(r5, m, r5.len());
    proof {
        assert(after_text@ =~= r5@.skip(m as int));
    }
    let mut close_line: Vec<u8> = Vec::new();
    extend_bytes(&mut close_line, delim.as_slice());
    extend_bytes(&mut close_line, dash_b.as_slice());
    extend_bytes(&mut close_line, crlf_b.as_slice());
    proof {
        assert(close_line@ =~= d + dashes() + crlf());
    }
    if after_text.len() != close_line.len() {
        proof {
            assert(after_text@ != d + dashes() + crlf());
        }
        return None;
    }
    if !crate::bytestr::starts_with_exec(after_text, close_line.as_slice()) {
        proof {
            assert(after_text@ != d + dashes() + crlf()) by {
                if after_text@ == d + dashes() + crlf() {
                    assert(after_text@.subrange(0, close_line@.len() as int) =~= close_line@);
                }
            }
        }
        return None;
    }
    proof {
        assert(after_text@ =~= d + dashes() + crlf()) by {
            assert(after_text@.subrange(0, close_line@.len() as int) == close_line@);
            assert(after_text@.subrange(0, close_line@.len() as int) =~= after_text@);
        }
    }
    Some(MultipartParts { filename, content_type, file, text })
}

/// Stripping a known prefix off a concatenation leaves the remainder.
proof fn lemma_strip_concat(a: Seq<u8>, b: Seq<u8>)
    ensures
        strip_prefix_spec(a + b, a) == Some(b),
{
    assert(starts_with(a + b, a)) by {
        assert((a + b).subrange(0, a.len() as int) =~= a);
    }
    assert((a + b).skip(a.len() as int) =~= b);
}

/// A well-formed boundary's part delimiter holds a carriage return only at
/// its head, and no double quote at all.
proof fn lemma_delimiter_shape(boundary: Seq<u8>)
    requires
        boundary_wf(boundary),
    ensures
        part_delimiter(boundary).len() > 0,
        part_delimiter(boundary)[0] == 13,
        forall|j: int|
            0 < j < part_delimiter(boundary).len() ==> #[trigger] part_delimiter(boundary)[j]
                != 13,
{
    let d = part_delimiter(boundary);
    assert forall|j: int| 0 < j < d.len() implies #[trigger] d[j] != 13 by {
        if j >= 4 {
            if j - 4 < 24 {
                assert(boundary[j - 4] == 45);
            } else {
                assert(is_alnum_byte(boundary[j - 4]));
            }
        }
    }
}

/// Parsing the payload half of an encoded body recovers the file bytes and
/// the text exactly.
proof fn lemma_parse_payloads_roundtrip(boundary: Seq<u8>, file: Seq<u8>, text: Seq<u8>)
    requires
        boundary_wf(boundary),
        !contains_sub(file, part_delimiter(boundary)),
        !contains_sub(text, part_delimiter(boundary)),
    ensures
        parse_payloads_spec(
            file + part_delimiter(boundary) + crlf() + text_part_header() + text
                + part_delimiter(boundary) + dashes() + crlf(),
            boundary,
        ) == Some((file, text)),
{
    let d = part_delimiter(boundary);
    let r4 = file + d + crlf() + text_part_header() + text + d + dashes() + crlf();
    lemma_delimiter_shape(boundary);

    let tail4 = d + crlf() + text_part_header() + text + d + dashes() + crlf();
    assert(r4 =~= file + tail4);
    assert(starts_with(tail4, d)) by {
        assert(tail4.subrange(0, d.len() as int) =~= d);
    }
    lemma_find_sub_at_seam(file, tail4, d);
    assert(find_sub(r4, d) == Some(file.len() as int));
    assert(r4.subrange(0, file.len() as int) =~= file);
    assert(r4.skip(file.len() as int) =~= tail4);

    let mid = d + crlf() + text_part_header();
    let rest5 = text + (d + dashes() + crlf());
    assert(tail4 =~= mid + rest5);
    lemma_strip_concat(mid, rest5);
    assert(strip_prefix_spec(tail4, mid) == Some(rest5));

    let tail5 = d + dashes() + crlf();
    assert(rest5 =~= text + tail5);
    assert(starts_with(tail5, d)) by {
        assert(tail5.subrange(0, d.len() as int) =~= d);
    }
    lemma_find_sub_at_seam(text, tail5, d);
    assert(find_sub(rest5, d) == Some(text.len() as int));
    assert(rest5.subrange(0, text.len() as int) =~= text);
    assert(rest5.skip(text.len() as int) =~= tail5);
}

/// Encoding and then parsing with the same boundary recovers the filename,
/// content type, file bytes and text exactly. This holds whenever the
/// boundary is well formed, the filename carries no double quote, the
/// content type carries no CRLF, and neither the file bytes nor the text
/// contain the part delimiter — the collision the random boundary avoids
/// in practice.
#[verifier::rlimit(100)]
pub proof fn lemma_multipart_roundtrip(
    boundary: Seq<u8>,
    filename: Seq<u8>,
    content_type: Seq<u8>,
    file: Seq<u8>,
    text: Seq<u8>,
)
    requires
        boundary_wf(boundary),
        !contains_sub(filename, seq![34u8]),
        !contains_sub(content_type, crlf()),
        !contains_sub(file, part_delimiter(boundary)),
        !contains_sub(text, part_delimiter(boundary)),
    ensures
        parse_multipart_spec(
            multipart_body_spec(boundary, filename, content_type, file, text),
            boundary,
        ) == Some((filename, content_type, file, text)),
{
    reveal_strlit("\"\r\nContent-Type: ");
    let body = multipart_body_spec(boundary, filename, content_type, file, text);
    let d = part_delimiter(boundary);
    let open_line = dashes() + boundary + crlf();
    let payload = file + d + crlf() + text_part_header() + text + d + dashes() + crlf();

    // The opening line.
    let rest1 = file_part_header() + (filename + (content_type_label() + (content_type + (crlf()
        + crlf() + payload))));
    assert(body =~= open_line + rest1);
    lemma_strip_concat(open_line, rest1);

    // The file part header.
    let rest2 = filename + (content_type_label() + (content_type + (crlf() + crlf() + payload)));
    assert(rest1 =~= file_part_header() + rest2);
    lemma_strip_concat(file_part_header(), rest2);

    // The filename, closed by the first double quote; the label, the
    // delimiter and the boundary hold none before it.
    let tail2 = content_type_label() + (content_type + (crlf() + crlf() + payload));
    assert(content_type_label()[0] == 34);
    assert(starts_with(tail2, seq![34u8])) by {
        assert(tail2.subrange(0, 1) =~= seq![34u8]);
    }
    lemma_find_sub_at_seam(filename, tail2, seq![34u8]);
    assert(find_sub(rest2, seq![34u8]) == Some(filename.len() as int));
    assert(rest2.subrange(0, filename.len() as int) =~= filename);
    assert(rest2.skip(filename.len() as int) =~= tail2);

    // The content type label.
    let rest3 = content_type + (crlf() + crlf() + payload);
    lemma_strip_concat(content_type_label(), rest3);

    // The content type, closed by the first CRLF.
    let tail3 = crlf() + crlf() + payload;
    assert(rest3 =~= content_type + tail3);
    assert(starts_with(tail3, crlf())) by {
        assert(tail3.subrange(0, 2) =~= crlf());
    }
    lemma_find_sub_at_seam(content_type, tail3, crlf());
    assert(find_sub(rest3, crlf()) == Some(content_type.len() as int));
    assert(rest3.subrange(0, content_type.len() as int) =~= content_type);
    assert(rest3.skip(content_type.len() as int) =~= tail3);

    // The blank line, then the payload half.
    assert(tail3 =~= (crlf() + crlf()) + payload);
    lemma_strip_concat(crlf() + crlf(), payload);
    lemma_parse_payloads_roundtrip(boundary, file, text);
    assert(payload =~= file + part_delimiter(boundary) + crlf() + text_part_header() + text
        + part_delimiter(boundary) + dashes() + crlf());
}

} // verus!
