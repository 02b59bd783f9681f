//! Named readings of the JSON fields the pipeline consumes. Each reading
//! is a pure function of the response bytes; what it returns on given
//! bytes is checked only where a verified function takes the reading as an
//! argument.

use vstd::prelude::*;

verus! {

/// The `result.formatted_address` string and the `photo_reference` of each
/// entry of `result.photos`, as read from a place-detail response body.
/// Per entry: `Some(Some(s))` is a string reference, `Some(None)` a null or
/// absent one, and `None` one of the wrong type — which callers must treat
/// as a schema violation.
pub uninterp spec fn detail_fields_of(body: Seq<u8>) -> Option<
    (Seq<char>, Seq<Option<Option<Seq<char>>>>),
>;

/// The `description` string of a captioning response body, as bytes.
pub uninterp spec fn description_field_of(body: Seq<u8>) -> Option<Seq<u8>>;

/// The `id` string of a media-upload response body, as bytes.
pub uninterp spec fn media_id_field_of(body: Seq<u8>) -> Option<Seq<u8>>;

/// The abstract reading an address-and-references answer stands for.
pub open spec fn detail_fields_view(r: Option<(String, Vec<Option<Option<String>>>)>) -> Option<
    (Seq<char>, Seq<Option<Option<Seq<char>>>>),
> {
    match r {
        None => None,
        Some(p) => Some(
            (
                p.0@,
                p.1@.map_values(
                    (|o: Option<Option<String>>|
                        match o {
                            None => None,
                            Some(None) => Some(None),
                            Some(Some(s)) => Some(Some(s@)),
                        }),
                ),
            ),
        ),
    }
}

/// The abstract reading an optional byte string stands for.
pub open spec fn opt_bytes_view(r: Option<Vec<u8>>) -> Option<Seq<u8>> {
    match r {
        None => None,
        Some(v) => Some(v@),
    }
}

/// Relies on serde_json: parses the place-detail body and reads
/// `result.formatted_address` together with every
/// `result.photos[i].photo_reference`, telling a string from a null or
/// absent one and from one of the wrong type; the result depends on the
/// body bytes alone. `None` stands for a body without a readable address.
#[verifier::external_body]
pub(crate) fn parse_detail_fields(body: &Vec<u8>) -> (r: Option<
    (String, Vec<Option<Option<String>>>),
>)
    ensures
        detail_fields_view(r) == detail_fields_of(body@),
{
    let v: serde_json::Value = serde_json::from_slice(body.as_slice()).ok()?;
    let addr = v["result"]["formatted_address"].as_str()?.to_string();
    let refs: Vec<Option<Option<String>>> = match v["result"]["photos"].as_array() {
        Some(items) => items
            .iter()
            .map(|p| match &p["photo_reference"] {
                serde_json::Value::Null => Some(None),
                serde_json::Value::String(s) => Some(Some(s.clone())),
                _ => None,
            })
            .collect(),
        None => Vec::new(),
    };
    Some((addr, refs))
}

/// Relies on serde_json: parses the captioning body and reads its
/// `description` string field; the result depends on the body bytes alone.
#[verifier::external_body]
pub(crate) fn parse_description_field(body: &Vec<u8>) -> (r: Option<Vec<u8>>)
    ensures
        opt_bytes_view(r) == description_field_of(body@),
{
    let v: serde_json::Value = match serde_json::from_slice(body.as_slice()) {
        Ok(v) => v,
        Err(_) => return None,
    };
    v.get("description").and_then(|d| d.as_str()).map(|s| s.as_bytes().to_vec())
}

/// Relies on serde_json: parses the media-upload body and reads its `id`
/// string field; the result depends on the body bytes alone.
#[verifier::external_body]
pub(crate) fn parse_media_id_field(body: &Vec<u8>) -> (r: Option<Vec<u8>>)
    ensures
        opt_bytes_view(r) == media_id_field_of(body@),
{
    let v: serde_json::Value = match serde_json::from_slice(body.as_slice()) {
        Ok(v) => v,
        Err(_) => return None,
    };
    v.get("id").and_then(|d| d.as_str()).map(|s| s.as_bytes().to_vec())
}

} // verus!
