//! Publishing: the media id a photo receives on upload, the id sequence
//! collected in place order, and the status text composed from the place,
//! its star glyphs, a maps deep link and the fixed hashtags.

use vstd::prelude::*;

use crate::bytestr::all_digits;
use crate::bytestr::dec_val;
use crate::bytestr::parse_decimal;
use crate::errors::PipelineError;
use crate::json::media_id_field_of;
use crate::json::parse_media_id_field;
use crate::model::Photo;
use crate::model::Place;
use crate::stars::rating_stars;
use crate::stars::star_string;

verus! {

/// Reads `s` as a decimal media id. Returns the value exactly when `s` is
/// a non-empty run of digits whose value fits an `i64`.
pub fn parse_media_id(s: &Vec<u8>) -> (r: Option<i64>)
    ensures
        match r {
            Some(v) => s@.len() > 0 && all_digits(s@) && v == dec_val(s@) && dec_val(s@)
                <= 0x7fff_ffff_ffff_ffff,
            None => s@.len() == 0 || !all_digits(s@) || dec_val(s@) > 0x7fff_ffff_ffff_ffff,
        },
{
    match parse_decimal(s.as_slice(), 0x7fff_ffff_ffff_ffff) {
        Some(v) => Some(v as i64),
        None => None,
    }
}

/// Reads the upload response and stores the parsed media id on the photo.
/// A missing or non-numeric `id` field is a schema violation that leaves
/// the photo untouched.
pub fn read_media_id(photo: &mut Photo, body: &Vec<u8>) -> (r: Result<(), PipelineError>)
    ensures
        match r {
            Ok(()) => {
                &&& media_id_field_of(body@) matches Some(s) && s.len() > 0 && all_digits(s)
                    && dec_val(s) <= 0x7fff_ffff_ffff_ffff
                &&& final(photo).media_id matches Some(v) && v == dec_val(
                    media_id_field_of(body@)->0,
                )
                &&& final(photo).reference == old(photo).reference
                &&& final(photo).content_disposition == old(photo).content_disposition
                &&& final(photo).content_length == old(photo).content_length
                &&& final(photo).content_type == old(photo).content_type
                &&& final(photo).bytes == old(photo).bytes
                &&& final(photo).description == old(photo).description
            },
            Err(e) => {
                &&& e == PipelineError::SchemaViolation
                &&& *final(photo) == *old(photo)
                &&& (media_id_field_of(body@) is None || (media_id_field_of(body@) matches Some(s)
                    && !(s.len() > 0 && all_digits(s) && dec_val(s) <= 0x7fff_ffff_ffff_ffff)))
            },
        },
{
    let id_bytes = match parse_media_id_field(body) {
        Some(v) => v,
        None => {
            return Err(PipelineError::SchemaViolation);
        },
    };
    match parse_media_id(&id_bytes) {
        Some(v) => {
            photo.media_id = Some(v);
            Ok(())
        },
        None => Err(PipelineError::SchemaViolation),
    }
}

/// The media ids of a photo sequence, in place order; a missing id reads
/// as 0 and is ruled out by the collector's success condition.
pub open spec fn media_ids_of(photos: Seq<Photo>) -> Seq<i64> {
    photos.map_values(
        (|p: Photo|
            match p.media_id {
                Some(i) => i,
                None => 0,
            }),
    )
}

/// Collects every photo's media id in place order. A photo still without
/// an id is a schema violation: nothing may be posted before every upload
/// has answered.
pub fn collect_media_ids(place: &Place) -> (r: Result<Vec<i64>, PipelineError>)
    ensures
        match r {
            Ok(ids) => {
                &&& forall|i: int|
                    0 <= i < place.photos@.len() ==> #[trigger] place.photos@[i].media_id is Some
                &&& ids@ == media_ids_of(place.photos@)
            },
            Err(e) => {
                &&& e == PipelineError::SchemaViolation
                &&& exists|i: int|
                    0 <= i < place.photos@.len() && #[trigger] place.photos@[i].media_id is None
            },
        },
{
    let mut ids: Vec<i64> = Vec::new();
    let mut i: usize = 0;
    while i < place.photos.len()
        invariant
            i <= place.photos@.len(),
            ids@.len() == i,
            forall|k: int| 0 <= k < i ==> #[trigger] place.photos@[k].media_id is Some,
            forall|k: int| 0 <= k < i ==> ids@[k] == media_ids_of(place.photos@)[k],
        decreases place.photos@.len() - i,
    {
        match place.photos[i].media_id {
            Some(id) => {
                ids.push(id);
            },
            None => {
                return Err(PipelineError::SchemaViolation);
            },
        }
        i += 1;
    }
    proof {
        assert(ids@ =~= media_ids_of(place.photos@));
    }
    Ok(ids)
}

/// The maps deep link for a place.
pub open spec fn maps_link_spec(p: Place) -> Seq<char> {
    "https://www.google.com/maps/search/?api=1&query="@ + p.lat@ + ","@ + p.lng@
        + "&query_place_id="@ + p.place_id@
}

/// The status text: name, address, star glyphs, the maps link and the
/// fixed hashtags, one line each.
pub open spec fn status_text_spec(p: Place) -> Seq<char> {
    p.name@ + "\n"@ + p.address@ + "\n"@ + star_string(p.rating_tenths as nat) + "\n"@
        + maps_link_spec(p) + "\n#restaurant #travel"@
}

/// Composes the status text for a selected, enriched place.
pub fn compose_status(place: &Place) -> (r: String)
    ensures
        r@ == status_text_spec(*place),
{
    let mut s = String::new();
    vstd::string::StringExecFns::append(&mut s, place.name.as_str());
    vstd::string::StringExecFns::append(&mut s, "\n");
    vstd::string::StringExecFns::append(&mut s, place.address.as_str());
    vstd::string::StringExecFns::append(&mut s, "\n");
    let stars = rating_stars(place.rating_tenths);
    vstd::string::StringExecFns::append(&mut s, stars.as_str());
    vstd::string::StringExecFns::append(&mut s, "\n");
    vstd::string::StringExecFns::append(
        &mut s,
        "https://www.google.com/maps/search/?api=1&query=",
    );
    vstd::string::StringExecFns::append(&mut s, place.lat.as_str());
    vstd::string::StringExecFns::append(&mut s, ",");
    vstd::string::StringExecFns::append(&mut s, place.lng.as_str());
    vstd::string::StringExecFns::append(&mut s, "&query_place_id=");
    vstd::string::StringExecFns::append(&mut s, place.place_id.as_str());
    vstd::string::StringExecFns::append(&mut s, "\n#restaurant #travel");
    proof {
        assert(s@ =~= status_text_spec(*place));
    }
    s
}

} // verus!
