//! Enrichment of the selected place: the detail response's address and
//! photo references become photo stubs (at most four, nulls skipped, order
//! kept); a downloaded response materializes one photo; a captioning
//! response fills its description; and each photo's multipart body is
//! built from its own headers and bytes.

use vstd::prelude::*;

use crate::bytestr::all_digits;
use crate::bytestr::dec_val;
use crate::bytestr::parse_decimal;
use crate::errors::PipelineError;
use crate::fetch::HttpResponse;
use crate::filename::extract_filename;
use crate::filename::filename_of;
use crate::json::detail_fields_of;
use crate::json::parse_detail_fields;
use crate::json::parse_description_field;
use crate::json::description_field_of;
use crate::model::Photo;
use crate::model::Place;
use crate::multipart::boundary_wf;
use crate::multipart::encode_multipart;
use crate::multipart::make_boundary;
use crate::multipart::multipart_body_spec;

verus! {

/// The references kept from the first `cap` slots of a detail response:
/// null slots are skipped, order is preserved. An entry is read as
/// `parse_detail_fields` hands it over: `Some(Some(s))` a string
/// reference, `Some(None)` a null or absent one, `None` one of the wrong
/// type.
pub open spec fn kept_references(refs: Seq<Option<Option<Seq<char>>>>, cap: nat) -> Seq<Seq<char>>
    decreases refs.len(),
{
    if cap == 0 || refs.len() == 0 {
        Seq::empty()
    } else {
        let rest = kept_references(refs.drop_first(), (cap - 1) as nat);
        match refs[0] {
            Some(Some(r)) => seq![r] + rest,
            _ => rest,
        }
    }
}

/// The view of a list of reference readings.
pub open spec fn ref_views(refs: Seq<Option<Option<String>>>) -> Seq<Option<Option<Seq<char>>>> {
    refs.map_values(
        (|o: Option<Option<String>>|
            match o {
                None => None,
                Some(None) => Some(None),
                Some(Some(s)) => Some(Some(s@)),
            }),
    )
}

/// No wrong-typed reference among the slots the pipeline consumes: each of
/// the first four is a string or a null.
pub open spec fn refs_well_typed(refs: Seq<Option<Option<Seq<char>>>>) -> bool {
    forall|i: int| 0 <= i < refs.len() && i < 4 ==> !(#[trigger] refs[i] is None)
}

/// How the detail stage changes the place: the address is written, one
/// stub is appended per kept reference, and everything else stays.
pub open spec fn details_applied(
    before: Place,
    after: Place,
    address: Seq<char>,
    refs: Seq<Option<Option<Seq<char>>>>,
) -> bool {
    let kept = kept_references(refs, 4);
    &&& after.address@ == address
    &&& after.name == before.name
    &&& after.lat == before.lat
    &&& after.lng == before.lng
    &&& after.place_id == before.place_id
    &&& after.rating_tenths == before.rating_tenths
    &&& after.photos@.len() == before.photos@.len() + kept.len()
    &&& forall|i: int| 0 <= i < before.photos@.len() ==> after.photos@[i] == before.photos@[i]
    &&& forall|k: int|
        0 <= k < kept.len() ==> #[trigger] after.photos@[before.photos@.len() + k].is_stub(
            kept[k],
        )
}

/// Writes the address onto the place and appends one photo stub per
/// string reference among the first four slots, skipping null ones and
/// keeping response order. A wrong-typed reference among those slots is a
/// schema violation that leaves the place untouched.
pub fn apply_details(place: &mut Place, address: String, refs: Vec<Option<Option<String>>>) -> (r:
    Result<(), PipelineError>)
    ensures
        match r {
            Ok(()) => {
                &&& refs_well_typed(ref_views(refs@))
                &&& details_applied(*old(place), *final(place), address@, ref_views(refs@))
            },
            Err(e) => {
                &&& e == PipelineError::SchemaViolation
                &&& !refs_well_typed(ref_views(refs@))
                &&& *final(place) == *old(place)
            },
        },
{
    let ghost orig_views = ref_views(refs@);
    let mut j: usize = 0;
    while j < 4 && j < refs.len()
        invariant
            orig_views == ref_views(refs@),
            forall|k: int| 0 <= k < j ==> !(#[trigger] orig_views[k] is None),
        decreases refs@.len() - j,
    {
        if refs[j].is_none() {
            proof {
                assert(orig_views[j as int] is None);
            }
            return Err(PipelineError::SchemaViolation);
        }
        j += 1;
    }
    proof {
        assert(refs_well_typed(orig_views));
    }
    let ghost before = *old(place);
    place.address = address;
    let mut rest = refs;
    let mut taken: usize = 0;
    let ghost mut built: Seq<Seq<char>> = Seq::empty();
    proof {
        assert(built + kept_references(ref_views(rest@), 4) =~= kept_references(orig_views, 4));
    }
    while taken < 4 && rest.len() > 0
        invariant
            taken <= 4,
            kept_references(orig_views, 4) == built + kept_references(
                ref_views(rest@),
                (4 - taken) as nat,
            ),
            place.name == before.name,
            place.lat == before.lat,
            place.lng == before.lng,
            place.place_id == before.place_id,
            place.rating_tenths == before.rating_tenths,
            place.address@ == address@,
            place.photos@.len() == before.photos@.len() + built.len(),
            forall|i: int| 0 <= i < before.photos@.len() ==> place.photos@[i] == before.photos@[i],
            forall|k: int|
                0 <= k < built.len() ==> #[trigger] place.photos@[before.photos@.len() + k]
                    .is_stub(built[k]),
        decreases rest@.len(),
    {
        let ghost rest_before = ref_views(rest@);
        let ghost cap: nat = (4 - taken) as nat;
        let item = rest.remove(0);
        proof {
            assert(ref_views(rest@) =~= rest_before.drop_first());
            assert(rest_before[0] == (match item {
                None => None,
                Some(None) => Some(None),
                Some(Some(s)) => Some(Some(s@)),
            }));
        }
        match item {
            Some(Some(s)) => {
                let ghost sview = s@;
                place.photos.push(Photo::stub(s));
                proof {
                    assert(kept_references(rest_before, cap) =~= seq![sview] + kept_references(
                        rest_before.drop_first(),
                        (cap - 1) as nat,
                    ));
                    assert(built + (seq![sview] + kept_references(
                        rest_before.drop_first(),
                        (cap - 1) as nat,
                    )) =~= built.push(sview) + kept_references(
                        rest_before.drop_first(),
                        (cap - 1) as nat,
                    ));
                    built = built.push(sview);
                }
            },
            _ => {
                proof {
                    assert(kept_references(rest_before, cap) == kept_references(
                        rest_before.drop_first(),
                        (cap - 1) as nat,
                    ));
                }
            },
        }
        taken += 1;
    }
    proof {
        assert(kept_references(ref_views(rest@), (4 - taken) as nat) =~= Seq::<Seq<char>>::empty());
        assert(built + Seq::<Seq<char>>::empty() =~= built);
    }
    Ok(())
}

/// Reads the detail response and applies it: the address is written and
/// photo stubs appended. A body without a readable address — or with a
/// wrong-typed reference among the first four photo slots — is a schema
/// violation and leaves the place untouched.
pub fn read_place_details(place: &mut Place, body: &Vec<u8>) -> (r: Result<(), PipelineError>)
    ensures
        match r {
            Ok(()) => {
                &&& detail_fields_of(body@) is Some
                &&& refs_well_typed(detail_fields_of(body@)->Some_0.1)
                &&& details_applied(
                    *old(place),
                    *final(place),
                    detail_fields_of(body@)->Some_0.0,
                    detail_fields_of(body@)->Some_0.1,
                )
            },
            Err(e) => {
                &&& e == PipelineError::SchemaViolation
                &&& *final(place) == *old(place)
                &&& (detail_fields_of(body@) is None || !refs_well_typed(
                    detail_fields_of(body@)->Some_0.1,
                ))
            },
        },
{
    match parse_detail_fields(body) {
        Some((address, refs)) => apply_details(place, address, refs),
        None => Err(PipelineError::SchemaViolation),
    }
}

/// Fills one photo from its downloaded response: the parsed
/// `content-length`, the `content-type` and `content-disposition` headers
/// and the body bytes. Any of them missing — or a `content-length` that is
/// not a plain decimal fitting an `i32` — is a schema violation that
/// leaves the photo untouched.
pub fn materialize_photo(photo: &mut Photo, response: HttpResponse) -> (r: Result<
    (),
    PipelineError,
>)
    ensures
        match r {
            Ok(()) => {
                &&& response.content_length matches Some(cl) && cl@.len() > 0 && all_digits(cl@)
                    && dec_val(cl@) <= 0x7fff_ffff
                &&& response.content_type is Some
                &&& response.content_disposition is Some
                &&& final(photo).reference == old(photo).reference
                &&& final(photo).description == old(photo).description
                &&& final(photo).media_id == old(photo).media_id
                &&& final(photo).content_length matches Some(n) && n
                    == dec_val(response.content_length->0@)
                &&& final(photo).content_type == response.content_type
                &&& final(photo).content_disposition == response.content_disposition
                &&& final(photo).bytes == response.body
                &&& final(photo).materialized()
            },
            Err(e) => {
                &&& e == PipelineError::SchemaViolation
                &&& *final(photo) == *old(photo)
                &&& (response.content_length is None || (response.content_length matches Some(cl)
                    && !(cl@.len() > 0 && all_digits(cl@) && dec_val(cl@) <= 0x7fff_ffff))
                    || response.content_type is None || response.content_disposition is None)
            },
        },
{
    let HttpResponse { content_type, content_disposition, content_length, body, .. } = response;
    let cl_bytes = match content_length {
        Some(v) => v,
        None => {
            return Err(PipelineError::SchemaViolation);
        },
    };
    let n = match parse_decimal(cl_bytes.as_slice(), 0x7fff_ffff) {
        Some(n) => n,
        None => {
            return Err(PipelineError::SchemaViolation);
        },
    };
    let ct = match content_type {
        Some(v) => v,
        None => {
            return Err(PipelineError::SchemaViolation);
        },
    };
    let cd = match content_disposition {
        Some(v) => v,
        None => {
            return Err(PipelineError::SchemaViolation);
        },
    };
    photo.content_length = Some(n as i32);
    photo.content_type = Some(ct);
    photo.content_disposition = Some(cd);
    photo.bytes = body;
    Ok(())
}

/// Reads the captioning response and stores its description on the photo.
/// A body without a `description` field is a schema violation that leaves
/// the photo untouched.
pub fn read_description(photo: &mut Photo, body: &Vec<u8>) -> (r: Result<(), PipelineError>)
    ensures
        match r {
            Ok(()) => {
                &&& description_field_of(body@) matches Some(d)
                &&& final(photo).description matches Some(v) && v@ == d
                &&& final(photo).reference == old(photo).reference
                &&& final(photo).content_disposition == old(photo).content_disposition
                &&& final(photo).content_length == old(photo).content_length
                &&& final(photo).content_type == old(photo).content_type
                &&& final(photo).bytes == old(photo).bytes
                &&& final(photo).media_id == old(photo).media_id
            },
            Err(e) => {
                &&& e == PipelineError::SchemaViolation
                &&& description_field_of(body@) is None
                &&& *final(photo) == *old(photo)
            },
        },
{
    match parse_description_field(body) {
        Some(text) => {
            photo.description = Some(text);
            Ok(())
        },
        None => Err(PipelineError::SchemaViolation),
    }
}

/// Builds the multipart body for one photo: the file part carries the
/// photo bytes under the filename taken from its `content-disposition`,
/// and the text part carries its description, or stays empty without one.
/// A photo without disposition, content type or extractable filename is a
/// schema violation, since the upload needs all three.
pub fn build_photo_multipart(photo: &Photo) -> (r: Result<(Vec<u8>, Vec<u8>), PipelineError>)
    ensures
        match r {
            Ok((boundary, body)) => {
                &&& boundary_wf(boundary@)
                &&& photo.content_disposition matches Some(cd)
                &&& photo.content_type matches Some(ct)
                &&& filename_of(cd@) matches Some(f)
                &&& body@ == multipart_body_spec(
                    boundary@,
                    f,
                    ct@,
                    photo.bytes@,
                    match photo.description {
                        Some(d) => d@,
                        None => Seq::<u8>::empty(),
                    },
                )
            },
            Err(e) => {
                &&& e == PipelineError::SchemaViolation
                &&& (photo.content_disposition is None || photo.content_type is None || (
                photo.content_disposition matches Some(cd) && filename_of(cd@) is None))
            },
        },
{
    let cd = match &photo.content_disposition {
        Some(v) => v,
        None => {
            return Err(PipelineError::SchemaViolation);
        },
    };
    let ct = match &photo.content_type {
        Some(v) => v,
        None => {
            return Err(PipelineError::SchemaViolation);
        },
    };
    let fname = match extract_filename(cd) {
        Some(f) => f,
        None => {
            return Err(PipelineError::SchemaViolation);
        },
    };
    let boundary = make_boundary();
    let body = encode_multipart(&boundary, &fname, ct, &photo.bytes, photo.description.as_ref());
    Ok((boundary, body))
}

} // verus!
