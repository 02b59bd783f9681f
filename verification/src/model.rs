//! The data the pipeline threads from stage to stage. Coordinates are kept
//! as the decimal text they arrived in (the pipeline never computes on
//! them), ratings in tenths of a star, header values and binary payloads as
//! bytes.

use vstd::prelude::*;

verus! {

/// A sampled coordinate that seeds one search attempt.
pub struct Geopoint {
    /// Latitude, as decimal text.
    pub lat: String,
    /// Longitude, as decimal text.
    pub lng: String,
    /// The country the coordinate falls in.
    pub country: String,
    /// Population weight, when the sampler reported one.
    pub population: Option<i64>,
}

/// A raw search result, before filtering.
pub struct Candidate {
    pub name: String,
    /// Latitude, as decimal text.
    pub lat: String,
    /// Longitude, as decimal text.
    pub lng: String,
    pub place_id: String,
    /// Rating in tenths of a star; a missing rating is 0.
    pub rating_tenths: u32,
    /// How many ratings the venue has; missing is 0.
    pub ratings_count: u32,
    /// The venue's type tags.
    pub types: Vec<String>,
}

/// One photo of the selected place, enriched stage by stage.
pub struct Photo {
    /// The reference the detail response gave for this photo.
    pub reference: String,
    /// The `content-disposition` header of the downloaded photo.
    pub content_disposition: Option<Vec<u8>>,
    /// The parsed `content-length` of the downloaded photo.
    pub content_length: Option<i32>,
    /// The `content-type` header of the downloaded photo.
    pub content_type: Option<Vec<u8>>,
    /// The photo bytes; filled once by the download, never changed after.
    pub bytes: Vec<u8>,
    /// The caption the captioning service produced.
    pub description: Option<Vec<u8>>,
    /// The media id the social backend assigned on upload.
    pub media_id: Option<i64>,
}

impl Photo {
    /// A stub: a reference with nothing downloaded yet.
    pub fn stub(reference: String) -> (r: Photo)
        ensures
            r.is_stub(reference@),
    {
        Photo {
            reference,
            content_disposition: None,
            content_length: None,
            content_type: None,
            bytes: Vec::new(),
            description: None,
            media_id: None,
        }
    }

    /// A photo that holds `reference` and nothing else yet.
    pub open spec fn is_stub(&self, reference: Seq<char>) -> bool {
        &&& self.reference@ == reference
        &&& self.content_disposition is None
        &&& self.content_length is None
        &&& self.content_type is None
        &&& self.bytes@ == Seq::<u8>::empty()
        &&& self.description is None
        &&& self.media_id is None
    }

    /// The download succeeded: bytes, content type and disposition are there.
    pub open spec fn materialized(&self) -> bool {
        &&& self.content_disposition is Some
        &&& self.content_type is Some
        &&& self.content_length is Some
    }
}

/// The restaurant aggregate, populated stage by stage.
pub struct Place {
    pub name: String,
    pub address: String,
    /// Latitude, as decimal text.
    pub lat: String,
    /// Longitude, as decimal text.
    pub lng: String,
    pub place_id: String,
    /// Rating in tenths of a star.
    pub rating_tenths: u32,
    /// Photos in discovery order; index alignment carries every later field.
    pub photos: Vec<Photo>,
}

impl Place {
    /// The empty aggregate the pipeline starts from.
    pub fn new() -> (r: Place)
        ensures
            r.name@ == Seq::<char>::empty(),
            r.address@ == Seq::<char>::empty(),
            r.lat@ == Seq::<char>::empty(),
            r.lng@ == Seq::<char>::empty(),
            r.place_id@ == Seq::<char>::empty(),
            r.rating_tenths == 0,
            r.photos@ == Seq::<Photo>::empty(),
    {
        Place {
            name: String::new(),
            address: String::new(),
            lat: String::new(),
            lng: String::new(),
            place_id: String::new(),
            rating_tenths: 0,
            photos: Vec::new(),
        }
    }
}

} // verus!
