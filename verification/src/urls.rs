//! The request URIs the pipeline builds: the nearby search around a
//! coordinate, the place-detail query, the photo fetch, and the social
//! backend's media and status endpoints.

use vstd::prelude::*;

verus! {

/// The nearby-search URI: restaurants within 100 km of the coordinate.
pub open spec fn search_url_spec(lat: Seq<char>, lng: Seq<char>, key: Seq<char>) -> Seq<char> {
    "https://maps.googleapis.com/maps/api/place/nearbysearch/json?location="@ + lat + "%2C"@ + lng
        + "&radius=100000&type=restaurant&key="@ + key
}

/// Builds the nearby-search URI for a coordinate.
pub fn search_url(lat: &String, lng: &String, api_key: &String) -> (r: String)
    ensures
        r@ == search_url_spec(lat@, lng@, api_key@),
{
    let mut s = String::new();
    vstd::string::StringExecFns::append(
        &mut s,
        "https://maps.googleapis.com/maps/api/place/nearbysearch/json?location=",
    );
    vstd::string::StringExecFns::append(&mut s, lat.as_str());
    vstd::string::StringExecFns::append(&mut s, "%2C");
    vstd::string::StringExecFns::append(&mut s, lng.as_str());
    vstd::string::StringExecFns::append(&mut s, "&radius=100000&type=restaurant&key=");
    vstd::string::StringExecFns::append(&mut s, api_key.as_str());
    proof {
        assert(s@ =~= search_url_spec(lat@, lng@, api_key@));
    }
    s
}

/// The place-detail URI: the photos and formatted address of one place.
pub open spec fn details_url_spec(place_id: Seq<char>, key: Seq<char>) -> Seq<char> {
    "https://maps.googleapis.com/maps/api/place/details/json?place_id="@ + place_id
        + "&fields=photos,formatted_address&key="@ + key
}

/// Builds the place-detail URI for a selected place.
pub fn details_url(place_id: &String, api_key: &String) -> (r: String)
    ensures
        r@ == details_url_spec(place_id@, api_key@),
{
    let mut s = String::new();
    vstd::string::StringExecFns::append(
        &mut s,
        "https://maps.googleapis.com/maps/api/place/details/json?place_id=",
    );
    vstd::string::StringExecFns::append(&mut s, place_id.as_str());
    vstd::string::StringExecFns::append(&mut s, "&fields=photos,formatted_address&key=");
    vstd::string::StringExecFns::append(&mut s, api_key.as_str());
    proof {
        assert(s@ =~= details_url_spec(place_id@, api_key@));
    }
    s
}

/// The photo-fetch URI for one photo reference.
pub open spec fn photo_url_spec(reference: Seq<char>, key: Seq<char>) -> Seq<char> {
    "https://maps.googleapis.com/maps/api/place/photo?maxwidth=1080&photoreference="@ + reference
        + "&key="@ + key
}

/// Builds the photo-fetch URI for one photo reference.
pub fn photo_url(reference: &String, api_key: &String) -> (r: String)
    ensures
        r@ == photo_url_spec(reference@, api_key@),
{
    let mut s = String::new();
    vstd::string::StringExecFns::append(
        &mut s,
        "https://maps.googleapis.com/maps/api/place/photo?maxwidth=1080&photoreference=",
    );
    vstd::string::StringExecFns::append(&mut s, reference.as_str());
    vstd::string::StringExecFns::append(&mut s, "&key=");
    vstd::string::StringExecFns::append(&mut s, api_key.as_str());
    proof {
        assert(s@ =~= photo_url_spec(reference@, api_key@));
    }
    s
}

/// The social backend's media endpoint under a base URI.
pub fn media_url(base: &String) -> (r: String)
    ensures
        r@ == base@ + "/api/v2/media"@,
{
    let mut s = String::new();
    vstd::string::StringExecFns::append(&mut s, base.as_str());
    vstd::string::StringExecFns::append(&mut s, "/api/v2/media");
    s
}

/// The social backend's statuses endpoint under a base URI.
pub fn statuses_url(base: &String) -> (r: String)
    ensures
        r@ == base@ + "/api/v1/statuses"@,
{
    let mut s = String::new();
    vstd::string::StringExecFns::append(&mut s, base.as_str());
    vstd::string::StringExecFns::append(&mut s, "/api/v1/statuses");
    s
}

} // verus!
