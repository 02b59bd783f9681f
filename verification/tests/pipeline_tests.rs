use random_restaurant::errors::PipelineError;
use random_restaurant::model::{Candidate, Geopoint, Place};
use random_restaurant::pipeline::{
    discovery_decision, first_location, DiscoveryStep, DESCRIPTION_PAUSE_MILLIS,
    DISCOVERY_RETRY_PAUSE_MILLIS,
};
use random_restaurant::publish::compose_status;
use random_restaurant::search::search_select;
use random_restaurant::urls::{details_url, media_url, photo_url, search_url, statuses_url};

fn geopoint() -> Geopoint {
    Geopoint {
        lat: "48.85".to_string(),
        lng: "2.35".to_string(),
        country: "France".to_string(),
        population: Some(2100000),
    }
}

#[test]
fn the_orchestrator_takes_the_first_sampled_coordinate() {
    let mut second = geopoint();
    second.country = "Spain".to_string();
    let g = first_location(vec![geopoint(), second]).expect("non-empty sample");
    assert_eq!(g.country, "France");
    assert_eq!(g.lat, "48.85");
}

#[test]
fn an_empty_sample_is_a_schema_violation() {
    match first_location(Vec::new()) {
        Err(PipelineError::SchemaViolation) => (),
        other => panic!("expected SchemaViolation, got {:?}", other.map(|g| g.country)),
    }
}

#[test]
fn discovery_retries_only_on_no_candidate() {
    assert_eq!(discovery_decision(Some(3)), DiscoveryStep::Proceed);
    assert_eq!(discovery_decision(None), DiscoveryStep::RetryAfterPause);
    assert_eq!(DISCOVERY_RETRY_PAUSE_MILLIS, 2500);
    assert_eq!(DESCRIPTION_PAUSE_MILLIS, 4300);
}

#[test]
fn end_to_end_discovery_selects_only_the_qualifying_candidate() {
    // One qualifying candidate, one hotel-typed one: the orchestrator must
    // always end up with the qualifying one, and an empty detail response
    // leaves the photo list empty.
    let location = first_location(vec![geopoint()]).expect("one coordinate");
    assert_eq!(location.lat, "48.85");
    let qualifying = Candidate {
        name: "Chez Prouve".to_string(),
        lat: location.lat.clone(),
        lng: location.lng.clone(),
        place_id: "pid-1".to_string(),
        rating_tenths: 43,
        ratings_count: 250,
        types: vec!["restaurant".to_string()],
    };
    let disqualified = Candidate {
        name: "Grand Hotel".to_string(),
        lat: location.lat.clone(),
        lng: location.lng,
        place_id: "pid-2".to_string(),
        rating_tenths: 49,
        ratings_count: 9999,
        types: vec!["restaurant".to_string(), "hotel".to_string()],
    };
    let mut place = Place::new();
    let found = search_select(vec![disqualified, qualifying], &mut place);
    assert_eq!(discovery_decision(found), DiscoveryStep::Proceed);
    assert_eq!(place.name, "Chez Prouve");
    assert_eq!(place.place_id, "pid-1");
    assert_eq!(place.rating_tenths, 43);
    assert!(place.photos.is_empty());
}

#[test]
fn status_text_follows_the_template() {
    let mut place = Place::new();
    place.name = "Chez Prouve".to_string();
    place.address = "1 Main St".to_string();
    place.lat = "48.85".to_string();
    place.lng = "2.35".to_string();
    place.place_id = "pid-1".to_string();
    place.rating_tenths = 43;
    let status = compose_status(&place);
    assert_eq!(
        status,
        "Chez Prouve\n1 Main St\n★★★★☆\n\
         https://www.google.com/maps/search/?api=1&query=48.85,2.35&query_place_id=pid-1\n\
         #restaurant #travel"
    );
}

#[test]
fn request_uris_are_exact() {
    let key = "test-api-key".to_string();
    assert_eq!(
        search_url(&"48.85".to_string(), &"2.35".to_string(), &key),
        format!(
            "https://maps.googleapis.com/maps/api/place/nearbysearch/json?location=48.85%2C2.35\
             &radius=100000&type=restaurant&key={}",
            key
        )
    );
    assert_eq!(
        details_url(&"pid-1".to_string(), &key),
        format!(
            "https://maps.googleapis.com/maps/api/place/details/json?place_id=pid-1\
             &fields=photos,formatted_address&key={}",
            key
        )
    );
    assert_eq!(
        photo_url(&"ref-9".to_string(), &key),
        format!(
            "https://maps.googleapis.com/maps/api/place/photo?maxwidth=1080&photoreference=ref-9\
             &key={}",
            key
        )
    );
    let base = "https://social.example".to_string();
    assert_eq!(media_url(&base), "https://social.example/api/v2/media");
    assert_eq!(statuses_url(&base), "https://social.example/api/v1/statuses");
}
