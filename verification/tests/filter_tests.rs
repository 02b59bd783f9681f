use random_restaurant::model::{Candidate, Place};
use random_restaurant::search::{candidate_qualifies, search_select, survivors};

fn candidate(name: &str, rating_tenths: u32, ratings_count: u32, types: &[&str]) -> Candidate {
    Candidate {
        name: name.to_string(),
        lat: "1.5".to_string(),
        lng: "2.5".to_string(),
        place_id: format!("id-{}", name),
        rating_tenths,
        ratings_count,
        types: types.iter().map(|t| t.to_string()).collect(),
    }
}

#[test]
fn excluded_type_never_selected() {
    // A hotel-typed candidate is dropped no matter how strong its rating.
    let cands = vec![candidate("grand-hotel", 50, 100000, &["restaurant", "hotel"])];
    let mut place = Place::new();
    let r = search_select(cands, &mut place);
    assert!(r.is_none());
    assert_eq!(place.name, "");
}

#[test]
fn every_excluded_tag_drops_a_candidate() {
    for tag in [
        "hotel",
        "lodge",
        "lodging",
        "gas_station",
        "convenience_store",
        "grocery_or_supermarket",
        "night_club",
    ] {
        let c = candidate("x", 45, 500, &["restaurant", tag]);
        assert!(!candidate_qualifies(&c), "tag {} must exclude", tag);
    }
}

#[test]
fn thresholds_are_inclusive() {
    assert!(candidate_qualifies(&candidate("edge", 30, 100, &["restaurant"])));
    assert!(!candidate_qualifies(&candidate("low-rating", 29, 100, &["restaurant"])));
    assert!(!candidate_qualifies(&candidate("few-ratings", 30, 99, &["restaurant"])));
    assert!(!candidate_qualifies(&candidate("missing", 0, 0, &["restaurant"])));
}

#[test]
fn all_failing_candidates_yield_no_candidate() {
    let cands = vec![
        candidate("low", 29, 1000, &["restaurant"]),
        candidate("sparse", 45, 99, &["restaurant"]),
        candidate("club", 48, 2000, &["night_club"]),
    ];
    let mut place = Place::new();
    assert!(search_select(cands, &mut place).is_none());
}

#[test]
fn survivors_keep_order_and_filter() {
    let cands = vec![
        candidate("a", 45, 500, &["restaurant"]),
        candidate("drop", 20, 500, &["restaurant"]),
        candidate("b", 31, 150, &["restaurant"]),
    ];
    let s = survivors(cands);
    let names: Vec<&str> = s.iter().map(|c| c.name.as_str()).collect();
    assert_eq!(names, vec!["a", "b"]);
}

#[test]
fn selection_writes_survivor_onto_place() {
    let cands = vec![
        candidate("hotel-bar", 49, 9000, &["hotel"]),
        candidate("good-diner", 43, 250, &["restaurant"]),
    ];
    let mut place = Place::new();
    let r = search_select(cands, &mut place);
    assert_eq!(r, Some(1));
    assert_eq!(place.name, "good-diner");
    assert_eq!(place.lat, "1.5");
    assert_eq!(place.lng, "2.5");
    assert_eq!(place.place_id, "id-good-diner");
    assert_eq!(place.rating_tenths, 43);
    assert!(place.photos.is_empty());
}

#[test]
fn selection_count_reports_all_survivors() {
    let cands = vec![
        candidate("a", 45, 500, &["restaurant"]),
        candidate("b", 31, 150, &["restaurant"]),
        candidate("c", 20, 150, &["restaurant"]),
    ];
    let mut place = Place::new();
    assert_eq!(search_select(cands, &mut place), Some(2));
    assert!(place.name == "a" || place.name == "b");
}
