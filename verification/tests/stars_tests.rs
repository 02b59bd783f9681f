use random_restaurant::stars::rating_stars;

#[test]
fn three_stars_exact() {
    assert_eq!(rating_stars(30), "★★★");
}

#[test]
fn four_and_a_half_stars() {
    assert_eq!(rating_stars(45), "★★★★☆");
}

#[test]
fn zero_rating_renders_nothing() {
    assert_eq!(rating_stars(0), "");
}

#[test]
fn whole_rating_has_no_hollow_star() {
    assert_eq!(rating_stars(40), "★★★★");
}

#[test]
fn any_remainder_adds_one_hollow_star() {
    assert_eq!(rating_stars(43), "★★★★☆");
    assert_eq!(rating_stars(1), "☆");
}
