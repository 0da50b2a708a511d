use dynamic_dns::zone::{covers, depth_of, find_zone, trimmed_len, utf8_len, HostedZone};

fn zone(name: &str, id: &str) -> HostedZone {
    HostedZone { name: name.to_string(), id: id.to_string() }
}

#[test]
fn zone_covers_its_own_name() {
    assert!(covers("example.com", "example.com"));
}

#[test]
fn zone_covers_a_subdomain() {
    assert!(covers("www.example.com", "example.com"));
    assert!(covers("a.b.c.example.com", "example.com"));
}

#[test]
fn zone_does_not_cover_a_name_that_only_ends_alike() {
    assert!(!covers("notexample.com", "example.com"));
    assert!(!covers("xexample.com", "example.com"));
}

#[test]
fn zone_does_not_cover_a_shorter_or_other_name() {
    assert!(!covers("com", "example.com"));
    assert!(!covers("foo.org", "example.com"));
    assert!(!covers("example.org", "example.com"));
    assert!(!covers("example.com.evil", "example.com"));
}

#[test]
fn trailing_dots_of_the_zone_name_are_ignored() {
    assert!(covers("www.example.com", "example.com."));
    assert!(covers("example.com", "example.com."));
    assert!(covers("example.com", "example.com..."));
    assert!(!covers("notexample.com", "example.com."));
}

#[test]
fn trailing_dot_of_the_domain_is_not_ignored() {
    assert!(!covers("example.com.", "example.com"));
    assert!(!covers("example.com.", "example.com."));
}

#[test]
fn empty_zone_name_covers_only_empty_or_dot_ended_names() {
    assert!(covers("", ""));
    assert!(covers("", "."));
    assert!(covers("example.com.", "."));
    assert!(!covers("example.com", "."));
    assert!(!covers("example.com", ""));
}

#[test]
fn names_are_compared_by_character() {
    assert!(covers("www.b\u{fc}cher.de", "b\u{fc}cher.de."));
    assert!(!covers("www.bucher.de", "b\u{fc}cher.de"));
}

#[test]
fn trimmed_len_counts_characters_before_the_trailing_dots() {
    assert_eq!(trimmed_len("example.com"), 11);
    assert_eq!(trimmed_len("example.com."), 11);
    assert_eq!(trimmed_len("example.com..."), 11);
    assert_eq!(trimmed_len("..."), 0);
    assert_eq!(trimmed_len(""), 0);
    assert_eq!(trimmed_len("b\u{fc}cher.de."), 9);
}

#[test]
fn utf8_len_counts_bytes() {
    assert_eq!(utf8_len(""), 0);
    assert_eq!(utf8_len("a.b"), 3);
    assert_eq!(utf8_len("b\u{fc}cher.de"), 10);
}

#[test]
fn single_zone_is_found_for_a_subdomain() {
    let zones = vec![zone("example.com", "Z1")];
    assert_eq!(find_zone("api.example.com", &zones), Some(0));
    assert_eq!(find_zone("example.com", &zones), Some(0));
}

#[test]
fn single_zone_is_not_found_off_a_label_boundary() {
    let zones = vec![zone("example.com", "Z1")];
    assert_eq!(find_zone("notexample.com", &zones), None);
}

#[test]
fn no_zone_is_found_for_a_foreign_domain() {
    let zones = vec![zone("example.com", "Z1")];
    assert_eq!(find_zone("foo.org", &zones), None);
}

#[test]
fn no_zone_is_found_in_an_empty_list() {
    let zones: Vec<HostedZone> = Vec::new();
    assert_eq!(find_zone("api.example.com", &zones), None);
}

#[test]
fn deeper_zone_wins() {
    let zones = vec![zone("example.com", "Z1"), zone("dev.example.com", "Z2")];
    assert_eq!(find_zone("api.dev.example.com", &zones), Some(1));
    assert_eq!(zones[1].id, "Z2");
}

#[test]
fn deeper_zone_wins_whatever_the_order() {
    let zones = vec![zone("dev.example.com.", "Z2"), zone("example.com.", "Z1")];
    assert_eq!(find_zone("api.dev.example.com", &zones), Some(0));
    assert_eq!(find_zone("api.example.com", &zones), Some(1));
}

#[test]
fn zones_that_do_not_cover_are_passed_over() {
    let zones = vec![
        zone("a-very-long-zone-name.example.net.", "Z0"),
        zone("example.com.", "Z1"),
        zone("other.example.com.", "Z3"),
    ];
    assert_eq!(find_zone("api.example.com", &zones), Some(1));
}

#[test]
fn last_of_equally_long_zones_wins() {
    let zones = vec![zone("example.com", "Z1"), zone("example.com", "Z2")];
    assert_eq!(find_zone("api.example.com", &zones), Some(1));
}

#[test]
fn trailing_dot_does_not_make_a_zone_more_specific() {
    let zones = vec![zone("example.com.", "Z1"), zone("example.com", "Z2")];
    assert_eq!(find_zone("api.example.com", &zones), Some(1));
    let zones = vec![zone("example.com", "Z2"), zone("example.com.", "Z1")];
    assert_eq!(find_zone("api.example.com", &zones), Some(1));
}

#[test]
fn deeper_zone_wins_over_a_name_made_longer_by_dots() {
    let zones = vec![zone("example.com.....", "Z1"), zone("dev.example.com", "Z2")];
    assert_eq!(find_zone("api.dev.example.com", &zones), Some(1));
    let zones = vec![zone("dev.example.com", "Z2"), zone("example.com.....", "Z1")];
    assert_eq!(find_zone("api.dev.example.com", &zones), Some(0));
}

#[test]
fn zone_that_is_the_whole_name_wins_over_its_parent() {
    let zones = vec![zone(".example.com", "Z1"), zone("example.com.", "Z2")];
    assert_eq!(find_zone(".example.com", &zones), Some(0));
}

#[test]
fn depth_counts_the_bytes_before_the_trailing_dots() {
    assert_eq!(depth_of("example.com"), 11);
    assert_eq!(depth_of("example.com."), 11);
    assert_eq!(depth_of("example.com....."), 11);
    assert_eq!(depth_of("dev.example.com"), 15);
    assert_eq!(depth_of("b\u{fc}cher.de."), 10);
    assert_eq!(depth_of("..."), 0);
    assert_eq!(depth_of(""), 0);
}
