use audiotag::any_tag::AnyTag;
use audiotag::opus_tag::{Comment, OpusTag, Unsupported};

#[test]
fn empty_adapter_reads_nothing() {
    let t = OpusTag::new();
    assert!(t.title().is_none());
    assert!(t.artist().is_none());
    assert!(t.album_title().is_none());
    assert!(t.album_artist().is_none());
    assert!(t.year().is_none());
    assert!(t.track_number().is_none());
    assert!(t.total_tracks().is_none());
    assert!(t.disc_number().is_none());
    assert!(t.total_discs().is_none());
    assert_eq!(t.vendor(), "");
}

#[test]
fn set_and_get_text_fields() {
    let mut t = OpusTag::new();
    t.set_title("Song");
    t.set_artist("Band");
    t.set_album_title("Record");
    t.set_album_artist("Various");
    assert_eq!(t.title(), Some("Song"));
    assert_eq!(t.artist(), Some("Band"));
    assert_eq!(t.album_title(), Some("Record"));
    assert_eq!(t.album_artist(), Some("Various"));
    t.set_title("Other");
    assert_eq!(t.title(), Some("Other"));
    t.remove_title();
    assert!(t.title().is_none());
    assert_eq!(t.artist(), Some("Band"));
}

#[test]
fn empty_stored_value_reads_as_absent() {
    let mut t = OpusTag::new();
    t.set_first("TITLE", "");
    assert!(t.title().is_none());
    assert!(t.get_first("TITLE").is_none());
}

#[test]
fn year_fallback_order() {
    let mut t = OpusTag::new();
    t.set_year(2001);
    // Both conventions are populated.
    assert_eq!(t.get_first("DATE"), Some("2001"));
    assert_eq!(t.get_first("YEAR"), Some("2001"));
    assert_eq!(t.year(), Some(2001));
    // Only the date-like field cleared: the dedicated field still answers.
    t.remove("DATE");
    assert_eq!(t.year(), Some(2001));
    // Both cleared: the year is absent.
    t.remove("YEAR");
    assert!(t.year().is_none());
}

#[test]
fn year_reads_first_four_characters_of_date() {
    let mut t = OpusTag::new();
    t.set_first("DATE", "2001-05-13");
    assert_eq!(t.year(), Some(2001));
}

#[test]
fn year_falls_back_when_date_does_not_parse() {
    let mut t = OpusTag::new();
    t.set_first("DATE", "abcd");
    t.set_first("YEAR", "1999");
    assert_eq!(t.year(), Some(1999));
}

#[test]
fn malformed_year_field_reads_as_absent() {
    let mut t = OpusTag::new();
    t.set_first("YEAR", "abcd");
    assert!(t.year().is_none());
}

#[test]
fn negative_stored_year_truncates() {
    let mut t = OpusTag::new();
    t.set_first("DATE", "-1");
    assert_eq!(t.year(), Some(65535));
}

#[test]
fn track_and_disc_numbers_round_trip() {
    let mut t = OpusTag::new();
    t.set_track_number(3);
    t.set_total_tracks(12);
    t.set_disc_number(1);
    t.set_total_discs(2);
    assert_eq!(t.track_number(), Some(3));
    assert_eq!(t.total_tracks(), Some(12));
    assert_eq!(t.disc_number(), Some(1));
    assert_eq!(t.total_discs(), Some(2));
    t.set_track_number(0);
    assert_eq!(t.track_number(), Some(0));
    t.set_track_number(65535);
    assert_eq!(t.track_number(), Some(65535));
}

#[test]
fn wide_year_reads_as_its_first_four_digits() {
    let mut t = OpusTag::new();
    t.set_year(9999);
    assert_eq!(t.year(), Some(9999));
    // A five-digit year is stored in full, but the canonical getter reads
    // the date-like field's first four characters only.
    t.set_year(65535);
    assert_eq!(t.get_first("DATE"), Some("65535"));
    assert_eq!(t.year(), Some(6553));
}

#[test]
fn track_total_is_independent_of_track_number() {
    let mut t = OpusTag::new();
    t.set_track_number(3);
    t.set_total_tracks(12);
    t.set_track_number(4);
    assert_eq!(t.total_tracks(), Some(12));
    t.remove_track_number();
    assert_eq!(t.total_tracks(), Some(12));
    assert!(t.track_number().is_none());
    t.remove_total_tracks();
    assert!(t.total_tracks().is_none());
}

#[test]
fn disc_total_is_independent_of_disc_number() {
    let mut t = OpusTag::new();
    t.set_disc_number(1);
    t.set_total_discs(2);
    t.remove_total_discs();
    assert_eq!(t.disc_number(), Some(1));
    assert!(t.total_discs().is_none());
}

#[test]
fn numeric_fields_tolerate_malformed_text() {
    let mut t = OpusTag::new();
    t.set_first("TRACKNUMBER", "notanumber");
    assert!(t.track_number().is_none());
    t.set_first("TRACKNUMBER", "70000");
    assert!(t.track_number().is_none());
    t.set_first("TRACKNUMBER", "+41");
    assert_eq!(t.track_number(), Some(41));
    t.set_first("TRACKNUMBER", "-3");
    assert!(t.track_number().is_none());
}

#[test]
fn cover_operations_report_unsupported() {
    let mut t = OpusTag::new();
    assert_eq!(t.album_cover(), Err(Unsupported::CoverArt));
    assert_eq!(t.remove_album_cover(), Err(Unsupported::CoverArt));
    let before_title = {
        t.set_title("kept");
        t.title().map(|s| s.to_string())
    };
    assert_eq!(t.remove_album_cover(), Err(Unsupported::CoverArt));
    assert_eq!(t.title().map(|s| s.to_string()), before_title);
}

#[test]
fn opus_scenario_title_and_year_to_pivot() {
    let mut t = OpusTag::new();
    t.set_title("Song");
    t.set_year(1999);
    let a = t.to_any();
    assert_eq!(a.title.as_deref(), Some("Song"));
    assert_eq!(a.year, Some(1999));
    assert!(a.artists.is_none());
    assert!(a.album.is_none());
    assert!(a.album_artists.is_none());
    assert!(a.cover.is_none());
    assert!(a.track_number.is_none());
    assert!(a.total_tracks.is_none());
    assert!(a.disc_number.is_none());
    assert!(a.total_discs.is_none());
}

#[test]
fn pivot_round_trip_reproduces_fields() {
    let mut t = OpusTag::new();
    t.set_title("Song");
    t.set_artist("Band");
    t.set_album_title("Record");
    t.set_album_artist("Various");
    t.set_year(2001);
    t.set_track_number(3);
    t.set_total_tracks(12);
    t.set_disc_number(1);
    t.set_total_discs(2);
    let t2 = OpusTag::from_any(&t.to_any());
    assert_eq!(t2.title(), t.title());
    assert_eq!(t2.artist(), t.artist());
    assert_eq!(t2.album_title(), t.album_title());
    assert_eq!(t2.album_artist(), t.album_artist());
    assert_eq!(t2.year(), t.year());
    assert_eq!(t2.track_number(), t.track_number());
    assert_eq!(t2.total_tracks(), t.total_tracks());
    assert_eq!(t2.disc_number(), t.disc_number());
    assert_eq!(t2.total_discs(), t.total_discs());
}

#[test]
fn pivot_to_adapter_truncates_wide_years() {
    let mut a = AnyTag::default();
    a.year = Some(70000);
    let t = OpusTag::from_any(&a);
    // 70000 mod 65536
    assert_eq!(t.year(), Some(4464));
}

#[test]
fn artists_join_with_slash() {
    let mut a = AnyTag::default();
    a.artists = Some(vec!["Band".to_string(), "Guest".to_string()]);
    assert_eq!(a.artists_as_string().as_deref(), Some("Band/Guest"));
    a.artists = Some(vec!["Solo".to_string()]);
    assert_eq!(a.artists_as_string().as_deref(), Some("Solo"));
    a.artists = None;
    assert!(a.artists_as_string().is_none());
    let mut b = AnyTag::default();
    b.album_artists = Some(vec!["X".to_string(), "Y".to_string()]);
    assert_eq!(b.album_artists_as_string().as_deref(), Some("X/Y"));
}

#[test]
fn from_entries_keeps_last_binding_of_repeated_keys() {
    let entries = vec![
        Comment { key: "TITLE".to_string(), value: "First".to_string() },
        Comment { key: "ARTIST".to_string(), value: "Band".to_string() },
        Comment { key: "TITLE".to_string(), value: "Second".to_string() },
    ];
    let t = OpusTag::from_entries("vendor".to_string(), &entries);
    assert_eq!(t.vendor(), "vendor");
    assert_eq!(t.title(), Some("Second"));
    assert_eq!(t.artist(), Some("Band"));
    assert_eq!(t.comments().len(), 2);
}

#[test]
fn get_set_remove_are_keyed_exactly() {
    let mut t = OpusTag::new();
    t.set_first("CUSTOM", "one");
    assert_eq!(t.get_first("CUSTOM"), Some("one"));
    assert!(t.get_first("OTHER").is_none());
    t.set_first("CUSTOM", "two");
    assert_eq!(t.get_first("CUSTOM"), Some("two"));
    t.remove("CUSTOM");
    assert!(t.get_first("CUSTOM").is_none());
}
