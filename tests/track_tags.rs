use riptagger::track_tags::{vorbis_fields, write_tags, TrackTags};

fn sample() -> TrackTags {
    TrackTags {
        album_name: Some("Plantgazer".to_string()),
        artist_name: Some("Show Me a Dinosaur".to_string()),
        year: Some(2020),
        track_name: "Track 1".to_string(),
        genre: Some("Blackgaze".to_string()),
        picture_path: None,
        track_number: Some(1),
        track_total: Some(10),
        disc_number: Some(2),
        disc_total: Some(3),
    }
}

fn pairs(fields: &[(&str, &str)]) -> Vec<(String, String)> {
    fields
        .iter()
        .map(|(k, v)| (k.to_string(), v.to_string()))
        .collect()
}

#[test]
fn vorbis_fields_of_full_record() {
    assert_eq!(
        vorbis_fields(&sample()),
        pairs(&[
            ("ALBUM", "Plantgazer"),
            ("ARTIST", "Show Me a Dinosaur"),
            ("TITLE", "Track 1"),
            ("TRACKNUMBER", "1"),
            ("TRACKTOTAL", "10"),
            ("DATE", "2020"),
            ("GENRE", "Blackgaze"),
            ("DISCNUMBER", "2"),
            ("TOTALDISCS", "3"),
        ])
    );
}

#[test]
fn vorbis_fields_leave_out_absent_values() {
    let tags = TrackTags {
        album_name: None,
        artist_name: None,
        year: None,
        track_name: "Only title".to_string(),
        genre: None,
        picture_path: None,
        track_number: None,
        track_total: None,
        disc_number: None,
        disc_total: Some(0),
    };
    assert_eq!(
        vorbis_fields(&tags),
        pairs(&[("TITLE", "Only title"), ("TOTALDISCS", "0")])
    );
}

#[test]
fn write_tags_sets_comments_and_cover() {
    let mut tag = metaflac::Tag::new();
    tag.set_vorbis("TITLE", vec!["old"]);
    tag.set_vorbis("COMMENT", vec!["kept"]);
    write_tags(&mut tag, &sample(), Some(vec![0xFF, 0xD8]));
    let get = |k: &str| tag.get_vorbis(k).map(|v| v.collect::<Vec<_>>());
    assert_eq!(get("TITLE"), Some(vec!["Track 1"]));
    assert_eq!(get("TRACKNUMBER"), Some(vec!["1"]));
    assert_eq!(get("DATE"), Some(vec!["2020"]));
    assert_eq!(get("TOTALDISCS"), Some(vec!["3"]));
    assert_eq!(get("COMMENT"), Some(vec!["kept"]));
    let pictures: Vec<_> = tag.pictures().collect();
    assert_eq!(pictures.len(), 1);
    assert_eq!(pictures[0].mime_type, "image/jpeg");
    assert_eq!(pictures[0].data, vec![0xFF, 0xD8]);
}

#[test]
fn write_tags_without_cover_adds_no_picture() {
    let mut tag = metaflac::Tag::new();
    write_tags(&mut tag, &sample(), None);
    assert_eq!(tag.pictures().count(), 0);
    assert_eq!(
        tag.get_vorbis("ALBUM").map(|v| v.collect::<Vec<_>>()),
        Some(vec!["Plantgazer"])
    );
}
