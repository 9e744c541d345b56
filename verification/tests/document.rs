use koto::date::Date;
use koto::db::{Artist, Artists};
use koto::KotoError;

fn record(name: &str, id: &str, album: &str, date: Date) -> Artist {
    Artist {
        artist_name: name.to_string(),
        artist_spotify_id: id.to_string(),
        last_album: album.to_string(),
        last_album_release_date: date,
        last_album_spotify_id: format!("{}-album", id),
        last_album_url: format!("https://example.com/{}", id),
    }
}

fn equal_records(a: &Artist, b: &Artist) -> bool {
    a.artist_name == b.artist_name
        && a.artist_spotify_id == b.artist_spotify_id
        && a.last_album == b.last_album
        && a.last_album_release_date == b.last_album_release_date
        && a.last_album_spotify_id == b.last_album_spotify_id
        && a.last_album_url == b.last_album_url
}

#[test]
fn serialize_writes_six_lines_per_record() {
    let mut db = Artists::new();
    db.add(record("Alpha", "id1", "First", Date { year: 2021, month: 3, day: 5 }))
        .unwrap();
    assert_eq!(
        db.serialize(),
        "Alpha\nid1\nFirst\n2021-03-05\nid1-album\nhttps://example.com/id1\n"
    );
}

#[test]
fn round_trip_of_three_records_is_field_for_field() {
    let mut db = Artists::new();
    db.add(record("Alpha", "id1", "First", Date { year: 2021, month: 3, day: 5 }))
        .unwrap();
    db.add(record("Beta", "id2", "Second", Date { year: 1999, month: 12, day: 31 }))
        .unwrap();
    db.add(record("Gamma", "id3", "Third", Date { year: 2023, month: 7, day: 1 }))
        .unwrap();
    let text = db.serialize();
    let loaded = Artists::deserialize(&text).unwrap();
    assert_eq!(loaded.len(), 3);
    for i in 0..3 {
        assert!(equal_records(loaded.get(i), db.get(i)));
    }
}

#[test]
fn round_trip_keeps_awkward_characters() {
    let mut db = Artists::new();
    db.add(record(
        "Line\nBreak \\ Band",
        "id\\1",
        "Album\n\\n tricks",
        Date { year: 2000, month: 1, day: 1 },
    ))
    .unwrap();
    let text = db.serialize();
    let loaded = Artists::deserialize(&text).unwrap();
    assert_eq!(loaded.len(), 1);
    assert!(equal_records(loaded.get(0), db.get(0)));
}

#[test]
fn round_trip_of_the_empty_watchlist() {
    let db = Artists::new();
    let text = db.serialize();
    assert_eq!(text, "");
    let loaded = Artists::deserialize(&text).unwrap();
    assert_eq!(loaded.len(), 0);
}

#[test]
fn malformed_documents_are_rejected() {
    assert_eq!(
        Artists::deserialize("just one line\n").unwrap_err(),
        KotoError::SerializationError
    );
    assert_eq!(
        Artists::deserialize("a\nb\nc\nnot-a-date\nd\ne\n").unwrap_err(),
        KotoError::SerializationError
    );
    assert_eq!(
        Artists::deserialize("trailing garbage without newline").unwrap_err(),
        KotoError::SerializationError
    );
    assert_eq!(
        Artists::deserialize("a\nb\nc\n2021-03-05\nd\ne\nextra\n").unwrap_err(),
        KotoError::SerializationError
    );
}

#[test]
fn documents_with_duplicate_artist_ids_are_rejected() {
    let doc = "Alpha\nsame\nFirst\n2021-03-05\nalb1\nurl1\nBeta\nsame\nSecond\n2022-01-01\nalb2\nurl2\n";
    assert_eq!(
        Artists::deserialize(doc).unwrap_err(),
        KotoError::SerializationError
    );
}

#[test]
fn dates_are_stored_at_day_resolution() {
    let mut db = Artists::new();
    db.add(record("Alpha", "id1", "First", Date { year: 2020, month: 1, day: 1 }))
        .unwrap();
    let text = db.serialize();
    assert!(text.contains("2020-01-01"));
}
