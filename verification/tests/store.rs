use koto::date::{Date, ReleaseDate};
use koto::db::{Artist, Artists, ReconcileOutcome};
use koto::spotify::{self, ReleaseEntry};
use koto::KotoError;

fn record(name: &str, id: &str, album: &str, date: Date) -> Artist {
    Artist {
        artist_name: name.to_string(),
        artist_spotify_id: id.to_string(),
        last_album: album.to_string(),
        last_album_release_date: date,
        last_album_spotify_id: format!("{}-album", id),
        last_album_url: format!("https://example.com/{}", id),
    }
}

fn release(id: &str, name: &str, date: ReleaseDate, url: Option<&str>) -> ReleaseEntry {
    ReleaseEntry {
        id: id.to_string(),
        name: name.to_string(),
        release_date: date,
        url: url.map(|u| u.to_string()),
    }
}

#[test]
fn add_rejects_duplicate_artist_ids() {
    let mut db = Artists::new();
    db.add(record("A", "id1", "x", Date { year: 2020, month: 1, day: 1 }))
        .unwrap();
    let err = db
        .add(record("B", "id1", "y", Date { year: 2021, month: 1, day: 1 }))
        .unwrap_err();
    assert_eq!(err, KotoError::DuplicateArtist);
    assert_eq!(db.len(), 1);
}

#[test]
fn delete_by_name_removes_exactly_one_and_leaves_others() {
    let mut db = Artists::new();
    db.add(record("Alpha", "id1", "x", Date { year: 2020, month: 1, day: 1 }))
        .unwrap();
    db.add(record("Beta", "id2", "y", Date { year: 2020, month: 2, day: 2 }))
        .unwrap();
    db.add(record("Gamma", "id3", "z", Date { year: 2020, month: 3, day: 3 }))
        .unwrap();
    let removed = db.delete(false, &"Beta".to_string());
    assert_eq!(removed, 1);
    assert_eq!(db.len(), 2);
    assert_eq!(db.get(0).artist_name, "Alpha");
    assert_eq!(db.get(1).artist_name, "Gamma");
}

#[test]
fn delete_of_missing_name_removes_nothing() {
    let mut db = Artists::new();
    db.add(record("Alpha", "id1", "x", Date { year: 2020, month: 1, day: 1 }))
        .unwrap();
    let removed = db.delete(false, &"Nobody".to_string());
    assert_eq!(removed, 0);
    assert_eq!(db.len(), 1);
}

#[test]
fn find_matches_by_name_or_by_id() {
    let mut db = Artists::new();
    db.add(record("Alpha", "id1", "x", Date { year: 2020, month: 1, day: 1 }))
        .unwrap();
    db.add(record("Beta", "id2", "y", Date { year: 2020, month: 2, day: 2 }))
        .unwrap();
    assert_eq!(db.find(false, &"Beta".to_string()).unwrap().artist_spotify_id, "id2");
    assert_eq!(db.find(true, &"id1".to_string()).unwrap().artist_name, "Alpha");
    assert!(db.find(false, &"id1".to_string()).is_none());
}

#[test]
fn seeding_a_record_from_a_release() {
    let artist = spotify::Artist { id: "abc123".to_string(), name: "Example Band".to_string() };
    let latest = release(
        "rel1",
        "Debut",
        ReleaseDate::from_full(2021, 3, 5),
        Some("https://example.com/debut"),
    );
    let rec = Artist::from_latest(&artist, &latest);
    assert_eq!(rec.artist_name, "Example Band");
    assert_eq!(rec.artist_spotify_id, "abc123");
    assert_eq!(rec.last_album, "Debut");
    assert_eq!(rec.last_album_release_date, Date { year: 2021, month: 3, day: 5 });
    assert_eq!(rec.last_album_spotify_id, "rel1");
    assert_eq!(rec.last_album_url, "https://example.com/debut");
}

#[test]
fn update_overwrites_on_strictly_newer_release() {
    let mut rec = record("Alpha", "id1", "old", Date { year: 2021, month: 3, day: 5 });
    let newer = release("rel2", "new", ReleaseDate::from_full(2023, 7, 1), None);
    assert!(rec.update_with(&newer));
    assert_eq!(rec.last_album, "new");
    assert_eq!(rec.last_album_release_date, Date { year: 2023, month: 7, day: 1 });
    assert_eq!(rec.last_album_spotify_id, "rel2");
    assert_eq!(rec.last_album_url, "");
    assert_eq!(rec.artist_name, "Alpha");
    assert_eq!(rec.artist_spotify_id, "id1");
}

#[test]
fn update_leaves_record_on_equal_or_older_release() {
    let mut rec = record("Alpha", "id1", "old", Date { year: 2021, month: 3, day: 5 });
    let equal = release("rel2", "same day", ReleaseDate::from_full(2021, 3, 5), None);
    assert!(!rec.update_with(&equal));
    assert_eq!(rec.last_album, "old");
    let older = release("rel3", "earlier", ReleaseDate::from_full(2019, 1, 1), None);
    assert!(!rec.update_with(&older));
    assert_eq!(rec.last_album, "old");
}

#[test]
fn reconcile_updates_one_artist_and_reports_it() {
    let mut db = Artists::new();
    db.add(record("Alpha", "id1", "old", Date { year: 2021, month: 3, day: 5 }))
        .unwrap();
    let targets = vec![0usize];
    let results = vec![Ok(release("rel2", "new", ReleaseDate::from_full(2023, 7, 1), None))];
    let report = db.update(&targets, &results);
    assert_eq!(report, vec![ReconcileOutcome::Updated]);
    assert_eq!(db.get(0).last_album_release_date, Date { year: 2023, month: 7, day: 1 });
}

#[test]
fn reconcile_isolates_one_failure_out_of_three() {
    let mut db = Artists::new();
    db.add(record("Alpha", "id1", "a", Date { year: 2020, month: 1, day: 1 }))
        .unwrap();
    db.add(record("Beta", "id2", "b", Date { year: 2020, month: 2, day: 2 }))
        .unwrap();
    db.add(record("Gamma", "id3", "c", Date { year: 2020, month: 3, day: 3 }))
        .unwrap();
    let targets = vec![0usize, 1, 2];
    let results = vec![
        Ok(release("r1", "a2", ReleaseDate::from_full(2022, 1, 1), None)),
        Err(KotoError::CatalogUnavailable),
        Ok(release("r3", "c2", ReleaseDate::from_full(2022, 3, 3), None)),
    ];
    let report = db.update(&targets, &results);
    assert_eq!(
        report,
        vec![
            ReconcileOutcome::Updated,
            ReconcileOutcome::Failed,
            ReconcileOutcome::Updated,
        ]
    );
    assert_eq!(db.get(0).last_album, "a2");
    assert_eq!(db.get(1).last_album, "b");
    assert_eq!(db.get(2).last_album, "c2");
    let failures = report
        .iter()
        .filter(|o| **o == ReconcileOutcome::Failed)
        .count();
    assert_eq!(failures, 1);
}

#[test]
fn reconcile_twice_with_same_data_reports_all_unchanged() {
    let mut db = Artists::new();
    db.add(record("Alpha", "id1", "a", Date { year: 2020, month: 1, day: 1 }))
        .unwrap();
    db.add(record("Beta", "id2", "b", Date { year: 2020, month: 2, day: 2 }))
        .unwrap();
    let targets = vec![0usize, 1];
    let results = vec![
        Ok(release("r1", "a2", ReleaseDate::from_full(2022, 1, 1), None)),
        Ok(release("r2", "b2", ReleaseDate::from_full(2022, 2, 2), None)),
    ];
    let first = db.update(&targets, &results);
    assert_eq!(first, vec![ReconcileOutcome::Updated, ReconcileOutcome::Updated]);
    let date_after_first = db.get(0).last_album_release_date;
    let second = db.update(&targets, &results);
    assert_eq!(second, vec![ReconcileOutcome::Unchanged, ReconcileOutcome::Unchanged]);
    assert_eq!(db.get(0).last_album_release_date, date_after_first);
    assert_eq!(db.get(0).last_album, "a2");
}

#[test]
fn selected_indices_pick_all_or_the_first_match() {
    let mut db = Artists::new();
    db.add(record("Alpha", "id1", "a", Date { year: 2020, month: 1, day: 1 }))
        .unwrap();
    db.add(record("Beta", "id2", "b", Date { year: 2020, month: 2, day: 2 }))
        .unwrap();
    assert_eq!(db.selected_indices(false, &None), vec![0, 1]);
    assert_eq!(db.selected_indices(false, &Some("Beta".to_string())), vec![1]);
    assert_eq!(db.selected_indices(true, &Some("id1".to_string())), vec![0]);
    assert_eq!(db.selected_indices(false, &Some("Nobody".to_string())), Vec::<usize>::new());
}

#[test]
fn failed_apply_leaves_the_record_untouched() {
    let mut db = Artists::new();
    db.add(record("Alpha", "id1", "a", Date { year: 2020, month: 1, day: 1 }))
        .unwrap();
    let outcome = db.apply_result(0, &Err(KotoError::NotFound));
    assert_eq!(outcome, ReconcileOutcome::Failed);
    assert_eq!(db.get(0).last_album, "a");
}

#[test]
fn default_format_is_the_short_view() {
    let rec = record("Alpha", "id1", "First", Date { year: 2021, month: 3, day: 5 });
    assert_eq!(
        rec.default_format(),
        "***   Artist Name   : Alpha   \n***   Last Album    : First   \n***   Realease Date : 2021-03-05   \n"
    );
}

#[test]
fn full_format_shows_every_field() {
    let rec = Artist {
        artist_name: "Alpha".to_string(),
        artist_spotify_id: "id1".to_string(),
        last_album: "First".to_string(),
        last_album_release_date: Date { year: 2021, month: 3, day: 5 },
        last_album_spotify_id: "alb1".to_string(),
        last_album_url: "https://example.com/a".to_string(),
    };
    assert_eq!(
        rec.full_format(),
        "***   Artist Name   : Alpha   \n***   Artist ID     : id1   \n***   Last Album    : First   \n***   Last album ID : alb1   \n***   Realease Date : 2021-03-05   \n***   Album Url     : https://example.com/a   \n"
    );
}
