use koto::command::{
    CueSheetFetch, Edit, FileType, Init, List, ListAction, Search, TagEdit,
};
use koto::cue::{
    cue_file_format, min_sec_mil_of_millies, parse_timestamp, DurationFormat,
};
use koto::m3u::{ascii_lowercase, audio_extensions, extension_matches, lex_le, M3UPlaylist};
use koto::spotify::SpotifySearchType;
use koto::util::{join_strings, u32_string};

#[test]
fn list_action_prefers_delete_then_add_then_update() {
    let delete = List {
        delete: Some("Alpha".to_string()),
        add: None,
        update: None,
        full: false,
        id: false,
    };
    match delete.action() {
        ListAction::Delete { name, by_id } => {
            assert_eq!(name, "Alpha");
            assert!(!by_id);
        },
        _ => panic!("expected a delete"),
    }
    let add = List {
        delete: None,
        add: Some("Beta".to_string()),
        update: None,
        full: false,
        id: true,
    };
    match add.action() {
        ListAction::Add { name, by_id } => {
            assert_eq!(name, "Beta");
            assert!(by_id);
        },
        _ => panic!("expected an add"),
    }
    let update = List {
        delete: None,
        add: None,
        update: Some(Some("Gamma".to_string())),
        full: false,
        id: false,
    };
    match update.action() {
        ListAction::Update { artist, by_id } => {
            assert_eq!(artist, Some("Gamma".to_string()));
            assert!(!by_id);
        },
        _ => panic!("expected an update"),
    }
    let show = List { delete: None, add: None, update: None, full: true, id: false };
    match show.action() {
        ListAction::Show { full } => assert!(full),
        _ => panic!("expected a show"),
    }
}

#[test]
fn search_types_follow_the_flags_in_order() {
    let search = Search {
        search_subcommand: None,
        artist: true,
        album: true,
        track: true,
        market: None,
        limit: Some(80),
        graphic: false,
        offset: None,
        item: Some("x".to_string()),
    };
    assert_eq!(
        search.search_types(),
        vec![
            SpotifySearchType::Artist,
            SpotifySearchType::Track,
            SpotifySearchType::Album,
        ]
    );
    assert_eq!(search.clamped_limit(), Some(50));
    let none = Search {
        search_subcommand: None,
        artist: false,
        album: false,
        track: false,
        market: None,
        limit: Some(7),
        graphic: false,
        offset: None,
        item: None,
    };
    assert!(none.search_types().is_empty());
    assert_eq!(none.clamped_limit(), Some(7));
}

#[test]
fn init_writes_both_credential_lines() {
    let init = Init {
        client_id: "id123".to_string(),
        client_secret: "shhh".to_string(),
        force: false,
    };
    assert_eq!(init.env_file_content(), "CLIENT_ID=id123\nCLIENT_SECRET=shhh\n");
    assert!(init.should_write(false));
    assert!(!init.should_write(true));
    let forced = Init {
        client_id: "a".to_string(),
        client_secret: "b".to_string(),
        force: true,
    };
    assert!(forced.should_write(true));
}

#[test]
fn edit_plan_keeps_the_tag_order() {
    let edit = Edit {
        file_type: FileType::Mp3,
        title: Some("Song".to_string()),
        artist: None,
        album: Some("Album".to_string()),
        artist_album: None,
        year: Some(1999),
        bpm: None,
        track_position: Some(3),
        images: Some(vec!["cover.png".to_string(), "back.jpg".to_string()]),
        output: None,
        file: "song.mp3".to_string(),
    };
    let plan = edit.run();
    assert_eq!(plan.file, "song.mp3");
    assert_eq!(plan.file_type, FileType::Mp3);
    assert!(plan.output.is_none());
    assert_eq!(plan.edits.len(), 6);
    assert!(matches!(&plan.edits[0], TagEdit::Title(t) if t == "Song"));
    assert!(matches!(&plan.edits[1], TagEdit::Album(a) if a == "Album"));
    assert!(matches!(&plan.edits[2], TagEdit::Year(1999)));
    assert!(matches!(&plan.edits[3], TagEdit::TrackPosition(3)));
    assert!(matches!(&plan.edits[4], TagEdit::Picture(p) if p == "cover.png"));
    assert!(matches!(&plan.edits[5], TagEdit::Picture(p) if p == "back.jpg"));
}

#[test]
fn cuesheet_fetch_builds_the_album_query() {
    let fetch = CueSheetFetch {
        artist: Some("Example Band".to_string()),
        album: Some("Debut".to_string()),
        album_id: None,
        output: None,
        cue_file_name: String::new(),
        format: cue_file_format::WAVE,
        total_duration: false,
        image: None,
    };
    assert_eq!(fetch.album_query(), Some("Debut Example Band".to_string()));
    let by_id = CueSheetFetch {
        artist: None,
        album: None,
        album_id: Some("alb1".to_string()),
        output: None,
        cue_file_name: String::new(),
        format: cue_file_format::BINARY,
        total_duration: false,
        image: None,
    };
    assert!(by_id.album_query().is_none());
}

#[test]
fn timestamps_parse_with_and_without_milliseconds() {
    assert_eq!(parse_timestamp("03:25"), Ok(DurationFormat::MinSec(3, 25)));
    assert_eq!(parse_timestamp(" 3 : 25 : 999"), Ok(DurationFormat::MinSecMil(3, 25, 999)));
    assert_eq!(parse_timestamp("0:0:0"), Ok(DurationFormat::MinSecMil(0, 0, 0)));
    assert!(parse_timestamp("325").is_err());
    assert!(parse_timestamp("3:").is_err());
    assert!(parse_timestamp("a:b").is_err());
    assert!(parse_timestamp("3:25:99999999999").is_err());
}

#[test]
fn milliseconds_split_into_minutes_seconds_milliseconds() {
    assert_eq!(min_sec_mil_of_millies(200_000), (3, 20, 0));
    assert_eq!(min_sec_mil_of_millies(61_002), (1, 1, 2));
    assert_eq!(min_sec_mil_of_millies(0), (0, 0, 0));
}

#[test]
fn playlist_renders_header_and_paths() {
    let mut playlist = M3UPlaylist::new();
    playlist.append_path("/music/a.mp3".to_string());
    playlist.append_path("/music/b.flac".to_string());
    assert_eq!(playlist.render(), "#EXTM3U\n\n/music/a.mp3\n\n/music/b.flac\n\n");
}

#[test]
fn playlist_batches_come_out_sorted() {
    let mut playlist = M3UPlaylist::new();
    playlist.append_sub_dir(vec![
        "/music/zebra.mp3".to_string(),
        "/music/alpha.mp3".to_string(),
        "/music/middle.mp3".to_string(),
    ]);
    assert_eq!(playlist.len(), 3);
    assert_eq!(playlist.get(0).as_str(), "/music/alpha.mp3");
    assert_eq!(playlist.get(1).as_str(), "/music/middle.mp3");
    assert_eq!(playlist.get(2).as_str(), "/music/zebra.mp3");
}

#[test]
fn extension_set_folds_case_and_honours_excludes() {
    let extensions = audio_extensions(
        &vec!["OPUS".to_string()],
        &vec!["WAV".to_string()],
    );
    assert!(extension_matches("MP3", &extensions));
    assert!(extension_matches("opus", &extensions));
    assert!(!extension_matches("wav", &extensions));
    assert!(!extension_matches("txt", &extensions));
}

#[test]
fn ascii_lowercase_folds_only_ascii_letters() {
    assert_eq!(ascii_lowercase("FLaC"), "flac");
    assert_eq!(ascii_lowercase("mp3"), "mp3");
    assert_eq!(ascii_lowercase("A-Z_0:9"), "a-z_0:9");
}

#[test]
fn lexicographic_compare_orders_paths() {
    assert!(lex_le(&"a".to_string(), &"b".to_string()));
    assert!(lex_le(&"a".to_string(), &"ab".to_string()));
    assert!(!lex_le(&"b".to_string(), &"ab".to_string()));
    assert!(lex_le(&"same".to_string(), &"same".to_string()));
}

#[test]
fn numbers_and_joins_format_for_query_strings() {
    assert_eq!(u32_string(0), "0");
    assert_eq!(u32_string(40), "40");
    assert_eq!(u32_string(4_294_967_295), "4294967295");
    assert_eq!(
        join_strings(&vec!["a".to_string(), "b".to_string(), "c".to_string()], ","),
        "a,b,c"
    );
    assert_eq!(join_strings(&vec![], ","), "");
    assert_eq!(join_strings(&vec!["solo".to_string()], ","), "solo");
}
