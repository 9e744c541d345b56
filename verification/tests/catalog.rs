use koto::spotify::{
    basic_authorization, first_artist_id, url_for, Artist, Spotify, SpotifyIncludeGroupe,
    SpotifyRessourceType, SpotifySearchAlbumArtist, SpotifySearchKey, SpotifySearchType,
    SpotifyAlbumTrackResult, Token, TrackAlbum,
};

fn client() -> Spotify {
    let token = Token::from_parts("tok".to_string(), "Bearer".to_string(), 3600);
    Spotify::new(&token)
}

#[test]
fn endpoints_are_fixed() {
    assert_eq!(Spotify::search_end_point(), "https://api.spotify.com/v1/search");
    assert_eq!(Spotify::track_end_point(), "https://api.spotify.com/v1/tracks/");
    assert_eq!(Spotify::album_end_point(), "https://api.spotify.com/v1/albums/");
    assert_eq!(Spotify::artist_end_point(), "https://api.spotify.com/v1/artists/");
    assert_eq!(
        Spotify::audio_feature_end_point(),
        "https://api.spotify.com/v1/audio-features/"
    );
    assert_eq!(
        Spotify::audio_analysis_end_point(),
        "https://api.spotify.com/v1/audio-analysis/"
    );
}

#[test]
fn basic_authorization_encodes_the_credentials() {
    assert_eq!(basic_authorization("hi", "secret"), "Basic aGk6c2VjcmV0");
}

#[test]
fn resource_url_for_one_artist_album_listing() {
    let spotify = client();
    let request = spotify.setup_url_request(
        &SpotifyRessourceType::ArtistAlbum,
        &vec!["abc123".to_string()],
        &None,
        Some(40),
        Some(0),
        &vec![SpotifyIncludeGroupe::Album, SpotifyIncludeGroupe::Single],
    );
    assert_eq!(request.url, "https://api.spotify.com/v1/artists/abc123/albums");
    assert_eq!(
        request.query,
        vec![
            ("offset".to_string(), "0".to_string()),
            ("limit".to_string(), "40".to_string()),
            ("include_groups".to_string(), "album,single".to_string()),
        ]
    );
    assert_eq!(
        request.headers,
        vec![
            ("Authorization".to_string(), "Bearer tok".to_string()),
            ("Accept".to_string(), "application/json".to_string()),
            ("Content-Type".to_string(), "application/json".to_string()),
        ]
    );
}

#[test]
fn resource_url_for_several_ids_uses_an_ids_list() {
    let spotify = client();
    let request = spotify.setup_url_request(
        &SpotifyRessourceType::Artist,
        &vec!["a1".to_string(), "a2".to_string()],
        &None,
        None,
        None,
        &vec![],
    );
    assert_eq!(request.url, "https://api.spotify.com/v1/artists/?ids=a1,a2");
    assert!(request.query.is_empty());
}

#[test]
fn search_request_carries_query_and_types() {
    let spotify = client();
    let request = spotify.setup_search_request(
        "Example Band",
        &vec![SpotifySearchType::Artist],
        &Some("FR".to_string()),
        Some(1),
        Some(0),
        None,
    );
    assert_eq!(request.url, "https://api.spotify.com/v1/search");
    assert_eq!(
        request.query,
        vec![
            ("q".to_string(), "Example Band".to_string()),
            ("type".to_string(), "artist".to_string()),
            ("market".to_string(), "FR".to_string()),
            ("offset".to_string(), "0".to_string()),
            ("limit".to_string(), "1".to_string()),
        ]
    );
}

#[test]
fn search_keys_parse_from_their_names() {
    assert_eq!(SpotifySearchKey::from_name("tracks").unwrap(), SpotifySearchKey::Tracks);
    assert_eq!(SpotifySearchKey::from_name("artists").unwrap(), SpotifySearchKey::Artists);
    assert_eq!(SpotifySearchKey::from_name("albums").unwrap(), SpotifySearchKey::Albums);
    assert_eq!(
        SpotifySearchKey::from_name("playlists").unwrap(),
        SpotifySearchKey::Playlists
    );
    assert_eq!(SpotifySearchKey::from_name("shows").unwrap(), SpotifySearchKey::Shows);
    assert_eq!(SpotifySearchKey::from_name("episodes").unwrap(), SpotifySearchKey::Episodes);
    assert!(SpotifySearchKey::from_name("genres").is_err());
}

#[test]
fn group_and_type_names_match_the_query_vocabulary() {
    assert_eq!(SpotifyIncludeGroupe::Single.name(), "single");
    assert_eq!(SpotifyIncludeGroupe::Album.name(), "album");
    assert_eq!(SpotifyIncludeGroupe::AppearsOn.name(), "appears_on");
    assert_eq!(SpotifyIncludeGroupe::Compilation.name(), "compilation");
    assert_eq!(SpotifySearchType::Album.name(), "album");
    assert_eq!(SpotifySearchType::Artist.name(), "artist");
    assert_eq!(SpotifySearchType::Track.name(), "track");
}

#[test]
fn first_artist_candidate_wins() {
    let candidates = vec![
        Artist { id: "abc123".to_string(), name: "Example Band".to_string() },
        Artist { id: "zzz".to_string(), name: "Example Band Tribute".to_string() },
    ];
    assert_eq!(first_artist_id(&candidates).unwrap(), "abc123");
    assert!(first_artist_id(&vec![]).is_none());
}

#[test]
fn url_lookup_finds_the_first_matching_key() {
    let urls = vec![
        ("other".to_string(), "https://other.example".to_string()),
        ("spotify".to_string(), "https://open.example/1".to_string()),
        ("spotify".to_string(), "https://open.example/2".to_string()),
    ];
    assert_eq!(url_for(&urls, "spotify").unwrap().as_str(), "https://open.example/1");
    assert!(url_for(&urls, "missing").is_none());
}

fn track(name: &str, ms: u64) -> TrackAlbum {
    TrackAlbum {
        artists: vec![SpotifySearchAlbumArtist {
            external_urls: vec![],
            href: String::new(),
            id: "a".to_string(),
            name: "someone".to_string(),
            r_type: "artist".to_string(),
            uri: String::new(),
        }],
        disc_number: 1,
        duration_ms: ms,
        explicit: false,
        external_urls: vec![],
        href: String::new(),
        id: name.to_string(),
        is_local: false,
        name: name.to_string(),
        preview_url: String::new(),
        track_number: 1,
        uri: String::new(),
    }
}

#[test]
fn total_duration_sums_all_tracks() {
    let result = SpotifyAlbumTrackResult {
        href: String::new(),
        items: vec![track("one", 200_000), track("two", 154_321), track("three", 1)],
        limit: 50,
        next: None,
        offset: 0,
        previous: None,
        total: 3,
    };
    assert_eq!(result.total_duration_ms(), Some(354_322));
}

#[test]
fn total_duration_reports_overflow() {
    let result = SpotifyAlbumTrackResult {
        href: String::new(),
        items: vec![track("one", u64::MAX), track("two", 1)],
        limit: 50,
        next: None,
        offset: 0,
        previous: None,
        total: 2,
    };
    assert_eq!(result.total_duration_ms(), None);
}
