//! Plain models of the music catalog service's vocabulary, and the release
//! selector.
//!
//! The catalog service itself lives behind HTTP and is driven outside this
//! crate; here stand the data its requests and responses are made of, the
//! endpoint and URL construction, and the logic that picks an artist's
//! latest release out of a result set.

use base64::Engine;

use crate::date::{Date, ReleaseDate};
use crate::util::{join_strings, spec_dec, spec_join, str_eq, u32_string, views_of};
use crate::KotoError;
use vstd::prelude::*;
use vstd::string::StringExecFns;

verus! {

/// One album or single as the catalog reports it, with its date already
/// parsed and resolved.
#[derive(Debug)]
pub struct ReleaseEntry {
    /// Catalog identifier of the release, unique within the catalog.
    pub id: String,
    /// Display title.
    pub name: String,
    /// Release date with its precision tag.
    pub release_date: ReleaseDate,
    /// Canonical web link, when the catalog gave one.
    pub url: Option<String>,
}

/// An artist as the catalog reports it: the stable identity key and the
/// display name the tracking core reads.
#[derive(Debug)]
pub struct Artist {
    pub id: String,
    pub name: String,
}

impl ReleaseEntry {
    /// The fully resolved date this entry compares as.
    pub open spec fn spec_date(self) -> Date {
        self.release_date.spec_resolved()
    }

    /// The stored link: the catalog's canonical link, or empty when absent.
    pub open spec fn spec_url_or_empty(self) -> Seq<char> {
        match self.url {
            Some(u) => u@,
            None => Seq::empty(),
        }
    }

    /// The canonical link, or the empty string when the catalog gave none.
    pub fn url_or_empty(&self) -> (r: String)
        ensures
            r@ == self.spec_url_or_empty(),
    {
        match &self.url {
            Some(u) => u.clone(),
            None => String::new(),
        }
    }
}

/// Index `i` points at the entry the selector must return: its resolved date
/// is a maximum of the set, and it is the first entry carrying that date, so
/// the choice is deterministic in input order.
pub open spec fn is_latest_choice(s: Seq<ReleaseEntry>, i: int) -> bool {
    &&& 0 <= i < s.len()
    &&& forall|j: int| 0 <= j < s.len() ==> (#[trigger] s[j]).spec_date().le(s[i].spec_date())
    &&& forall|j: int| 0 <= j < i ==> (#[trigger] s[j]).spec_date().lt(s[i].spec_date())
}

/// Only one index can satisfy [`is_latest_choice`]: the selector's result is
/// fully determined by the input.
pub proof fn lemma_latest_choice_unique(s: Seq<ReleaseEntry>, i: int, j: int)
    requires
        is_latest_choice(s, i),
        is_latest_choice(s, j),
    ensures
        i == j,
{
    if i < j {
        assert(s[i].spec_date().lt(s[j].spec_date()));
        assert(s[j].spec_date().le(s[i].spec_date()));
    } else if j < i {
        assert(s[j].spec_date().lt(s[i].spec_date()));
        assert(s[i].spec_date().le(s[j].spec_date()));
    }
}

/// Selects the latest release of a non-empty result set.
///
/// The returned entry's resolved date is the maximum of the set; among
/// entries sharing that maximum the first in input order wins. An empty set
/// is a caller bug and is reported as [`KotoError::EmptyInput`].
pub fn select_latest<'a>(entries: &'a Vec<ReleaseEntry>) -> (r: Result<&'a ReleaseEntry, KotoError>)
    ensures
        match r {
            Ok(e) => exists|i: int| is_latest_choice(entries@, i) && *e == entries@[i],
            Err(err) => err == KotoError::EmptyInput,
        },
        r is Err <==> entries@.len() == 0,
{
    if entries.len() == 0 {
        return Err(KotoError::EmptyInput);
    }
    let mut best: usize = 0;
    let mut i: usize = 1;
    while i < entries.len()
        invariant
            entries@.len() > 0,
            best < i <= entries@.len(),
            forall|j: int| 0 <= j < i ==> (#[trigger] entries@[j]).spec_date().le(
                entries@[best as int].spec_date(),
            ),
            forall|j: int| 0 <= j < best ==> (#[trigger] entries@[j]).spec_date().lt(
                entries@[best as int].spec_date(),
            ),
        decreases entries@.len() - i,
    {
        let best_date = entries[best].release_date.resolved();
        let this_date = entries[i].release_date.resolved();
        if best_date.is_before(&this_date) {
            proof {
                assert forall|j: int| 0 <= j < i implies (#[trigger] entries@[j]).spec_date().lt(
                    entries@[i as int].spec_date(),
                ) by {
                    assert(entries@[j].spec_date().le(entries@[best as int].spec_date()));
                }
            }
            best = i;
        }
        i += 1;
    }
    proof {
        assert(is_latest_choice(entries@, best as int));
    }
    Ok(&entries[best])
}

/// The latest release for one artist, as the reconciler consumes it: an
/// empty result set is not a caller bug here but a catalog response with
/// nothing usable in it, reported as a catalog failure.
pub fn latest_release<'a>(entries: &'a Vec<ReleaseEntry>) -> (r: Result<
    &'a ReleaseEntry,
    KotoError,
>)
    ensures
        match r {
            Ok(e) => exists|i: int| is_latest_choice(entries@, i) && *e == entries@[i],
            Err(err) => err == KotoError::CatalogUnavailable,
        },
        r is Err <==> entries@.len() == 0,
{
    match select_latest(entries) {
        Ok(e) => Ok(e),
        Err(_) => Err(KotoError::CatalogUnavailable),
    }
}

/// A catalog access token, as the token endpoint reports it. Obtaining one
/// is an HTTP exchange and happens outside this crate; the tracking core
/// only carries the token into request headers.
#[derive(Debug)]
pub struct Token {
    pub access_token: String,
    pub token_type: String,
    pub expire_in: u32,
}

impl Token {
    /// Wraps an already-obtained access token.
    pub fn from_parts(access_token: String, token_type: String, expire_in: u32) -> (r: Token)
        ensures
            r.access_token@ == access_token@,
            r.token_type@ == token_type@,
            r.expire_in == expire_in,
    {
        Token { access_token, token_type, expire_in }
    }

    /// A field-for-field copy of this token.
    pub fn duplicate(&self) -> (r: Token)
        ensures
            r.access_token@ == self.access_token@,
            r.token_type@ == self.token_type@,
            r.expire_in == self.expire_in,
    {
        Token {
            access_token: self.access_token.clone(),
            token_type: self.token_type.clone(),
            expire_in: self.expire_in,
        }
    }
}

/// What the standard base64 encoding of some bytes is. The exact output
/// takes pages to state; it is a function of the input bytes alone, so the
/// name pins it down for every caller.
pub uninterp spec fn b64_of(bytes: Seq<u8>) -> Seq<char>;

/// Relies on base64's `Engine::encode` with the standard padded alphabet:
/// the result depends on the input bytes alone, and no bytes yield the
/// empty string.
#[verifier::external_body]
fn base64_encode(bytes: &Vec<u8>) -> (r: String)
    ensures
        r@ == b64_of(bytes@),
        bytes@.len() == 0 ==> r@.len() == 0,
{
    base64::engine::general_purpose::STANDARD.encode(bytes)
}

/// The `Basic` authorization header value the token endpoint expects: the
/// base64 of `client_id:client_secret`.
pub open spec fn spec_basic_authorization(id: Seq<char>, secret: Seq<char>) -> Seq<char> {
    "Basic "@ + b64_of(vstd::utf8::encode_utf8(id + ":"@ + secret))
}

/// Builds the `Basic` authorization header value from the client
/// credentials.
pub fn basic_authorization(client_id: &str, client_secret: &str) -> (r: String)
    ensures
        r@ == spec_basic_authorization(client_id@, client_secret@),
{
    let mut credential = String::new();
    credential.append(client_id);
    credential.append(":");
    credential.append(client_secret);
    let bytes = vstd::string::StrSliceExecFns::as_bytes_vec(credential.as_str());
    proof {
        assert(credential@ =~= client_id@ + ":"@ + client_secret@);
    }
    let encoded = base64_encode(&bytes);
    let mut r = String::new();
    r.append("Basic ");
    r.append(encoded.as_str());
    proof {
        assert(r@ =~= spec_basic_authorization(client_id@, client_secret@));
    }
    r
}

/// The catalog client: carries the access token that every request's
/// authorization header is built from. The HTTP transport lives outside
/// this crate; the client computes endpoints, URLs, query pairs and
/// headers.
#[derive(Debug)]
pub struct Spotify {
    token: Token,
}

/// The kind of catalog resource a request addresses.
#[derive(Clone, Copy, Debug, PartialEq, Eq, Structural)]
pub enum SpotifyRessourceType {
    Track,
    Artist,
    ArtistAlbum,
    ArtistTopTrack,
    Album,
    AlbumTrack,
    AudioFeature,
    RelatedArtist,
    AudioAnalysis,
}

/// The release groups an artist-album listing can include.
#[derive(Clone, Copy, Debug, PartialEq, Eq, Structural)]
pub enum SpotifyIncludeGroupe {
    Single,
    Album,
    AppearsOn,
    Compilation,
}

impl SpotifyIncludeGroupe {
    /// The name the catalog's query string uses for this group.
    pub open spec fn spec_name(self) -> Seq<char> {
        match self {
            SpotifyIncludeGroupe::Single => "single"@,
            SpotifyIncludeGroupe::Album => "album"@,
            SpotifyIncludeGroupe::AppearsOn => "appears_on"@,
            SpotifyIncludeGroupe::Compilation => "compilation"@,
        }
    }

    /// The query-string name of this group.
    pub fn name(&self) -> (r: &'static str)
        ensures
            r@ == self.spec_name(),
    {
        match self {
            SpotifyIncludeGroupe::Single => "single",
            SpotifyIncludeGroupe::Album => "album",
            SpotifyIncludeGroupe::AppearsOn => "appears_on",
            SpotifyIncludeGroupe::Compilation => "compilation",
        }
    }
}

/// The kinds of item a catalog search can ask for.
#[derive(Clone, Copy, Debug, PartialEq, Eq, Structural)]
pub enum SpotifySearchType {
    Album,
    Artist,
    Track,
}

impl SpotifySearchType {
    /// The name the catalog's query string uses for this search type.
    pub open spec fn spec_name(self) -> Seq<char> {
        match self {
            SpotifySearchType::Album => "album"@,
            SpotifySearchType::Artist => "artist"@,
            SpotifySearchType::Track => "track"@,
        }
    }

    /// The query-string name of this search type.
    pub fn name(&self) -> (r: &'static str)
        ensures
            r@ == self.spec_name(),
    {
        match self {
            SpotifySearchType::Album => "album",
            SpotifySearchType::Artist => "artist",
            SpotifySearchType::Track => "track",
        }
    }
}

/// The top-level keys of a catalog search response.
#[derive(Clone, Copy, Debug, PartialEq, Eq, Hash, Structural)]
pub enum SpotifySearchKey {
    Tracks,
    Artists,
    Albums,
    Playlists,
    Shows,
    Episodes,
}

/// A search-response key that the catalog's vocabulary does not know.
#[derive(Clone, Copy, Debug, PartialEq, Eq, Structural)]
pub struct SpotifyKeyError;

/// Which search key the given response-key text names, if any.
pub open spec fn spec_search_key(s: Seq<char>) -> Option<SpotifySearchKey> {
    if s == "tracks"@ {
        Some(SpotifySearchKey::Tracks)
    } else if s == "artists"@ {
        Some(SpotifySearchKey::Artists)
    } else if s == "albums"@ {
        Some(SpotifySearchKey::Albums)
    } else if s == "playlists"@ {
        Some(SpotifySearchKey::Playlists)
    } else if s == "shows"@ {
        Some(SpotifySearchKey::Shows)
    } else if s == "episodes"@ {
        Some(SpotifySearchKey::Episodes)
    } else {
        None
    }
}

impl SpotifySearchKey {
    /// Reads a search-response key from its text, failing on anything the
    /// vocabulary does not know.
    pub fn from_name(s: &str) -> (r: Result<SpotifySearchKey, SpotifyKeyError>)
        ensures
            match r {
                Ok(k) => spec_search_key(s@) == Some(k),
                Err(_) => spec_search_key(s@) is None,
            },
    {
        if str_eq(s, "tracks") {
            Ok(SpotifySearchKey::Tracks)
        } else if str_eq(s, "artists") {
            Ok(SpotifySearchKey::Artists)
        } else if str_eq(s, "albums") {
            Ok(SpotifySearchKey::Albums)
        } else if str_eq(s, "playlists") {
            Ok(SpotifySearchKey::Playlists)
        } else if str_eq(s, "shows") {
            Ok(SpotifySearchKey::Shows)
        } else if str_eq(s, "episodes") {
            Ok(SpotifySearchKey::Episodes)
        } else {
            Err(SpotifyKeyError)
        }
    }
}

/// The views of a list of name-value pairs.
pub open spec fn pairs_view(q: Seq<(String, String)>) -> Seq<(Seq<char>, Seq<char>)> {
    Seq::new(q.len(), |i: int| (q[i].0@, q[i].1@))
}

/// A fully computed catalog request: the URL, its query pairs and its
/// headers, ready for whatever HTTP client carries it.
#[derive(Debug)]
pub struct UrlRequest {
    pub url: String,
    pub query: Vec<(String, String)>,
    pub headers: Vec<(String, String)>,
}

/// The identifier part of a resource URL: a single identifier is appended
/// to the path; several become an `?ids=` list.
pub open spec fn spec_ids_part(ids: Seq<Seq<char>>) -> Seq<char> {
    if ids.len() > 1 {
        "?ids="@ + spec_join(ids, ","@)
    } else {
        ids[0]
    }
}

impl SpotifyRessourceType {
    /// The path suffix a resource kind appends after the identifier.
    pub open spec fn spec_path_suffix(self) -> Seq<char> {
        match self {
            SpotifyRessourceType::ArtistAlbum => "/albums"@,
            SpotifyRessourceType::ArtistTopTrack => "/top-tracks"@,
            SpotifyRessourceType::AlbumTrack => "/tracks"@,
            SpotifyRessourceType::RelatedArtist => "/related-artists"@,
            _ => ""@,
        }
    }

    /// The path suffix this resource kind appends after the identifier.
    pub fn path_suffix(&self) -> (r: &'static str)
        ensures
            r@ == self.spec_path_suffix(),
    {
        match self {
            SpotifyRessourceType::ArtistAlbum => "/albums",
            SpotifyRessourceType::ArtistTopTrack => "/top-tracks",
            SpotifyRessourceType::AlbumTrack => "/tracks",
            SpotifyRessourceType::RelatedArtist => "/related-artists",
            _ => "",
        }
    }
}

/// The query pairs of a resource request, in the order they are attached:
/// market, offset, limit, then the include-groups list when it is not
/// empty.
pub open spec fn spec_resource_query(
    market: Option<Seq<char>>,
    offset: Option<u32>,
    limit: Option<u32>,
    groups: Seq<SpotifyIncludeGroupe>,
) -> Seq<(Seq<char>, Seq<char>)> {
    (match market {
        Some(m) => seq![("market"@, m)],
        None => Seq::empty(),
    }) + (match offset {
        Some(o) => seq![("offset"@, spec_dec(o as int))],
        None => Seq::empty(),
    }) + (match limit {
        Some(l) => seq![("limit"@, spec_dec(l as int))],
        None => Seq::empty(),
    }) + (if groups.len() > 0 {
        seq![
            (
                "include_groups"@,
                spec_join(Seq::new(groups.len(), |i: int| groups[i].spec_name()), ","@),
            ),
        ]
    } else {
        Seq::empty()
    })
}

impl Spotify {
    /// A client around an already-obtained token.
    pub fn new(token: &Token) -> (r: Spotify)
        ensures
            r.spec_access_token() == token.access_token@,
    {
        Spotify { token: token.duplicate() }
    }

    /// The access token the client's request headers carry.
    pub closed spec fn spec_access_token(&self) -> Seq<char> {
        self.token.access_token@
    }

    /// The search endpoint.
    pub fn search_end_point() -> (r: String)
        ensures
            r@ == "https://api.spotify.com/v1/search"@,
    {
        String::from_str("https://api.spotify.com/v1/search")
    }

    /// The track endpoint.
    pub fn track_end_point() -> (r: String)
        ensures
            r@ == "https://api.spotify.com/v1/tracks/"@,
    {
        String::from_str("https://api.spotify.com/v1/tracks/")
    }

    /// The album endpoint.
    pub fn album_end_point() -> (r: String)
        ensures
            r@ == "https://api.spotify.com/v1/albums/"@,
    {
        String::from_str("https://api.spotify.com/v1/albums/")
    }

    /// The artist endpoint.
    pub fn artist_end_point() -> (r: String)
        ensures
            r@ == "https://api.spotify.com/v1/artists/"@,
    {
        String::from_str("https://api.spotify.com/v1/artists/")
    }

    /// The audio-features endpoint.
    pub fn audio_feature_end_point() -> (r: String)
        ensures
            r@ == "https://api.spotify.com/v1/audio-features/"@,
    {
        String::from_str("https://api.spotify.com/v1/audio-features/")
    }

    /// The audio-analysis endpoint.
    pub fn audio_analysis_end_point() -> (r: String)
        ensures
            r@ == "https://api.spotify.com/v1/audio-analysis/"@,
    {
        String::from_str("https://api.spotify.com/v1/audio-analysis/")
    }

    /// The endpoint a resource kind is served from.
    pub open spec fn spec_end_point_for(r_type: SpotifyRessourceType) -> Seq<char> {
        match r_type {
            SpotifyRessourceType::Album | SpotifyRessourceType::AlbumTrack =>
                "https://api.spotify.com/v1/albums/"@,
            SpotifyRessourceType::Artist
            | SpotifyRessourceType::ArtistAlbum
            | SpotifyRessourceType::ArtistTopTrack
            | SpotifyRessourceType::RelatedArtist => "https://api.spotify.com/v1/artists/"@,
            SpotifyRessourceType::Track => "https://api.spotify.com/v1/tracks/"@,
            SpotifyRessourceType::AudioFeature => "https://api.spotify.com/v1/audio-features/"@,
            SpotifyRessourceType::AudioAnalysis => "https://api.spotify.com/v1/audio-analysis/"@,
        }
    }

    /// Builds the URL and query pairs of a resource request, without
    /// headers: the endpoint, the identifier part, the kind's path suffix,
    /// then the query pairs in attachment order.
    pub fn create_url(
        end_point: &String,
        r_type: &SpotifyRessourceType,
        spotify_ids: &Vec<String>,
        market: &Option<String>,
        limit: Option<u32>,
        offset: Option<u32>,
        included_genre: &Vec<SpotifyIncludeGroupe>,
    ) -> (r: UrlRequest)
        requires
            spotify_ids@.len() > 0,
        ensures
            r.url@ == end_point@ + spec_ids_part(views_of(spotify_ids@))
                + r_type.spec_path_suffix(),
            pairs_view(r.query@) == spec_resource_query(
                match market {
                    Some(m) => Some(m@),
                    None => None,
                },
                offset,
                limit,
                included_genre@,
            ),
            r.headers@.len() == 0,
    {
        let mut url = String::new();
        url.append(end_point.as_str());
        if spotify_ids.len() > 1 {
            let joined = join_strings(spotify_ids, ",");
            url.append("?ids=");
            url.append(joined.as_str());
        } else {
            url.append(spotify_ids[0].as_str());
        }
        url.append(r_type.path_suffix());
        proof {
            assert(url@ =~= end_point@ + spec_ids_part(views_of(spotify_ids@))
                + r_type.spec_path_suffix());
        }
        let mut query: Vec<(String, String)> = Vec::new();
        match market.as_ref() {
            Some(m) => {
                query.push((String::from_str("market"), m.clone()));
            },
            None => {},
        }
        match offset {
            Some(o) => {
                query.push((String::from_str("offset"), u32_string(o)));
            },
            None => {},
        }
        match limit {
            Some(l) => {
                query.push((String::from_str("limit"), u32_string(l)));
            },
            None => {},
        }
        if included_genre.len() > 0 {
            let mut names: Vec<String> = Vec::new();
            let mut i: usize = 0;
            while i < included_genre.len()
                invariant
                    i <= included_genre@.len(),
                    names@.len() == i,
                    forall|j: int| 0 <= j < i ==> (#[trigger] names@[j])@ == included_genre@[j].spec_name(),
                decreases included_genre@.len() - i,
            {
                names.push(String::from_str(included_genre[i].name()));
                i += 1;
            }
            let joined = join_strings(&names, ",");
            proof {
                assert(views_of(names@) =~= Seq::new(
                    included_genre@.len(),
                    |i: int| included_genre@[i].spec_name(),
                ));
            }
            query.push((String::from_str("include_groups"), joined));
        }
        proof {
            assert(pairs_view(query@) =~= spec_resource_query(
                match market {
                    Some(m) => Some(m@),
                    None => None,
                },
                offset,
                limit,
                included_genre@,
            ));
        }
        UrlRequest { url, query, headers: Vec::new() }
    }

    /// The three headers every authorized catalog request carries.
    pub open spec fn spec_request_headers(token: Seq<char>) -> Seq<(Seq<char>, Seq<char>)> {
        seq![
            ("Authorization"@, "Bearer "@ + token),
            ("Accept"@, "application/json"@),
            ("Content-Type"@, "application/json"@),
        ]
    }

    /// The headers of an authorized request from this client.
    fn request_headers(&self) -> (r: Vec<(String, String)>)
        ensures
            pairs_view(r@) == Spotify::spec_request_headers(self.spec_access_token()),
    {
        let mut bearer = String::new();
        bearer.append("Bearer ");
        bearer.append(self.token.access_token.as_str());
        let mut headers: Vec<(String, String)> = Vec::new();
        headers.push((String::from_str("Authorization"), bearer));
        headers.push((String::from_str("Accept"), String::from_str("application/json")));
        headers.push((String::from_str("Content-Type"), String::from_str("application/json")));
        proof {
            assert(pairs_view(headers@) =~= Spotify::spec_request_headers(
                self.spec_access_token(),
            ));
        }
        headers
    }

    /// Builds a complete resource request: endpoint by kind, URL, query
    /// pairs, and the authorized headers.
    pub fn setup_url_request(
        &self,
        r_type: &SpotifyRessourceType,
        spotify_ids: &Vec<String>,
        market: &Option<String>,
        limit: Option<u32>,
        offset: Option<u32>,
        included_genre: &Vec<SpotifyIncludeGroupe>,
    ) -> (r: UrlRequest)
        requires
            spotify_ids@.len() > 0,
        ensures
            r.url@ == Spotify::spec_end_point_for(*r_type) + spec_ids_part(
                views_of(spotify_ids@),
            ) + r_type.spec_path_suffix(),
            pairs_view(r.query@) == spec_resource_query(
                match market {
                    Some(m) => Some(m@),
                    None => None,
                },
                offset,
                limit,
                included_genre@,
            ),
            pairs_view(r.headers@) == Spotify::spec_request_headers(self.spec_access_token()),
    {
        let end_point = match r_type {
            SpotifyRessourceType::Album | SpotifyRessourceType::AlbumTrack =>
                Spotify::album_end_point(),
            SpotifyRessourceType::Artist
            | SpotifyRessourceType::ArtistAlbum
            | SpotifyRessourceType::ArtistTopTrack
            | SpotifyRessourceType::RelatedArtist => Spotify::artist_end_point(),
            SpotifyRessourceType::Track => Spotify::track_end_point(),
            SpotifyRessourceType::AudioFeature => Spotify::audio_feature_end_point(),
            SpotifyRessourceType::AudioAnalysis => Spotify::audio_analysis_end_point(),
        };
        let mut r = Spotify::create_url(
            &end_point,
            r_type,
            spotify_ids,
            market,
            limit,
            offset,
            included_genre,
        );
        r.headers = self.request_headers();
        r
    }

    /// The query pairs of a search request, in attachment order: the query
    /// text, the wanted item types, then market, offset, limit, and the
    /// external-audio marker when asked for.
    pub open spec fn spec_search_query(
        query: Seq<char>,
        item_type: Seq<SpotifySearchType>,
        market: Option<Seq<char>>,
        limit: Option<u8>,
        offset: Option<u32>,
        include_external: Option<bool>,
    ) -> Seq<(Seq<char>, Seq<char>)> {
        seq![
            ("q"@, query),
            ("type"@, spec_join(Seq::new(item_type.len(), |i: int| item_type[i].spec_name()), ","@)),
        ] + (match market {
            Some(m) => seq![("market"@, m)],
            None => Seq::empty(),
        }) + (match offset {
            Some(o) => seq![("offset"@, spec_dec(o as int))],
            None => Seq::empty(),
        }) + (match limit {
            Some(l) => seq![("limit"@, spec_dec(l as int))],
            None => Seq::empty(),
        }) + (if include_external == Some(true) {
            seq![("include_external"@, "audio"@)]
        } else {
            Seq::empty()
        })
    }

    /// Builds a complete search request.
    pub fn setup_search_request(
        &self,
        query: &str,
        item_type: &Vec<SpotifySearchType>,
        market: &Option<String>,
        limit: Option<u8>,
        offset: Option<u32>,
        include_external: Option<bool>,
    ) -> (r: UrlRequest)
        ensures
            r.url@ == "https://api.spotify.com/v1/search"@,
            pairs_view(r.query@) == Spotify::spec_search_query(
                query@,
                item_type@,
                match market {
                    Some(m) => Some(m@),
                    None => None,
                },
                limit,
                offset,
                include_external,
            ),
            pairs_view(r.headers@) == Spotify::spec_request_headers(self.spec_access_token()),
    {
        let url = Spotify::search_end_point();
        let mut q: Vec<(String, String)> = Vec::new();
        q.push((String::from_str("q"), String::from_str(query)));
        let mut names: Vec<String> = Vec::new();
        let mut i: usize = 0;
        while i < item_type.len()
            invariant
                i <= item_type@.len(),
                names@.len() == i,
                forall|j: int| 0 <= j < i ==> (#[trigger] names@[j])@ == item_type@[j].spec_name(),
            decreases item_type@.len() - i,
        {
            names.push(String::from_str(item_type[i].name()));
            i += 1;
        }
        let joined = join_strings(&names, ",");
        proof {
            assert(views_of(names@) =~= Seq::new(
                item_type@.len(),
                |i: int| item_type@[i].spec_name(),
            ));
        }
        q.push((String::from_str("type"), joined));
        match market.as_ref() {
            Some(m) => {
                q.push((String::from_str("market"), m.clone()));
            },
            None => {},
        }
        match offset {
            Some(o) => {
                q.push((String::from_str("offset"), u32_string(o)));
            },
            None => {},
        }
        match limit {
            Some(l) => {
                q.push((String::from_str("limit"), u32_string(l as u32)));
            },
            None => {},
        }
        let external = match include_external {
            Some(true) => true,
            _ => false,
        };
        if external {
            q.push((String::from_str("include_external"), String::from_str("audio")));
        }
        proof {
            assert(pairs_view(q@) =~= Spotify::spec_search_query(
                query@,
                item_type@,
                match market {
                    Some(m) => Some(m@),
                    None => None,
                },
                limit,
                offset,
                include_external,
            ));
        }
        UrlRequest { url, query: q, headers: self.request_headers() }
    }
}

/// A copyright notice attached to an album.
#[derive(Debug)]
pub struct Copyrights {
    pub text: String,
    pub c_type: String,
}

/// An artist as it appears inside an album or track listing.
#[derive(Debug)]
pub struct SpotifySearchAlbumArtist {
    pub external_urls: Vec<(String, String)>,
    pub href: String,
    pub id: String,
    pub name: String,
    pub r_type: String,
    pub uri: String,
}

/// One track of an album listing.
#[derive(Debug)]
pub struct TrackAlbum {
    pub artists: Vec<SpotifySearchAlbumArtist>,
    pub disc_number: u16,
    pub duration_ms: u64,
    pub explicit: bool,
    pub external_urls: Vec<(String, String)>,
    pub href: String,
    pub id: String,
    pub is_local: bool,
    pub name: String,
    pub preview_url: String,
    pub track_number: u16,
    pub uri: String,
}

/// One page of an album's track listing.
#[derive(Debug)]
pub struct SpotifyAlbumTrackResult {
    pub href: String,
    pub items: Vec<TrackAlbum>,
    pub limit: u8,
    pub next: Option<String>,
    pub offset: u32,
    pub previous: Option<String>,
    pub total: u32,
}

/// The summed duration of the tracks before position `i`.
pub open spec fn spec_duration_sum(items: Seq<TrackAlbum>, i: int) -> int
    decreases i,
{
    if i <= 0 {
        0
    } else {
        spec_duration_sum(items, i - 1) + items[i - 1].duration_ms
    }
}

impl SpotifyAlbumTrackResult {
    /// The album's total running time in milliseconds, or nothing if the
    /// sum does not fit a 64-bit count.
    pub fn total_duration_ms(&self) -> (r: Option<u64>)
        ensures
            match r {
                Some(total) => total == spec_duration_sum(self.items@, self.items@.len() as int),
                None => spec_duration_sum(self.items@, self.items@.len() as int) > u64::MAX,
            },
    {
        let mut total: u64 = 0;
        let mut i: usize = 0;
        while i < self.items.len()
            invariant
                i <= self.items@.len(),
                total == spec_duration_sum(self.items@, i as int),
            decreases self.items@.len() - i,
        {
            let d = self.items[i].duration_ms;
            if total > u64::MAX - d {
                proof {
                    lemma_duration_sum_grows(self.items@, i + 1, self.items@.len() as int);
                }
                return None;
            }
            total = total + d;
            i += 1;
        }
        Some(total)
    }
}

/// The duration sum never shrinks as more tracks are counted.
proof fn lemma_duration_sum_grows(items: Seq<TrackAlbum>, i: int, j: int)
    requires
        0 <= i <= j,
    ensures
        spec_duration_sum(items, i) <= spec_duration_sum(items, j),
    decreases j - i,
{
    if i < j {
        lemma_duration_sum_grows(items, i, j - 1);
    }
}

/// The identifier of the first artist among search candidates: identity
/// resolution takes the first search result, with no disambiguation.
pub fn first_artist_id(candidates: &Vec<Artist>) -> (r: Option<String>)
    ensures
        match r {
            Some(id) => candidates@.len() > 0 && id@ == candidates@[0].id@,
            None => candidates@.len() == 0,
        },
{
    if candidates.len() == 0 {
        None
    } else {
        Some(candidates[0].id.clone())
    }
}

/// The value stored under the first pair carrying the given key, if any.
pub fn url_for<'a>(urls: &'a Vec<(String, String)>, key: &str) -> (r: Option<&'a String>)
    ensures
        match r {
            Some(u) => exists|i: int|
                {
                    &&& 0 <= i < urls@.len()
                    &&& (#[trigger] urls@[i]).0@ == key@
                    &&& u@ == urls@[i].1@
                    &&& forall|j: int| 0 <= j < i ==> (#[trigger] urls@[j]).0@ != key@
                },
            None => forall|i: int| 0 <= i < urls@.len() ==> (#[trigger] urls@[i]).0@ != key@,
        },
{
    let mut i: usize = 0;
    while i < urls.len()
        invariant
            i <= urls@.len(),
            forall|j: int| 0 <= j < i ==> (#[trigger] urls@[j]).0@ != key@,
        decreases urls@.len() - i,
    {
        if str_eq(urls[i].0.as_str(), key) {
            proof {
                assert((#[trigger] urls@[i as int]).0@ == key@);
            }
            return Some(&urls[i].1);
        }
        i += 1;
    }
    None
}

/// Selection depends on resolved dates alone: in two entry sets whose
/// entries resolve to the same dates position for position, the selector's
/// choice falls on the same position. In particular a year-precision entry
/// is treated exactly as its resolved January 1st.
pub proof fn lemma_selection_depends_on_resolved_dates(
    s: Seq<ReleaseEntry>,
    t: Seq<ReleaseEntry>,
    i: int,
)
    requires
        s.len() == t.len(),
        forall|j: int| 0 <= j < s.len() ==> (#[trigger] s[j]).spec_date() == t[j].spec_date(),
        is_latest_choice(s, i),
    ensures
        is_latest_choice(t, i),
{
    assert forall|j: int| 0 <= j < t.len() implies (#[trigger] t[j]).spec_date().le(
        t[i].spec_date(),
    ) by {
        assert(s[j].spec_date().le(s[i].spec_date()));
    }
    assert forall|j: int| 0 <= j < i implies (#[trigger] t[j]).spec_date().lt(
        t[i].spec_date(),
    ) by {
        assert(s[j].spec_date().lt(s[i].spec_date()));
    }
}

/// The selected entry's date is at least every date in the set: for any two
/// entries whose resolved dates are strictly ordered, the selector never
/// returns the earlier-dated one.
pub proof fn lemma_selection_date_is_maximal(s: Seq<ReleaseEntry>, i: int, j: int)
    requires
        is_latest_choice(s, i),
        0 <= j < s.len(),
    ensures
        s[j].spec_date().le(s[i].spec_date()),
        s[j].spec_date() != s[i].spec_date() ==> s[j].spec_date().lt(s[i].spec_date()),
{
    crate::date::lemma_date_order_total(s[j].spec_date(), s[i].spec_date());
}

} // verus!
