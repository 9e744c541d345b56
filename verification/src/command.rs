//! The command surface as plain data.
//!
//! Argument parsing happens outside this crate; what arrives here is the
//! parsed option set of each command, and what leaves is the decision: which
//! operation to run, which tags to set, which catalog types to search. Every
//! decision is a function from the options to a value.

use crate::cue::cue_file_format;
use crate::spotify::SpotifySearchType;
use vstd::prelude::*;
use vstd::string::StringExecFns;

verus! {

/// The kinds of audio file the tag editor handles.
#[derive(Clone, Copy, Debug, PartialEq, Eq, Structural)]
pub enum FileType {
    Mp3,
    Flac,
}

/// One tag assignment of an edit run.
#[derive(Debug)]
pub enum TagEdit {
    Title(String),
    TrackArtist(String),
    Album(String),
    AlbumArtist(String),
    Year(i16),
    Bpm(u16),
    TrackPosition(u16),
    Picture(String),
}

/// Everything an edit run will do to one audio file: which file, where the
/// result goes, and the tag assignments in application order.
#[derive(Debug)]
pub struct EditPlan {
    pub file_type: FileType,
    pub file: String,
    pub output: Option<String>,
    pub edits: Vec<TagEdit>,
}

/// The tag-editing command's options.
#[derive(Debug)]
pub struct Edit {
    pub file_type: FileType,
    pub title: Option<String>,
    pub artist: Option<String>,
    pub album: Option<String>,
    pub artist_album: Option<String>,
    pub year: Option<i16>,
    pub bpm: Option<u16>,
    pub track_position: Option<u16>,
    pub images: Option<Vec<String>>,
    pub output: Option<String>,
    pub file: String,
}

impl Edit {
    /// The tag assignments this option set asks for, in application order:
    /// title, artist, album, album artist, year, bpm, track position, then
    /// one picture per image path.
    pub open spec fn spec_edits(self) -> Seq<TagEdit> {
        (match self.title {
            Some(t) => seq![TagEdit::Title(t)],
            None => Seq::empty(),
        }) + (match self.artist {
            Some(a) => seq![TagEdit::TrackArtist(a)],
            None => Seq::empty(),
        }) + (match self.album {
            Some(a) => seq![TagEdit::Album(a)],
            None => Seq::empty(),
        }) + (match self.artist_album {
            Some(a) => seq![TagEdit::AlbumArtist(a)],
            None => Seq::empty(),
        }) + (match self.year {
            Some(y) => seq![TagEdit::Year(y)],
            None => Seq::empty(),
        }) + (match self.bpm {
            Some(b) => seq![TagEdit::Bpm(b)],
            None => Seq::empty(),
        }) + (match self.track_position {
            Some(t) => seq![TagEdit::TrackPosition(t)],
            None => Seq::empty(),
        }) + (match self.images {
            Some(imgs) => Seq::new(imgs@.len(), |i: int| TagEdit::Picture(imgs@[i])),
            None => Seq::empty(),
        })
    }

    /// Turns the options into the edit plan: the applying of tags to the
    /// file happens outside this crate, against exactly this plan.
    #[verifier::rlimit(100)]
    pub fn run(self) -> (r: EditPlan)
        ensures
            r.file_type == self.file_type,
            r.file == self.file,
            r.output == self.output,
            r.edits@ == self.spec_edits(),
    {
        let ghost s0 = self;
        let Edit {
            file_type,
            title,
            artist,
            album,
            artist_album,
            year,
            bpm,
            track_position,
            images,
            output,
            file,
        } = self;
        let mut edits: Vec<TagEdit> = Vec::new();
        match title {
            Some(t) => edits.push(TagEdit::Title(t)),
            None => {},
        }
        match artist {
            Some(a) => edits.push(TagEdit::TrackArtist(a)),
            None => {},
        }
        match album {
            Some(a) => edits.push(TagEdit::Album(a)),
            None => {},
        }
        match artist_album {
            Some(a) => edits.push(TagEdit::AlbumArtist(a)),
            None => {},
        }
        match year {
            Some(y) => edits.push(TagEdit::Year(y)),
            None => {},
        }
        match bpm {
            Some(b) => edits.push(TagEdit::Bpm(b)),
            None => {},
        }
        match track_position {
            Some(t) => edits.push(TagEdit::TrackPosition(t)),
            None => {},
        }
        match images {
            Some(imgs) => {
                let mut pictures = picture_edits(imgs);
                edits.append(&mut pictures);
            },
            None => {},
        }
        proof {
            assert(edits@ =~= s0.spec_edits());
        }
        EditPlan { file_type, file, output, edits }
    }
}

/// One picture edit per image path, in order.
fn picture_edits(imgs: Vec<String>) -> (r: Vec<TagEdit>)
    ensures
        r@ == Seq::new(imgs@.len(), |i: int| TagEdit::Picture(imgs@[i])),
{
    let mut r: Vec<TagEdit> = Vec::new();
    let mut i: usize = 0;
    while i < imgs.len()
        invariant
            i <= imgs@.len(),
            r@ =~= Seq::new(i as nat, |k: int| TagEdit::Picture(imgs@[k])),
        decreases imgs@.len() - i,
    {
        r.push(TagEdit::Picture(imgs[i].clone()));
        i += 1;
        proof {
            assert(imgs@[i - 1]@ == (TagEdit::Picture(imgs@[i - 1]))->Picture_0@);
            assert(r@ =~= Seq::new(i as nat, |k: int| TagEdit::Picture(imgs@[k])));
        }
    }
    proof {
        assert(r@ =~= Seq::new(imgs@.len(), |i: int| TagEdit::Picture(imgs@[i])));
    }
    r
}

/// What the watchlist command decides to do.
#[derive(Debug)]
pub enum ListAction {
    /// Print the watchlist, short or full view.
    Show { full: bool },
    /// Follow one more artist, by name or by catalog identifier.
    Add { name: String, by_id: bool },
    /// Stop following every artist matching the key.
    Delete { name: String, by_id: bool },
    /// Reconcile the stored snapshots, all or one artist.
    Update { artist: Option<String>, by_id: bool },
}

/// The watchlist command's options.
#[derive(Debug)]
pub struct List {
    /// Stop following this artist.
    pub delete: Option<String>,
    /// Follow this artist.
    pub add: Option<String>,
    /// Refresh the stored snapshots, of everyone or of one artist.
    pub update: Option<Option<String>>,
    /// Print every stored field, not just the short view.
    pub full: bool,
    /// Read the given value as a catalog identifier, not a name.
    pub id: bool,
}

impl List {
    /// The action an option set asks for. Delete wins over add over update
    /// over show; the argument parser never hands in both a delete and an
    /// add.
    pub open spec fn spec_action(self) -> ListAction {
        match self.delete {
            Some(name) => ListAction::Delete { name, by_id: self.id },
            None => match self.add {
                Some(name) => ListAction::Add { name, by_id: self.id },
                None => match self.update {
                    Some(artist) => ListAction::Update { artist, by_id: self.id },
                    None => ListAction::Show { full: self.full },
                },
            },
        }
    }

    /// Decides what this invocation does.
    pub fn action(self) -> (r: ListAction)
        requires
            !(self.add is Some && self.delete is Some),
        ensures
            r == self.spec_action(),
    {
        let List { delete, add, update, full, id } = self;
        match delete {
            Some(name) => ListAction::Delete { name, by_id: id },
            None => match add {
                Some(name) => ListAction::Add { name, by_id: id },
                None => match update {
                    Some(artist) => ListAction::Update { artist, by_id: id },
                    None => ListAction::Show { full },
                },
            },
        }
    }
}

/// The search command's options.
#[derive(Debug)]
pub struct Search {
    pub search_subcommand: Option<SearchSubCommand>,
    /// Search for artists.
    pub artist: bool,
    /// Search for albums.
    pub album: bool,
    /// Search for tracks.
    pub track: bool,
    /// Market to look in.
    pub market: Option<String>,
    /// Result count cap, at most fifty.
    pub limit: Option<u8>,
    /// Render images alongside the results.
    pub graphic: bool,
    /// Result offset.
    pub offset: Option<u32>,
    /// What to search for.
    pub item: Option<String>,
}

impl Search {
    /// The catalog search types this option set asks for, in the order the
    /// search attaches them: artist, track, album.
    pub open spec fn spec_search_types(self) -> Seq<SpotifySearchType> {
        (if self.artist {
            seq![SpotifySearchType::Artist]
        } else {
            Seq::empty()
        }) + (if self.track {
            seq![SpotifySearchType::Track]
        } else {
            Seq::empty()
        }) + (if self.album {
            seq![SpotifySearchType::Album]
        } else {
            Seq::empty()
        })
    }

    /// The search types asked for.
    pub fn search_types(&self) -> (r: Vec<SpotifySearchType>)
        ensures
            r@ == self.spec_search_types(),
    {
        let mut r: Vec<SpotifySearchType> = Vec::new();
        if self.artist {
            r.push(SpotifySearchType::Artist);
        }
        if self.track {
            r.push(SpotifySearchType::Track);
        }
        if self.album {
            r.push(SpotifySearchType::Album);
        }
        proof {
            assert(r@ =~= self.spec_search_types());
        }
        r
    }

    /// The result cap, held to the catalog's maximum of fifty.
    pub fn clamped_limit(&self) -> (r: Option<u8>)
        ensures
            r == match self.limit {
                Some(l) => Some(
                    if l > 50 {
                        50u8
                    } else {
                        l
                    },
                ),
                None => None::<u8>,
            },
    {
        match self.limit {
            Some(l) => Some(
                if l > 50 {
                    50
                } else {
                    l
                },
            ),
            None => None,
        }
    }
}

/// The search command's artist-centred subcommands.
#[derive(Debug)]
pub enum SearchSubCommand {
    /// Search content related to an artist.
    Artist {
        /// Search the artist's albums.
        albums: bool,
        /// Search related artists.
        related_artists: bool,
        /// Read the search item as a catalog identifier.
        id: bool,
        /// Render images alongside the results.
        graphic: bool,
        /// Result count cap.
        limit: u32,
        /// Output columns.
        column: usize,
        /// The artist to search for.
        artist: String,
    },
    /// Search content related to an album.
    Album {},
    /// Search content related to a track.
    Track {},
}

/// The credential-bootstrap command's options.
#[derive(Debug)]
pub struct Init {
    /// The catalog client identifier.
    pub client_id: String,
    /// The catalog client secret.
    pub client_secret: String,
    /// Overwrite credentials that are already set.
    pub force: bool,
}

impl Init {
    /// Whether the credentials file may be written: always when forced,
    /// otherwise only when no credentials are set yet.
    pub fn should_write(&self, already_set: bool) -> (r: bool)
        ensures
            r == (self.force || !already_set),
    {
        self.force || !already_set
    }

    /// The credentials file content: one line per credential.
    pub fn env_file_content(&self) -> (r: String)
        ensures
            r@ == "CLIENT_ID="@ + self.client_id@ + "\n"@ + "CLIENT_SECRET="@
                + self.client_secret@ + "\n"@,
    {
        let mut s = String::new();
        s.append("CLIENT_ID=");
        s.append(self.client_id.as_str());
        s.append("\n");
        s.append("CLIENT_SECRET=");
        s.append(self.client_secret.as_str());
        s.append("\n");
        proof {
            assert(s@ =~= "CLIENT_ID="@ + self.client_id@ + "\n"@ + "CLIENT_SECRET="@
                + self.client_secret@ + "\n"@);
        }
        s
    }
}

/// The cue-sheet fetch command's options.
#[derive(Debug)]
pub struct CueSheetFetch {
    /// Artist name, when the album is searched by name.
    pub artist: Option<String>,
    /// Album name, when the album is searched by name.
    pub album: Option<String>,
    /// Album catalog identifier, when given directly.
    pub album_id: Option<String>,
    /// Output file; standard output when absent.
    pub output: Option<String>,
    /// The file name written into the sheet.
    pub cue_file_name: String,
    /// The declared file format.
    pub format: cue_file_format,
    /// Print the album's total running time.
    pub total_duration: bool,
    /// Where to write the fetched album illustration.
    pub image: Option<String>,
}

impl CueSheetFetch {
    /// The search text used to find the album when no identifier was
    /// given: the album name, a space, the artist name.
    pub fn album_query(&self) -> (r: Option<String>)
        ensures
            match r {
                Some(q) => self.artist is Some && self.album is Some && q@
                    == self.album.unwrap()@ + " "@ + self.artist.unwrap()@,
                None => self.artist is None || self.album is None,
            },
    {
        match (self.artist.as_ref(), self.album.as_ref()) {
            (Some(artist), Some(album)) => {
                let mut q = String::new();
                q.append(album.as_str());
                q.append(" ");
                q.append(artist.as_str());
                proof {
                    assert(q@ =~= self.album.unwrap()@ + " "@ + self.artist.unwrap()@);
                }
                Some(q)
            },
            _ => None,
        }
    }
}

/// How the cue-sheet wizard reads typed timestamps.
#[derive(Clone, Copy, Debug, PartialEq, Eq, Structural)]
pub enum CueSheetTimestampMode {
    /// Each timestamp adds onto the previous one.
    Sum,
    /// Each timestamp is absolute.
    Fixed,
}

/// The cue-sheet wizard's options.
#[derive(Debug)]
pub struct CueSheetMake {
    /// Output file; standard output when absent.
    pub output: Option<String>,
    /// The sheet's catalog number.
    pub catalog: Option<String>,
    /// Album title.
    pub title: String,
    /// Album performer.
    pub performer: String,
    /// The file name written into the sheet.
    pub cue_file_name: String,
    /// The declared file format.
    pub format: cue_file_format,
    /// The tracks' names.
    pub tracks_name: Vec<String>,
}

/// The cue-sheet command's subcommands.
#[derive(Debug)]
pub enum CueSheetSubcommand {
    /// Build the sheet from catalog data.
    Fetch(CueSheetFetch),
    /// Build the sheet from typed answers.
    Make(CueSheetMake),
}

/// Every command of the tool, as parsed data.
#[derive(Debug)]
pub enum Subcommands {
    List(List),
    Search(Search),
    Init(Init),
    Edit(Edit),
    CueSheet(CueSheetSubcommand),
    CreateM3U(crate::m3u::CreateM3U),
}

/// The whole invocation: one command, or nothing.
#[derive(Debug)]
pub struct Main {
    pub subcommand: Option<Subcommands>,
}

/// The same command set under the tool's own name.
#[derive(Debug)]
pub enum KotoSubcommands {
    CreateM3U(crate::m3u::CreateM3U),
    CueSheet(CueSheetSubcommand),
    Edit(Edit),
    Init(Init),
    Search(Search),
    List(List),
}

/// The whole invocation under the tool's own name.
#[derive(Debug)]
pub struct Koto {
    pub subcommand: KotoSubcommands,
}

} // verus!
