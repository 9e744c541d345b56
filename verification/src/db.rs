//! The watchlist: followed artists and their last-known release snapshots.
//!
//! An [`Artist`] record holds one followed artist and the most recent release
//! known to this tool at the last successful reconciliation. [`Artists`] owns
//! the insertion-ordered collection of records, uniquely keyed by the
//! artist's catalog identifier.

use crate::date::Date;
use crate::spotify::ReleaseEntry;
use crate::KotoError;
use vstd::prelude::*;
use vstd::string::StringExecFns;

verus! {

/// One followed artist with its last-known release snapshot.
#[derive(Debug)]
pub struct Artist {
    pub artist_name: String,
    pub artist_spotify_id: String,
    pub last_album: String,
    pub last_album_release_date: Date,
    pub last_album_spotify_id: String,
    pub last_album_url: String,
}

/// The mathematical value of an [`Artist`] record: its text fields as
/// character sequences, the date as itself.
#[verifier::ext_equal]
pub ghost struct ArtistModel {
    pub artist_name: Seq<char>,
    pub artist_spotify_id: Seq<char>,
    pub last_album: Seq<char>,
    pub last_album_release_date: Date,
    pub last_album_spotify_id: Seq<char>,
    pub last_album_url: Seq<char>,
}

impl View for Artist {
    type V = ArtistModel;

    open spec fn view(&self) -> ArtistModel {
        ArtistModel {
            artist_name: self.artist_name@,
            artist_spotify_id: self.artist_spotify_id@,
            last_album: self.last_album@,
            last_album_release_date: self.last_album_release_date,
            last_album_spotify_id: self.last_album_spotify_id@,
            last_album_url: self.last_album_url@,
        }
    }
}

impl ArtistModel {
    /// A record is well formed when its stored date is a plausible calendar
    /// date; the document format depends on that.
    pub open spec fn wf(self) -> bool {
        self.last_album_release_date.valid()
    }
}

/// Whether a record matches the given key: by catalog identifier when
/// `by_id` is set, by artist name otherwise.
pub open spec fn matches_key(m: ArtistModel, by_id: bool, key: Seq<char>) -> bool {
    if by_id {
        m.artist_spotify_id == key
    } else {
        m.artist_name == key
    }
}

/// No two records share a catalog identifier.
pub open spec fn unique_ids(s: Seq<ArtistModel>) -> bool {
    forall|i: int, j: int|
        0 <= i < j < s.len() ==> (#[trigger] s[i]).artist_spotify_id != (
        #[trigger] s[j]).artist_spotify_id
}

/// The whole watchlist is well formed: unique identifiers, well-formed
/// records.
pub open spec fn watchlist_wf(s: Seq<ArtistModel>) -> bool {
    unique_ids(s) && forall|i: int| 0 <= i < s.len() ==> (#[trigger] s[i]).wf()
}

/// The position of the first record at or after `at` matching the key.
pub open spec fn spec_first_match(s: Seq<ArtistModel>, by_id: bool, key: Seq<char>, at: int) -> Option<int>
    decreases s.len() - at when 0 <= at <= s.len()
{
    if at >= s.len() {
        None
    } else if matches_key(s[at], by_id, key) {
        Some(at)
    } else {
        spec_first_match(s, by_id, key, at + 1)
    }
}

/// Whether the sequence of positions holds position `i`.
pub open spec fn contains_index(s: Seq<usize>, i: int) -> bool {
    exists|k: int| 0 <= k < s.len() && #[trigger] s[k] == i
}

impl Artist {
    /// Whether this record matches the given key.
    pub fn matches(&self, by_id: bool, key: &String) -> (r: bool)
        ensures
            r == matches_key(self@, by_id, key@),
    {
        if by_id {
            self.artist_spotify_id.eq(key)
        } else {
            self.artist_name.eq(key)
        }
    }

    /// A field-for-field copy of this record.
    pub fn duplicate(&self) -> (r: Artist)
        ensures
            r@ == self@,
    {
        Artist {
            artist_name: self.artist_name.clone(),
            artist_spotify_id: self.artist_spotify_id.clone(),
            last_album: self.last_album.clone(),
            last_album_release_date: self.last_album_release_date,
            last_album_spotify_id: self.last_album_spotify_id.clone(),
            last_album_url: self.last_album_url.clone(),
        }
    }

    /// Seeds a record for a newly followed artist from the artist's catalog
    /// identity and its current latest release.
    pub fn from_latest(artist: &crate::spotify::Artist, latest: &ReleaseEntry) -> (r: Artist)
        requires
            latest.release_date.valid(),
        ensures
            r@ == (ArtistModel {
                artist_name: artist.name@,
                artist_spotify_id: artist.id@,
                last_album: latest.name@,
                last_album_release_date: latest.spec_date(),
                last_album_spotify_id: latest.id@,
                last_album_url: latest.spec_url_or_empty(),
            }),
            r@.wf(),
    {
        Artist {
            artist_name: artist.name.clone(),
            artist_spotify_id: artist.id.clone(),
            last_album: latest.name.clone(),
            last_album_release_date: latest.release_date.resolved(),
            last_album_spotify_id: latest.id.clone(),
            last_album_url: latest.url_or_empty(),
        }
    }

    /// The short text view: name, last album, release date.
    pub open spec fn spec_default_format(m: ArtistModel) -> Seq<char> {
        "***   Artist Name   : "@ + m.artist_name + "   \n"@ + "***   Last Album    : "@
            + m.last_album + "   \n"@ + "***   Realease Date : "@
            + m.last_album_release_date.spec_format() + "   \n"@
    }

    /// The full text view: every stored field.
    pub open spec fn spec_full_format(m: ArtistModel) -> Seq<char> {
        "***   Artist Name   : "@ + m.artist_name + "   \n"@ + "***   Artist ID     : "@
            + m.artist_spotify_id + "   \n"@ + "***   Last Album    : "@ + m.last_album + "   \n"@
            + "***   Last album ID : "@ + m.last_album_spotify_id + "   \n"@
            + "***   Realease Date : "@ + m.last_album_release_date.spec_format() + "   \n"@
            + "***   Album Url     : "@ + m.last_album_url + "   \n"@
    }

    /// Renders the short text view of this record.
    pub fn default_format(&self) -> (r: String)
        requires
            self@.wf(),
        ensures
            r@ == Artist::spec_default_format(self@),
    {
        let mut s = String::new();
        s.append("***   Artist Name   : ");
        s.append(self.artist_name.as_str());
        s.append("   \n");
        s.append("***   Last Album    : ");
        s.append(self.last_album.as_str());
        s.append("   \n");
        s.append("***   Realease Date : ");
        let date = self.last_album_release_date.format();
        s.append(date.as_str());
        s.append("   \n");
        proof {
            assert(s@ =~= Artist::spec_default_format(self@));
        }
        s
    }

    /// Renders the full text view of this record.
    pub fn full_format(&self) -> (r: String)
        requires
            self@.wf(),
        ensures
            r@ == Artist::spec_full_format(self@),
    {
        let mut s = String::new();
        s.append("***   Artist Name   : ");
        s.append(self.artist_name.as_str());
        s.append("   \n");
        s.append("***   Artist ID     : ");
        s.append(self.artist_spotify_id.as_str());
        s.append("   \n");
        s.append("***   Last Album    : ");
        s.append(self.last_album.as_str());
        s.append("   \n");
        s.append("***   Last album ID : ");
        s.append(self.last_album_spotify_id.as_str());
        s.append("   \n");
        s.append("***   Realease Date : ");
        let date = self.last_album_release_date.format();
        s.append(date.as_str());
        s.append("   \n");
        s.append("***   Album Url     : ");
        s.append(self.last_album_url.as_str());
        s.append("   \n");
        proof {
            assert(s@ =~= Artist::spec_full_format(self@));
        }
        s
    }
}

/// The insertion-ordered watchlist of followed artists.
#[derive(Debug)]
pub struct Artists {
    artists: Vec<Artist>,
}

impl View for Artists {
    type V = Seq<ArtistModel>;

    closed spec fn view(&self) -> Seq<ArtistModel> {
        Seq::new(self.artists@.len(), |i: int| self.artists@[i]@)
    }
}

impl Artists {
    /// The watchlist invariant: unique identifiers and well-formed records.
    pub open spec fn wf(&self) -> bool {
        watchlist_wf(self@)
    }

    /// An empty watchlist.
    pub fn new() -> (r: Artists)
        ensures
            r@ == Seq::<ArtistModel>::empty(),
            r.wf(),
    {
        let r = Artists { artists: Vec::new() };
        proof {
            assert(r@ =~= Seq::<ArtistModel>::empty());
        }
        r
    }

    /// Wraps already-built records as a watchlist, in the given order.
    pub(crate) fn from_records(artists: Vec<Artist>) -> (r: Artists)
        ensures
            r@ == Seq::new(artists@.len(), |i: int| artists@[i]@),
    {
        let r = Artists { artists };
        proof {
            assert(r@ =~= Seq::new(artists@.len(), |i: int| artists@[i]@));
        }
        r
    }

    /// How many artists are followed.
    pub fn len(&self) -> (r: usize)
        ensures
            r == self@.len(),
    {
        self.artists.len()
    }

    /// The record at position `i`.
    pub fn get(&self, i: usize) -> (r: &Artist)
        requires
            i < self@.len(),
        ensures
            r@ == self@[i as int],
    {
        &self.artists[i]
    }

    /// Appends a newly followed artist. Fails with
    /// [`KotoError::DuplicateArtist`], leaving the watchlist unchanged, if
    /// and only if a record with the same catalog identifier already exists.
    pub fn add(&mut self, artist: Artist) -> (r: Result<(), KotoError>)
        requires
            old(self).wf(),
            artist@.wf(),
        ensures
            final(self).wf(),
            match r {
                Ok(()) => final(self)@ == old(self)@.push(artist@) && (forall|i: int|
                    0 <= i < old(self)@.len() ==> (#[trigger] old(self)@[i]).artist_spotify_id
                        != artist@.artist_spotify_id),
                Err(e) => e == KotoError::DuplicateArtist && final(self)@ == old(self)@ && (
                exists|i: int|
                    0 <= i < old(self)@.len() && (#[trigger] old(self)@[i]).artist_spotify_id
                        == artist@.artist_spotify_id),
            },
    {
        let ghost old_view = self@;
        let mut i: usize = 0;
        while i < self.artists.len()
            invariant
                self@ == old_view,
                i <= self@.len(),
                watchlist_wf(self@),
                artist@.wf(),
                forall|j: int|
                    0 <= j < i ==> (#[trigger] self@[j]).artist_spotify_id
                        != artist@.artist_spotify_id,
            decreases self@.len() - i,
        {
            if self.artists[i].artist_spotify_id.eq(&artist.artist_spotify_id) {
                proof {
                    assert(0 <= i < old(self)@.len() && (#[trigger] old(self)@[i as int])
                        .artist_spotify_id == artist@.artist_spotify_id);
                }
                return Err(KotoError::DuplicateArtist);
            }
            i += 1;
        }
        self.artists.push(artist);
        proof {
            assert(self@ =~= old_view.push(artist@));
        }
        Ok(())
    }

    /// Removes every record matching the key; returns how many were removed.
    /// Removing nothing is not an error: the count is simply zero.
    pub fn delete(&mut self, by_id: bool, name: &String) -> (count: usize)
        requires
            old(self).wf(),
        ensures
            final(self).wf(),
            final(self)@ == old(self)@.filter(
                |m: ArtistModel| !matches_key(m, by_id, name@),
            ),
            count == old(self)@.len() - final(self)@.len(),
    {
        let ghost old_view = self@;
        let ghost pred = |m: ArtistModel| !matches_key(m, by_id, name@);
        let mut kept: Vec<Artist> = Vec::new();
        let mut i: usize = 0;
        proof {
            reveal(Seq::filter);
            assert(old_view.take(0).filter(pred) =~= Seq::<ArtistModel>::empty());
        }
        while i < self.artists.len()
            invariant
                self@ == old_view,
                i <= old_view.len(),
                Seq::new(kept@.len(), |k: int| kept@[k]@) =~= old_view.take(i as int).filter(
                    pred,
                ),
                pred == (|m: ArtistModel| !matches_key(m, by_id, name@)),
            decreases old_view.len() - i,
        {
            let ghost kept_view = Seq::new(kept@.len(), |k: int| kept@[k]@);
            let record = &self.artists[i];
            let keep = !record.matches(by_id, name);
            if keep {
                let copy = record.duplicate();
                kept.push(copy);
            }
            i += 1;
            proof {
                reveal(Seq::filter);
                let taken = old_view.take(i as int);
                assert(taken.drop_last() =~= old_view.take(i - 1));
                assert(taken.last() == old_view[i - 1]);
                if keep {
                    assert(Seq::new(kept@.len(), |k: int| kept@[k]@) =~= kept_view.push(
                        old_view[i - 1],
                    ));
                }
                assert(Seq::new(kept@.len(), |k: int| kept@[k]@) =~= taken.filter(pred));
            }
        }
        proof {
            assert(old_view.take(old_view.len() as int) =~= old_view);
        }
        let count = self.artists.len() - kept.len();
        self.artists = kept;
        proof {
            broadcast use vstd::seq_lib::group_seq_lib_default;

            assert(self@ =~= old_view.filter(pred));
            lemma_filter_keeps_wf(old_view, pred);
        }
        count
    }

    /// The first record matching the key, if any.
    pub fn find(&self, by_id: bool, name: &String) -> (r: Option<&Artist>)
        ensures
            match r {
                Some(a) => exists|i: int|
                    {
                        &&& 0 <= i < self@.len()
                        &&& a@ == self@[i]
                        &&& matches_key(#[trigger] self@[i], by_id, name@)
                        &&& forall|j: int| 0 <= j < i ==> !matches_key(#[trigger] self@[j], by_id, name@)
                    },
                None => forall|i: int| 0 <= i < self@.len() ==> !matches_key(#[trigger] self@[i], by_id, name@),
            },
    {
        let mut i: usize = 0;
        while i < self.artists.len()
            invariant
                i <= self@.len(),
                forall|j: int| 0 <= j < i ==> !matches_key(#[trigger] self@[j], by_id, name@),
            decreases self@.len() - i,
        {
            if self.artists[i].matches(by_id, name) {
                proof {
                    assert(matches_key(#[trigger] self@[i as int], by_id, name@));
                }
                return Some(&self.artists[i]);
            }
            i += 1;
        }
        None
    }
}

/// What one reconciliation step did to one artist.
#[derive(Clone, Copy, Debug, PartialEq, Eq, Structural)]
pub enum ReconcileOutcome {
    /// A strictly newer release was found and the record was overwritten.
    Updated,
    /// The catalog's latest release is not newer; the record was left alone.
    Unchanged,
    /// The catalog could not answer for this artist; the record was left
    /// alone and the batch went on.
    Failed,
}

/// Whether the catalog's latest release is strictly newer than the stored
/// snapshot.
pub open spec fn spec_should_update(m: ArtistModel, e: ReleaseEntry) -> bool {
    m.last_album_release_date.lt(e.spec_date())
}

/// The record after overwriting its snapshot with release `e`; the artist's
/// identity fields are untouched.
pub open spec fn spec_updated(m: ArtistModel, e: ReleaseEntry) -> ArtistModel {
    ArtistModel {
        last_album: e.name@,
        last_album_release_date: e.spec_date(),
        last_album_spotify_id: e.id@,
        last_album_url: e.spec_url_or_empty(),
        ..m
    }
}

/// The record after one reconciliation step: overwritten only when the
/// catalog answered with a strictly newer release.
pub open spec fn spec_after(m: ArtistModel, r: Result<ReleaseEntry, KotoError>) -> ArtistModel {
    match r {
        Ok(e) => if spec_should_update(m, e) {
            spec_updated(m, e)
        } else {
            m
        },
        Err(_) => m,
    }
}

/// The reported outcome of one reconciliation step.
pub open spec fn spec_outcome(m: ArtistModel, r: Result<ReleaseEntry, KotoError>) -> ReconcileOutcome {
    match r {
        Ok(e) => if spec_should_update(m, e) {
            ReconcileOutcome::Updated
        } else {
            ReconcileOutcome::Unchanged
        },
        Err(_) => ReconcileOutcome::Failed,
    }
}

/// Reconciliation is idempotent: once a record has been reconciled against a
/// catalog answer, reconciling it again against the same answer reports
/// `Unchanged` and moves nothing.
pub proof fn lemma_reconcile_idempotent(m: ArtistModel, r: Result<ReleaseEntry, KotoError>)
    ensures
        spec_after(spec_after(m, r), r) == spec_after(m, r),
        r is Ok ==> spec_outcome(spec_after(m, r), r) == ReconcileOutcome::Unchanged,
{
    if r is Ok {
        let e = r.unwrap();
        crate::date::lemma_date_order_total(m.last_album_release_date, e.spec_date());
    }
}

/// Reconciliation of a whole batch is idempotent: if `after` is what one
/// pass of [`Artists::update`] left behind, a second pass over the same
/// positions with the same catalog answers moves no record, and reports
/// `Unchanged` wherever the catalog answered at all.
pub proof fn lemma_batch_reconcile_idempotent(
    before: Seq<ArtistModel>,
    after: Seq<ArtistModel>,
    targets: Seq<usize>,
    results: Seq<Result<ReleaseEntry, KotoError>>,
)
    requires
        targets.len() == results.len(),
        after.len() == before.len(),
        forall|k: int| 0 <= k < targets.len() ==> #[trigger] targets[k] < before.len(),
        forall|k: int|
            0 <= k < targets.len() ==> after[#[trigger] targets[k] as int] == spec_after(
                before[targets[k] as int],
                results[k],
            ),
    ensures
        forall|k: int|
            0 <= k < targets.len() ==> spec_after(
                after[#[trigger] targets[k] as int],
                results[k],
            ) == after[targets[k] as int],
        forall|k: int|
            0 <= k < targets.len() && (#[trigger] results[k]) is Ok ==> spec_outcome(
                after[targets[k] as int],
                results[k],
            ) == ReconcileOutcome::Unchanged,
{
    assert forall|k: int| 0 <= k < targets.len() implies spec_after(
        after[#[trigger] targets[k] as int],
        results[k],
    ) == after[targets[k] as int] by {
        lemma_reconcile_idempotent(before[targets[k] as int], results[k]);
    }
    assert forall|k: int|
        0 <= k < targets.len() && (#[trigger] results[k]) is Ok implies spec_outcome(
        after[targets[k] as int],
        results[k],
    ) == ReconcileOutcome::Unchanged by {
        lemma_reconcile_idempotent(before[targets[k] as int], results[k]);
    }
}

impl Artist {
    /// Overwrites the snapshot fields if and only if `latest` is strictly
    /// newer than the stored release date; reports whether it did.
    pub fn update_with(&mut self, latest: &ReleaseEntry) -> (updated: bool)
        requires
            latest.release_date.valid(),
        ensures
            updated == spec_should_update(old(self)@, *latest),
            final(self)@ == spec_after(old(self)@, Ok(*latest)),
            final(self)@.artist_spotify_id == old(self)@.artist_spotify_id,
            final(self)@.artist_name == old(self)@.artist_name,
            old(self)@.wf() ==> final(self)@.wf(),
    {
        let latest_date = latest.release_date.resolved();
        let should_update = self.last_album_release_date.is_before(&latest_date);
        if should_update {
            self.last_album = latest.name.clone();
            self.last_album_spotify_id = latest.id.clone();
            self.last_album_release_date = latest_date;
            self.last_album_url = latest.url_or_empty();
        }
        should_update
    }
}

impl Artists {
    /// The positions the reconciliation pass will visit: every record in
    /// insertion order, or, when a key is given, just the first record
    /// matching it (none if nothing matches).
    pub fn selected_indices(&self, by_id: bool, filter: &Option<String>) -> (r: Vec<usize>)
        ensures
            match filter {
                None => r@.len() == self@.len() && forall|k: int| 0 <= k < r@.len() ==> #[trigger] r@[k] == k,
                Some(key) => match spec_first_match(self@, by_id, key@, 0) {
                    Some(i) => r@ =~= seq![i as usize],
                    None => r@.len() == 0,
                },
            },
            forall|k: int| 0 <= k < r@.len() ==> #[trigger] r@[k] < self@.len(),
            forall|k1: int, k2: int| 0 <= k1 < k2 < r@.len() ==> #[trigger] r@[k1] < #[trigger] r@[k2],
    {
        let filter_ref = filter.as_ref();
        match filter_ref {
            None => {
                let mut r: Vec<usize> = Vec::new();
                let mut i: usize = 0;
                while i < self.artists.len()
                    invariant
                        i <= self@.len(),
                        r@.len() == i,
                        forall|k: int| 0 <= k < i ==> #[trigger] r@[k] == k,
                    decreases self@.len() - i,
                {
                    r.push(i);
                    i += 1;
                }
                r
            },
            Some(key) => {
                let mut r: Vec<usize> = Vec::new();
                let mut i: usize = 0;
                while i < self.artists.len()
                    invariant
                        filter is Some && filter.unwrap() == *key,
                        i <= self@.len(),
                        r@.len() == 0,
                        spec_first_match(self@, by_id, key@, 0) == spec_first_match(
                            self@,
                            by_id,
                            key@,
                            i as int,
                        ),
                    decreases self@.len() - i,
                {
                    if self.artists[i].matches(by_id, key) {
                        r.push(i);
                        proof {
                            assert(spec_first_match(self@, by_id, key@, i as int) == Some(
                                i as int,
                            ));
                            assert(r@ =~= seq![i]);
                        }
                        return r;
                    }
                    i += 1;
                }
                r
            },
        }
    }

    /// One reconciliation step: applies the catalog's answer for the record
    /// at position `i`. A failure leaves the record untouched; a success
    /// overwrites it exactly when the answer is strictly newer.
    pub fn apply_result(&mut self, i: usize, result: &Result<ReleaseEntry, KotoError>) -> (o: ReconcileOutcome)
        requires
            old(self).wf(),
            i < old(self)@.len(),
            result is Ok ==> result.unwrap().release_date.valid(),
        ensures
            final(self).wf(),
            final(self)@ =~= old(self)@.update(i as int, spec_after(old(self)@[i as int], *result)),
            o == spec_outcome(old(self)@[i as int], *result),
    {
        let o = match result {
            Err(_) => ReconcileOutcome::Failed,
            Ok(latest) => {
                let record = &mut self.artists[i];
                let updated = record.update_with(latest);
                if updated {
                    ReconcileOutcome::Updated
                } else {
                    ReconcileOutcome::Unchanged
                }
            },
        };
        proof {
            assert(final(self)@ =~= old(self)@.update(
                i as int,
                spec_after(old(self)@[i as int], *result),
            ));
            assert forall|a: int, b: int| 0 <= a < b < final(self)@.len() implies (
            #[trigger] final(self)@[a]).artist_spotify_id != (#[trigger] final(self)@[b]).artist_spotify_id by {
                assert(final(self)@[a].artist_spotify_id == old(self)@[a].artist_spotify_id);
                assert(final(self)@[b].artist_spotify_id == old(self)@[b].artist_spotify_id);
            }
            assert forall|a: int| 0 <= a < final(self)@.len() implies (#[trigger] final(self)@[a]).wf() by {
                assert(old(self)@[a].wf());
            }
        }
        o
    }

    /// The reconciliation pass over pre-fetched catalog answers, one per
    /// selected position, in order. Each visited record is overwritten
    /// exactly when its answer is strictly newer; a failed answer leaves its
    /// record untouched and never aborts the batch; unvisited records are
    /// never moved. The outcomes come back aligned with `targets`.
    pub fn update(&mut self, targets: &Vec<usize>, results: &Vec<Result<ReleaseEntry, KotoError>>) -> (report: Vec<ReconcileOutcome>)
        requires
            old(self).wf(),
            targets@.len() == results@.len(),
            forall|k: int| 0 <= k < targets@.len() ==> #[trigger] targets@[k] < old(self)@.len(),
            forall|k1: int, k2: int|
                0 <= k1 < k2 < targets@.len() ==> #[trigger] targets@[k1] < #[trigger] targets@[k2],
            forall|k: int|
                0 <= k < results@.len() && (#[trigger] results@[k]) is Ok ==> results@[k].unwrap().release_date.valid(),
        ensures
            final(self).wf(),
            final(self)@.len() == old(self)@.len(),
            report@.len() == targets@.len(),
            forall|k: int|
                0 <= k < targets@.len() ==> final(self)@[#[trigger] targets@[k] as int]
                    == spec_after(old(self)@[targets@[k] as int], results@[k]),
            forall|k: int|
                0 <= k < targets@.len() ==> #[trigger] report@[k] == spec_outcome(
                    old(self)@[targets@[k] as int],
                    results@[k],
                ),
            forall|i: int|
                0 <= i < old(self)@.len() && !contains_index(targets@, i) ==> final(self)@[i]
                    == old(self)@[i],
    {
        let ghost old_view = self@;
        let mut report: Vec<ReconcileOutcome> = Vec::new();
        let mut k: usize = 0;
        while k < targets.len()
            invariant
                self.wf(),
                self@.len() == old_view.len(),
                targets@.len() == results@.len(),
                k <= targets@.len(),
                report@.len() == k,
                forall|k2: int| 0 <= k2 < targets@.len() ==> #[trigger] targets@[k2] < old_view.len(),
                forall|k1: int, k2: int|
                    0 <= k1 < k2 < targets@.len() ==> #[trigger] targets@[k1] < #[trigger] targets@[k2],
                forall|k2: int|
                    0 <= k2 < results@.len() && (#[trigger] results@[k2]) is Ok
                        ==> results@[k2].unwrap().release_date.valid(),
                forall|k2: int|
                    0 <= k2 < k ==> self@[#[trigger] targets@[k2] as int] == spec_after(
                        old_view[targets@[k2] as int],
                        results@[k2],
                    ),
                forall|k2: int|
                    0 <= k2 < k ==> #[trigger] report@[k2] == spec_outcome(
                        old_view[targets@[k2] as int],
                        results@[k2],
                    ),
                forall|i: int|
                    0 <= i < old_view.len() && !contains_index(targets@.take(k as int), i)
                        ==> self@[i] == old_view[i],
            decreases targets@.len() - k,
        {
            let t = targets[k];
            proof {
                assert(!contains_index(targets@.take(k as int), t as int)) by {
                    if contains_index(targets@.take(k as int), t as int) {
                        let w = choose|w: int|
                            0 <= w < k && #[trigger] targets@.take(k as int)[w] == t as int;
                        assert(targets@[w] == t);
                        assert(targets@[w] < targets@[k as int]);
                    }
                }
                assert(self@[t as int] == old_view[t as int]);
            }
            let o = self.apply_result(t, &results[k]);
            report.push(o);
            k += 1;
            proof {
                assert forall|i: int|
                    0 <= i < old_view.len() && !contains_index(targets@.take(k as int), i)
                        implies self@[i] == old_view[i] by {
                    assert(targets@.take(k as int) =~= targets@.take(k - 1).push(targets@[k - 1]));
                    if i != t {
                        assert(!contains_index(targets@.take(k - 1), i)) by {
                            if contains_index(targets@.take(k - 1), i) {
                                let w = choose|w: int|
                                    0 <= w < k - 1 && #[trigger] targets@.take(k - 1)[w] == i;
                                assert(targets@.take(k as int)[w] == i);
                            }
                        }
                    } else {
                        assert(targets@.take(k as int)[k - 1] == t);
                    }
                }
                assert forall|k2: int|
                    0 <= k2 < k implies self@[#[trigger] targets@[k2] as int] == spec_after(
                        old_view[targets@[k2] as int],
                        results@[k2],
                    ) by {
                    if k2 < k - 1 {
                        assert(targets@[k2] < targets@[k - 1]);
                    }
                }
            }
        }
        proof {
            assert(targets@.take(targets@.len() as int) =~= targets@);
        }
        report
    }
}

/// Removing records never breaks the watchlist invariant.
proof fn lemma_filter_keeps_wf(s: Seq<ArtistModel>, pred: spec_fn(ArtistModel) -> bool)
    requires
        watchlist_wf(s),
    ensures
        watchlist_wf(s.filter(pred)),
    decreases s.len(),
{
    reveal(Seq::filter);
    if s.len() > 0 {
        lemma_filter_keeps_wf(s.drop_last(), pred);
        let rest = s.drop_last().filter(pred);
        if pred(s.last()) {
            broadcast use vstd::seq_lib::group_seq_lib_default;

            assert forall|i: int, j: int|
                0 <= i < j < s.filter(pred).len() implies (#[trigger] s.filter(pred)[i]).artist_spotify_id != (
                #[trigger] s.filter(pred)[j]).artist_spotify_id by {
                if j == s.filter(pred).len() - 1 {
                    assert(s.filter(pred)[j] == s.last());
                    assert(rest.contains(rest[i]));
                    lemma_filter_element_of(s.drop_last(), pred, i);
                }
            }
        }
    }
}

/// Every element of a filtered sequence is an element of the original.
proof fn lemma_filter_element_of(s: Seq<ArtistModel>, pred: spec_fn(ArtistModel) -> bool, i: int)
    requires
        0 <= i < s.filter(pred).len(),
    ensures
        exists|k: int| 0 <= k < s.len() && s.filter(pred)[i] == #[trigger] s[k],
    decreases s.len(),
{
    reveal(Seq::filter);
    if s.len() > 0 {
        let rest = s.drop_last().filter(pred);
        if i < rest.len() {
            lemma_filter_element_of(s.drop_last(), pred, i);
            let k = choose|k: int| 0 <= k < s.drop_last().len() && rest[i] == #[trigger] s.drop_last()[k];
            assert(s.filter(pred)[i] == s[k]);
        } else {
            assert(s.filter(pred)[i] == s.last());
            assert(s.filter(pred)[i] == s[s.len() - 1]);
        }
    }
}

} // verus!
