//! M3U playlist building.
//!
//! The playlist command walks directories outside this crate and hands the
//! matching audio-file paths in; here stand the decisions: which file
//! extensions count as audio, how paths are ordered, and what the playlist
//! text looks like.

use crate::util::{chars_of, str_eq, views_of};
use vstd::multiset::Multiset;
use vstd::prelude::*;
use vstd::seq_lib::group_to_multiset_ensures;
use vstd::seq_lib::lemma_multiset_commutative;
use vstd::string::StringExecFns;

verus! {

/// The lowercase form of one character: ASCII letters are folded, all else
/// kept.
pub open spec fn spec_lower_char(c: char) -> char {
    if 'A' <= c && c <= 'Z' {
        (((c as u32) + 32) as char)
    } else {
        c
    }
}

/// The ASCII-lowercase form of a string.
pub open spec fn spec_lower(s: Seq<char>) -> Seq<char> {
    Seq::new(s.len(), |i: int| spec_lower_char(s[i]))
}

/// Folds ASCII uppercase letters of `s` to lowercase.
pub fn ascii_lowercase(s: &str) -> (r: String)
    ensures
        r@ == spec_lower(s@),
{
    let v = chars_of(s);
    let mut out: Vec<char> = Vec::new();
    let mut i: usize = 0;
    while i < v.len()
        invariant
            v@ == s@,
            i <= v@.len(),
            out@ =~= spec_lower(s@).take(i as int),
        decreases v@.len() - i,
    {
        let c = v[i];
        if 'A' <= c && c <= 'Z' {
            let u = (c as u32) + 32;
            let lowered = (u as u8) as char;
            out.push(lowered);
        } else {
            out.push(c);
        }
        i += 1;
        proof {
            assert(out@ =~= spec_lower(s@).take(i as int));
        }
    }
    proof {
        assert(spec_lower(s@).take(s@.len() as int) =~= spec_lower(s@));
    }
    crate::util::string_of_chars(&out)
}

/// Whether some element of `xs` is exactly `e`.
pub open spec fn seq_contains_str(xs: Seq<Seq<char>>, e: Seq<char>) -> bool {
    exists|i: int| 0 <= i < xs.len() && #[trigger] xs[i] == e
}

/// The extensions matched when the command names none.
pub open spec fn spec_default_extensions() -> Seq<Seq<char>> {
    seq!["mp3"@, "aiff"@, "flac"@, "wav"@, "alac"@, "ogg"@]
}

/// The extension set a playlist run matches: the defaults plus the included
/// extensions, minus the excluded ones, all compared lowercase.
pub fn audio_extensions(include_extension: &Vec<String>, exclude_extension: &Vec<String>) -> (r: Vec<String>)
    ensures
        forall|e: Seq<char>|
            #[trigger] seq_contains_str(views_of(r@), e) <==> ((seq_contains_str(
                spec_default_extensions(),
                e,
            ) || seq_contains_str(
                Seq::new(include_extension@.len(), |i: int| spec_lower(include_extension@[i]@)),
                e,
            )) && !seq_contains_str(
                Seq::new(exclude_extension@.len(), |i: int| spec_lower(exclude_extension@[i]@)),
                e,
            )),
{
    let mut all: Vec<String> = Vec::new();
    all.push(String::from_str("mp3"));
    all.push(String::from_str("aiff"));
    all.push(String::from_str("flac"));
    all.push(String::from_str("wav"));
    all.push(String::from_str("alac"));
    all.push(String::from_str("ogg"));
    let ghost lowered_includes = Seq::new(include_extension@.len(), |i: int| spec_lower(include_extension@[i]@));
    let ghost lowered_excludes = Seq::new(exclude_extension@.len(), |i: int| spec_lower(exclude_extension@[i]@));
    proof {
        assert(views_of(all@) =~= spec_default_extensions());
    }
    let mut i: usize = 0;
    while i < include_extension.len()
        invariant
            i <= include_extension@.len(),
            lowered_includes == Seq::new(include_extension@.len(), |k: int| spec_lower(include_extension@[k]@)),
            views_of(all@) =~= spec_default_extensions() + lowered_includes.take(i as int),
        decreases include_extension@.len() - i,
    {
        let lowered = ascii_lowercase(include_extension[i].as_str());
        let ghost lv = lowered@;
        let ghost prior = views_of(all@);
        all.push(lowered);
        i += 1;
        proof {
            assert(lv == lowered_includes[i - 1]);
            assert(views_of(all@) =~= prior.push(lv));
            assert(lowered_includes.take(i as int) =~= lowered_includes.take(i - 1).push(
                lowered_includes[i - 1],
            ));
            assert(views_of(all@) =~= spec_default_extensions() + lowered_includes.take(i as int));
        }
    }
    proof {
        assert(lowered_includes.take(include_extension@.len() as int) =~= lowered_includes);
    }
    let mut lowered_exclude: Vec<String> = Vec::new();
    let mut j: usize = 0;
    while j < exclude_extension.len()
        invariant
            j <= exclude_extension@.len(),
            lowered_excludes == Seq::new(exclude_extension@.len(), |k: int| spec_lower(exclude_extension@[k]@)),
            views_of(lowered_exclude@) =~= lowered_excludes.take(j as int),
        decreases exclude_extension@.len() - j,
    {
        let lowered = ascii_lowercase(exclude_extension[j].as_str());
        let ghost lv = lowered@;
        let ghost prior = views_of(lowered_exclude@);
        lowered_exclude.push(lowered);
        j += 1;
        proof {
            assert(lv == lowered_excludes[j - 1]);
            assert(views_of(lowered_exclude@) =~= prior.push(lv));
            assert(lowered_excludes.take(j as int) =~= lowered_excludes.take(j - 1).push(
                lowered_excludes[j - 1],
            ));
            assert(views_of(lowered_exclude@) =~= lowered_excludes.take(j as int));
        }
    }
    proof {
        assert(lowered_excludes.take(exclude_extension@.len() as int) =~= lowered_excludes);
    }
    let ghost all_views = spec_default_extensions() + lowered_includes;
    let mut kept: Vec<String> = Vec::new();
    let mut k: usize = 0;
    while k < all.len()
        invariant
            k <= all@.len(),
            views_of(all@) =~= all_views,
            views_of(lowered_exclude@) =~= lowered_excludes,
            forall|e: Seq<char>|
                #[trigger] seq_contains_str(views_of(kept@), e) <==> (seq_contains_str(
                    all_views.take(k as int),
                    e,
                ) && !seq_contains_str(lowered_excludes, e)),
        decreases all@.len() - k,
    {
        let candidate = &all[k];
        let mut excluded = false;
        let mut x: usize = 0;
        while x < lowered_exclude.len()
            invariant
                x <= lowered_exclude@.len(),
                views_of(lowered_exclude@) =~= lowered_excludes,
                k < all@.len(),
                views_of(all@) =~= all_views,
                candidate@ == all_views[k as int],
                excluded ==> seq_contains_str(lowered_excludes, all_views[k as int]),
                !excluded ==> forall|y: int|
                    0 <= y < x ==> #[trigger] lowered_excludes[y] != all_views[k as int],
            decreases lowered_exclude@.len() - x,
        {
            let same = str_eq(candidate.as_str(), lowered_exclude[x].as_str());
            proof {
                assert(candidate@ == all_views[k as int]);
                assert(lowered_exclude@[x as int]@ == lowered_excludes[x as int]);
            }
            if same {
                excluded = true;
            }
            x += 1;
        }
        let ghost kept_before = views_of(kept@);
        if !excluded {
            kept.push(candidate.clone());
        }
        k += 1;
        proof {
            assert(all_views.take(k as int) =~= all_views.take(k - 1).push(all_views[k - 1]));
            if !excluded {
                assert(views_of(kept@) =~= kept_before.push(all_views[k - 1]));
                assert forall|e: Seq<char>|
                    #[trigger] seq_contains_str(views_of(kept@), e) <==> (seq_contains_str(
                        all_views.take(k as int),
                        e,
                    ) && !seq_contains_str(lowered_excludes, e)) by {
                    if seq_contains_str(views_of(kept@), e) {
                        let w = choose|w: int|
                            0 <= w < views_of(kept@).len() && #[trigger] views_of(kept@)[w] == e;
                        if w < kept_before.len() {
                            assert(seq_contains_str(kept_before, e));
                        } else {
                            assert(e == all_views[k - 1]);
                            assert(all_views.take(k as int)[k - 1] == e);
                        }
                    }
                    if seq_contains_str(all_views.take(k as int), e) && !seq_contains_str(
                        lowered_excludes,
                        e,
                    ) {
                        let w = choose|w: int|
                            0 <= w < k && #[trigger] all_views.take(k as int)[w] == e;
                        if w < k - 1 {
                            assert(seq_contains_str(all_views.take(k - 1), e)) by {
                                assert(all_views.take(k - 1)[w] == e);
                            }
                            assert(seq_contains_str(kept_before, e));
                            let u = choose|u: int|
                                0 <= u < kept_before.len() && #[trigger] kept_before[u] == e;
                            assert(views_of(kept@)[u] == e);
                        } else {
                            assert(views_of(kept@)[views_of(kept@).len() - 1] == e);
                        }
                    }
                }
            } else {
                assert forall|e: Seq<char>|
                    #[trigger] seq_contains_str(views_of(kept@), e) <==> (seq_contains_str(
                        all_views.take(k as int),
                        e,
                    ) && !seq_contains_str(lowered_excludes, e)) by {
                    if seq_contains_str(all_views.take(k as int), e) && !seq_contains_str(
                        lowered_excludes,
                        e,
                    ) {
                        let w = choose|w: int|
                            0 <= w < k && #[trigger] all_views.take(k as int)[w] == e;
                        assert(w < k - 1) by {
                            if w == k - 1 {
                                assert(e == all_views[k - 1]);
                            }
                        }
                        assert(seq_contains_str(all_views.take(k - 1), e)) by {
                            assert(all_views.take(k - 1)[w] == e);
                        }
                    } else if seq_contains_str(views_of(kept@), e) {
                        assert(seq_contains_str(all_views.take(k - 1), e) && !seq_contains_str(
                            lowered_excludes,
                            e,
                        ));
                        let w = choose|w: int|
                            0 <= w < k - 1 && #[trigger] all_views.take(k - 1)[w] == e;
                        assert(all_views.take(k as int)[w] == e);
                    }
                }
            }
        }
    }
    proof {
        assert(all_views.take(all_views.len() as int) =~= all_views);
        assert forall|e: Seq<char>|
            #[trigger] seq_contains_str(all_views, e) <==> (seq_contains_str(
                spec_default_extensions(),
                e,
            ) || seq_contains_str(lowered_includes, e)) by {
            if seq_contains_str(all_views, e) {
                let w = choose|w: int| 0 <= w < all_views.len() && #[trigger] all_views[w] == e;
                if w < spec_default_extensions().len() {
                    assert(spec_default_extensions()[w] == e);
                } else {
                    assert(lowered_includes[w - spec_default_extensions().len()] == e);
                }
            }
            if seq_contains_str(spec_default_extensions(), e) {
                let w = choose|w: int|
                    0 <= w < spec_default_extensions().len()
                        && #[trigger] spec_default_extensions()[w] == e;
                assert(all_views[w] == e);
            }
            if seq_contains_str(lowered_includes, e) {
                let w = choose|w: int|
                    0 <= w < lowered_includes.len() && #[trigger] lowered_includes[w] == e;
                assert(all_views[spec_default_extensions().len() + w] == e);
            }
        }
    }
    kept
}

/// Whether a file extension, compared lowercase, is in the matched set.
pub fn extension_matches(ext: &str, extensions: &Vec<String>) -> (r: bool)
    ensures
        r == seq_contains_str(views_of(extensions@), spec_lower(ext@)),
{
    let lowered = ascii_lowercase(ext);
    let mut i: usize = 0;
    while i < extensions.len()
        invariant
            lowered@ == spec_lower(ext@),
            i <= extensions@.len(),
            forall|j: int| 0 <= j < i ==> (#[trigger] extensions@[j])@ != lowered@,
        decreases extensions@.len() - i,
    {
        if str_eq(extensions[i].as_str(), lowered.as_str()) {
            proof {
                assert(views_of(extensions@)[i as int] == spec_lower(ext@));
            }
            return true;
        }
        i += 1;
    }
    proof {
        if seq_contains_str(views_of(extensions@), spec_lower(ext@)) {
            let w = choose|w: int|
                0 <= w < extensions@.len() && #[trigger] views_of(extensions@)[w] == spec_lower(
                    ext@,
                );
            assert(extensions@[w]@ == spec_lower(ext@));
        }
    }
    false
}

/// Lexicographic order on character sequences, by code point.
pub open spec fn spec_lex_le(a: Seq<char>, b: Seq<char>) -> bool
    decreases a.len(),
{
    if a.len() == 0 {
        true
    } else if b.len() == 0 {
        false
    } else if a[0] != b[0] {
        a[0] < b[0]
    } else {
        spec_lex_le(a.skip(1), b.skip(1))
    }
}

/// The lexicographic order is total.
pub proof fn lemma_lex_le_total(a: Seq<char>, b: Seq<char>)
    ensures
        spec_lex_le(a, b) || spec_lex_le(b, a),
    decreases a.len(),
{
    if a.len() > 0 && b.len() > 0 && a[0] == b[0] {
        lemma_lex_le_total(a.skip(1), b.skip(1));
    }
}

/// The lexicographic order is transitive.
pub proof fn lemma_lex_le_transitive(a: Seq<char>, b: Seq<char>, c: Seq<char>)
    requires
        spec_lex_le(a, b),
        spec_lex_le(b, c),
    ensures
        spec_lex_le(a, c),
    decreases a.len(),
{
    if a.len() > 0 && b.len() > 0 && c.len() > 0 && a[0] == b[0] && b[0] == c[0] {
        lemma_lex_le_transitive(a.skip(1), b.skip(1), c.skip(1));
    }
}

/// Compares two paths in lexicographic order.
pub fn lex_le(a: &String, b: &String) -> (r: bool)
    ensures
        r == spec_lex_le(a@, b@),
{
    let va = chars_of(a.as_str());
    let vb = chars_of(b.as_str());
    let mut i: usize = 0;
    proof {
        assert(a@.skip(0) =~= a@);
        assert(b@.skip(0) =~= b@);
    }
    while i < va.len() && i < vb.len()
        invariant
            va@ == a@,
            vb@ == b@,
            i <= va@.len(),
            i <= vb@.len(),
            spec_lex_le(a@, b@) == spec_lex_le(a@.skip(i as int), b@.skip(i as int)),
        decreases va@.len() - i,
    {
        let ca = va[i];
        let cb = vb[i];
        let ghost sa = a@.skip(i as int);
        let ghost sb = b@.skip(i as int);
        proof {
            assert(sa[0] == a@[i as int]);
            assert(sb[0] == b@[i as int]);
            assert(sa.skip(1) =~= a@.skip(i + 1));
            assert(sb.skip(1) =~= b@.skip(i + 1));
        }
        if ca != cb {
            return ca < cb;
        }
        i += 1;
    }
    proof {
        if i >= va@.len() {
            assert(a@.skip(i as int).len() == 0);
        } else {
            assert(b@.skip(i as int).len() == 0);
            assert(a@.skip(i as int).len() > 0);
        }
    }
    va.len() <= vb.len()
}

/// Every neighbouring pair of the playlist is ordered; with transitivity,
/// so is every pair.
pub open spec fn sorted_lex(items: Seq<Seq<char>>) -> bool {
    forall|i: int, j: int| 0 <= i < j < items.len() ==> spec_lex_le(#[trigger] items[i], #[trigger] items[j])
}

/// An M3U playlist: absolute paths of the matched audio files, in order.
#[derive(Debug)]
pub struct M3UPlaylist {
    items: Vec<String>,
}

impl View for M3UPlaylist {
    type V = Seq<Seq<char>>;

    closed spec fn view(&self) -> Seq<Seq<char>> {
        views_of(self.items@)
    }
}

/// The playlist text: the header, then each path followed by a blank line.
pub open spec fn spec_render(items: Seq<Seq<char>>) -> Seq<char>
    decreases items.len(),
{
    if items.len() == 0 {
        Seq::empty()
    } else {
        items[0] + "\n\n"@ + spec_render(items.skip(1))
    }
}

impl M3UPlaylist {
    /// An empty playlist.
    pub fn new() -> (r: M3UPlaylist)
        ensures
            r@ == Seq::<Seq<char>>::empty(),
    {
        let r = M3UPlaylist { items: Vec::new() };
        proof {
            assert(r@ =~= Seq::<Seq<char>>::empty());
        }
        r
    }

    /// How many paths the playlist holds.
    pub fn len(&self) -> (r: usize)
        ensures
            r == self@.len(),
    {
        self.items.len()
    }

    /// The path at position `i`.
    pub fn get(&self, i: usize) -> (r: &String)
        requires
            i < self@.len(),
        ensures
            r@ == self@[i as int],
    {
        &self.items[i]
    }

    /// Appends one path at the end.
    pub fn append_path(&mut self, path: String)
        ensures
            final(self)@ == old(self)@.push(path@),
    {
        self.items.push(path);
        proof {
            assert(self@ =~= old(self)@.push(path@));
        }
    }

    /// The position a new path belongs at: after every path ordered before
    /// it.
    fn insertion_point(&self, path: &String) -> (p: usize)
        ensures
            p <= self@.len(),
            forall|j: int| 0 <= j < p ==> spec_lex_le(#[trigger] self@[j], path@),
            p < self@.len() ==> !spec_lex_le(self@[p as int], path@),
    {
        let mut p: usize = 0;
        while p < self.items.len()
            invariant
                p <= self@.len(),
                forall|j: int| 0 <= j < p ==> spec_lex_le(#[trigger] self@[j], path@),
            decreases self@.len() - p,
        {
            if !lex_le(&self.items[p], path) {
                return p;
            }
            p += 1;
        }
        p
    }

    /// Inserts one path, keeping the playlist sorted.
    pub fn insert_sorted(&mut self, path: String)
        requires
            sorted_lex(old(self)@),
        ensures
            sorted_lex(final(self)@),
            final(self)@.to_multiset() == old(self)@.to_multiset().insert(path@),
    {
        broadcast use group_to_multiset_ensures;

        let p = self.insertion_point(&path);
        proof {
            if (p as int) < self@.len() {
                lemma_lex_le_total(self@[p as int], path@);
            }
        }
        self.items.insert(p, path);
        proof {
            let before = old(self)@;
            let after = self@;
            assert(after =~= before.take(p as int).push(path@) + before.skip(p as int));
            assert forall|i: int, j: int|
                0 <= i < j < after.len() implies spec_lex_le(
                #[trigger] after[i],
                #[trigger] after[j],
            ) by {
                let x = path@;
                if j < p {
                } else if i == p && j > p {
                    assert(after[j] == before[j - 1]);
                    assert(spec_lex_le(x, before[p as int]));
                    if j - 1 > p {
                        lemma_lex_le_transitive(x, before[p as int], before[j - 1]);
                    }
                } else if i < p && j == p {
                } else if i < p && j > p {
                    assert(after[j] == before[j - 1]);
                } else if i > p {
                    assert(after[i] == before[i - 1]);
                    assert(after[j] == before[j - 1]);
                }
            }
            lemma_multiset_commutative(before.take(p as int).push(path@), before.skip(p as int));
            lemma_multiset_commutative(before.take(p as int), before.skip(p as int));
            assert(before.take(p as int) + before.skip(p as int) =~= before);
            assert(after.to_multiset() =~= before.to_multiset().insert(path@));
        }
    }

    /// Appends a batch of matched paths, keeping the whole playlist sorted:
    /// afterwards the playlist holds exactly the old paths and the new
    /// ones.
    pub fn append_sub_dir(&mut self, paths: Vec<String>)
        requires
            sorted_lex(old(self)@),
        ensures
            sorted_lex(final(self)@),
            final(self)@.to_multiset() == old(self)@.to_multiset().add(
                views_of(paths@).to_multiset(),
            ),
    {
        broadcast use group_to_multiset_ensures;

        let mut remaining = paths;
        proof {
            assert(views_of(remaining@) =~= views_of(paths@));
        }
        while remaining.len() > 0
            invariant
                sorted_lex(self@),
                self@.to_multiset().add(views_of(remaining@).to_multiset()) == old(
                    self,
                )@.to_multiset().add(views_of(paths@).to_multiset()),
            decreases remaining@.len(),
        {
            let ghost rem_before = views_of(remaining@);
            let next = remaining.pop().unwrap();
            let ghost nv = next@;
            proof {
                views_of(remaining@).to_multiset_ensures();
                assert(views_of(remaining@).push(nv) =~= rem_before);
                assert(views_of(remaining@).push(nv).to_multiset()
                    =~= views_of(remaining@).to_multiset().insert(nv));
            }
            self.insert_sorted(next);
            proof {
                assert(self@.to_multiset().add(views_of(remaining@).to_multiset()) =~= old(
                    self,
                )@.to_multiset().add(views_of(paths@).to_multiset()));
            }
        }
        proof {
            assert(views_of(remaining@).to_multiset() =~= Multiset::<Seq<char>>::empty()) by {
                assert(views_of(remaining@).len() == 0);
                assert(views_of(remaining@) =~= Seq::<Seq<char>>::empty());
            }
            assert(self@.to_multiset() =~= old(self)@.to_multiset().add(
                views_of(paths@).to_multiset(),
            ));
        }
    }

    /// Renders the playlist text: the `#EXTM3U` header, then each path on
    /// its own line with a blank line after it.
    pub fn render(&self) -> (r: String)
        ensures
            r@ == "#EXTM3U\n\n"@ + spec_render(self@),
    {
        let mut out = String::new();
        out.append("#EXTM3U\n\n");
        let mut i: usize = 0;
        proof {
            assert(self@.take(0) =~= Seq::<Seq<char>>::empty());
            assert(out@ =~= "#EXTM3U\n\n"@ + spec_render(self@.take(0)));
        }
        while i < self.items.len()
            invariant
                i <= self@.len(),
                out@ == "#EXTM3U\n\n"@ + spec_render(self@.take(i as int)),
            decreases self@.len() - i,
        {
            out.append(self.items[i].as_str());
            out.append("\n\n");
            i += 1;
            proof {
                lemma_render_snoc(self@.take(i - 1), self@[i - 1]);
                assert(self@.take(i as int) =~= self@.take(i - 1).push(self@[i - 1]));
                assert(out@ =~= "#EXTM3U\n\n"@ + spec_render(self@.take(i as int)));
            }
        }
        proof {
            assert(self@.take(self@.len() as int) =~= self@);
        }
        out
    }
}

/// The playlist command's options. The directory walk itself happens
/// outside this crate; the extension set and the playlist come from here.
#[derive(Debug)]
pub struct CreateM3U {
    /// Extensions matched besides the defaults.
    pub include_extension: Vec<String>,
    /// Extensions taken out of the matched set.
    pub exclude_extension: Vec<String>,
    /// Output file; standard output when absent.
    pub output: Option<String>,
    /// The directories to walk.
    pub directories: Vec<String>,
}

impl CreateM3U {
    /// The extension set this run matches.
    pub fn extensions(&self) -> (r: Vec<String>)
        ensures
            forall|e: Seq<char>|
                #[trigger] seq_contains_str(views_of(r@), e) <==> ((seq_contains_str(
                    spec_default_extensions(),
                    e,
                ) || seq_contains_str(
                    Seq::new(
                        self.include_extension@.len(),
                        |i: int| spec_lower(self.include_extension@[i]@),
                    ),
                    e,
                )) && !seq_contains_str(
                    Seq::new(
                        self.exclude_extension@.len(),
                        |i: int| spec_lower(self.exclude_extension@[i]@),
                    ),
                    e,
                )),
    {
        audio_extensions(&self.include_extension, &self.exclude_extension)
    }
}

/// Appending one path appends its line to the rendered text.
proof fn lemma_render_snoc(items: Seq<Seq<char>>, x: Seq<char>)
    ensures
        spec_render(items.push(x)) == spec_render(items) + x + "\n\n"@,
    decreases items.len(),
{
    let pushed = items.push(x);
    if items.len() == 0 {
        assert(pushed[0] == x);
        assert(pushed.skip(1) =~= Seq::<Seq<char>>::empty());
        assert(spec_render(pushed) == x + "\n\n"@ + spec_render(Seq::<Seq<char>>::empty()));
        assert(x + "\n\n"@ + Seq::<char>::empty() =~= Seq::<char>::empty() + x + "\n\n"@);
    } else {
        lemma_render_snoc(items.skip(1), x);
        assert(pushed[0] == items[0]);
        assert(pushed.skip(1) =~= items.skip(1).push(x));
        assert(items[0] + "\n\n"@ + (spec_render(items.skip(1)) + x + "\n\n"@) =~= (items[0]
            + "\n\n"@ + spec_render(items.skip(1))) + x + "\n\n"@);
    }
}

} // verus!
