//! The persisted watchlist document.
//!
//! The watchlist is stored as one plain-text document: six lines per record
//! (artist name, artist identifier, album title, release date, album
//! identifier, album link), in insertion order. Text fields are escaped so
//! that a field may hold any characters: a backslash doubles itself and a
//! newline becomes `\n`. Dates are stored at full day resolution as
//! `YYYY-MM-DD`, whatever precision the catalog originally reported.
//!
//! Serialization and parsing are exact inverses: a document written from a
//! well-formed watchlist reads back field for field, order preserved.

use crate::date::Date;
use crate::db::{unique_ids, Artist, ArtistModel, Artists};
use crate::util::{chars_of, string_of_chars};
use crate::KotoError;
use vstd::prelude::*;

verus! {

/// How one character is escaped inside a stored text field.
pub open spec fn esc_char(c: char) -> Seq<char> {
    if c == '\\' {
        seq!['\\', '\\']
    } else if c == '\n' {
        seq!['\\', 'n']
    } else {
        seq![c]
    }
}

/// A text field with every character escaped.
pub open spec fn esc(s: Seq<char>) -> Seq<char>
    decreases s.len(),
{
    if s.len() == 0 {
        Seq::empty()
    } else {
        esc_char(s[0]) + esc(s.skip(1))
    }
}

/// One stored field: its escaped text closed by a newline.
pub open spec fn field_line(s: Seq<char>) -> Seq<char> {
    esc(s) + seq!['\n']
}

/// Reads one field up to its closing newline, undoing the escaping; yields
/// the field and the remaining input, or nothing if the input is exhausted
/// or an escape is malformed.
pub open spec fn spec_parse_field(s: Seq<char>) -> Option<(Seq<char>, Seq<char>)>
    decreases s.len(),
{
    if s.len() == 0 {
        None
    } else if s[0] == '\n' {
        Some((Seq::empty(), s.skip(1)))
    } else if s[0] == '\\' {
        if s.len() >= 2 && (s[1] == '\\' || s[1] == 'n') {
            let c = if s[1] == '\\' {
                '\\'
            } else {
                '\n'
            };
            match spec_parse_field(s.skip(2)) {
                None => None,
                Some(p) => Some((seq![c] + p.0, p.1)),
            }
        } else {
            None
        }
    } else {
        match spec_parse_field(s.skip(1)) {
            None => None,
            Some(p) => Some((seq![s[0]] + p.0, p.1)),
        }
    }
}

/// Prepends already-read characters to a parse result.
pub open spec fn prepend_parse(pre: Seq<char>, o: Option<(Seq<char>, Seq<char>)>) -> Option<
    (Seq<char>, Seq<char>),
> {
    match o {
        None => None,
        Some(p) => Some((pre + p.0, p.1)),
    }
}

/// Escaping distributes over concatenation.
pub proof fn lemma_esc_append(a: Seq<char>, b: Seq<char>)
    ensures
        esc(a + b) == esc(a) + esc(b),
    decreases a.len(),
{
    if a.len() == 0 {
        assert(a + b =~= b);
        assert(esc(a) + esc(b) =~= esc(b));
    } else {
        lemma_esc_append(a.skip(1), b);
        assert((a + b).skip(1) =~= a.skip(1) + b);
        assert(esc(a + b) =~= esc(a) + esc(b)) by {
            assert((a + b)[0] == a[0]);
            assert(esc(a + b) == esc_char(a[0]) + esc(a.skip(1) + b));
        }
    }
}

/// Escaping one character is [`esc_char`].
pub proof fn lemma_esc_single(c: char)
    ensures
        esc(seq![c]) == esc_char(c),
{
    assert(seq![c].skip(1) =~= Seq::<char>::empty());
    assert(esc_char(c) + esc(Seq::<char>::empty()) =~= esc_char(c));
}

/// Reading escaped text `f` followed by anything else first yields exactly
/// the characters of `f`, then parses on.
pub proof fn lemma_parse_esc_prefix(f: Seq<char>, t: Seq<char>)
    ensures
        spec_parse_field(esc(f) + t) == prepend_parse(f, spec_parse_field(t)),
    decreases f.len(),
{
    if f.len() == 0 {
        assert(esc(f) + t =~= t);
        match spec_parse_field(t) {
            None => {},
            Some(p) => {
                assert(f + p.0 =~= p.0);
            },
        }
    } else {
        let c = f[0];
        let f2 = f.skip(1);
        lemma_parse_esc_prefix(f2, t);
        assert(esc(f) == esc_char(c) + esc(f2));
        let s = esc(f) + t;
        assert(s =~= esc_char(c) + (esc(f2) + t));
        let inner = esc(f2) + t;
        if c == '\\' {
            assert(s[0] == '\\' && s[1] == '\\');
            assert(s.len() >= 2);
            assert(s.skip(2) =~= inner);
            match spec_parse_field(inner) {
                None => {},
                Some(p) => {
                    assert(seq!['\\'] + (f2 + p.0) =~= f + p.0);
                },
            }
        } else if c == '\n' {
            assert(s[0] == '\\' && s[1] == 'n');
            assert(s.len() >= 2);
            assert(s.skip(2) =~= inner);
            match spec_parse_field(inner) {
                None => {},
                Some(p) => {
                    assert(seq!['\n'] + (f2 + p.0) =~= f + p.0);
                },
            }
        } else {
            assert(s[0] == c);
            assert(s.skip(1) =~= inner);
            match spec_parse_field(inner) {
                None => {},
                Some(p) => {
                    assert(seq![c] + (f2 + p.0) =~= f + p.0);
                },
            }
        }
    }
}

/// Reading back a stored field yields exactly the field and the rest.
pub proof fn lemma_parse_field_line(f: Seq<char>, rest: Seq<char>)
    ensures
        spec_parse_field(field_line(f) + rest) == Some((f, rest)),
{
    let t = seq!['\n'] + rest;
    lemma_parse_esc_prefix(f, t);
    assert(field_line(f) + rest =~= esc(f) + t);
    assert(t[0] == '\n');
    assert(t.skip(1) =~= rest);
    assert(spec_parse_field(t) == Some((Seq::<char>::empty(), rest)));
    assert(f + Seq::<char>::empty() =~= f);
}

/// A parse consumes at least one character.
pub proof fn lemma_parse_field_consumes(s: Seq<char>)
    requires
        spec_parse_field(s) is Some,
    ensures
        spec_parse_field(s).unwrap().1.len() < s.len(),
    decreases s.len(),
{
    if s[0] == '\n' {
    } else if s[0] == '\\' {
        lemma_parse_field_consumes(s.skip(2));
    } else {
        lemma_parse_field_consumes(s.skip(1));
    }
}

/// One stored date: `YYYY-MM-DD` closed by a newline.
pub open spec fn date_line(d: Date) -> Seq<char> {
    d.spec_format() + seq!['\n']
}

/// Reads one stored date line: exactly ten date characters and a newline.
pub open spec fn spec_parse_date_line(s: Seq<char>) -> Option<(Date, Seq<char>)> {
    if s.len() >= 11 && s[10] == '\n' {
        match crate::date::spec_parse_release_date(s.take(10)) {
            Some(rd) => Some((rd.date, s.skip(11))),
            None => None,
        }
    } else {
        None
    }
}

/// Reading back a stored date line yields exactly the date and the rest.
pub proof fn lemma_parse_date_line(d: Date, rest: Seq<char>)
    requires
        d.valid(),
    ensures
        spec_parse_date_line(date_line(d) + rest) == Some((d, rest)),
{
    let s = date_line(d) + rest;
    crate::date::lemma_format_parses(d);
    assert(d.spec_format().len() == 10);
    assert(s.len() >= 11);
    assert(s[10] == '\n');
    assert(s.take(10) =~= d.spec_format());
    assert(s.skip(11) =~= rest);
}

/// One stored record: five text fields and a date, each on its own line.
pub open spec fn record_chars(m: ArtistModel) -> Seq<char> {
    field_line(m.artist_name) + field_line(m.artist_spotify_id) + field_line(m.last_album)
        + date_line(m.last_album_release_date) + field_line(m.last_album_spotify_id) + field_line(
        m.last_album_url,
    )
}

/// Reads one record: its six lines in storage order.
pub open spec fn spec_parse_record(s: Seq<char>) -> Option<(ArtistModel, Seq<char>)> {
    match spec_parse_field(s) {
        None => None,
        Some((artist_name, s1)) => match spec_parse_field(s1) {
            None => None,
            Some((artist_spotify_id, s2)) => match spec_parse_field(s2) {
                None => None,
                Some((last_album, s3)) => match spec_parse_date_line(s3) {
                    None => None,
                    Some((last_album_release_date, s4)) => match spec_parse_field(s4) {
                        None => None,
                        Some((last_album_spotify_id, s5)) => match spec_parse_field(s5) {
                            None => None,
                            Some((last_album_url, s6)) => Some(
                                (
                                    ArtistModel {
                                        artist_name,
                                        artist_spotify_id,
                                        last_album,
                                        last_album_release_date,
                                        last_album_spotify_id,
                                        last_album_url,
                                    },
                                    s6,
                                ),
                            ),
                        },
                    },
                },
            },
        },
    }
}

/// Reading back a stored record yields exactly the record and the rest.
pub proof fn lemma_parse_record(m: ArtistModel, rest: Seq<char>)
    requires
        m.wf(),
    ensures
        spec_parse_record(record_chars(m) + rest) == Some((m, rest)),
{
    let t5 = field_line(m.last_album_url) + rest;
    let t4 = field_line(m.last_album_spotify_id) + t5;
    let t3 = date_line(m.last_album_release_date) + t4;
    let t2 = field_line(m.last_album) + t3;
    let t1 = field_line(m.artist_spotify_id) + t2;
    let t0 = field_line(m.artist_name) + t1;
    assert(record_chars(m) + rest =~= t0);
    lemma_parse_field_line(m.artist_name, t1);
    lemma_parse_field_line(m.artist_spotify_id, t2);
    lemma_parse_field_line(m.last_album, t3);
    lemma_parse_date_line(m.last_album_release_date, t4);
    lemma_parse_field_line(m.last_album_spotify_id, t5);
    lemma_parse_field_line(m.last_album_url, rest);
    assert(spec_parse_record(t0).unwrap().0 =~= m);
}

/// A record parse consumes at least one character.
pub proof fn lemma_parse_record_consumes(s: Seq<char>)
    requires
        spec_parse_record(s) is Some,
    ensures
        spec_parse_record(s).unwrap().1.len() < s.len(),
{
    lemma_parse_field_consumes(s);
    let s1 = spec_parse_field(s).unwrap().1;
    lemma_parse_field_consumes(s1);
    let s2 = spec_parse_field(s1).unwrap().1;
    lemma_parse_field_consumes(s2);
    let s3 = spec_parse_field(s2).unwrap().1;
    let s4 = spec_parse_date_line(s3).unwrap().1;
    assert(s4.len() < s3.len());
    lemma_parse_field_consumes(s4);
    let s5 = spec_parse_field(s4).unwrap().1;
    lemma_parse_field_consumes(s5);
}

/// The whole document: every record in insertion order, nothing else.
pub open spec fn doc_chars(ms: Seq<ArtistModel>) -> Seq<char>
    decreases ms.len(),
{
    if ms.len() == 0 {
        Seq::empty()
    } else {
        record_chars(ms[0]) + doc_chars(ms.skip(1))
    }
}

/// Reads a whole document: records until the input is exhausted. Trailing
/// garbage, a malformed line, or a truncated record yields nothing.
pub open spec fn spec_parse_doc(s: Seq<char>) -> Option<Seq<ArtistModel>>
    decreases s.len(),
{
    if s.len() == 0 {
        Some(Seq::empty())
    } else {
        match spec_parse_record(s) {
            None => None,
            Some((m, rest)) => if rest.len() < s.len() {
                match spec_parse_doc(rest) {
                    None => None,
                    Some(ms) => Some(seq![m] + ms),
                }
            } else {
                None
            },
        }
    }
}

/// Prepends already-read records to a document parse result.
pub open spec fn prepend_doc(pre: Seq<ArtistModel>, o: Option<Seq<ArtistModel>>) -> Option<
    Seq<ArtistModel>,
> {
    match o {
        None => None,
        Some(ms) => Some(pre + ms),
    }
}

/// The document of appended watchlists is the appended documents.
pub proof fn lemma_doc_append(a: Seq<ArtistModel>, b: Seq<ArtistModel>)
    ensures
        doc_chars(a + b) == doc_chars(a) + doc_chars(b),
    decreases a.len(),
{
    if a.len() == 0 {
        assert(a + b =~= b);
        assert(doc_chars(a) + doc_chars(b) =~= doc_chars(b));
    } else {
        lemma_doc_append(a.skip(1), b);
        assert((a + b).skip(1) =~= a.skip(1) + b);
        assert((a + b)[0] == a[0]);
        assert(doc_chars(a + b) =~= doc_chars(a) + doc_chars(b)) by {
            assert(doc_chars(a + b) == record_chars(a[0]) + doc_chars(a.skip(1) + b));
        }
    }
}

/// Appends every character of `v` to `out`.
fn push_all(out: &mut Vec<char>, v: &Vec<char>)
    ensures
        final(out)@ == old(out)@ + v@,
{
    let mut k: usize = 0;
    while k < v.len()
        invariant
            k <= v@.len(),
            out@ == old(out)@ + v@.take(k as int),
        decreases v@.len() - k,
    {
        out.push(v[k]);
        k += 1;
        proof {
            assert(v@.take(k as int) =~= v@.take(k - 1).push(v@[k - 1]));
            assert(out@ =~= old(out)@ + v@.take(k as int));
        }
    }
    proof {
        assert(v@.take(v@.len() as int) =~= v@);
    }
}

/// Writes one escaped field line.
fn write_field(out: &mut Vec<char>, field: &String)
    ensures
        final(out)@ == old(out)@ + field_line(field@),
{
    let v = chars_of(field.as_str());
    let mut j: usize = 0;
    proof {
        assert(esc(field@.take(0)) =~= Seq::<char>::empty());
        assert(out@ =~= old(out)@ + esc(field@.take(0)));
    }
    while j < v.len()
        invariant
            v@ == field@,
            j <= v@.len(),
            out@ == old(out)@ + esc(field@.take(j as int)),
        decreases v@.len() - j,
    {
        let c = v[j];
        if c == '\\' {
            out.push('\\');
            out.push('\\');
        } else if c == '\n' {
            out.push('\\');
            out.push('n');
        } else {
            out.push(c);
        }
        j += 1;
        proof {
            lemma_esc_append(field@.take(j - 1), seq![field@[j - 1]]);
            lemma_esc_single(field@[j - 1]);
            assert(field@.take(j as int) =~= field@.take(j - 1) + seq![field@[j - 1]]);
            assert(out@ =~= old(out)@ + esc(field@.take(j as int)));
        }
    }
    proof {
        assert(field@.take(field@.len() as int) =~= field@);
    }
    out.push('\n');
    proof {
        assert(out@ =~= old(out)@ + field_line(field@));
    }
}

/// Writes one date line.
fn write_date(out: &mut Vec<char>, d: &Date)
    requires
        d.valid(),
    ensures
        final(out)@ == old(out)@ + date_line(*d),
{
    let f = d.format_chars();
    push_all(out, &f);
    out.push('\n');
    proof {
        assert(out@ =~= old(out)@ + date_line(*d));
    }
}

impl Artists {
    /// Writes the whole watchlist as its stored document.
    pub fn serialize(&self) -> (r: String)
        requires
            self.wf(),
        ensures
            r@ == doc_chars(self@),
    {
        let mut out: Vec<char> = Vec::new();
        let mut i: usize = 0;
        proof {
            assert(out@ =~= doc_chars(self@.take(0)));
        }
        while i < self.len()
            invariant
                self.wf(),
                i <= self@.len(),
                out@ == doc_chars(self@.take(i as int)),
            decreases self@.len() - i,
        {
            let ghost before = out@;
            let record = self.get(i);
            proof {
                assert(record@ == self@[i as int]);
                assert(self@[i as int].wf());
            }
            write_field(&mut out, &record.artist_name);
            write_field(&mut out, &record.artist_spotify_id);
            write_field(&mut out, &record.last_album);
            write_date(&mut out, &record.last_album_release_date);
            write_field(&mut out, &record.last_album_spotify_id);
            write_field(&mut out, &record.last_album_url);
            i += 1;
            proof {
                assert(out@ =~= before + record_chars(self@[i - 1]));
                lemma_doc_append(self@.take(i - 1), seq![self@[i - 1]]);
                assert(doc_chars(seq![self@[i - 1]]) == record_chars(self@[i - 1])) by {
                    let single = seq![self@[i - 1]];
                    assert(single.skip(1) =~= Seq::<ArtistModel>::empty());
                    assert(doc_chars(single) == record_chars(single[0]) + doc_chars(
                        single.skip(1),
                    ));
                    assert(doc_chars(Seq::<ArtistModel>::empty()) == Seq::<char>::empty());
                    assert(record_chars(self@[i - 1]) + Seq::<char>::empty() =~= record_chars(
                        self@[i - 1],
                    ));
                }
                assert(self@.take(i as int) =~= self@.take(i - 1) + seq![self@[i - 1]]);
                assert(out@ =~= doc_chars(self@.take(i as int)));
            }
        }
        proof {
            assert(self@.take(self@.len() as int) =~= self@);
        }
        string_of_chars(&out)
    }
}

/// Composing prepends: reading one more character extends the prefix.
proof fn lemma_prepend_compose(pre: Seq<char>, c: char, t: Seq<char>)
    ensures
        prepend_parse(pre, prepend_parse(seq![c], spec_parse_field(t))) == prepend_parse(
            pre.push(c),
            spec_parse_field(t),
        ),
{
    match spec_parse_field(t) {
        None => {},
        Some(p) => {
            assert(pre + (seq![c] + p.0) =~= pre.push(c) + p.0);
        },
    }
}

/// Reads one field of `v` starting at `from`, mirroring
/// [`spec_parse_field`] on the remaining input.
fn parse_field_at(v: &Vec<char>, from: usize) -> (r: Option<(String, usize)>)
    requires
        from <= v@.len(),
    ensures
        match r {
            Some(p) => spec_parse_field(v@.skip(from as int)) == Some(
                (p.0@, v@.skip(p.1 as int)),
            ) && from < p.1 <= v@.len(),
            None => spec_parse_field(v@.skip(from as int)) is None,
        },
{
    let n = v.len();
    let mut acc: Vec<char> = Vec::new();
    let mut j: usize = from;
    proof {
        assert(prepend_parse(acc@, spec_parse_field(v@.skip(from as int))) == spec_parse_field(
            v@.skip(from as int),
        )) by {
            match spec_parse_field(v@.skip(from as int)) {
                None => {},
                Some(p) => {
                    assert(acc@ + p.0 =~= p.0);
                },
            }
        }
    }
    while j < n
        invariant
            n == v@.len(),
            from <= j <= n,
            spec_parse_field(v@.skip(from as int)) == prepend_parse(
                acc@,
                spec_parse_field(v@.skip(j as int)),
            ),
        decreases n - j,
    {
        let ghost s = v@.skip(j as int);
        proof {
            assert(s.len() == n - j);
            assert(s[0] == v@[j as int]);
        }
        let c = v[j];
        if c == '\n' {
            proof {
                assert(s.skip(1) =~= v@.skip(j + 1));
                assert(spec_parse_field(s) == Some((Seq::<char>::empty(), v@.skip(j + 1))));
                assert(acc@ + Seq::<char>::empty() =~= acc@);
            }
            let out = string_of_chars(&acc);
            return Some((out, j + 1));
        } else if c == '\\' {
            if j + 1 < n {
                let c2 = v[j + 1];
                proof {
                    assert(s[1] == v@[j + 1]);
                }
                if c2 == '\\' || c2 == 'n' {
                    let decoded = if c2 == '\\' {
                        '\\'
                    } else {
                        '\n'
                    };
                    proof {
                        assert(s.len() >= 2);
                        assert(s.skip(2) =~= v@.skip(j + 2));
                        assert(spec_parse_field(s) == prepend_parse(
                            seq![decoded],
                            spec_parse_field(v@.skip(j + 2)),
                        ));
                        lemma_prepend_compose(acc@, decoded, v@.skip(j + 2));
                    }
                    acc.push(decoded);
                    j += 2;
                } else {
                    proof {
                        assert(spec_parse_field(s) is None);
                    }
                    return None;
                }
            } else {
                proof {
                    assert(s.len() == 1);
                    assert(spec_parse_field(s) is None);
                }
                return None;
            }
        } else {
            proof {
                assert(s.skip(1) =~= v@.skip(j + 1));
                assert(spec_parse_field(s) == prepend_parse(
                    seq![c],
                    spec_parse_field(v@.skip(j + 1)),
                ));
                lemma_prepend_compose(acc@, c, v@.skip(j + 1));
            }
            acc.push(c);
            j += 1;
        }
    }
    proof {
        assert(v@.skip(n as int).len() == 0);
    }
    None
}

/// Reads one date line of `v` starting at `from`, mirroring
/// [`spec_parse_date_line`] on the remaining input.
fn parse_date_at(v: &Vec<char>, from: usize) -> (r: Option<(Date, usize)>)
    requires
        from <= v@.len(),
    ensures
        match r {
            Some(p) => spec_parse_date_line(v@.skip(from as int)) == Some(
                (p.0, v@.skip(p.1 as int)),
            ) && from < p.1 <= v@.len() && p.0.valid(),
            None => spec_parse_date_line(v@.skip(from as int)) is None,
        },
{
    let n = v.len();
    let ghost s = v@.skip(from as int);
    if n - from < 11 {
        proof {
            assert(s.len() < 11);
        }
        return None;
    }
    if v[from + 10] != '\n' {
        proof {
            assert(s[10] == v@[from + 10]);
        }
        return None;
    }
    let mut sub: Vec<char> = Vec::new();
    let mut k: usize = 0;
    while k < 10
        invariant
            from + 11 <= n == v@.len(),
            k <= 10,
            sub@ =~= v@.subrange(from as int, from + k),
        decreases 10 - k,
    {
        sub.push(v[from + k]);
        k += 1;
        proof {
            assert(sub@ =~= v@.subrange(from as int, from + k));
        }
    }
    proof {
        assert(s[10] == v@[from + 10]);
        assert(sub@ =~= s.take(10));
    }
    match crate::date::parse_release_date_chars(&sub) {
        Some(rd) => {
            proof {
                crate::date::lemma_parsed_release_date_valid(sub@);
                assert(s.skip(11) =~= v@.skip(from + 11));
            }
            Some((rd.resolved(), from + 11))
        },
        None => None,
    }
}

/// Reads one record of `v` starting at `from`, mirroring
/// [`spec_parse_record`] on the remaining input.
fn parse_record_at(v: &Vec<char>, from: usize) -> (r: Option<(Artist, usize)>)
    requires
        from <= v@.len(),
    ensures
        match r {
            Some(p) => spec_parse_record(v@.skip(from as int)) == Some(
                (p.0@, v@.skip(p.1 as int)),
            ) && from < p.1 <= v@.len() && p.0@.wf(),
            None => spec_parse_record(v@.skip(from as int)) is None,
        },
{
    let f0 = match parse_field_at(v, from) {
        Some(p) => p,
        None => {
            return None;
        },
    };
    let f1 = match parse_field_at(v, f0.1) {
        Some(p) => p,
        None => {
            return None;
        },
    };
    let f2 = match parse_field_at(v, f1.1) {
        Some(p) => p,
        None => {
            return None;
        },
    };
    let fd = match parse_date_at(v, f2.1) {
        Some(p) => p,
        None => {
            return None;
        },
    };
    let f3 = match parse_field_at(v, fd.1) {
        Some(p) => p,
        None => {
            return None;
        },
    };
    let f4 = match parse_field_at(v, f3.1) {
        Some(p) => p,
        None => {
            return None;
        },
    };
    let record = Artist {
        artist_name: f0.0,
        artist_spotify_id: f1.0,
        last_album: f2.0,
        last_album_release_date: fd.0,
        last_album_spotify_id: f3.0,
        last_album_url: f4.0,
    };
    proof {
        assert(spec_parse_record(v@.skip(from as int)).unwrap().0 =~= record@);
    }
    Some((record, f4.1))
}

impl Artists {
    /// Reads a stored document back into a watchlist. Fails with
    /// [`KotoError::SerializationError`], exactly when the text does not
    /// parse as a document or when two parsed records share a catalog
    /// identifier.
    pub fn deserialize(doc: &str) -> (r: Result<Artists, KotoError>)
        ensures
            match r {
                Ok(db) => spec_parse_doc(doc@) == Some(db@) && db.wf(),
                Err(e) => e == KotoError::SerializationError && (spec_parse_doc(doc@) is None
                    || !unique_ids(spec_parse_doc(doc@).unwrap())),
            },
    {
        let v = chars_of(doc);
        let mut records: Vec<Artist> = Vec::new();
        let mut i: usize = 0;
        proof {
            assert(prepend_doc(
                Seq::new(records@.len(), |k: int| records@[k]@),
                spec_parse_doc(v@.skip(0)),
            ) == spec_parse_doc(v@)) by {
                assert(v@.skip(0) =~= v@);
                match spec_parse_doc(v@) {
                    None => {},
                    Some(ms) => {
                        assert(Seq::new(records@.len(), |k: int| records@[k]@) + ms =~= ms);
                    },
                }
            }
        }
        while i < v.len()
            invariant
                v@ == doc@,
                i <= v@.len(),
                spec_parse_doc(v@) == prepend_doc(
                    Seq::new(records@.len(), |k: int| records@[k]@),
                    spec_parse_doc(v@.skip(i as int)),
                ),
                forall|k: int| 0 <= k < records@.len() ==> (#[trigger] records@[k]@).wf(),
            decreases v@.len() - i,
        {
            let ghost models = Seq::new(records@.len(), |k: int| records@[k]@);
            match parse_record_at(&v, i) {
                None => {
                    proof {
                        assert(v@.skip(i as int).len() > 0);
                        assert(spec_parse_doc(v@.skip(i as int)) is None);
                    }
                    return Err(KotoError::SerializationError);
                },
                Some(p) => {
                    proof {
                        let s = v@.skip(i as int);
                        let rest = v@.skip(p.1 as int);
                        assert(s.len() > 0);
                        assert(rest.len() < s.len());
                        assert(spec_parse_doc(s) == prepend_doc(
                            seq![p.0@],
                            spec_parse_doc(rest),
                        ));
                        assert(prepend_doc(models, prepend_doc(seq![p.0@], spec_parse_doc(rest)))
                            == prepend_doc(models.push(p.0@), spec_parse_doc(rest))) by {
                            match spec_parse_doc(rest) {
                                None => {},
                                Some(ms) => {
                                    assert(models + (seq![p.0@] + ms) =~= models.push(p.0@) + ms);
                                },
                            }
                        }
                    }
                    let at = p.1;
                    records.push(p.0);
                    i = at;
                    proof {
                        assert(Seq::new(records@.len(), |k: int| records@[k]@) =~= models.push(
                            records@[records@.len() - 1]@,
                        ));
                    }
                },
            }
        }
        proof {
            assert(v@.skip(v@.len() as int).len() == 0);
            assert(spec_parse_doc(v@.skip(i as int)) == Some(Seq::<ArtistModel>::empty()));
            assert(Seq::new(records@.len(), |k: int| records@[k]@) + Seq::<ArtistModel>::empty()
                =~= Seq::new(records@.len(), |k: int| records@[k]@));
        }
        let mut a: usize = 0;
        while a < records.len()
            invariant
                a <= records@.len(),
                spec_parse_doc(doc@) == Some(Seq::new(records@.len(), |k: int| records@[k]@)),
                forall|p: int, q: int|
                    0 <= p < q < records@.len() && p < a ==> (#[trigger] records@[p]@)
                        .artist_spotify_id != (#[trigger] records@[q]@).artist_spotify_id,
            decreases records@.len() - a,
        {
            let mut b: usize = a + 1;
            while b < records.len()
                invariant
                    a < b,
                    a < records@.len(),
                    spec_parse_doc(doc@) == Some(
                        Seq::new(records@.len(), |k: int| records@[k]@),
                    ),
                    forall|q: int|
                        a < q < b ==> (#[trigger] records@[q]@).artist_spotify_id != records@[
                            a as int
                        ]@.artist_spotify_id,
                decreases records@.len() - b,
            {
                if records[a].artist_spotify_id.eq(&records[b].artist_spotify_id) {
                    proof {
                        let ms = Seq::new(records@.len(), |k: int| records@[k]@);
                        assert(ms[a as int].artist_spotify_id == ms[b as int].artist_spotify_id);
                        assert(!unique_ids(ms));
                    }
                    return Err(KotoError::SerializationError);
                }
                b += 1;
            }
            a += 1;
        }
        let db = Artists::from_records(records);
        proof {
            assert(db.wf());
        }
        Ok(db)
    }
}

/// Round trip: the document written from a well-formed watchlist reads back
/// to exactly that watchlist, record for record, in order.
pub proof fn lemma_document_round_trip(ms: Seq<ArtistModel>)
    requires
        forall|i: int| 0 <= i < ms.len() ==> (#[trigger] ms[i]).wf(),
    ensures
        spec_parse_doc(doc_chars(ms)) == Some(ms),
    decreases ms.len(),
{
    if ms.len() == 0 {
        assert(doc_chars(ms).len() == 0);
    } else {
        let rest = doc_chars(ms.skip(1));
        lemma_parse_record(ms[0], rest);
        let s = doc_chars(ms);
        assert(s =~= record_chars(ms[0]) + rest);
        assert(spec_parse_record(s) == Some((ms[0], rest)));
        lemma_parse_record_consumes(s);
        assert(forall|i: int|
            0 <= i < ms.skip(1).len() ==> (#[trigger] ms.skip(1)[i]).wf());
        lemma_document_round_trip(ms.skip(1));
        assert(s.len() > 0);
        assert(seq![ms[0]] + ms.skip(1) =~= ms);
    }
}

} // verus!
