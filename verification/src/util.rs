//! Small string helpers shared by the formatting and document code.

use vstd::prelude::*;
use vstd::string::StrSliceExecFns;

verus! {

/// Appends one character to a string.
///
/// Relies on `String::push`: the standard library appends the given `char`
/// to the end of the string.
#[verifier::external_body]
pub(crate) fn push_char(s: &mut String, c: char)
    ensures
        final(s)@ == old(s)@.push(c),
{
    s.push(c);
}

/// The characters of `s`, in order, as a vector.
pub fn chars_of(s: &str) -> (r: Vec<char>)
    ensures
        r@ == s@,
{
    let n = s.unicode_len();
    let mut r: Vec<char> = Vec::new();
    let mut i: usize = 0;
    while i < n
        invariant
            n == s@.len(),
            i <= n,
            r@ == s@.take(i as int),
        decreases n - i,
    {
        r.push(s.get_char(i));
        i += 1;
        proof {
            assert(s@.take(i as int) =~= s@.take(i - 1).push(s@[i - 1]));
        }
    }
    proof {
        assert(s@.take(n as int) =~= s@);
    }
    r
}

/// Whether two strings hold the same characters.
pub fn str_eq(a: &str, b: &str) -> (r: bool)
    ensures
        r == (a@ == b@),
{
    let va = chars_of(a);
    let vb = chars_of(b);
    if va.len() != vb.len() {
        return false;
    }
    let mut i: usize = 0;
    while i < va.len()
        invariant
            va@ == a@,
            vb@ == b@,
            va@.len() == vb@.len(),
            i <= va@.len(),
            forall|j: int| 0 <= j < i ==> va@[j] == vb@[j],
        decreases va@.len() - i,
    {
        if va[i] != vb[i] {
            return false;
        }
        i += 1;
    }
    proof {
        assert(a@ =~= b@);
    }
    true
}

/// The decimal numeral of a non-negative number, without padding.
pub open spec fn spec_dec(n: int) -> Seq<char>
    decreases n,
{
    if n < 10 {
        seq![crate::date::spec_digit(n)]
    } else {
        spec_dec(n / 10).push(crate::date::spec_digit(n % 10))
    }
}

/// The decimal numeral of `n`.
pub fn u32_chars(n: u32) -> (r: Vec<char>)
    ensures
        r@ == spec_dec(n as int),
    decreases n,
{
    if n < 10 {
        let mut v: Vec<char> = Vec::new();
        v.push(crate::date::digit_char(n as u16));
        proof {
            assert(v@ =~= spec_dec(n as int));
        }
        v
    } else {
        let mut v = u32_chars(n / 10);
        v.push(crate::date::digit_char((n % 10) as u16));
        v
    }
}

/// The decimal text of `n`.
pub fn u32_string(n: u32) -> (r: String)
    ensures
        r@ == spec_dec(n as int),
{
    let v = u32_chars(n);
    string_of_chars(&v)
}

/// Items joined by a separator, in order, nothing around them.
pub open spec fn spec_join(items: Seq<Seq<char>>, sep: Seq<char>) -> Seq<char>
    decreases items.len(),
{
    if items.len() == 0 {
        Seq::empty()
    } else if items.len() == 1 {
        items[0]
    } else {
        items[0] + sep + spec_join(items.skip(1), sep)
    }
}

/// Appending one more item to a join appends a separator and the item,
/// except onto an empty join.
pub proof fn lemma_join_push(items: Seq<Seq<char>>, sep: Seq<char>, x: Seq<char>)
    ensures
        spec_join(items.push(x), sep) == if items.len() == 0 {
            x
        } else {
            spec_join(items, sep) + sep + x
        },
    decreases items.len(),
{
    let pushed = items.push(x);
    if items.len() == 0 {
        assert(pushed.len() == 1);
        assert(pushed[0] == x);
    } else if items.len() == 1 {
        assert(pushed.len() == 2);
        assert(pushed.skip(1) =~= seq![x]);
        assert(spec_join(pushed.skip(1), sep) == x);
        assert(pushed[0] == items[0]);
    } else {
        lemma_join_push(items.skip(1), sep, x);
        assert(pushed.skip(1) =~= items.skip(1).push(x));
        assert(pushed[0] == items[0]);
        assert(items[0] + sep + (spec_join(items.skip(1), sep) + sep + x) =~= (items[0] + sep
            + spec_join(items.skip(1), sep)) + sep + x);
    }
}

/// The view of each element of a vector of strings.
pub open spec fn views_of(items: Seq<String>) -> Seq<Seq<char>> {
    Seq::new(items.len(), |i: int| items[i]@)
}

/// Joins the strings with the separator, in order.
pub fn join_strings(items: &Vec<String>, sep: &str) -> (r: String)
    ensures
        r@ == spec_join(views_of(items@), sep@),
{
    let mut out = String::new();
    let mut i: usize = 0;
    proof {
        assert(views_of(items@).take(0) =~= Seq::<Seq<char>>::empty());
        assert(out@ =~= spec_join(views_of(items@).take(0), sep@));
    }
    while i < items.len()
        invariant
            i <= items@.len(),
            out@ == spec_join(views_of(items@).take(i as int), sep@),
        decreases items@.len() - i,
    {
        if i > 0 {
            out.append(sep);
        }
        out.append(items[i].as_str());
        i += 1;
        proof {
            let views = views_of(items@);
            lemma_join_push(views.take(i - 1), sep@, views[i - 1]);
            assert(views.take(i as int) =~= views.take(i - 1).push(views[i - 1]));
            assert(out@ =~= spec_join(views.take(i as int), sep@));
        }
    }
    proof {
        assert(views_of(items@).take(items@.len() as int) =~= views_of(items@));
    }
    out
}

/// A string holding the characters of `v`, in order.
pub fn string_of_chars(v: &Vec<char>) -> (r: String)
    ensures
        r@ == v@,
{
    let mut r = String::new();
    let mut i: usize = 0;
    while i < v.len()
        invariant
            i <= v@.len(),
            r@ == v@.take(i as int),
        decreases v@.len() - i,
    {
        push_char(&mut r, v[i]);
        i += 1;
        proof {
            assert(v@.take(i as int) =~= v@.take(i - 1).push(v@[i - 1]));
        }
    }
    proof {
        assert(v@.take(v@.len() as int) =~= v@);
    }
    r
}

} // verus!
