//! Reading the session cookies out of a `Cookie` request header value
//! (`name=value; name2=value2`), to hand them to a browser.

use vstd::prelude::*;
use vstd::string::StrSliceExecFns;
use crate::api_client::pairs_view;
use crate::text::{strings_view, trim, trim_of};

verus! {

/// The pieces of `s` between occurrences of `sep` (one piece, empty, for
/// an empty string).
pub open spec fn split_on(s: Seq<char>, sep: char) -> Seq<Seq<char>>
    decreases s.len(),
{
    if s.len() == 0 {
        seq![Seq::empty()]
    } else {
        let prev = split_on(s.drop_last(), sep);
        if s.last() == sep {
            prev.push(Seq::empty())
        } else {
            prev.update(prev.len() - 1, prev.last().push(s.last()))
        }
    }
}

/// The pieces of `s` between occurrences of `sep`.
fn split_char(s: &str, sep: char) -> (r: Vec<String>)
    ensures
        strings_view(r@) == split_on(s@, sep),
{
    let n = s.unicode_len();
    let mut out: Vec<String> = Vec::new();
    let mut start: usize = 0;
    let mut i: usize = 0;
    assert(s@.take(0) =~= Seq::<char>::empty());
    assert(strings_view(out@).push(s@.subrange(0, 0)) =~= split_on(s@.take(0), sep));
    while i < n
        invariant
            n == s@.len(),
            start <= i <= n,
            strings_view(out@).push(s@.subrange(start as int, i as int)) == split_on(s@.take(i as int), sep),
        decreases n - i,
    {
        let c = s.get_char(i);
        let ghost prev = strings_view(out@);
        assert(s@.take(i as int + 1).drop_last() =~= s@.take(i as int));
        assert(s@.take(i as int + 1).last() == c);
        if c == sep {
            out.push(String::from_str(s.substring_char(start, i)));
            assert(strings_view(out@) =~= prev.push(s@.subrange(start as int, i as int)));
            start = i + 1;
            assert(s@.subrange(start as int, i + 1) =~= Seq::<char>::empty());
            assert(split_on(s@.take(i as int + 1), sep) == split_on(s@.take(i as int), sep).push(Seq::empty()));
            assert(strings_view(out@).push(s@.subrange(start as int, i + 1)) =~= split_on(s@.take(i as int + 1), sep));
        } else {
            let ghost before = prev.push(s@.subrange(start as int, i as int));
            assert(s@.subrange(start as int, i as int).push(c) =~= s@.subrange(start as int, i + 1));
            assert(before.update(before.len() - 1, before.last().push(c)) =~= prev.push(s@.subrange(start as int, i + 1)));
        }
        i = i + 1;
    }
    assert(s@.take(n as int) =~= s@);
    let ghost prev = strings_view(out@);
    out.push(String::from_str(s.substring_char(start, n)));
    assert(strings_view(out@) =~= prev.push(s@.subrange(start as int, n as int)));
    out
}

/// `p` is the first position of `c` in `t`.
pub open spec fn is_first_char(t: Seq<char>, c: char, p: int) -> bool {
    0 <= p < t.len() && t[p] == c && forall|j: int| 0 <= j < p ==> t[j] != c
}

/// A piece `name=value` (around its whitespace): split at its first `=`;
/// a piece without `=` gives nothing.
pub open spec fn cookie_pair(piece: Seq<char>) -> Option<(Seq<char>, Seq<char>)> {
    let t = trim_of(piece);
    if exists|p: int| is_first_char(t, '=', p) {
        let p = choose|p: int| is_first_char(t, '=', p);
        Some((t.subrange(0, p), t.subrange(p + 1, t.len() as int)))
    } else {
        None
    }
}

/// The pairs of the pieces that have one, in order.
pub open spec fn cookie_pairs(pieces: Seq<Seq<char>>) -> Seq<(Seq<char>, Seq<char>)>
    decreases pieces.len(),
{
    if pieces.len() == 0 {
        Seq::empty()
    } else {
        match cookie_pair(pieces.last()) {
            Some(p) => cookie_pairs(pieces.drop_last()).push(p),
            None => cookie_pairs(pieces.drop_last()),
        }
    }
}

fn pair_of_piece(piece: &String) -> (r: Option<(String, String)>)
    ensures
        match r {
            Some(p) => cookie_pair(piece@) == Some((p.0@, p.1@)),
            None => cookie_pair(piece@).is_none(),
        },
{
    let t = trim(piece.as_str());
    let n = t.as_str().unicode_len();
    let mut p: usize = 0;
    while p < n
        invariant
            n == t@.len(),
            t@ == trim_of(piece@),
            p <= n,
            forall|j: int| 0 <= j < p ==> t@[j] != '=',
        decreases n - p,
    {
        if t.as_str().get_char(p) == '=' {
            assert(is_first_char(t@, '=', p as int));
            let name = String::from_str(t.as_str().substring_char(0, p));
            let value = String::from_str(t.as_str().substring_char(p + 1, n));
            proof {
                let q = choose|q: int| is_first_char(t@, '=', q);
                if q < p {
                    assert(t@[q] != '=');
                } else if p < q {
                    assert(t@[p as int] != '=');
                }
            }
            return Some((name, value));
        }
        p = p + 1;
    }
    proof {
        if exists|q: int| is_first_char(t@, '=', q) {
            let q = choose|q: int| is_first_char(t@, '=', q);
            assert(t@[q] != '=');
        }
    }
    None
}

/// The `name=value` pairs of a `Cookie` header value, in order; pieces
/// between `;` are trimmed, and those without `=` are skipped.
pub fn parse_cookie_header(header: &str) -> (r: Vec<(String, String)>)
    ensures
        pairs_view(r@) == cookie_pairs(split_on(header@, ';')),
{
    let pieces = split_char(header, ';');
    let ghost pv = strings_view(pieces@);
    let mut out: Vec<(String, String)> = Vec::new();
    let mut i: usize = 0;
    while i < pieces.len()
        invariant
            i <= pieces@.len(),
            pv == strings_view(pieces@),
            pairs_view(out@) == cookie_pairs(pv.take(i as int)),
        decreases pieces@.len() - i,
    {
        assert(pv.take(i as int + 1).drop_last() =~= pv.take(i as int));
        assert(pv.take(i as int + 1).last() == pieces@[i as int]@);
        match pair_of_piece(&pieces[i]) {
            Some(p) => {
                out.push(p);
                assert(pairs_view(out@) =~= cookie_pairs(pv.take(i as int + 1)));
            },
            None => {},
        }
        i = i + 1;
    }
    assert(pv.take(pieces@.len() as int) =~= pv);
    out
}

} // verus!
