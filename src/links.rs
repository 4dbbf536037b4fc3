//! Sets of URLs held as vectors without repeats.

use vstd::prelude::*;
use crate::text::strings_view;

verus! {

/// Adds `s` to `out` unless an equal string is already there.
pub fn insert_unique(out: &mut Vec<String>, s: String)
    requires
        strings_view(old(out)@).no_duplicates(),
    ensures
        strings_view(final(out)@).no_duplicates(),
        strings_view(final(out)@).to_set() == strings_view(old(out)@).to_set().insert(s@),
{
    let ghost before = strings_view(out@);
    let mut found = false;
    let mut i: usize = 0;
    while i < out.len()
        invariant
            i <= out@.len(),
            before == strings_view(out@),
            found ==> before.contains(s@),
            !found ==> forall|t: int| 0 <= t < i ==> before[t] != s@,
        decreases out@.len() - i,
    {
        if out[i] == s {
            found = true;
            assert(before[i as int] == s@);
        }
        i = i + 1;
    }
    if found {
        assert(before.to_set().insert(s@) =~= before.to_set());
    } else {
        out.push(s);
        assert(strings_view(out@) =~= before.push(s@));
        assert(!before.contains(s@));
        proof { before.lemma_push_to_set_commute(s@); }
    }
}

/// The distinct strings of `items`, each once, in order of first occurrence.
pub fn dedup(items: &Vec<String>) -> (r: Vec<String>)
    ensures
        strings_view(r@).no_duplicates(),
        strings_view(r@).to_set() == strings_view(items@).to_set(),
{
    let mut out: Vec<String> = Vec::new();
    let mut i: usize = 0;
    while i < items.len()
        invariant
            i <= items@.len(),
            strings_view(out@).no_duplicates(),
            strings_view(out@).to_set() == strings_view(items@).take(i as int).to_set(),
        decreases items@.len() - i,
    {
        insert_unique(&mut out, items[i].clone());
        assert(strings_view(items@).take(i as int + 1) =~= strings_view(items@).take(i as int).push(items@[i as int]@));
        proof { strings_view(items@).take(i as int).lemma_push_to_set_commute(items@[i as int]@); }
        i = i + 1;
    }
    assert(strings_view(items@).take(items@.len() as int) =~= strings_view(items@));
    out
}

} // verus!
