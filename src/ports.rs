//! Choosing the MIDI input port by a part of its name.
use vstd::prelude::*;
use crate::keymap::chars_of;

verus! {

/// Whether `t` occurs in `s` as a run of consecutive characters.
pub open spec fn has_substring(s: Seq<char>, t: Seq<char>) -> bool {
    exists|i: int| 0 <= i && i + t.len() <= s.len() && #[trigger] s.subrange(i, i + t.len()) == t
}

fn occurs_at(s: &Vec<char>, t: &Vec<char>, i: usize) -> (r: bool)
    requires
        i + t@.len() <= s@.len(),
    ensures
        r == (s@.subrange(i as int, i + t@.len()) == t@),
{
    let n = t.len();
    let m = s.len();
    let mut k: usize = 0;
    while k < n
        invariant
            n == t@.len(),
            m == s@.len(),
            i + n <= s@.len(),
            k <= n,
            s@.subrange(i as int, i + k) == t@.subrange(0, k as int),
        decreases n - k,
    {
        if s[i + k] != t[k] {
            assert(s@.subrange(i as int, i + n)[k as int] != t@[k as int]);
            return false;
        }
        assert(s@.subrange(i as int, i + k + 1) =~= s@.subrange(i as int, i + k).push(s@[i + k]));
        assert(t@.subrange(0, k + 1) =~= t@.subrange(0, k as int).push(t@[k as int]));
        k = k + 1;
    }
    assert(t@.subrange(0, n as int) =~= t@);
    true
}

/// Whether `wanted` occurs in `name`.
pub fn name_contains(name: &str, wanted: &str) -> (r: bool)
    ensures
        r == has_substring(name@, wanted@),
{
    let s = chars_of(name);
    let t = chars_of(wanted);
    if t.len() > s.len() {
        return false;
    }
    let last = s.len() - t.len();
    let mut i: usize = 0;
    while i <= last
        invariant
            s@ == name@,
            t@ == wanted@,
            last + t@.len() == s@.len(),
            forall|j: int| 0 <= j < i ==> #[trigger] s@.subrange(j, j + t@.len()) != t@,
        decreases last + 1 - i,
    {
        if occurs_at(&s, &t, i) {
            return true;
        }
        if i == last {
            assert(!has_substring(name@, wanted@));
            return false;
        }
        i = i + 1;
    }
    false
}

/// The first port, in the order given, whose name contains `wanted`.
pub fn select_port(names: &Vec<String>, wanted: &String) -> (r: Option<usize>)
    ensures
        match r {
            Some(k) => k < names@.len() && has_substring(names@[k as int]@, wanted@) && forall|j: int|
                0 <= j < k ==> !has_substring(#[trigger] names@[j]@, wanted@),
            None => forall|j: int| 0 <= j < names@.len() ==> !has_substring(#[trigger] names@[j]@, wanted@),
        },
{
    let mut k: usize = 0;
    while k < names.len()
        invariant
            k <= names@.len(),
            forall|j: int| 0 <= j < k ==> !has_substring(#[trigger] names@[j]@, wanted@),
        decreases names@.len() - k,
    {
        if name_contains(names[k].as_str(), wanted.as_str()) {
            return Some(k);
        }
        k = k + 1;
    }
    None
}

} // verus!
