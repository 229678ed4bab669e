//! Small helpers on byte strings and lists of values.

use crate::val::Val;
use vstd::prelude::*;

verus! {

pub(crate) fn bytes_eq(a: &[u8], b: &[u8]) -> (r: bool)
    ensures
        r == (a@ == b@),
{
    if a.len() != b.len() {
        return false;
    }
    let mut i: usize = 0;
    while i < a.len()
        invariant
            i <= a@.len() == b@.len(),
            forall|j: int| 0 <= j < i ==> a@[j] == b@[j],
        decreases a@.len() - i,
    {
        if a[i] != b[i] {
            return false;
        }
        i = i + 1;
    }
    assert(a@ =~= b@);
    true
}

pub(crate) fn copy_bytes(s: &[u8]) -> (r: Vec<u8>)
    ensures
        r@ == s@,
{
    let mut r: Vec<u8> = Vec::new();
    r.extend_from_slice(s);
    assert(r@ =~= s@);
    r
}

pub(crate) fn copy_vals(s: &[Val]) -> (r: Vec<Val>)
    ensures
        r@ == s@,
{
    let mut r: Vec<Val> = Vec::new();
    r.extend_from_slice(s);
    assert(r@ =~= s@);
    r
}

pub(crate) fn copy_pairs(m: &[(Val, Val)]) -> (r: Vec<(Val, Val)>)
    ensures
        r@ == m@,
{
    let mut r: Vec<(Val, Val)> = Vec::new();
    let mut i: usize = 0;
    while i < m.len()
        invariant
            i <= m@.len(),
            r@ == m@.take(i as int),
        decreases m@.len() - i,
    {
        r.push((m[i].0, m[i].1));
        assert(m@.take(i + 1) =~= m@.take(i as int).push(m@[i as int]));
        i = i + 1;
    }
    assert(m@.take(i as int) =~= m@);
    r
}

} // verus!
