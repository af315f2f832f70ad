//! Plain data handed to and from the rendering collaborator.
//!
//! The core owns no window or graphics device; it only describes the
//! window to open and regroups flat mesh attribute arrays into the triples
//! that vertex buffers consume.

use vstd::prelude::*;

verus! {

/// The window the driver asks the rendering collaborator to open.
pub struct WindowInfo<'a> {
    pub title: &'a str,
    pub screen_size: (i32, i32),
}

/// Regroups a flat attribute array into consecutive triples, the shape in
/// which a mesh loader hands out vertex positions and normals; a trailing
/// partial triple is dropped.
pub fn group_triples<T: Copy>(v: &Vec<T>) -> (r: Vec<(T, T, T)>)
    ensures
        r.len() == v.len() as int / 3,
        forall|i: int|
            0 <= i < r.len() ==> r[i] == (v[3 * i], v[3 * i + 1], v[3 * i + 2]),
{
    let n: usize = v.len() / 3;
    let mut r: Vec<(T, T, T)> = Vec::new();
    let mut k: usize = 0;
    proof {
        vstd::arithmetic::div_mod::lemma_fundamental_div_mod(v.len() as int, 3);
    }
    while k < n
        invariant
            r.len() == k,
            k <= n,
            n == v.len() as int / 3,
            3 * n <= v.len(),
            forall|i: int| 0 <= i < k ==> r[i] == (v[3 * i], v[3 * i + 1], v[3 * i + 2]),
        decreases n - k,
    {
        let idx: usize = 3 * k;
        let t = (v[idx], v[idx + 1], v[idx + 2]);
        r.push(t);
        k = k + 1;
    }
    r
}

} // verus!
