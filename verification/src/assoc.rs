use vstd::prelude::*;

use crate::lexer::Symbol;

verus! {

/// The index of the first entry with key `k`, from `i` on.
pub open spec fn assoc_find<T>(s: Seq<(Symbol, T)>, k: Symbol, i: int) -> Option<int>
    decreases s.len() - i,
{
    if i < 0 || i >= s.len() {
        None
    } else if s[i].0 == k {
        Some(i)
    } else {
        assoc_find(s, k, i + 1)
    }
}

/// Sets the value of key `k`, in place if it is present, else at the end.
pub open spec fn assoc_insert<T>(s: Seq<(Symbol, T)>, k: Symbol, v: T) -> Seq<(Symbol, T)> {
    match assoc_find(s, k, 0) {
        Some(i) => s.update(i, (k, v)),
        None => s.push((k, v)),
    }
}

pub open spec fn assoc_get<T>(s: Seq<(Symbol, T)>, k: Symbol) -> Option<T> {
    match assoc_find(s, k, 0) {
        Some(i) => Some(s[i].1),
        None => None,
    }
}

pub proof fn lemma_assoc_find_skip<T>(s: Seq<(Symbol, T)>, k: Symbol, i: int)
    requires
        0 <= i <= s.len(),
        forall|j: int| 0 <= j < i ==> s[j].0 != k,
    ensures
        assoc_find(s, k, 0) == assoc_find(s, k, i),
    decreases i,
{
    if i > 0 {
        lemma_assoc_find_skip(s, k, i - 1);
    }
}

/// Sets the value of a key in place, or appends the entry.
pub fn assoc_set<T: Copy>(v: &mut Vec<(Symbol, T)>, k: Symbol, t: T)
    ensures
        final(v)@ == assoc_insert(old(v)@, k, t),
{
    let mut i: usize = 0;
    while i < v.len()
        invariant
            i <= v.len(),
            v@ == old(v)@,
            forall|j: int| 0 <= j < i ==> v@[j].0 != k,
        decreases v.len() - i,
    {
        if v[i].0 == k {
            proof {
                lemma_assoc_find_skip(v@, k, i as int);
            }
            v.set(i, (k, t));
            return;
        }
        i = i + 1;
    }
    proof {
        lemma_assoc_find_skip(v@, k, i as int);
    }
    v.push((k, t));
}

/// The value of the first entry with the key.
pub fn assoc_lookup<T: Copy>(v: &Vec<(Symbol, T)>, k: Symbol) -> (r: Option<T>)
    ensures
        r == assoc_get(v@, k),
{
    let mut i: usize = 0;
    while i < v.len()
        invariant
            i <= v.len(),
            forall|j: int| 0 <= j < i ==> v@[j].0 != k,
        decreases v.len() - i,
    {
        if v[i].0 == k {
            proof {
                lemma_assoc_find_skip(v@, k, i as int);
            }
            return Some(v[i].1);
        }
        i = i + 1;
    }
    proof {
        lemma_assoc_find_skip(v@, k, i as int);
    }
    None
}

/// A copy of an association list.
pub fn assoc_copy<T: Copy>(v: &Vec<(Symbol, T)>) -> (r: Vec<(Symbol, T)>)
    ensures
        r@ == v@,
{
    let mut r: Vec<(Symbol, T)> = Vec::new();
    let mut i: usize = 0;
    while i < v.len()
        invariant
            i <= v.len(),
            r@ == v@.take(i as int),
        decreases v.len() - i,
    {
        r.push(v[i]);
        assert(r@ =~= v@.take(i + 1));
        i = i + 1;
    }
    assert(v@.take(v.len() as int) =~= v@);
    r
}

} // verus!
