//! Symbol interner: deduplicates byte strings (source paths, function names)
//! seen while decoding, mapping each to a small, stable integer handle.

use vstd::prelude::*;

verus! {

/// Handle standing for an interned byte string. Valid only for the interner
/// instance that produced it.
pub type SymbolId = usize;

/// Deduplicating store of byte strings.
///
/// The interner owns the canonical copy of every distinct string seen so far
/// and assigns each a densely packed `SymbolId` on first insertion. The same
/// string always maps to the same id within one instance, and entries are
/// never removed.
pub struct Interner {
    strings: Vec<Vec<u8>>,
}

/// No two entries of the store hold the same string.
pub open spec fn distinct_seq(w: Seq<Seq<u8>>) -> bool {
    forall|i: int, j: int| 0 <= i < w.len() && 0 <= j < w.len() && i != j ==> w[i] != w[j]
}

/// The id that interning `s` into a store with contents `w` yields.
pub open spec fn intern_id(w: Seq<Seq<u8>>, s: Seq<u8>) -> int {
    if w.contains(s) {
        choose|i: int| 0 <= i < w.len() && w[i] == s
    } else {
        w.len() as int
    }
}

/// The store contents after interning `s` into a store with contents `w`.
pub open spec fn intern_w(w: Seq<Seq<u8>>, s: Seq<u8>) -> Seq<Seq<u8>> {
    if w.contains(s) {
        w
    } else {
        w.push(s)
    }
}

impl View for Interner {
    type V = Seq<Seq<u8>>;

    closed spec fn view(&self) -> Seq<Seq<u8>> {
        self.strings@.map_values(|v: Vec<u8>| v@)
    }
}

/// Compares two byte vectors for equality of contents.
pub fn bytes_eq(a: &Vec<u8>, b: &Vec<u8>) -> (r: bool)
    ensures
        r == (a@ == b@),
{
    if a.len() != b.len() {
        assert(a@ != b@) by {
            assert(a@.len() != b@.len());
        }
        return false;
    }
    let n = a.len();
    let mut i: usize = 0;
    while i < n
        invariant
            n == a@.len() == b@.len(),
            0 <= i <= n,
            forall|k: int| 0 <= k < i ==> a@[k] == b@[k],
        decreases n - i,
    {
        if a[i] != b[i] {
            return false;
        }
        i += 1;
    }
    proof {
        assert(a@ =~= b@);
    }
    true
}

impl Interner {
    /// Every id handed out names exactly one string: the store is duplicate-free.
    pub open spec fn wf(&self) -> bool {
        distinct_seq(self@)
    }

    /// Creates an empty interner.
    pub fn new() -> (r: Interner)
        ensures
            r@ =~= Seq::<Seq<u8>>::empty(),
            r.wf(),
    {
        Interner { strings: Vec::new() }
    }

    /// Number of distinct strings interned so far.
    pub fn len(&self) -> (n: usize)
        ensures
            n == self@.len(),
    {
        self.strings.len()
    }

    /// Interns `s`: returns the id it already has, or assigns it the next
    /// dense id. Existing ids keep their meaning.
    pub fn intern(&mut self, s: Vec<u8>) -> (id: SymbolId)
        requires
            old(self).wf(),
        ensures
            final(self).wf(),
            id < final(self)@.len(),
            final(self)@[id as int] == s@,
            id as int == intern_id(old(self)@, s@),
            final(self)@ == intern_w(old(self)@, s@),
            forall|i: int| 0 <= i < old(self)@.len() ==> final(self)@[i] == old(self)@[i],
    {
        let n = self.strings.len();
        let mut i: usize = 0;
        while i < n
            invariant
                self@ == old(self)@,
                self.wf(),
                n == self@.len(),
                0 <= i <= n,
                forall|k: int| 0 <= k < i ==> self@[k] != s@,
            decreases n - i,
        {
            if bytes_eq(&self.strings[i], &s) {
                proof {
                    let w = self@;
                    assert(w[i as int] == self.strings@[i as int]@);
                    assert(w[i as int] == s@);
                    assert(w.contains(s@));
                    let j = choose|k: int| 0 <= k < w.len() && w[k] == s@;
                    assert(w[j] == s@);
                    assert(j == i as int);
                }
                return i;
            }
            assert(self@[i as int] == self.strings@[i as int]@);
            i += 1;
        }
        assert(forall|k: int| 0 <= k < self@.len() ==> self@[k] != s@);
        assert(!self@.contains(s@));
        let ghost old_view = self@;
        self.strings.push(s);
        proof {
            assert(self@ =~= old_view.push(s@));
        }
        n
    }

    /// Resolves an id this interner produced back to the interned string.
    pub fn resolve(&self, id: SymbolId) -> (s: &Vec<u8>)
        requires
            id < self@.len(),
        ensures
            s@ == self@[id as int],
    {
        &self.strings[id]
    }
}

/// Law: within one interner, a string has exactly one id. Any two ids that
/// resolve to the same string in a well-formed store are equal, so interning
/// the same string twice yields the same `SymbolId`.
pub proof fn lemma_interner_identity(w: Seq<Seq<u8>>, s: Seq<u8>, id1: int, id2: int)
    requires
        distinct_seq(w),
        0 <= id1 < w.len(),
        0 <= id2 < w.len(),
        w[id1] == s,
        w[id2] == s,
    ensures
        id1 == id2,
{
}

} // verus!
