//! A set of texts, held as a list, and a set of log positions, held in order.

use vstd::prelude::*;

use crate::text::{same, texts};

verus! {

/// A set of texts.
#[derive(Debug, Clone, Default, PartialEq, Eq)]
pub struct TextSet {
    items: Vec<String>,
}

impl View for TextSet {
    type V = Set<Seq<char>>;

    closed spec fn view(&self) -> Set<Seq<char>> {
        texts(self.items@).to_set()
    }
}

impl TextSet {
    /// The empty set.
    pub fn new() -> (r: TextSet)
        ensures
            r@ == Set::<Seq<char>>::empty(),
    {
        let r = TextSet { items: Vec::new() };
        assert(r@ =~= Set::<Seq<char>>::empty());
        r
    }

    fn position(&self, t: &str) -> (r: Option<usize>)
        ensures
            match r {
                Some(i) => i < self.items@.len() && self.items@[i as int]@ == t@,
                None => forall|i: int| 0 <= i < self.items@.len() ==> self.items@[i]@ != t@,
            },
    {
        let mut i: usize = 0;
        while i < self.items.len()
            invariant
                i <= self.items@.len(),
                forall|k: int| 0 <= k < i ==> self.items@[k]@ != t@,
            decreases self.items@.len() - i,
        {
            if same(self.items[i].as_str(), t) {
                return Some(i);
            }
            i = i + 1;
        }
        None
    }

    /// Whether `t` is in the set.
    pub fn contains(&self, t: &str) -> (r: bool)
        ensures
            r == self@.contains(t@),
    {
        match self.position(t) {
            Some(i) => {
                assert(texts(self.items@)[i as int] == t@);
                true
            },
            None => {
                assert(!texts(self.items@).contains(t@));
                false
            },
        }
    }

    /// Adds `t` to the set.
    pub fn insert(&mut self, t: String)
        ensures
            final(self)@ == old(self)@.insert(t@),
    {
        if self.contains(t.as_str()) {
            assert(self@ =~= old(self)@.insert(t@));
            return;
        }
        let ghost before = texts(self.items@);
        self.items.push(t);
        proof {
            let after = texts(self.items@);
            assert(after =~= before.push(t@));
            assert(after.to_set() =~= before.to_set().insert(t@)) by {
                assert(after[before.len() as int] == t@);
                assert forall|x: Seq<char>| before.contains(x) implies after.contains(x) by {
                    let i = choose|i: int| 0 <= i < before.len() && before[i] == x;
                    assert(after[i] == x);
                }
            }
        }
    }

    /// Removes `t` from the set.
    pub fn remove(&mut self, t: &str)
        ensures
            final(self)@ == old(self)@.remove(t@),
    {
        let ghost all = texts(self.items@);
        let mut kept: Vec<String> = Vec::new();
        let mut i: usize = 0;
        while i < self.items.len()
            invariant
                i <= self.items@.len(),
                all == texts(self.items@),
                forall|x: Seq<char>| #[trigger]
                    texts(kept@).contains(x) <==> x != t@ && all.take(i as int).contains(x),
            decreases self.items@.len() - i,
        {
            let ghost was = texts(kept@);
            assert(all.take(i + 1) =~= all.take(i as int).push(all[i as int]));
            proof {
                assert forall|x: Seq<char>|
                    all.take(i + 1).contains(x) <==> (x == all[i as int] || all.take(
                        i as int,
                    ).contains(x)) by {
                    lemma_push_contains(all.take(i as int), all[i as int], x);
                }
            }
            if !same(self.items[i].as_str(), t) {
                let item = self.items[i].clone();
                kept.push(item);
                proof {
                    assert(texts(kept@) =~= was.push(all[i as int]));
                    assert forall|x: Seq<char>| #[trigger]
                        texts(kept@).contains(x) <==> x != t@ && all.take(i + 1).contains(x) by {
                        lemma_push_contains(was, all[i as int], x);
                        lemma_push_contains(all.take(i as int), all[i as int], x);
                        assert(texts(kept@).contains(x) == was.push(all[i as int]).contains(x));
                    }
                }
            }
            i = i + 1;
        }
        assert(all.take(i as int) =~= all);
        self.items = kept;
        assert(self@ =~= old(self)@.remove(t@));
    }

    /// Empties the set.
    pub fn clear(&mut self)
        ensures
            final(self)@ == Set::<Seq<char>>::empty(),
    {
        self.items.clear();
        assert(self@ =~= Set::<Seq<char>>::empty());
    }
}

/// A set of log positions, kept ascending: new positions mostly go to the end.
#[derive(Debug, PartialEq, Eq)]
pub struct SeqSet {
    items: Vec<u64>,
}

impl View for SeqSet {
    type V = Set<u64>;

    closed spec fn view(&self) -> Set<u64> {
        self.items@.to_set()
    }
}

impl SeqSet {
    #[verifier::type_invariant]
    spec fn ascending(self) -> bool {
        forall|i: int, j: int| 0 <= i < j < self.items@.len() ==> self.items@[i] < self.items@[j]
    }

    /// The empty set.
    pub fn new() -> (r: SeqSet)
        ensures
            r@ == Set::<u64>::empty(),
    {
        let r = SeqSet { items: Vec::new() };
        assert(r@ =~= Set::<u64>::empty());
        r
    }

    /// Index of the first item that is not below `n`.
    fn lower_bound(&self, n: u64) -> (r: usize)
        ensures
            r <= self.items@.len(),
            forall|i: int| 0 <= i < r ==> self.items@[i] < n,
            forall|i: int| r <= i < self.items@.len() ==> self.items@[i] >= n,
    {
        proof {
            use_type_invariant(self);
        }
        let mut lo: usize = 0;
        let mut hi: usize = self.items.len();
        while lo < hi
            invariant
                lo <= hi <= self.items@.len(),
                forall|i: int| 0 <= i < lo ==> self.items@[i] < n,
                forall|i: int| hi <= i < self.items@.len() ==> self.items@[i] >= n,
                self.ascending(),
            decreases hi - lo,
        {
            let mid: usize = lo + (hi - lo) / 2;
            if self.items[mid] < n {
                lo = mid + 1;
            } else {
                hi = mid;
            }
        }
        lo
    }

    /// Whether `n` is in the set.
    pub fn contains(&self, n: u64) -> (r: bool)
        ensures
            r == self@.contains(n),
    {
        proof {
            use_type_invariant(self);
        }
        let i: usize = self.lower_bound(n);
        if i < self.items.len() && self.items[i] == n {
            assert(self.items@[i as int] == n);
            true
        } else {
            assert(forall|k: int| 0 <= k < self.items@.len() ==> self.items@[k] != n);
            false
        }
    }

    /// Adds `n` to the set.
    pub fn insert(&mut self, n: u64)
        ensures
            final(self)@ == old(self)@.insert(n),
    {
        proof {
            use_type_invariant(&*self);
        }
        let i: usize = self.lower_bound(n);
        if i < self.items.len() && self.items[i] == n {
            assert(self.items@[i as int] == n);
            assert(self@ =~= old(self)@.insert(n));
            return;
        }
        let ghost before = self.items@;
        let mut items: Vec<u64> = Vec::new();
        std::mem::swap(&mut items, &mut self.items);
        items.insert(i, n);
        self.items = items;
        proof {
            let after = self.items@;
            assert(after == before.insert(i as int, n));
            assert forall|x: u64| after.contains(x) <==> (x == n || before.contains(x)) by {
                assert(after[i as int] == n);
                if before.contains(x) {
                    let k = choose|k: int| 0 <= k < before.len() && before[k] == x;
                    if k < i {
                        assert(after[k] == x);
                    } else {
                        assert(after[k + 1] == x);
                    }
                }
                if after.contains(x) && x != n {
                    let k = choose|k: int| 0 <= k < after.len() && after[k] == x;
                    if k < i {
                        assert(before[k] == x);
                    } else {
                        assert(before[k - 1] == x);
                    }
                }
            }
            assert(self@ =~= old(self)@.insert(n));
        }
    }
}

impl Clone for SeqSet {
    fn clone(&self) -> (r: Self)
        ensures
            r@ == self@,
    {
        proof {
            use_type_invariant(self);
        }
        let items = self.items.clone();
        assert(items@ =~= self.items@);
        SeqSet { items }
    }
}

/// What a pushed sequence contains.
pub proof fn lemma_push_contains<T>(s: Seq<T>, a: T, x: T)
    ensures
        s.push(a).contains(x) <==> (x == a || s.contains(x)),
{
    if s.contains(x) {
        let i = choose|i: int| 0 <= i < s.len() && s[i] == x;
        assert(s.push(a)[i] == x);
    }
    assert(s.push(a)[s.len() as int] == a);
    if s.push(a).contains(x) && x != a {
        let i = choose|i: int| 0 <= i < s.push(a).len() && s.push(a)[i] == x;
        assert(s[i] == x);
    }
}

} // verus!
