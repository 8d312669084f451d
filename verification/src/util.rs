use std::collections::HashSet;
use vstd::prelude::*;

verus! {

broadcast use vstd::std_specs::hash::group_hash_axioms;

/// Collections whose single item can be taken out.
pub trait OnlyIterable<T>: Sized {
    /// The items, in order.
    spec fn items(&self) -> Seq<T>;

    /// The one item there is, `None` where there is none; there must not be two.
    fn only(self) -> (r: Option<T>)
        requires
            self.items().len() <= 1,
        ensures
            r == (if self.items().len() == 0 { None } else { Some(self.items()[0]) }),
    ;
}

impl<T> OnlyIterable<T> for Vec<T> {
    open spec fn items(&self) -> Seq<T> {
        self@
    }

    fn only(self) -> (r: Option<T>) {
        let mut v = self;
        v.pop()
    }
}

/// The distinct items of `s`, each where it first occurs.
pub open spec fn dedup(s: Seq<u32>) -> Seq<u32>
    decreases s.len(),
{
    if s.len() == 0 {
        s
    } else if s.drop_last().contains(s.last()) {
        dedup(s.drop_last())
    } else {
        dedup(s.drop_last()).push(s.last())
    }
}

/// `dedup(s)` holds the items of `s`, each once.
pub proof fn lemma_dedup(s: Seq<u32>)
    ensures
        forall|x: u32| dedup(s).contains(x) <==> s.contains(x),
        dedup(s).no_duplicates(),
    decreases s.len(),
{
    if s.len() > 0 {
        let p = s.drop_last();
        lemma_dedup(p);
        assert forall|x: u32| s.contains(x) <==> p.contains(x) || x == s.last() by {
            if s.contains(x) {
                let i = choose|i: int| 0 <= i < s.len() && s[i] == x;
                if i < s.len() - 1 {
                    assert(p[i] == x);
                }
            }
            if p.contains(x) {
                let i = choose|i: int| 0 <= i < p.len() && p[i] == x;
                assert(s[i] == x);
            }
            if x == s.last() {
                assert(s[s.len() - 1] == x);
            }
        }
        if !p.contains(s.last()) {
            let d = dedup(p);
            assert forall|x: u32| d.push(s.last()).contains(x) <==> d.contains(x) || x == s.last() by {
                if d.push(s.last()).contains(x) {
                    let i = choose|i: int| 0 <= i < d.len() + 1 && d.push(s.last())[i] == x;
                    if i < d.len() {
                        assert(d[i] == x);
                    }
                }
                if d.contains(x) {
                    let i = choose|i: int| 0 <= i < d.len() && d[i] == x;
                    assert(d.push(s.last())[i] == x);
                }
                if x == s.last() {
                    assert(d.push(s.last())[d.len() as int] == x);
                }
            }
        }
    }
}

/// Deduplicating a prefix of `s` gives a prefix of deduplicating `s`.
pub proof fn lemma_dedup_prefix(s: Seq<u32>, i: int)
    requires
        0 <= i <= s.len(),
    ensures
        dedup(s.take(i)).len() <= dedup(s).len(),
        dedup(s).take(dedup(s.take(i)).len() as int) == dedup(s.take(i)),
    decreases s.len() - i,
{
    if i < s.len() {
        lemma_dedup_prefix(s, i + 1);
        let t = s.take(i + 1);
        assert(t.drop_last() =~= s.take(i));
        let a = dedup(s.take(i));
        let b = dedup(t);
        assert(b.take(a.len() as int) =~= a);
        assert(dedup(s).take(a.len() as int) =~= dedup(s).take(b.len() as int).take(a.len() as int));
    } else {
        assert(s.take(i) =~= s);
        assert(dedup(s).take(dedup(s).len() as int) =~= dedup(s));
    }
}

/// Yields the items of a list, each item once, where it first occurs.
pub struct UniqueIterator {
    source: Vec<u32>,
    position: usize,
    previous: HashSet<u32>,
}

impl UniqueIterator {
    /// The items yielded so far.
    pub closed spec fn yielded(&self) -> Seq<u32> {
        dedup(self.source@.take(self.position as int))
    }

    /// All the items the iterator yields, in order.
    pub closed spec fn all_items(&self) -> Seq<u32> {
        dedup(self.source@)
    }

    /// The items seen so far are remembered.
    pub closed spec fn wf(&self) -> bool {
        &&& self.position <= self.source@.len()
        &&& self.previous@ == self.source@.take(self.position as int).to_set()
    }

    /// The next item not yielded before; `None` once all are.
    pub fn next(&mut self) -> (r: Option<u32>)
        requires
            old(self).wf(),
        ensures
            final(self).wf(),
            final(self).all_items() == old(self).all_items(),
            old(self).yielded().len() <= old(self).all_items().len(),
            r == (if old(self).yielded().len() < old(self).all_items().len() {
                Some(old(self).all_items()[old(self).yielded().len() as int])
            } else {
                None
            }),
            final(self).yielded() == (match r {
                Some(x) => old(self).yielded().push(x),
                None => old(self).yielded(),
            }),
            final(self).yielded() == final(self).all_items().take(final(self).yielded().len() as int),
    {
        let ghost y0 = self.yielded();
        proof {
            lemma_dedup_prefix(self.source@, self.position as int);
        }
        while self.position < self.source.len()
            invariant
                self.wf(),
                self.source@ == old(self).source@,
                self.yielded() == y0,
                y0 == old(self).yielded(),
            decreases self.source@.len() - self.position,
        {
            let v = self.source[self.position];
            let ghost p = self.position as int;
            proof {
                assert(self.source@.take(p + 1).drop_last() =~= self.source@.take(p));
                assert(self.source@.take(p + 1).last() == v);
                assert(self.source@.take(p + 1).to_set() =~= self.source@.take(p).to_set().insert(v));
            }
            self.position = self.position + 1;
            let fresh = self.previous.insert(v);
            if fresh {
                proof {
                    assert(!self.source@.take(p).contains(v));
                    lemma_dedup_prefix(self.source@, p + 1);
                    let a = dedup(self.source@);
                    assert(a.take(y0.len() + 1int)[y0.len() as int] == v);
                    lemma_dedup_prefix(self.source@, self.position as int);
                }
                return Some(v);
            }
            proof {
                assert(self.source@.take(p).to_set().contains(v));
            }
        }
        proof {
            assert(self.source@.take(self.source@.len() as int) =~= self.source@);
            assert(self.all_items().take(self.all_items().len() as int) =~= self.all_items());
        }
        None
    }
}

/// Lists whose distinct items can be walked.
pub trait UniqueIterable: Sized {
    /// The items, in order.
    spec fn items(&self) -> Seq<u32>;

    /// An iterator over the distinct items, each where it first occurs.
    fn unique(self) -> (r: UniqueIterator)
        ensures
            r.wf(),
            r.yielded() == Seq::<u32>::empty(),
            r.all_items() == dedup(self.items()),
    ;
}

impl UniqueIterable for Vec<u32> {
    open spec fn items(&self) -> Seq<u32> {
        self@
    }

    fn unique(self) -> (r: UniqueIterator) {
        let r = UniqueIterator { source: self, position: 0, previous: HashSet::new() };
        proof {
            assert(r.source@.take(0) =~= Seq::<u32>::empty());
            assert(r.source@.take(0).to_set() =~= Set::<u32>::empty());
        }
        r
    }
}

} // verus!
