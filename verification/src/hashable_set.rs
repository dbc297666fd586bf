use vstd::prelude::*;

verus! {

/// Strictly ascending: sorted with no repeats.
pub open spec fn sorted_unique(s: Seq<u64>) -> bool {
    forall|i: int, j: int| 0 <= i < j < s.len() ==> #[trigger] s[i] < #[trigger] s[j]
}

/// A set of integers whose equality and hash do not depend on the order in
/// which its elements arrived: the elements are kept strictly ascending, so
/// two equal sets have identical representations.
#[derive(Debug, Clone, Eq, Hash)]
pub struct HashableSet {
    pub elements: Vec<u64>,
}

impl View for HashableSet {
    type V = Set<u64>;

    open spec fn view(&self) -> Set<u64> {
        self.elements@.to_set()
    }
}

/// Two strictly ascending sequences with the same element set are the same
/// sequence.
proof fn lemma_sorted_unique_canonical(a: Seq<u64>, b: Seq<u64>)
    requires
        sorted_unique(a),
        sorted_unique(b),
        a.to_set() == b.to_set(),
    ensures
        a == b,
    decreases a.len(),
{
    if a.len() == 0 {
        if b.len() > 0 {
            assert(b.to_set().contains(b[0]));
            assert(a.contains(b[0]));
        }
        assert(a =~= b);
    } else if b.len() == 0 {
        assert(a.to_set().contains(a[0]));
        assert(b.contains(a[0]));
    } else {
        assert(a.to_set().contains(a[0]));
        assert(b.contains(a[0]));
        let bi = choose|i: int| 0 <= i < b.len() && b[i] == a[0];
        assert(b.to_set().contains(b[0]));
        assert(a.contains(b[0]));
        let aj = choose|j: int| 0 <= j < a.len() && a[j] == b[0];
        assert(b[0] <= b[bi]);
        assert(a[0] <= a[aj]);
        assert(a[0] == b[0]);
        let at = a.subrange(1, a.len() as int);
        let bt = b.subrange(1, b.len() as int);
        assert(sorted_unique(at));
        assert(sorted_unique(bt));
        assert forall|k: u64| at.to_set().contains(k) implies bt.to_set().contains(k) by {
            let i = choose|i: int| 0 <= i < at.len() && at[i] == k;
            assert(a[i + 1] == k);
            assert(a[0] < k);
            assert(a.to_set().contains(k));
            assert(b.contains(k));
            let j = choose|j: int| 0 <= j < b.len() && b[j] == k;
            assert(j != 0);
            assert(bt[j - 1] == k);
            assert(bt.contains(k));
        }
        assert forall|k: u64| bt.to_set().contains(k) implies at.to_set().contains(k) by {
            let i = choose|i: int| 0 <= i < bt.len() && bt[i] == k;
            assert(b[i + 1] == k);
            assert(b[0] < k);
            assert(b.to_set().contains(k));
            assert(a.contains(k));
            let j = choose|j: int| 0 <= j < a.len() && a[j] == k;
            assert(j != 0);
            assert(at[j - 1] == k);
            assert(at.contains(k));
        }
        assert(at.to_set() =~= bt.to_set());
        lemma_sorted_unique_canonical(at, bt);
        assert(a.len() == b.len());
        assert forall|i: int| 0 <= i < a.len() implies a[i] == b[i] by {
            if i > 0 {
                assert(at[i - 1] == bt[i - 1]);
            }
        }
        assert(a =~= b);
    }
}

impl HashableSet {
    pub open spec fn wf(self) -> bool {
        sorted_unique(self.elements@)
    }

    pub fn new() -> (r: Self)
        ensures
            r.wf(),
            r@ == Set::<u64>::empty(),
    {
        let r = HashableSet { elements: Vec::new() };
        proof {
            assert(r@ =~= Set::<u64>::empty());
        }
        r
    }

    pub fn len(&self) -> (r: usize)
        requires
            self.wf(),
        ensures
            r == self@.len(),
    {
        proof {
            assert(self.elements@.no_duplicates());
            self.elements@.unique_seq_to_set();
        }
        self.elements.len()
    }

    #[verifier::loop_isolation(false)]
    pub fn contains(&self, x: u64) -> (r: bool)
        ensures
            r == self@.contains(x),
    {
        let mut i: usize = 0;
        while i < self.elements.len()
            invariant
                0 <= i <= self.elements@.len(),
                forall|j: int| 0 <= j < i ==> #[trigger] self.elements@[j] != x,
            decreases self.elements@.len() - i,
        {
            if self.elements[i] == x {
                assert(self.elements@.contains(x));
                return true;
            }
            i += 1;
        }
        proof {
            if self@.contains(x) {
                let j = choose|j: int|
                    0 <= j < self.elements@.len() && self.elements@[j] == x;
            }
        }
        false
    }

    /// Add an element; adding one already present changes nothing.
    #[verifier::loop_isolation(false)]
    pub fn insert(&mut self, x: u64)
        requires
            old(self).wf(),
        ensures
            final(self).wf(),
            final(self)@ == old(self)@.insert(x),
    {
        let mut i: usize = 0;
        while i < self.elements.len() && self.elements[i] < x
            invariant
                0 <= i <= self.elements@.len(),
                forall|j: int| 0 <= j < i ==> #[trigger] self.elements@[j] < x,
            decreases self.elements@.len() - i,
        {
            i += 1;
        }
        if i < self.elements.len() && self.elements[i] == x {
            proof {
                assert(self.elements@.contains(x));
                assert(self@.contains(x));
                assert(old(self)@.insert(x) =~= self@);
            }
        } else {
            let ghost o = self.elements@;
            self.elements.insert(i, x);
            proof {
                assert forall|p: int, q: int|
                    0 <= p < q < self.elements@.len() implies #[trigger] self.elements@[p]
                    < #[trigger] self.elements@[q] by {
                    if q < i {
                        assert(self.elements@[p] == o[p] && self.elements@[q] == o[q]);
                    } else if p > i {
                        assert(self.elements@[p] == o[p - 1] && self.elements@[q] == o[q - 1]);
                    } else if p < i && q == i {
                        assert(self.elements@[p] == o[p]);
                    } else if p < i && q > i {
                        assert(self.elements@[p] == o[p] && self.elements@[q] == o[q - 1]);
                    } else if p == i && q > i {
                        assert(self.elements@[q] == o[q - 1]);
                        assert(o[i as int] > x);
                        if q - 1 > i {
                            assert(o[i as int] < o[q - 1]);
                        }
                    }
                }
                assert forall|k: u64| self@.contains(k) implies old(self)@.insert(x).contains(
                    k,
                ) by {
                    let j = choose|j: int|
                        0 <= j < self.elements@.len() && self.elements@[j] == k;
                    if j < i {
                        assert(o[j] == k);
                        assert(o.contains(k));
                    } else if j > i {
                        assert(o[j - 1] == k);
                        assert(o.contains(k));
                    }
                }
                assert forall|k: u64| old(self)@.insert(x).contains(k) implies self@.contains(
                    k,
                ) by {
                    if k == x {
                        assert(self.elements@[i as int] == k);
                        assert(self.elements@.contains(k));
                    } else {
                        let j = choose|j: int| 0 <= j < o.len() && o[j] == k;
                        if j < i {
                            assert(self.elements@[j] == k);
                        } else {
                            assert(self.elements@[j + 1] == k);
                        }
                        assert(self.elements@.contains(k));
                    }
                }
                assert(self@ =~= old(self)@.insert(x));
            }
        }
    }

    /// The set of the given elements, duplicates collapsed.
    #[verifier::loop_isolation(false)]
    pub fn from_vec(items: &Vec<u64>) -> (r: Self)
        ensures
            r.wf(),
            r@ == items@.to_set(),
    {
        let mut r = HashableSet::new();
        let mut i: usize = 0;
        proof {
            assert(r@ =~= items@.take(0).to_set());
        }
        while i < items.len()
            invariant
                0 <= i <= items@.len(),
                r.wf(),
                r@ == items@.take(i as int).to_set(),
            decreases items@.len() - i,
        {
            r.insert(items[i]);
            proof {
                let pre = items@.take(i as int);
                let post = items@.take(i + 1);
                assert(post =~= pre.push(items@[i as int]));
                assert forall|k: u64| post.to_set().contains(k) implies pre.to_set().insert(
                    items@[i as int],
                ).contains(k) by {
                    let j = choose|j: int| 0 <= j < post.len() && post[j] == k;
                    if j < pre.len() {
                        assert(pre[j] == k);
                        assert(pre.contains(k));
                    }
                }
                assert forall|k: u64| pre.to_set().insert(items@[i as int]).contains(k) implies
                    post.to_set().contains(k) by {
                    if k == items@[i as int] {
                        assert(post[pre.len() as int] == k);
                    } else {
                        let j = choose|j: int| 0 <= j < pre.len() && pre[j] == k;
                        assert(post[j] == k);
                    }
                    assert(post.contains(k));
                }
                assert(r@ =~= post.to_set());
            }
            i += 1;
        }
        proof {
            assert(items@.take(items@.len() as int) =~= items@);
        }
        r
    }

    /// The elements in ascending order.
    #[verifier::loop_isolation(false)]
    pub fn iter_sorted(&self) -> (r: Vec<u64>)
        requires
            self.wf(),
        ensures
            r@ == self.elements@,
            sorted_unique(r@),
            r@.to_set() == self@,
    {
        let mut r: Vec<u64> = Vec::new();
        let mut i: usize = 0;
        while i < self.elements.len()
            invariant
                0 <= i <= self.elements@.len(),
                r@ == self.elements@.take(i as int),
            decreases self.elements@.len() - i,
        {
            r.push(self.elements[i]);
            proof {
                assert(r@ =~= self.elements@.take(i + 1));
            }
            i += 1;
        }
        proof {
            assert(self.elements@.take(self.elements@.len() as int) =~= self.elements@);
        }
        r
    }
}

impl PartialEq for HashableSet {
    /// Equal exactly when the element sequences are equal; under `wf` that
    /// is equality of the sets, whatever order built them.
    #[verifier::loop_isolation(false)]
    fn eq(&self, other: &Self) -> (r: bool) {
        if self.elements.len() != other.elements.len() {
            return false;
        }
        let mut i: usize = 0;
        while i < self.elements.len()
            invariant
                0 <= i <= self.elements@.len(),
                self.elements@.len() == other.elements@.len(),
                forall|j: int| 0 <= j < i ==> #[trigger] self.elements@[j] == other.elements@[j],
            decreases self.elements@.len() - i,
        {
            if self.elements[i] != other.elements[i] {
                return false;
            }
            i += 1;
        }
        proof {
            assert(self.elements@ =~= other.elements@);
        }
        true
    }
}

impl vstd::std_specs::cmp::PartialEqSpecImpl for HashableSet {
    open spec fn obeys_eq_spec() -> bool {
        true
    }

    open spec fn eq_spec(&self, other: &Self) -> bool {
        self.elements@ == other.elements@
    }
}

/// The law of order-insensitive equality: for well-formed sets, `==` agrees
/// exactly with equality of the abstract sets.
pub proof fn lemma_eq_is_set_eq(a: HashableSet, b: HashableSet)
    requires
        a.wf(),
        b.wf(),
    ensures
        (a.elements@ == b.elements@) <==> (a@ == b@),
{
    if a@ == b@ {
        lemma_sorted_unique_canonical(a.elements@, b.elements@);
    }
}

} // verus!
