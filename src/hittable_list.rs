use vstd::prelude::*;

verus! {

/// An ordered, append-only collection of primitives.
pub struct HittableList<T> {
    pub objects: Vec<T>,
}

impl<T> HittableList<T> {
    pub open spec fn view(&self) -> Seq<T> {
        self.objects@
    }

    pub fn new() -> (r: Self)
        ensures
            r@ == Seq::<T>::empty(),
    {
        HittableList { objects: Vec::new() }
    }

    pub fn clear(&mut self)
        ensures
            final(self)@ == Seq::<T>::empty(),
    {
        self.objects.clear();
    }

    pub fn add(&mut self, object: T)
        ensures
            final(self)@ == old(self)@.push(object),
    {
        self.objects.push(object);
    }

    pub fn len(&self) -> (r: usize)
        ensures
            r == self@.len(),
    {
        self.objects.len()
    }
}

impl<T> Default for HittableList<T> {
    fn default() -> (r: Self)
        ensures
            r@ == Seq::<T>::empty(),
    {
        Self::new()
    }
}

/// Whether any primitive reported a hit.
pub open spec fn any_hit(hits: Seq<Option<u64>>) -> bool {
    exists|j: int| 0 <= j < hits.len() && hits[j] is Some
}

/// `hits[i]` is the nearest hit: present, no farther than any other hit, and
/// strictly nearer than every hit after it (of equal hits the last one wins,
/// as a scan that accepts a hit at its current bound would find).
pub open spec fn nearest_at(hits: Seq<Option<u64>>, i: int) -> bool {
    &&& 0 <= i < hits.len()
    &&& hits[i] is Some
    &&& forall|j: int| 0 <= j < hits.len() && hits[j] is Some ==> hits[i]->0 <= hits[j]->0
    &&& forall|j: int| i < j < hits.len() && hits[j] is Some ==> hits[i]->0 < hits[j]->0
}

/// Picks the nearest of the hits that the primitives of a world reported, in
/// order: `hits[j]` is the order key (see `order_key`) of the ray parameter at
/// which primitive `j` was hit within the searched interval, or `None`.
/// The scan keeps the closest parameter so far as the bound and accepts a hit
/// at or below it.
pub fn closest_hit(hits: &Vec<Option<u64>>) -> (r: Option<usize>)
    ensures
        r is None <==> !any_hit(hits@),
        r matches Some(i) ==> nearest_at(hits@, i as int),
{
    let mut best: Option<usize> = None;
    let mut closest_so_far: u64 = u64::MAX;
    let n = hits.len();
    let mut i: usize = 0;
    while i < n
        invariant
            n == hits@.len(),
            i <= n,
            best is None <==> forall|j: int| 0 <= j < i ==> hits@[j] is None,
            best is None ==> closest_so_far == u64::MAX,
            best matches Some(b) ==> {
                &&& b < i
                &&& hits@[b as int] == Some(closest_so_far)
                &&& forall|j: int| 0 <= j < i && hits@[j] is Some ==> closest_so_far <= hits@[j]->0
                &&& forall|j: int| b < j < i && hits@[j] is Some ==> closest_so_far < hits@[j]->0
            },
        decreases n - i,
    {
        match hits[i] {
            Some(t) => {
                if t <= closest_so_far {
                    best = Some(i);
                    closest_so_far = t;
                }
            },
            None => {},
        }
        i = i + 1;
    }
    best
}

/// The nearest hit does not depend on the order of the primitives: for two
/// worlds holding the same primitives in any order, one has a hit exactly when
/// the other has, and their nearest hits are at the same ray parameter.
pub proof fn lemma_nearest_hit_order_independent(
    a: Seq<Option<u64>>,
    b: Seq<Option<u64>>,
    i: int,
    j: int,
)
    requires
        a.to_multiset() == b.to_multiset(),
    ensures
        any_hit(a) <==> any_hit(b),
        nearest_at(a, i) && nearest_at(b, j) ==> a[i] == b[j],
{
    broadcast use vstd::seq_lib::group_to_multiset_ensures;

    assert forall|x: Option<u64>| a.contains(x) <==> b.contains(x) by {
        assert(a.contains(x) <==> a.to_multiset().count(x) > 0);
        assert(b.contains(x) <==> b.to_multiset().count(x) > 0);
    }
    if any_hit(a) {
        let k = choose|k: int| 0 <= k < a.len() && a[k] is Some;
        assert(a.contains(a[k]));
        assert(b.contains(a[k]));
    }
    if any_hit(b) {
        let k = choose|k: int| 0 <= k < b.len() && b[k] is Some;
        assert(b.contains(b[k]));
        assert(a.contains(b[k]));
    }
    if nearest_at(a, i) && nearest_at(b, j) {
        assert(a.contains(a[i]));
        assert(b.contains(a[i]));
        let ka = choose|k: int| 0 <= k < b.len() && b[k] == a[i];
        assert(b[j]->0 <= a[i]->0);
        assert(b.contains(b[j]));
        assert(a.contains(b[j]));
        let kb = choose|k: int| 0 <= k < a.len() && a[k] == b[j];
        assert(a[i]->0 <= b[j]->0);
    }
}

} // verus!
