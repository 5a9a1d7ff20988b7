//! Rings, and the pool of rings that are still to be found.

use crate::randomizer::choose_index;
use rand::rngs::StdRng;
use vstd::prelude::*;

verus! {

/// The kinds of ring. There is one ring of each kind in the world.
#[derive(Clone, Copy, Debug, PartialEq, Eq, Hash, Structural)]
pub enum Ring {
    /// Strengthens the hero's blows.
    Attack,
    /// Softens the blows the hero takes.
    Defense,
    /// Quickens the hero.
    Speed,
    /// Strengthens the hero's spells.
    Magic,
    /// Raises the hero's health.
    Health,
    /// Raises the hero's store of magic.
    Mana,
    /// Enemies are evaded while it is worn, and no loot is found.
    Evade,
    /// Every chance of finding loot is tried twice while it is worn.
    Chest,
    /// Fills the purse faster.
    Gold,
    /// Brings the hero back once.
    Revive,
}

/// Every kind of ring, once, in the order a fresh pool holds them.
pub open spec fn all_rings() -> Seq<Ring> {
    seq![
        Ring::Attack,
        Ring::Defense,
        Ring::Speed,
        Ring::Magic,
        Ring::Health,
        Ring::Mana,
        Ring::Evade,
        Ring::Chest,
        Ring::Gold,
        Ring::Revive,
    ]
}

/// `all_rings` names every kind, and names none twice.
pub proof fn lemma_all_rings()
    ensures
        all_rings().no_duplicates(),
        forall|ring: Ring| all_rings().contains(ring),
{
    let all = all_rings();
    assert forall|ring: Ring| all.contains(ring) by {
        let i: int = match ring {
            Ring::Attack => 0,
            Ring::Defense => 1,
            Ring::Speed => 2,
            Ring::Magic => 3,
            Ring::Health => 4,
            Ring::Mana => 5,
            Ring::Evade => 6,
            Ring::Chest => 7,
            Ring::Gold => 8,
            Ring::Revive => 9,
        };
        assert(all[i] == ring);
    }
}

/// What one draw from a pool does: from an empty pool it yields nothing and
/// leaves the pool as it is; from any other it yields one of the pool's rings
/// and leaves the pool without that ring.
pub open spec fn drawn(before: Seq<Ring>, ring: Option<Ring>, after: Seq<Ring>) -> bool {
    if before.len() == 0 {
        ring is None && after == before
    } else {
        exists|index: int|
            0 <= index < before.len() && ring == Some(#[trigger] before[index]) && after
                == before.remove(index)
    }
}

/// The rings nobody has found yet. Each kind is in the pool at most once; a
/// ring that is taken out is gone from the pool for good.
#[derive(Debug)]
pub struct RingPool {
    rings: Vec<Ring>,
}

impl View for RingPool {
    type V = Seq<Ring>;

    /// The remaining rings, in the order the pool keeps them.
    closed spec fn view(&self) -> Seq<Ring> {
        self.rings@
    }
}

impl RingPool {
    /// No kind occurs twice.
    pub open spec fn wf(&self) -> bool {
        self@.no_duplicates()
    }

    /// Decides [`RingPool::wf`].
    pub fn is_well_formed(&self) -> (ok: bool)
        ensures
            ok == self.wf(),
    {
        let mut i: usize = 0;
        while i < self.rings.len()
            invariant
                i <= self.rings.len(),
                forall|a: int, b: int| 0 <= a < b < i ==> self.rings@[a] != self.rings@[b],
            decreases self.rings.len() - i,
        {
            let mut j: usize = 0;
            while j < i
                invariant
                    j <= i < self.rings.len(),
                    forall|a: int| 0 <= a < j ==> self.rings@[a] != self.rings@[i as int],
                decreases i - j,
            {
                if self.rings[j] == self.rings[i] {
                    return false;
                }
                j += 1;
            }
            i += 1;
        }
        true
    }

    /// A pool that holds one ring of every kind.
    pub fn new() -> (pool: RingPool)
        ensures
            pool.wf(),
            pool@ == all_rings(),
    {
        let mut rings: Vec<Ring> = Vec::new();
        rings.push(Ring::Attack);
        rings.push(Ring::Defense);
        rings.push(Ring::Speed);
        rings.push(Ring::Magic);
        rings.push(Ring::Health);
        rings.push(Ring::Mana);
        rings.push(Ring::Evade);
        rings.push(Ring::Chest);
        rings.push(Ring::Gold);
        rings.push(Ring::Revive);
        proof {
            lemma_all_rings();
            assert(rings@ =~= all_rings());
        }
        RingPool { rings }
    }

    /// A pool that holds no ring.
    pub fn empty() -> (pool: RingPool)
        ensures
            pool.wf(),
            pool@.len() == 0,
    {
        RingPool { rings: Vec::new() }
    }

    /// A pool of the given rings. A kind that is given more than once is in
    /// the pool once.
    pub fn with_rings(rings: &Vec<Ring>) -> (pool: RingPool)
        ensures
            pool.wf(),
            forall|ring: Ring| pool@.contains(ring) <==> rings@.contains(ring),
            rings@.no_duplicates() ==> pool@ == rings@,
    {
        let mut pool = RingPool::empty();
        let mut i: usize = 0;
        while i < rings.len()
            invariant
                i <= rings.len(),
                pool.wf(),
                forall|ring: Ring| pool@.contains(ring) <==> rings@.take(i as int).contains(ring),
                rings@.no_duplicates() ==> pool@ == rings@.take(i as int),
            decreases rings.len() - i,
        {
            let ghost seen = rings@.take(i as int);
            let ghost before = pool@;
            let ring = rings[i];
            let added = pool.insert(ring);
            proof {
                let next = rings@.take(i + 1);
                assert(next =~= seen.push(ring));
                assert forall|other: Ring| pool@.contains(other) <==> next.contains(other) by {
                    if pool@.contains(other) {
                        let p = choose|p: int| 0 <= p < pool@.len() && pool@[p] == other;
                        if p < before.len() {
                            assert(before[p] == other);
                            assert(before.contains(other));
                            let q = choose|q: int| 0 <= q < seen.len() && seen[q] == other;
                            assert(next[q] == other);
                        } else {
                            assert(next[i as int] == other);
                        }
                    }
                    if next.contains(other) {
                        let q = choose|q: int| 0 <= q < next.len() && next[q] == other;
                        if q < i {
                            assert(seen[q] == other);
                            assert(before.contains(other));
                            let p = choose|p: int| 0 <= p < before.len() && before[p] == other;
                            assert(pool@[p] == other);
                        } else {
                            assert(other == ring);
                            if added {
                                assert(pool@[before.len() as int] == ring);
                            }
                        }
                    }
                }
                if rings@.no_duplicates() {
                    assert(!seen.contains(ring)) by {
                        if seen.contains(ring) {
                            let q = choose|q: int| 0 <= q < seen.len() && seen[q] == ring;
                            assert(rings@[q] == rings@[i as int]);
                        }
                    }
                }
            }
            i += 1;
        }
        assert(rings@.take(i as int) =~= rings@);
        pool
    }

    /// How many rings remain.
    pub fn len(&self) -> (n: usize)
        ensures
            n == self@.len(),
    {
        self.rings.len()
    }

    /// Whether no ring remains.
    pub fn is_empty(&self) -> (none_left: bool)
        ensures
            none_left == (self@.len() == 0),
    {
        self.rings.len() == 0
    }

    /// Whether a ring of the given kind remains.
    pub fn contains(&self, ring: Ring) -> (found: bool)
        ensures
            found == self@.contains(ring),
    {
        let mut i: usize = 0;
        while i < self.rings.len()
            invariant
                i <= self.rings.len(),
                forall|j: int| 0 <= j < i ==> self.rings@[j] != ring,
            decreases self.rings.len() - i,
        {
            if self.rings[i] == ring {
                return true;
            }
            i += 1;
        }
        false
    }

    /// Puts a ring into the pool unless its kind is there already. Returns
    /// whether the pool grew.
    pub fn insert(&mut self, ring: Ring) -> (added: bool)
        requires
            old(self).wf(),
        ensures
            final(self).wf(),
            added == !old(self)@.contains(ring),
            final(self)@ == if added {
                old(self)@.push(ring)
            } else {
                old(self)@
            },
    {
        if self.contains(ring) {
            false
        } else {
            self.rings.push(ring);
            true
        }
    }

    /// Takes out the ring at `index`. With an index past the end, nothing is
    /// taken.
    pub fn take_at(&mut self, index: usize) -> (ring: Option<Ring>)
        requires
            old(self).wf(),
        ensures
            final(self).wf(),
            index < old(self)@.len() ==> ring == Some(old(self)@[index as int]) && final(self)@
                == old(self)@.remove(index as int),
            index >= old(self)@.len() ==> ring is None && final(self)@ == old(self)@,
    {
        if index < self.rings.len() {
            let ring = self.rings.remove(index);
            proof {
                lemma_remove_keeps_distinct(old(self)@, index as int);
            }
            Some(ring)
        } else {
            None
        }
    }

    /// Takes a ring out of the pool at random, each remaining ring with the
    /// same probability. An empty pool yields nothing, which is no error.
    pub fn try_take_random(&mut self, rng: &mut StdRng) -> (ring: Option<Ring>)
        requires
            old(self).wf(),
        ensures
            final(self).wf(),
            drawn(old(self)@, ring, final(self)@),
    {
        match choose_index(rng, self.rings.len()) {
            Some(index) => self.take_at(index),
            None => None,
        }
    }

    /// The remaining rings, in the pool's order.
    pub fn rings(&self) -> (list: Vec<Ring>)
        ensures
            list@ == self@,
    {
        let mut list: Vec<Ring> = Vec::new();
        let mut i: usize = 0;
        while i < self.rings.len()
            invariant
                i <= self.rings.len(),
                list@ == self.rings@.take(i as int),
            decreases self.rings.len() - i,
        {
            list.push(self.rings[i]);
            assert(self.rings@.take(i + 1) =~= self.rings@.take(i as int).push(self.rings@[i as int]));
            i += 1;
        }
        assert(self.rings@.take(i as int) =~= self.rings@);
        list
    }
}

/// Taking one element out of a sequence without duplicates leaves a sequence
/// without duplicates, which holds what the first held but for that element.
pub proof fn lemma_remove_keeps_distinct(rings: Seq<Ring>, index: int)
    requires
        rings.no_duplicates(),
        0 <= index < rings.len(),
    ensures
        rings.remove(index).no_duplicates(),
        !rings.remove(index).contains(rings[index]),
        forall|ring: Ring|
            rings.remove(index).contains(ring) <==> (rings.contains(ring) && ring != rings[index]),
{
    let rest = rings.remove(index);
    assert forall|i: int, j: int| 0 <= i < rest.len() && 0 <= j < rest.len() && i != j implies rest[i]
        != rest[j] by {
        let a = if i < index { i } else { i + 1 };
        let b = if j < index { j } else { j + 1 };
        assert(rest[i] == rings[a]);
        assert(rest[j] == rings[b]);
    }
    assert forall|ring: Ring| rest.contains(ring) <==> (rings.contains(ring) && ring
        != rings[index]) by {
        if rest.contains(ring) {
            let i = choose|i: int| 0 <= i < rest.len() && rest[i] == ring;
            let a = if i < index { i } else { i + 1 };
            assert(rings[a] == ring);
        }
        if rings.contains(ring) && ring != rings[index] {
            let a = choose|a: int| 0 <= a < rings.len() && rings[a] == ring;
            let i = if a < index { a } else { a - 1 };
            assert(rest[i] == ring);
        }
    }
}

/// A run of draws from one pool: `pools[k]` is the pool before draw `k` and
/// `pools[k + 1]` the pool after it, and `rings[k]` is what the draw yielded.
pub open spec fn run_of_draws(pools: Seq<Seq<Ring>>, rings: Seq<Option<Ring>>) -> bool {
    &&& pools.len() == rings.len() + 1
    &&& forall|k: int| 0 <= k < rings.len() ==> drawn(#[trigger] pools[k], rings[k], pools[k + 1])
}

/// Drawing from a pool until it is empty yields every ring it held, each
/// once: of a run of draws from a pool of `n` rings the first `n` draws each
/// yield a ring of the pool, no two of them the same, the pool shrinks by one
/// with each, and every later draw yields nothing.
pub proof fn lemma_draws_exhaust_pool(pools: Seq<Seq<Ring>>, rings: Seq<Option<Ring>>)
    requires
        run_of_draws(pools, rings),
        pools[0].no_duplicates(),
    ensures
        forall|k: int|
            0 <= k < rings.len() ==> (#[trigger] rings[k] is Some <==> k < pools[0].len()),
        forall|k: int|
            0 <= k <= rings.len() ==> (#[trigger] pools[k]).no_duplicates() && pools[k].len() == (
            if k < pools[0].len() {
                pools[0].len() - k
            } else {
                0
            }),
        forall|k: int, ring: Ring|
            0 <= k <= rings.len() && (#[trigger] pools[k]).contains(ring) ==> #[trigger] pools[0].contains(
                ring,
            ),
        forall|k: int|
            0 <= k < rings.len() && #[trigger] rings[k] is Some ==> pools[0].contains(rings[k]->0),
        forall|j: int, k: int|
            0 <= j < k <= rings.len() && rings[j] is Some ==> !(#[trigger] pools[k]).contains(
                (#[trigger] rings[j])->0,
            ),
        forall|j: int, k: int|
            0 <= j < k < rings.len() && rings[j] is Some && rings[k] is Some ==> #[trigger] rings[j]
                != #[trigger] rings[k],
    decreases rings.len(),
{
    if rings.len() > 0 {
        let last = rings.len() - 1;
        let before = pools.drop_last();
        let earlier = rings.drop_last();
        assert(run_of_draws(before, earlier)) by {
            assert forall|k: int| 0 <= k < earlier.len() implies drawn(
                #[trigger] before[k],
                earlier[k],
                before[k + 1],
            ) by {
                assert(before[k] == pools[k]);
                assert(drawn(pools[k], rings[k], pools[k + 1]));
            }
        }
        assert(before[0] == pools[0]);
        lemma_draws_exhaust_pool(before, earlier);
        assert forall|k: int| 0 <= k < last implies rings[k] == earlier[k] by {}
        assert forall|k: int| 0 <= k <= last implies pools[k] == before[k] by {}
        let pool = pools[last];
        assert(pool == before[last]);
        assert(drawn(pool, rings[last], pools[last + 1]));
        if pool.len() > 0 {
            let index = choose|index: int|
                0 <= index < pool.len() && rings[last] == Some(#[trigger] pool[index]) && pools[last
                    + 1] == pool.remove(index);
            lemma_remove_keeps_distinct(pool, index);
            assert(pool.contains(pool[index]));
        }
        assert forall|j: int, k: int|
            0 <= j < k <= rings.len() && rings[j] is Some implies !(#[trigger] pools[k]).contains(
            (#[trigger] rings[j])->0,
        ) by {
            if k <= last {
                assert(pools[k] == before[k]);
                assert(rings[j] == earlier[j]);
            } else if j < last {
                assert(rings[j] == earlier[j]);
                assert(!before[last].contains(earlier[j]->0));
            }
        }
        assert forall|j: int, k: int|
            0 <= j < k < rings.len() && rings[j] is Some && rings[k] is Some implies #[trigger] rings[j]
            != #[trigger] rings[k] by {
            if k < last {
                assert(rings[j] == earlier[j]);
                assert(rings[k] == earlier[k]);
            } else {
                assert(!pools[last].contains(rings[j]->0));
            }
        }
    }
}

} // verus!
