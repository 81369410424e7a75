use vstd::prelude::*;

use crate::kv::str_eq;
use crate::render::conveyor::Conveyor;
use crate::render::conveyor::ConveyorModel;

verus! {

/// An empty, clean registry model.
pub open spec fn empty_conveyor_model() -> ConveyorModel {
    ConveyorModel {
        dirty: false,
        gadgets: Map::empty(),
        groups: Seq::empty(),
        bundles: Seq::empty(),
    }
}

/// Whether some pool entry carries the key.
pub open spec fn pool_has_key(s: Seq<(Seq<char>, ConveyorModel)>, k: Seq<char>) -> bool {
    exists|i: int| 0 <= i < s.len() && (#[trigger] s[i]).0 == k
}

/// The first position of `k` among the pool keys, or the pool's length when
/// no entry carries it.
pub open spec fn pool_key_index(s: Seq<(Seq<char>, ConveyorModel)>, k: Seq<char>) -> int
    decreases s.len(),
{
    if s.len() == 0 {
        0
    } else if s[0].0 == k {
        0
    } else {
        1 + pool_key_index(s.drop_first(), k)
    }
}

/// The pool after one acquire: a present key keeps the pool as it is; an
/// absent key appends a fresh empty registry.
pub open spec fn pool_acquire_pool(s: Seq<(Seq<char>, ConveyorModel)>, k: Seq<char>) -> Seq<
    (Seq<char>, ConveyorModel),
> {
    if pool_has_key(s, k) {
        s
    } else {
        s.push((k, empty_conveyor_model()))
    }
}

/// The position of the entry an acquire hands out.
pub open spec fn pool_acquire_idx(s: Seq<(Seq<char>, ConveyorModel)>, k: Seq<char>) -> int {
    if pool_has_key(s, k) {
        pool_key_index(s, k)
    } else {
        s.len() as int
    }
}

/// The pool transition of one acquire, as a pair.
pub open spec fn pool_acquire_model(s: Seq<(Seq<char>, ConveyorModel)>, k: Seq<char>) -> (
    Seq<(Seq<char>, ConveyorModel)>,
    int,
) {
    (pool_acquire_pool(s, k), pool_acquire_idx(s, k))
}

/// The first position of a present key carries it, and nothing before it
/// does; an absent key's position is the pool's length.
pub proof fn lemma_pool_key_index(s: Seq<(Seq<char>, ConveyorModel)>, k: Seq<char>)
    ensures
        pool_has_key(s, k) ==> {
            let i = pool_key_index(s, k);
            &&& 0 <= i < s.len()
            &&& s[i].0 == k
            &&& forall|j: int| 0 <= j < i ==> (#[trigger] s[j]).0 != k
        },
        !pool_has_key(s, k) ==> pool_key_index(s, k) == s.len(),
    decreases s.len(),
{
    if s.len() > 0 && s[0].0 != k {
        let rest = s.drop_first();
        assert(forall|j: int| 0 <= j < rest.len() ==> rest[j] == s[j + 1]);
        lemma_pool_key_index(rest, k);
        if pool_has_key(s, k) {
            let w = choose|i: int| 0 <= i < s.len() && (#[trigger] s[i]).0 == k;
            assert(w >= 1);
            assert(rest[w - 1].0 == k);
            assert(pool_has_key(rest, k));
            let i = pool_key_index(s, k);
            assert(i == 1 + pool_key_index(rest, k));
            assert(s[i].0 == rest[i - 1].0);
            assert forall|j: int| 0 <= j < i implies (#[trigger] s[j]).0 != k by {
                if j >= 1 {
                    assert(rest[j - 1].0 != k);
                }
            }
        } else {
            assert(!pool_has_key(rest, k)) by {
                assert(forall|j: int| 0 <= j < s.len() ==> (#[trigger] s[j]).0 != k);
                assert(forall|j: int| 0 <= j < rest.len() ==> (#[trigger] rest[j]).0 != k);
            }
        }
    }
}

/// A keyed pool handing out one registry per distinct identity, created
/// lazily and never evicted: entries accumulate for the pool's lifetime.
pub struct ConveyorManager {
    pub conveyor_pool: Vec<(String, Conveyor)>,
}

impl View for ConveyorManager {
    type V = Seq<(Seq<char>, ConveyorModel)>;

    open spec fn view(&self) -> Seq<(Seq<char>, ConveyorModel)> {
        Seq::new(self.conveyor_pool@.len(), |i: int| (self.conveyor_pool@[i].0@, self.conveyor_pool@[i].1@))
    }
}

/// No two pool entries share an identity.
pub open spec fn pool_keys_distinct(s: Seq<(Seq<char>, ConveyorModel)>) -> bool {
    forall|i: int, j: int| 0 <= i < j < s.len() ==> (#[trigger] s[i]).0 != (#[trigger] s[j]).0
}

impl ConveyorManager {
    /// Every pooled registry is well formed.
    pub open spec fn convs_ok(&self) -> bool {
        forall|i: int|
            0 <= i < self.conveyor_pool@.len() ==> (#[trigger] self.conveyor_pool@[i]).1.inv()
    }

    /// Every pooled registry is well formed and the identities are distinct.
    pub open spec fn inv(&self) -> bool {
        &&& self.convs_ok()
        &&& pool_keys_distinct(self@)
    }

    /// An empty pool.
    pub fn new() -> (m: ConveyorManager)
        ensures
            m@ == Seq::<(Seq<char>, ConveyorModel)>::empty(),
            m.inv(),
    {
        let m = ConveyorManager { conveyor_pool: Vec::new() };
        proof {
            assert(m@ =~= Seq::<(Seq<char>, ConveyorModel)>::empty());
        }
        m
    }

    /// The number of pooled registries.
    pub fn len(&self) -> (n: usize)
        ensures
            n == self@.len(),
    {
        self.conveyor_pool.len()
    }

    /// Finds the position of an identity in the pool.
    fn find_conveyor(&self, identifier: &str) -> (r: Option<usize>)
        ensures
            match r {
                Some(i) => i < self@.len() && self@[i as int].0 == identifier@ && forall|j: int|
                    0 <= j < i ==> (#[trigger] self@[j]).0 != identifier@,
                None => forall|i: int| 0 <= i < self@.len() ==> (#[trigger] self@[i]).0 != identifier@,
            },
    {
        let n = self.conveyor_pool.len();
        for i in 0..n
            invariant
                n == self.conveyor_pool@.len(),
                forall|k: int| 0 <= k < i ==> (#[trigger] self@[k]).0 != identifier@,
        {
            if str_eq(self.conveyor_pool[i].0.as_str(), identifier) {
                return Some(i);
            }
        }
        None
    }

    /// The registry pooled under the identity, if any, without creating one.
    pub fn get_conveyor(&self, identifier: &str) -> (r: Option<&Conveyor>)
        ensures
            match r {
                Some(c) => pool_has_key(self@, identifier@) && c@ == self@[pool_key_index(
                    self@,
                    identifier@,
                )].1,
                None => !pool_has_key(self@, identifier@),
            },
    {
        let found = self.find_conveyor(identifier);
        match found {
            Some(i) => {
                proof {
                    lemma_key_index_first(self@, identifier@, i as int);
                }
                Some(&self.conveyor_pool[i].1)
            },
            None => None,
        }
    }

    /// Returns the registry pooled under the identity, creating, storing and
    /// returning a fresh empty one when the identity was never seen. There is
    /// no eviction: the entry persists for the pool's lifetime.
    pub fn acquire_attr_conveyor(&mut self, identifier: &str) -> (c: &mut Conveyor)
        requires
            old(self).inv(),
        ensures
            0 <= pool_acquire_idx(old(self)@, identifier@) < pool_acquire_pool(
                old(self)@,
                identifier@,
            ).len(),
            pool_acquire_pool(old(self)@, identifier@)[pool_acquire_idx(old(self)@, identifier@)].0
                == identifier@,
            (*c)@ == pool_acquire_pool(old(self)@, identifier@)[pool_acquire_idx(
                old(self)@,
                identifier@,
            )].1,
            c.inv(),
            final(self)@ == pool_acquire_pool(old(self)@, identifier@).update(
                pool_acquire_idx(old(self)@, identifier@),
                (identifier@, final(c)@),
            ),
            final(c).inv() ==> final(self).convs_ok(),
    {
        proof {
            lemma_pool_key_index(old(self)@, identifier@);
        }
        let found = self.find_conveyor(identifier);
        let idx = match found {
            Some(i) => i,
            None => {
                let fresh = Conveyor::new();
                self.conveyor_pool.push((identifier.to_owned(), fresh));
                proof {
                    assert(self@ =~= old(self)@.push((identifier@, empty_conveyor_model())));
                }
                self.conveyor_pool.len() - 1
            },
        };
        proof {
            let (pool1, midx) = pool_acquire_model(old(self)@, identifier@);
            assert(midx == idx as int);
            assert(self@ =~= pool1);
        }
        &mut self.conveyor_pool[idx].1
    }

    /// Like [`ConveyorManager::acquire_attr_conveyor`], but returns the
    /// entry's position; the frame loop takes the registry out by position
    /// while it works on it and puts it back afterwards.
    pub fn acquire_index(&mut self, identifier: &str) -> (idx: usize)
        requires
            old(self).inv(),
        ensures
            final(self)@ == pool_acquire_pool(old(self)@, identifier@),
            idx as int == pool_acquire_idx(old(self)@, identifier@),
            idx < final(self)@.len(),
            final(self)@[idx as int].0 == identifier@,
            final(self).inv(),
    {
        proof {
            lemma_pool_key_index(old(self)@, identifier@);
        }
        let found = self.find_conveyor(identifier);
        match found {
            Some(i) => {
                proof {
                    lemma_key_index_first(self@, identifier@, i as int);
                    assert(self@ =~= pool_acquire_pool(old(self)@, identifier@));
                }
                i
            },
            None => {
                let fresh = Conveyor::new();
                self.conveyor_pool.push((identifier.to_owned(), fresh));
                proof {
                    assert(self@ =~= pool_acquire_pool(old(self)@, identifier@));
                }
                self.conveyor_pool.len() - 1
            },
        }
    }

    /// Takes a pooled registry out by position, together with its identity.
    pub fn take_conveyor(&mut self, idx: usize) -> (e: (String, Conveyor))
        requires
            old(self).inv(),
            idx < old(self)@.len(),
        ensures
            e.0@ == old(self)@[idx as int].0,
            e.1@ == old(self)@[idx as int].1,
            e.1.inv(),
            final(self)@ == old(self)@.remove(idx as int),
            final(self).inv(),
            forall|j: int|
                0 <= j < final(self)@.len() ==> (#[trigger] final(self)@[j]).0 != e.0@,
    {
        let e = self.conveyor_pool.remove(idx);
        proof {
            assert(self@ =~= old(self)@.remove(idx as int));
            assert(e.0@ == old(self)@[idx as int].0);
            assert forall|j: int| 0 <= j < self@.len() implies (#[trigger] self@[j]).0 != e.0@ by {
                if j < idx as int {
                    assert(self@[j] == old(self)@[j]);
                    assert(old(self)@[j].0 != old(self)@[idx as int].0);
                } else {
                    assert(self@[j] == old(self)@[j + 1]);
                    assert(old(self)@[idx as int].0 != old(self)@[j + 1].0);
                }
            }
        }
        e
    }

    /// Puts a registry back at a position, under an identity no other entry
    /// carries.
    pub fn put_conveyor(&mut self, idx: usize, entry: (String, Conveyor))
        requires
            old(self).inv(),
            idx <= old(self)@.len(),
            entry.1.inv(),
            forall|j: int|
                0 <= j < old(self)@.len() ==> (#[trigger] old(self)@[j]).0 != entry.0@,
        ensures
            final(self)@ == old(self)@.insert(idx as int, (entry.0@, entry.1@)),
            final(self).inv(),
    {
        let ghost em = (entry.0@, entry.1@);
        self.conveyor_pool.insert(idx, entry);
        proof {
            assert(self@ =~= old(self)@.insert(idx as int, em));
            assert(pool_keys_distinct(self@)) by {
                assert(forall|j: int|
                    0 <= j < idx as int ==> #[trigger] self@[j] == old(self)@[j]);
                assert(self@[idx as int] == em);
                assert(forall|j: int|
                    (idx as int) < j < self@.len() ==> #[trigger] self@[j] == old(self)@[j - 1]);
            }
        }
    }
}

/// An acquire keeps the pool identities distinct, whatever the borrowed
/// registry was turned into.
pub proof fn lemma_pool_acquire_distinct(
    s: Seq<(Seq<char>, ConveyorModel)>,
    k: Seq<char>,
    c: ConveyorModel,
)
    requires
        pool_keys_distinct(s),
    ensures
        pool_keys_distinct(
            pool_acquire_pool(s, k).update(pool_acquire_idx(s, k), (k, c)),
        ),
{
    lemma_pool_key_index(s, k);
    let t = pool_acquire_pool(s, k).update(pool_acquire_idx(s, k), (k, c));
    if pool_has_key(s, k) {
        let idx = pool_key_index(s, k);
        assert(forall|i: int| 0 <= i < t.len() ==> (#[trigger] t[i]).0 == s[i].0);
    } else {
        assert(forall|i: int| 0 <= i < s.len() ==> (#[trigger] t[i]).0 == s[i].0);
        assert(t[s.len() as int].0 == k);
        assert(forall|i: int| 0 <= i < s.len() ==> (#[trigger] s[i]).0 != k);
    }
}

/// The full pool invariant holds again once the borrowed registry has been
/// restored to a well-formed state.
pub proof fn lemma_acquired_inv(
    m: ConveyorManager,
    s0: Seq<(Seq<char>, ConveyorModel)>,
    k: Seq<char>,
    c: ConveyorModel,
)
    requires
        pool_keys_distinct(s0),
        m.convs_ok(),
        m@ == pool_acquire_pool(s0, k).update(pool_acquire_idx(s0, k), (k, c)),
    ensures
        m.inv(),
{
    lemma_pool_acquire_distinct(s0, k, c);
}

/// Law: acquiring the same identity twice hands out the same pooled entry,
/// and the second acquire leaves the pool exactly as it was; acquiring two
/// distinct identities hands out distinct entries. Entries persist: an
/// acquire never removes or displaces one.
pub proof fn lemma_pool_acquire_idempotent(
    s: Seq<(Seq<char>, ConveyorModel)>,
    k1: Seq<char>,
    k2: Seq<char>,
)
    ensures
        ({
            let s1 = pool_acquire_pool(s, k1);
            &&& pool_acquire_pool(s1, k1) == s1
            &&& pool_acquire_idx(s1, k1) == pool_acquire_idx(s, k1)
            &&& s1[pool_acquire_idx(s, k1)].0 == k1
            &&& s.len() <= s1.len()
            &&& forall|i: int| 0 <= i < s.len() ==> s1[i] == s[i]
            &&& (k1 != k2 ==> pool_acquire_idx(pool_acquire_pool(s1, k2), k1)
                != pool_acquire_idx(pool_acquire_pool(s1, k2), k2))
        }),
{
    lemma_pool_key_index(s, k1);
    let s1 = pool_acquire_pool(s, k1);
    assert(pool_has_key(s1, k1)) by {
        if pool_has_key(s, k1) {
        } else {
            assert(s1[s.len() as int].0 == k1);
        }
    }
    lemma_pool_key_index(s1, k1);
    if k1 != k2 {
        let s2 = pool_acquire_pool(s1, k2);
        assert(pool_has_key(s2, k1)) by {
            let i1 = pool_key_index(s1, k1);
            assert(s2[i1].0 == k1);
        }
        lemma_pool_key_index(s2, k1);
        lemma_pool_key_index(s2, k2);
        assert(pool_has_key(s2, k2)) by {
            if pool_has_key(s1, k2) {
                let w = choose|i: int| 0 <= i < s1.len() && (#[trigger] s1[i]).0 == k2;
                assert(s2[w].0 == k2);
            } else {
                assert(s2[s1.len() as int].0 == k2);
            }
        }
        assert(s2[pool_acquire_idx(s2, k1)].0 == k1);
        assert(s2[pool_acquire_idx(s2, k2)].0 == k2);
        assert(pool_acquire_idx(s2, k1) == pool_acquire_idx(s1, k1)) by {
            let i1 = pool_key_index(s1, k1);
            assert(forall|j: int| 0 <= j < i1 ==> (#[trigger] s2[j]).0 != k1);
            assert(s2[i1].0 == k1);
            lemma_key_index_first(s2, k1, i1);
        }
    }
}

/// A position that carries the key and is preceded by none that does is the
/// key's first position.
proof fn lemma_key_index_first(s: Seq<(Seq<char>, ConveyorModel)>, k: Seq<char>, i: int)
    requires
        0 <= i < s.len(),
        s[i].0 == k,
        forall|j: int| 0 <= j < i ==> (#[trigger] s[j]).0 != k,
    ensures
        pool_key_index(s, k) == i,
    decreases s.len(),
{
    if i > 0 {
        let rest = s.drop_first();
        assert(forall|j: int| 0 <= j < rest.len() ==> rest[j] == s[j + 1]);
        lemma_key_index_first(rest, k, i - 1);
    }
}

} // verus!
