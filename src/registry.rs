use vstd::prelude::*;
use crate::module::ModuleClass;

verus! {

/// One registration: `spawner` handles the routed events of `class`.
#[derive(Clone, Copy, PartialEq, Eq, Structural, Debug)]
pub struct SpawnerEntry {
    pub class: ModuleClass,
    pub spawner: u64,
}

/// The spawners registered for `class`, in registration order.
pub open spec fn spawners_of(entries: Seq<SpawnerEntry>, class: ModuleClass) -> Seq<u64>
    decreases entries.len(),
{
    if entries.len() == 0 {
        Seq::empty()
    } else {
        let prev = spawners_of(entries.drop_last(), class);
        if entries.last().class == class {
            prev.push(entries.last().spawner)
        } else {
            prev
        }
    }
}

/// The class under which `spawner` was registered last, if any.
pub open spec fn class_of_spawner(entries: Seq<SpawnerEntry>, spawner: u64) -> Option<ModuleClass>
    decreases entries.len(),
{
    if entries.len() == 0 {
        None
    } else if entries.last().spawner == spawner {
        Some(entries.last().class)
    } else {
        class_of_spawner(entries.drop_last(), spawner)
    }
}

/// A spawner id is listed for `class` exactly when some registration pairs them.
pub proof fn lemma_spawners_of_contains(entries: Seq<SpawnerEntry>, class: ModuleClass, s: u64)
    ensures
        spawners_of(entries, class).contains(s) <==> exists|i: int|
            0 <= i < entries.len() && #[trigger] entries[i] == (SpawnerEntry { class, spawner: s }),
    decreases entries.len(),
{
    if entries.len() > 0 {
        let prev = entries.drop_last();
        lemma_spawners_of_contains(prev, class, s);
        if spawners_of(entries, class).contains(s) {
            if entries.last() != (SpawnerEntry { class, spawner: s }) {
                assert(spawners_of(prev, class).contains(s)) by {
                    if entries.last().class == class {
                        let j = choose|j: int|
                            0 <= j < spawners_of(entries, class).len()
                                && spawners_of(entries, class)[j] == s;
                        assert(j < spawners_of(prev, class).len());
                        assert(spawners_of(prev, class)[j] == s);
                    }
                }
                let i = choose|i: int|
                    0 <= i < prev.len() && #[trigger] prev[i] == (SpawnerEntry { class, spawner: s });
                assert(entries[i] == prev[i]);
            } else {
                assert(entries[entries.len() - 1] == (SpawnerEntry { class, spawner: s }));
            }
        }
        if exists|i: int|
            0 <= i < entries.len() && #[trigger] entries[i] == (SpawnerEntry { class, spawner: s }) {
            let i = choose|i: int|
                0 <= i < entries.len() && #[trigger] entries[i] == (SpawnerEntry { class, spawner: s });
            if i == entries.len() - 1 {
                let r = spawners_of(entries, class);
                assert(r[r.len() - 1] == s);
            } else {
                assert(prev[i] == entries[i]);
                let p = spawners_of(prev, class);
                let j = choose|j: int| 0 <= j < p.len() && p[j] == s;
                if entries.last().class == class {
                    assert(spawners_of(entries, class)[j] == s);
                }
            }
        }
    }
}

/// Registered spawner ids appear in one registration each.
pub open spec fn spawners_distinct(entries: Seq<SpawnerEntry>) -> bool {
    forall|i: int, j: int|
        0 <= i < entries.len() && 0 <= j < entries.len() && #[trigger] entries[i].spawner
            == #[trigger] entries[j].spawner ==> i == j
}

/// Mapping from module class to the spawners registered for it.
pub struct ModuleSpawnerConfig {
    pub observers: Vec<SpawnerEntry>,
}

impl ModuleSpawnerConfig {
    /// An empty registry.
    pub fn new() -> (r: ModuleSpawnerConfig)
        ensures
            r.observers@ == Seq::<SpawnerEntry>::empty(),
    {
        ModuleSpawnerConfig { observers: Vec::new() }
    }

    /// Appends `spawner` to the list of `class`; other classes keep theirs.
    pub fn register(&mut self, class: ModuleClass, spawner: u64)
        ensures
            final(self).observers@ == old(self).observers@.push(SpawnerEntry { class, spawner }),
            spawners_of(final(self).observers@, class) == spawners_of(old(self).observers@, class).push(spawner),
            forall|c: ModuleClass|
                c != class ==> spawners_of(final(self).observers@, c) == spawners_of(old(self).observers@, c),
    {
        self.observers.push(SpawnerEntry { class, spawner });
        assert(self.observers@.drop_last() == old(self).observers@);
    }

    /// The spawners registered for `class`, in registration order; empty for
    /// a class nobody registered.
    pub fn lookup(&self, class: ModuleClass) -> (r: Vec<u64>)
        ensures
            r@ == spawners_of(self.observers@, class),
    {
        let mut r: Vec<u64> = Vec::new();
        let mut i: usize = 0;
        while i < self.observers.len()
            invariant
                i <= self.observers@.len(),
                r@ == spawners_of(self.observers@.subrange(0, i as int), class),
            decreases self.observers@.len() - i,
        {
            let e = self.observers[i];
            proof {
                assert(self.observers@.subrange(0, i + 1).drop_last() == self.observers@.subrange(0, i as int));
            }
            if e.class == class {
                r.push(e.spawner);
            }
            i = i + 1;
        }
        assert(self.observers@.subrange(0, i as int) == self.observers@);
        r
    }

    /// The class under which `spawner` is registered, if any.
    pub fn class_of(&self, spawner: u64) -> (r: Option<ModuleClass>)
        ensures
            r == class_of_spawner(self.observers@, spawner),
    {
        let mut i: usize = self.observers.len();
        assert(self.observers@.subrange(0, i as int) == self.observers@);
        while i > 0
            invariant
                i <= self.observers@.len(),
                class_of_spawner(self.observers@, spawner) == class_of_spawner(
                    self.observers@.subrange(0, i as int),
                    spawner,
                ),
            decreases i,
        {
            let e = self.observers[i - 1];
            proof {
                assert(self.observers@.subrange(0, i as int).drop_last() == self.observers@.subrange(0, i - 1));
            }
            if e.spawner == spawner {
                return Some(e.class);
            }
            i = i - 1;
        }
        None
    }
}

} // verus!
