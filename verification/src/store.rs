//! Keyed storage of session records. Sessions are independent records under
//! a numeric identifier; the hosting environment may purge a record once its
//! retention horizon passes, which is a storage concern, not a game rule.

use vstd::prelude::*;
use crate::game::{GameState, GameView};

verus! {

/// The record stored under `id`: the first entry carrying that key.
pub open spec fn spec_find(entries: Seq<(u32, GameState)>, id: u32) -> Option<GameView>
    decreases entries.len(),
{
    if entries.len() == 0 {
        None
    } else if entries[0].0 == id {
        Some(entries[0].1@)
    } else {
        spec_find(entries.drop_first(), id)
    }
}

/// Scanning past a prefix free of `id` does not change what is found.
proof fn lemma_find_skip(entries: Seq<(u32, GameState)>, id: u32, i: int)
    requires
        0 <= i <= entries.len(),
        forall|j: int| 0 <= j < i ==> entries[j].0 != id,
    ensures
        spec_find(entries, id) == spec_find(entries.skip(i), id),
    decreases i,
{
    if i > 0 {
        assert(entries.drop_first().skip(i - 1) =~= entries.skip(i));
        assert(forall|j: int|
            0 <= j < i - 1 ==> entries.drop_first()[j] == entries[j + 1]
                && entries.drop_first()[j].0 != id);
        lemma_find_skip(entries.drop_first(), id, i - 1);
    } else {
        assert(entries.skip(0) =~= entries);
    }
}

/// A key is found exactly when some entry carries it.
proof fn lemma_find_some_exists(entries: Seq<(u32, GameState)>, id: u32)
    ensures
        spec_find(entries, id) is Some <==> exists|j: int|
            0 <= j < entries.len() && entries[j].0 == id,
    decreases entries.len(),
{
    if entries.len() > 0 {
        lemma_find_some_exists(entries.drop_first(), id);
        if entries[0].0 != id {
            if spec_find(entries, id) is Some {
                let j = choose|j: int|
                    0 <= j < entries.drop_first().len() && entries.drop_first()[j].0 == id;
                assert(entries[j + 1].0 == id);
            }
            if exists|j: int| 0 <= j < entries.len() && entries[j].0 == id {
                let j = choose|j: int| 0 <= j < entries.len() && entries[j].0 == id;
                assert(entries.drop_first()[j - 1].0 == id);
            }
        }
    }
}

/// Appending an entry changes only what was absent before.
proof fn lemma_find_push(entries: Seq<(u32, GameState)>, entry: (u32, GameState), id: u32)
    ensures
        spec_find(entries.push(entry), id) == (if spec_find(entries, id) is Some {
            spec_find(entries, id)
        } else if entry.0 == id {
            Some(entry.1@)
        } else {
            None
        }),
    decreases entries.len(),
{
    if entries.len() == 0 {
        assert(entries.push(entry).drop_first() =~= Seq::<(u32, GameState)>::empty());
    } else {
        assert(entries.push(entry).drop_first() =~= entries.drop_first().push(entry));
        lemma_find_push(entries.drop_first(), entry, id);
    }
}

/// Overwriting the first entry that carries `id` rebinds `id` and nothing
/// else.
proof fn lemma_find_update(
    entries: Seq<(u32, GameState)>,
    i: int,
    replacement: (u32, GameState),
    id: u32,
)
    requires
        0 <= i < entries.len(),
        entries[i].0 == replacement.0,
        forall|j: int| 0 <= j < i ==> entries[j].0 != replacement.0,
    ensures
        spec_find(entries.update(i, replacement), id) == (if id == replacement.0 {
            Some(replacement.1@)
        } else {
            spec_find(entries, id)
        }),
    decreases i,
{
    let updated = entries.update(i, replacement);
    if i == 0 {
        if id != replacement.0 {
            assert(updated.drop_first() =~= entries.drop_first());
        }
    } else {
        assert(updated.drop_first() =~= entries.drop_first().update(i - 1, replacement));
        assert(forall|j: int|
            0 <= j < i - 1 ==> entries.drop_first()[j] == entries[j + 1]
                && entries.drop_first()[j].0 != replacement.0);
        lemma_find_update(entries.drop_first(), i - 1, replacement, id);
    }
}

/// Removing the only entry that carries a key unbinds that key and nothing
/// else.
proof fn lemma_find_remove(entries: Seq<(u32, GameState)>, i: int, id: u32)
    requires
        0 <= i < entries.len(),
        forall|j: int, k: int| 0 <= j < k < entries.len() ==> entries[j].0 != entries[k].0,
    ensures
        spec_find(entries.remove(i), id) == (if id == entries[i].0 {
            None::<GameView>
        } else {
            spec_find(entries, id)
        }),
    decreases i,
{
    let removed = entries.remove(i);
    if i == 0 {
        assert(removed =~= entries.drop_first());
        if id == entries[0].0 {
            lemma_find_some_exists(entries.drop_first(), id);
            assert forall|j: int| 0 <= j < entries.drop_first().len() implies entries.drop_first()[
                j].0 != id by {
                assert(entries.drop_first()[j] == entries[j + 1]);
            }
        }
    } else {
        assert(removed.drop_first() =~= entries.drop_first().remove(i - 1));
        assert(forall|j: int, k: int|
            0 <= j < k < entries.drop_first().len() ==> entries.drop_first()[j]
                == entries[j + 1] && entries.drop_first()[k] == entries[k + 1]
                && entries.drop_first()[j].0 != entries.drop_first()[k].0);
        lemma_find_remove(entries.drop_first(), i - 1, id);
    }
}

/// Keyed storage of session records.
pub struct GameStore {
    entries: Vec<(u32, GameState)>,
}

impl GameStore {
    /// Each identifier keys at most one record.
    pub closed spec fn wf(self) -> bool {
        forall|j: int, k: int|
            0 <= j < k < self.entries@.len() ==> self.entries@[j].0 != self.entries@[k].0
    }

    /// The record stored under `id`, if any.
    pub closed spec fn spec_get(self, id: u32) -> Option<GameView> {
        spec_find(self.entries@, id)
    }

    /// An empty store.
    pub fn new() -> (r: GameStore)
        ensures
            r.wf(),
            forall|id: u32| r.spec_get(id) is None,
    {
        GameStore { entries: Vec::new() }
    }

    /// The index of the entry keyed by `id`, if one exists.
    fn find_index(&self, id: u32) -> (r: Option<usize>)
        ensures
            match r {
                Some(i) => (i as int) < self.entries@.len() && self.entries@[i as int].0 == id
                    && self.spec_get(id) == Some(self.entries@[i as int].1@) && forall|j: int|
                    0 <= j < i ==> self.entries@[j].0 != id,
                None => self.spec_get(id) is None,
            },
    {
        let mut i: usize = 0;
        while i < self.entries.len()
            invariant
                i <= self.entries.len(),
                forall|j: int| 0 <= j < i ==> self.entries@[j].0 != id,
            decreases self.entries.len() - i,
        {
            if self.entries[i].0 == id {
                proof {
                    lemma_find_skip(self.entries@, id, i as int);
                    assert(self.entries@.skip(i as int)[0] == self.entries@[i as int]);
                }
                return Some(i);
            }
            i += 1;
        }
        proof {
            lemma_find_skip(self.entries@, id, i as int);
            assert(self.entries@.skip(i as int).len() == 0);
        }
        None
    }

    /// Borrow the record stored under `id`.
    pub fn get(&self, id: u32) -> (r: Option<&GameState>)
        ensures
            match r {
                Some(game) => self.spec_get(id) == Some(game@),
                None => self.spec_get(id) is None,
            },
    {
        match self.find_index(id) {
            Some(i) => Some(&self.entries[i].1),
            None => None,
        }
    }

    /// Store a record under a fresh identifier.
    pub fn insert(&mut self, id: u32, game: GameState)
        requires
            old(self).wf(),
            old(self).spec_get(id) is None,
        ensures
            final(self).wf(),
            final(self).spec_get(id) == Some(game@),
            forall|other: u32|
                other != id ==> final(self).spec_get(other) == old(self).spec_get(other),
    {
        proof {
            lemma_find_some_exists(self.entries@, id);
            assert(forall|j: int| 0 <= j < self.entries@.len() ==> self.entries@[j].0 != id);
        }
        self.entries.push((id, game));
        proof {
            assert forall|other: u32| #[trigger] spec_find(self.entries@, other) == (if other
                == id {
                Some(game@)
            } else {
                spec_find(old(self).entries@, other)
            }) by {
                lemma_find_push(old(self).entries@, (id, game), other);
            }
        }
    }

    /// Replace the record stored under an existing identifier.
    pub fn replace(&mut self, id: u32, game: GameState)
        requires
            old(self).wf(),
            old(self).spec_get(id) is Some,
        ensures
            final(self).wf(),
            final(self).spec_get(id) == Some(game@),
            forall|other: u32|
                other != id ==> final(self).spec_get(other) == old(self).spec_get(other),
    {
        let index = match self.find_index(id) {
            Some(i) => i,
            None => {
                proof {
                    assert(false);
                }
                0
            },
        };
        self.entries.set(index, (id, game));
        proof {
            assert(forall|j: int|
                0 <= j < self.entries@.len() ==> self.entries@[j].0 == old(self).entries@[j].0);
            assert forall|other: u32| #[trigger] spec_find(self.entries@, other) == (if other
                == id {
                Some(game@)
            } else {
                spec_find(old(self).entries@, other)
            }) by {
                lemma_find_update(old(self).entries@, index as int, (id, game), other);
            }
        }
    }

    /// Drop the record stored under `id`, if any: the storage horizon has
    /// passed. Reading the identifier afterwards finds nothing.
    pub fn purge(&mut self, id: u32)
        requires
            old(self).wf(),
        ensures
            final(self).wf(),
            final(self).spec_get(id) is None,
            forall|other: u32|
                other != id ==> final(self).spec_get(other) == old(self).spec_get(other),
    {
        let index = match self.find_index(id) {
            Some(i) => i,
            None => {
                return ;
            },
        };
        self.entries.remove(index);
        proof {
            assert(forall|j: int|
                0 <= j < self.entries@.len() ==> self.entries@[j] == (if j < index {
                    old(self).entries@[j]
                } else {
                    old(self).entries@[j + 1]
                }));
            assert forall|other: u32| #[trigger] spec_find(self.entries@, other) == (if other
                == id {
                None::<GameView>
            } else {
                spec_find(old(self).entries@, other)
            }) by {
                lemma_find_remove(old(self).entries@, index as int, other);
            }
        }
    }
}

} // verus!
