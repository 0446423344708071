//! The window-to-monitor association: each window holds at most one monitor
//! reference, and each monitor's window set is derived from those references,
//! so the two sides can never disagree.

use vstd::prelude::*;

use crate::types::EntityId;

verus! {

/// A window's stored monitor reference: the owning side of the association.
#[derive(Clone, Copy, Debug, PartialEq, Eq, Structural)]
pub struct OnMonitor(pub EntityId);

/// The windows currently associated with one monitor: the derived reverse
/// side of the association.
#[derive(Debug)]
pub struct HasWindows(pub Vec<EntityId>);

/// No two entries share a window id.
pub open spec fn distinct_windows(entries: Seq<(EntityId, EntityId)>) -> bool {
    forall|i: int, j: int| 0 <= i < j < entries.len() ==> entries[i].0 != entries[j].0
}

/// The finite map from window id to monitor id that the entries stand for.
pub open spec fn map_of(entries: Seq<(EntityId, EntityId)>) -> Map<EntityId, EntityId>
    decreases entries.len(),
{
    if entries.len() == 0 {
        Map::empty()
    } else {
        map_of(entries.drop_last()).insert(entries.last().0, entries.last().1)
    }
}

proof fn lemma_map_of_contains(entries: Seq<(EntityId, EntityId)>, w: EntityId)
    ensures
        map_of(entries).contains_key(w) <==> exists|i: int|
            0 <= i < entries.len() && entries[i].0 == w,
    decreases entries.len(),
{
    if entries.len() > 0 {
        let prefix = entries.drop_last();
        lemma_map_of_contains(prefix, w);
        if map_of(entries).contains_key(w) {
            if w == entries.last().0 {
                assert(entries[entries.len() - 1].0 == w);
            } else {
                let i = choose|i: int| 0 <= i < prefix.len() && prefix[i].0 == w;
                assert(entries[i].0 == w);
            }
        }
        if exists|i: int| 0 <= i < entries.len() && entries[i].0 == w {
            let i = choose|i: int| 0 <= i < entries.len() && entries[i].0 == w;
            if i < entries.len() - 1 {
                assert(prefix[i].0 == w);
            }
        }
    }
}

proof fn lemma_map_of_value(entries: Seq<(EntityId, EntityId)>, i: int)
    requires
        distinct_windows(entries),
        0 <= i < entries.len(),
    ensures
        map_of(entries).contains_key(entries[i].0),
        map_of(entries)[entries[i].0] == entries[i].1,
    decreases entries.len(),
{
    if i < entries.len() - 1 {
        let prefix = entries.drop_last();
        assert(distinct_windows(prefix));
        lemma_map_of_value(prefix, i);
        assert(entries.last().0 != entries[i].0);
    }
}

proof fn lemma_map_of_remove(entries: Seq<(EntityId, EntityId)>, i: int)
    requires
        distinct_windows(entries),
        0 <= i < entries.len(),
    ensures
        map_of(entries.remove(i)) =~= map_of(entries).remove(entries[i].0),
    decreases entries.len(),
{
    let prefix = entries.drop_last();
    let k = entries[i].0;
    if i == entries.len() - 1 {
        assert(entries.remove(i) =~= prefix);
        lemma_map_of_contains(prefix, k);
        assert(!map_of(prefix).contains_key(k));
        assert(map_of(prefix).insert(k, entries[i].1).remove(k) =~= map_of(prefix));
    } else {
        let shorter = entries.remove(i);
        assert(distinct_windows(prefix));
        lemma_map_of_remove(prefix, i);
        assert(shorter.drop_last() =~= prefix.remove(i));
        assert(shorter.last() == entries.last());
        assert(map_of(shorter) == map_of(prefix.remove(i)).insert(
            entries.last().0,
            entries.last().1,
        ));
        assert(entries.last().0 != k);
        assert(map_of(prefix).remove(k).insert(entries.last().0, entries.last().1)
            =~= map_of(prefix).insert(entries.last().0, entries.last().1).remove(k));
    }
}

/// Some entry among the first `upto` carries window id `w` and monitor id
/// `monitor`.
pub open spec fn key_of_prefix(
    entries: Seq<(EntityId, EntityId)>,
    monitor: EntityId,
    upto: int,
    w: EntityId,
) -> bool {
    exists|j: int| 0 <= j < upto && (#[trigger] entries[j]).0 == w && entries[j].1 == monitor
}

/// The persistent window-to-monitor association store. Its single source of
/// truth is the forward mapping from window id to monitor id ([`View::view`]);
/// the reverse window set of a monitor is derived from it, so the consistency
/// of the two sides holds by construction.
pub struct Associations {
    entries: Vec<(EntityId, EntityId)>,
}

impl View for Associations {
    type V = Map<EntityId, EntityId>;

    closed spec fn view(&self) -> Map<EntityId, EntityId> {
        map_of(self.entries@)
    }
}

impl Associations {
    /// Well-formed: each window holds at most one monitor reference.
    pub closed spec fn wf(&self) -> bool {
        distinct_windows(self.entries@)
    }

    /// Creates an empty association store.
    pub fn new() -> (r: Self)
        ensures
            r.wf(),
            r@ == Map::<EntityId, EntityId>::empty(),
    {
        Associations { entries: Vec::new() }
    }

    /// The index of the window's entry, if it holds one.
    fn index_of(&self, window: EntityId) -> (r: Option<usize>)
        ensures
            match r {
                Option::Some(i) => i < self.entries@.len() && self.entries@[i as int].0 == window,
                Option::None => forall|j: int|
                    0 <= j < self.entries@.len() ==> self.entries@[j].0 != window,
            },
    {
        let n = self.entries.len();
        let mut i: usize = 0;
        while i < n
            invariant
                n == self.entries@.len(),
                i <= n,
                forall|j: int| 0 <= j < i ==> self.entries@[j].0 != window,
            decreases n - i,
        {
            if self.entries[i].0 == window {
                return Some(i);
            }
            i = i + 1;
        }
        None
    }

    /// Looks up the monitor the window is associated with.
    pub fn monitor_of(&self, window: EntityId) -> (r: Option<OnMonitor>)
        requires
            self.wf(),
        ensures
            match r {
                Option::Some(m) => self@.contains_key(window) && self@[window] == m.0,
                Option::None => !self@.contains_key(window),
            },
    {
        match self.index_of(window) {
            Some(i) => {
                proof {
                    lemma_map_of_value(self.entries@, i as int);
                }
                Some(OnMonitor(self.entries[i].1))
            },
            None => {
                proof {
                    lemma_map_of_contains(self.entries@, window);
                }
                None
            },
        }
    }

    /// Removes the window's association, if it holds one. Removing the
    /// forward reference also removes the window from the derived window set
    /// of its monitor: no dangling reference can remain.
    pub fn unlink(&mut self, window: EntityId)
        requires
            old(self).wf(),
        ensures
            final(self).wf(),
            final(self)@ == old(self)@.remove(window),
    {
        match self.index_of(window) {
            Some(i) => {
                proof {
                    lemma_map_of_remove(self.entries@, i as int);
                }
                let ghost pre = self.entries@;
                self.entries.remove(i);
                proof {
                    assert forall|a: int, b: int|
                        0 <= a < b < self.entries@.len() implies self.entries@[a].0
                        != self.entries@[b].0 by {
                        assert(self.entries@[a] == if a < i { pre[a] } else { pre[a + 1] });
                        assert(self.entries@[b] == if b < i { pre[b] } else { pre[b + 1] });
                    }
                    assert(final(self)@ =~= old(self)@.remove(window));
                }
            },
            None => {
                proof {
                    lemma_map_of_contains(self.entries@, window);
                    assert(old(self)@.remove(window) =~= old(self)@);
                }
            },
        }
    }

    /// Creates or replaces the window's association, updating both sides at
    /// once: the window now references exactly `monitor`, and the derived
    /// window set of every monitor follows.
    pub fn link(&mut self, window: EntityId, monitor: EntityId)
        requires
            old(self).wf(),
        ensures
            final(self).wf(),
            final(self)@ == old(self)@.insert(window, monitor),
    {
        self.unlink(window);
        proof {
            lemma_map_of_contains(self.entries@, window);
        }
        let ghost pre = self.entries@;
        self.entries.push((window, monitor));
        proof {
            assert(self.entries@.drop_last() =~= pre);
            assert(forall|j: int| 0 <= j < pre.len() ==> pre[j].0 != window);
            assert forall|a: int, b: int|
                0 <= a < b < self.entries@.len() implies self.entries@[a].0
                != self.entries@[b].0 by {
                if b < pre.len() {
                    assert(self.entries@[a] == pre[a] && self.entries@[b] == pre[b]);
                } else {
                    assert(self.entries@[a] == pre[a] && self.entries@[b].0 == window);
                }
            }
            assert(final(self)@ =~= old(self)@.insert(window, monitor));
        }
    }

    /// The derived reverse side of the association: every window whose stored
    /// reference is `monitor`, each exactly once.
    pub fn windows_of(&self, monitor: EntityId) -> (r: HasWindows)
        requires
            self.wf(),
        ensures
            forall|w: EntityId| #[trigger]
                r.0@.contains(w) ==> self@.contains_key(w) && self@[w] == monitor,
            forall|w: EntityId| #[trigger]
                self@.contains_key(w) && self@[w] == monitor ==> r.0@.contains(w),
            forall|a: int, b: int| 0 <= a < b < r.0@.len() ==> r.0@[a] != r.0@[b],
    {
        let n = self.entries.len();
        let ghost e = self.entries@;
        let mut out: Vec<EntityId> = Vec::new();
        let mut i: usize = 0;
        while i < n
            invariant
                self.wf(),
                e == self.entries@,
                n == e.len(),
                i <= n,
                forall|k: int|
                    0 <= k < out@.len() ==> key_of_prefix(e, monitor, i as int, #[trigger] out@[k]),
                forall|j: int|
                    0 <= j < i && (#[trigger] e[j]).1 == monitor ==> out@.contains(e[j].0),
                forall|a: int, b: int| 0 <= a < b < out@.len() ==> out@[a] != out@[b],
            decreases n - i,
        {
            let ghost before = out@;
            if self.entries[i].1 == monitor {
                proof {
                    assert forall|k: int| 0 <= k < before.len() implies before[k]
                        != e[i as int].0 by {
                        let j = choose|j: int|
                            0 <= j < i && e[j].0 == before[k] && e[j].1 == monitor;
                        assert(e[j].0 != e[i as int].0);
                    }
                }
                out.push(self.entries[i].0);
            }
            proof {
                assert forall|k: int| 0 <= k < out@.len() implies key_of_prefix(
                    e,
                    monitor,
                    i + 1,
                    #[trigger] out@[k],
                ) by {
                    if k < before.len() {
                        assert(out@[k] == before[k]);
                        assert(key_of_prefix(e, monitor, i as int, before[k]));
                        let j = choose|j: int|
                            0 <= j < i && e[j].0 == before[k] && e[j].1 == monitor;
                        assert(0 <= j < i + 1 && e[j].0 == out@[k] && e[j].1 == monitor);
                    } else {
                        assert(out@[k] == e[i as int].0 && e[i as int].1 == monitor);
                        assert(0 <= i < i + 1 && e[i as int].0 == out@[k] && e[i as int].1
                            == monitor);
                    }
                }
                assert forall|j: int|
                    0 <= j < i + 1 && (#[trigger] e[j]).1 == monitor implies out@.contains(
                    e[j].0,
                ) by {
                    if j < i {
                        assert(before.contains(e[j].0));
                        let k = choose|k: int| 0 <= k < before.len() && before[k] == e[j].0;
                        assert(out@[k] == e[j].0);
                    } else {
                        assert(out@[out@.len() - 1] == e[j].0);
                    }
                }
            }
            i = i + 1;
        }
        proof {
            assert forall|w: EntityId| #[trigger]
                out@.contains(w) implies self@.contains_key(w) && self@[w] == monitor by {
                let k = choose|k: int| 0 <= k < out@.len() && out@[k] == w;
                assert(key_of_prefix(e, monitor, n as int, out@[k]));
                let j = choose|j: int| 0 <= j < n && e[j].0 == w && e[j].1 == monitor;
                lemma_map_of_value(e, j);
            }
            assert forall|w: EntityId| #[trigger]
                self@.contains_key(w) && self@[w] == monitor implies out@.contains(w) by {
                lemma_map_of_contains(e, w);
                let j = choose|j: int| 0 <= j < e.len() && e[j].0 == w;
                lemma_map_of_value(e, j);
                assert((e[j]).1 == monitor);
                assert(out@.contains(e[j].0));
            }
        }
        HasWindows(out)
    }
}

} // verus!
