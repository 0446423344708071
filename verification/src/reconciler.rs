//! The reconciler: once per update cycle it revisits every window whose
//! relevant state changed, determines the monitor the window is on, and
//! brings the stored association in line — creating, replacing or removing
//! it, and touching nothing when it is already correct.

use vstd::prelude::*;

use crate::associations::{Associations, OnMonitor};
use crate::types::{EntityId, Monitor, Point};

verus! {

/// Marker for the host-side wiring of this crate: a host embeds the library
/// by scheduling [`reconcile`] once per update cycle, early in the cycle,
/// feeding it the windows its change detection flagged.
pub struct LinkWindowToMonitorPlugin;

/// What the platform reports for a window: the name and position of the
/// monitor the underlying platform window is currently on, if it is mapped to
/// one.
pub struct MonitorReport {
    pub name: String,
    pub position: Point,
}

/// One changed window, as the host hands it to the reconciler: the window's
/// entity id and the platform's report for it.
pub struct ChangedWindow {
    pub window: EntityId,
    pub report: Option<MonitorReport>,
}

/// The update the reconciler applies to one window's association.
#[derive(Clone, Copy, Debug, PartialEq, Eq, Structural)]
pub enum ReconcileAction {
    /// Leave the association as it is.
    Keep,
    /// Remove the association.
    Remove,
    /// Create or replace the association so it references this monitor.
    Link(EntityId),
}

/// The monitor entry matches a platform report carrying this name and
/// position.
pub open spec fn report_matches(m: Monitor, name: Seq<char>, position: Point) -> bool {
    m.name@ == name && m.physical_position == position
}

/// The index of the first monitor matching the reported name and position, or
/// `-1` where none does.
pub open spec fn first_match(monitors: Seq<Monitor>, name: Seq<char>, position: Point) -> int
    decreases monitors.len(),
{
    if monitors.len() == 0 {
        -1
    } else if report_matches(monitors[0], name, position) {
        0
    } else {
        let rest = first_match(monitors.drop_first(), name, position);
        if rest < 0 {
            -1
        } else {
            rest + 1
        }
    }
}

proof fn lemma_first_match(monitors: Seq<Monitor>, name: Seq<char>, position: Point)
    ensures
        first_match(monitors, name, position) == -1 ==> forall|j: int|
            0 <= j < monitors.len() ==> !report_matches(monitors[j], name, position),
        first_match(monitors, name, position) >= 0 ==> {
            let i = first_match(monitors, name, position);
            &&& 0 <= i < monitors.len()
            &&& report_matches(monitors[i], name, position)
            &&& forall|j: int| 0 <= j < i ==> !report_matches(monitors[j], name, position)
        },
    decreases monitors.len(),
{
    if monitors.len() > 0 && !report_matches(monitors[0], name, position) {
        let rest = monitors.drop_first();
        lemma_first_match(rest, name, position);
        let fr = first_match(rest, name, position);
        if fr == -1 {
            assert forall|j: int| 0 <= j < monitors.len() implies !report_matches(
                monitors[j],
                name,
                position,
            ) by {
                if j > 0 {
                    assert(rest[j - 1] == monitors[j]);
                    assert(!report_matches(rest[j - 1], name, position));
                }
            }
        } else {
            assert(first_match(monitors, name, position) == fr + 1);
            assert(monitors[fr + 1] == rest[fr]);
            assert forall|j: int| 0 <= j < fr + 1 implies !report_matches(
                monitors[j],
                name,
                position,
            ) by {
                if j > 0 {
                    assert(rest[j - 1] == monitors[j]);
                    assert(!report_matches(rest[j - 1], name, position));
                }
            }
        }
    }
}

/// The action the reconciler takes for one window on the live path:
/// `current` is the window's stored association, `report` what the platform
/// reports for it. An unmapped window loses its association; a report that
/// matches no known monitor changes nothing, deferring to a later cycle; and
/// an association that is already correct is left alone.
pub open spec fn decide(
    current: Option<OnMonitor>,
    report: Option<MonitorReport>,
    monitors: Seq<Monitor>,
) -> ReconcileAction {
    match report {
        Option::None => if current is Some {
            ReconcileAction::Remove
        } else {
            ReconcileAction::Keep
        },
        Option::Some(rep) => {
            let i = first_match(monitors, rep.name@, rep.position);
            if i < 0 {
                ReconcileAction::Keep
            } else if current == Option::Some(OnMonitor(monitors[i].entity)) {
                ReconcileAction::Keep
            } else {
                ReconcileAction::Link(monitors[i].entity)
            }
        },
    }
}

/// The action for a window whose determination came from the monitor resolver
/// instead: the resolver already names a monitor entity, so no
/// name-and-position matching is needed.
pub open spec fn decide_resolved(
    current: Option<OnMonitor>,
    resolved: Option<EntityId>,
) -> ReconcileAction {
    match resolved {
        Option::None => if current is Some {
            ReconcileAction::Remove
        } else {
            ReconcileAction::Keep
        },
        Option::Some(e) => if current == Option::Some(OnMonitor(e)) {
            ReconcileAction::Keep
        } else {
            ReconcileAction::Link(e)
        },
    }
}

/// The index of the first monitor entry matching the reported name and
/// position.
fn find_match(monitors: &Vec<Monitor>, name: &String, position: Point) -> (r: Option<usize>)
    ensures
        match r {
            Option::Some(i) => i < monitors@.len() && i as int == first_match(
                monitors@,
                name@,
                position,
            ),
            Option::None => first_match(monitors@, name@, position) == -1,
        },
{
    let n = monitors.len();
    let mut i: usize = 0;
    while i < n
        invariant
            n == monitors@.len(),
            i <= n,
            forall|j: int| 0 <= j < i ==> !report_matches(monitors@[j], name@, position),
        decreases n - i,
    {
        if monitors[i].name == *name && monitors[i].physical_position == position {
            proof {
                lemma_first_match(monitors@, name@, position);
                assert(report_matches(monitors@[i as int], name@, position));
            }
            return Some(i);
        }
        i = i + 1;
    }
    proof {
        lemma_first_match(monitors@, name@, position);
    }
    None
}

/// Decides what to do with one window's association on the live path, from
/// its stored association and the platform's report.
pub fn reconcile_window(
    current: Option<OnMonitor>,
    report: &Option<MonitorReport>,
    monitors: &Vec<Monitor>,
) -> (a: ReconcileAction)
    ensures
        a == decide(current, *report, monitors@),
{
    match report {
        Option::None => match current {
            Option::Some(_) => ReconcileAction::Remove,
            Option::None => ReconcileAction::Keep,
        },
        Option::Some(rep) => match find_match(monitors, &rep.name, rep.position) {
            Option::None => ReconcileAction::Keep,
            Option::Some(i) => {
                let target = monitors[i].entity;
                match current {
                    Option::Some(om) => if om.0 == target {
                        ReconcileAction::Keep
                    } else {
                        ReconcileAction::Link(target)
                    },
                    Option::None => ReconcileAction::Link(target),
                }
            },
        },
    }
}

/// Decides what to do with one window's association on the pure path, from
/// its stored association and the resolver's determination.
pub fn reconcile_window_resolved(current: Option<OnMonitor>, resolved: Option<EntityId>) -> (a:
    ReconcileAction)
    ensures
        a == decide_resolved(current, resolved),
{
    match resolved {
        Option::None => match current {
            Option::Some(_) => ReconcileAction::Remove,
            Option::None => ReconcileAction::Keep,
        },
        Option::Some(e) => match current {
            Option::Some(om) => if om.0 == e {
                ReconcileAction::Keep
            } else {
                ReconcileAction::Link(e)
            },
            Option::None => ReconcileAction::Link(e),
        },
    }
}

/// The association map after applying one action for one window.
pub open spec fn apply_action_map(
    m: Map<EntityId, EntityId>,
    window: EntityId,
    a: ReconcileAction,
) -> Map<EntityId, EntityId> {
    match a {
        ReconcileAction::Keep => m,
        ReconcileAction::Remove => m.remove(window),
        ReconcileAction::Link(e) => m.insert(window, e),
    }
}

/// The window's association as the association map stores it.
pub open spec fn stored(m: Map<EntityId, EntityId>, window: EntityId) -> Option<OnMonitor> {
    if m.contains_key(window) {
        Option::Some(OnMonitor(m[window]))
    } else {
        Option::None
    }
}

/// The association map after one reconciliation step for one changed window.
pub open spec fn step(m: Map<EntityId, EntityId>, w: ChangedWindow, monitors: Seq<Monitor>) -> Map<
    EntityId,
    EntityId,
> {
    apply_action_map(m, w.window, decide(stored(m, w.window), w.report, monitors))
}

/// The association map after one reconciliation cycle over the changed
/// windows, in order.
pub open spec fn reconcile_map(
    m: Map<EntityId, EntityId>,
    changed: Seq<ChangedWindow>,
    monitors: Seq<Monitor>,
) -> Map<EntityId, EntityId>
    decreases changed.len(),
{
    if changed.len() == 0 {
        m
    } else {
        step(reconcile_map(m, changed.drop_last(), monitors), changed.last(), monitors)
    }
}

/// Each changed window is listed once: a host's change detection visits an
/// entity at most once per cycle.
pub open spec fn distinct_changed(changed: Seq<ChangedWindow>) -> bool {
    forall|i: int, j: int| 0 <= i < j < changed.len() ==> changed[i].window != changed[j].window
}

/// Applies a decided action to the window's association.
pub fn apply_action(assoc: &mut Associations, window: EntityId, a: ReconcileAction)
    requires
        old(assoc).wf(),
    ensures
        final(assoc).wf(),
        final(assoc)@ == apply_action_map(old(assoc)@, window, a),
{
    match a {
        ReconcileAction::Keep => {},
        ReconcileAction::Remove => assoc.unlink(window),
        ReconcileAction::Link(e) => assoc.link(window, e),
    }
}

/// Runs one reconciliation cycle: for every changed window, in order, decides
/// from its stored association and the platform's report, and applies the
/// resulting action to the association store.
pub fn reconcile(assoc: &mut Associations, changed: &Vec<ChangedWindow>, monitors: &Vec<Monitor>)
    requires
        old(assoc).wf(),
    ensures
        final(assoc).wf(),
        final(assoc)@ == reconcile_map(old(assoc)@, changed@, monitors@),
{
    let ghost m0 = assoc@;
    let n = changed.len();
    let mut i: usize = 0;
    while i < n
        invariant
            assoc.wf(),
            n == changed@.len(),
            i <= n,
            assoc@ == reconcile_map(m0, changed@.take(i as int), monitors@),
        decreases n - i,
    {
        let ghost prev = assoc@;
        let w = &changed[i];
        let current = assoc.monitor_of(w.window);
        proof {
            assert(current == stored(prev, w.window));
        }
        let a = reconcile_window(current, &w.report, monitors);
        apply_action(assoc, w.window, a);
        proof {
            assert(assoc@ == step(prev, changed@[i as int], monitors@));
            assert(changed@.take(i + 1).drop_last() =~= changed@.take(i as int));
            assert(changed@.take(i + 1).last() == changed@[i as int]);
        }
        i = i + 1;
    }
    proof {
        assert(changed@.take(n as int) =~= changed@);
    }
}

/// The window's association is settled: reconciling it once more against the
/// same report and monitors would keep everything as it is.
pub open spec fn settled(
    m: Map<EntityId, EntityId>,
    w: ChangedWindow,
    monitors: Seq<Monitor>,
) -> bool {
    decide(stored(m, w.window), w.report, monitors) == ReconcileAction::Keep
}

proof fn lemma_step_settles(m: Map<EntityId, EntityId>, w: ChangedWindow, monitors: Seq<Monitor>)
    ensures
        settled(step(m, w, monitors), w, monitors),
{
}

proof fn lemma_step_preserves_other(
    m: Map<EntityId, EntityId>,
    w: ChangedWindow,
    monitors: Seq<Monitor>,
    other: EntityId,
)
    requires
        other != w.window,
    ensures
        stored(step(m, w, monitors), other) == stored(m, other),
{
}

proof fn lemma_settled_step_identity(
    m: Map<EntityId, EntityId>,
    w: ChangedWindow,
    monitors: Seq<Monitor>,
)
    requires
        settled(m, w, monitors),
    ensures
        step(m, w, monitors) == m,
{
}

proof fn lemma_reconcile_settles_all(
    m: Map<EntityId, EntityId>,
    changed: Seq<ChangedWindow>,
    monitors: Seq<Monitor>,
)
    requires
        distinct_changed(changed),
    ensures
        forall|k: int| 0 <= k < changed.len() ==> settled(
            reconcile_map(m, changed, monitors),
            changed[k],
            monitors,
        ),
    decreases changed.len(),
{
    if changed.len() > 0 {
        let prefix = changed.drop_last();
        let last = changed.last();
        let mid = reconcile_map(m, prefix, monitors);
        lemma_reconcile_settles_all(m, prefix, monitors);
        lemma_step_settles(mid, last, monitors);
        assert forall|k: int| 0 <= k < changed.len() implies settled(
            reconcile_map(m, changed, monitors),
            changed[k],
            monitors,
        ) by {
            if k < changed.len() - 1 {
                assert(prefix[k] == changed[k]);
                assert(settled(mid, changed[k], monitors));
                assert(changed[k].window != last.window);
                lemma_step_preserves_other(mid, last, monitors, changed[k].window);
            }
        }
    }
}

proof fn lemma_reconcile_noop_when_settled(
    m: Map<EntityId, EntityId>,
    changed: Seq<ChangedWindow>,
    monitors: Seq<Monitor>,
)
    requires
        forall|k: int| 0 <= k < changed.len() ==> settled(m, changed[k], monitors),
    ensures
        reconcile_map(m, changed, monitors) == m,
    decreases changed.len(),
{
    if changed.len() > 0 {
        let prefix = changed.drop_last();
        assert(forall|k: int| 0 <= k < prefix.len() ==> prefix[k] == changed[k]);
        lemma_reconcile_noop_when_settled(m, prefix, monitors);
        assert(settled(m, changed[changed.len() - 1], monitors));
        lemma_settled_step_identity(m, changed.last(), monitors);
    }
}

/// Law: the reconciler is idempotent. With no intervening state change —
/// the same changed windows, reports and monitors, each window visited once —
/// a second cycle leaves the association map exactly where the first left it.
pub proof fn lemma_reconcile_idempotent(
    m: Map<EntityId, EntityId>,
    changed: Seq<ChangedWindow>,
    monitors: Seq<Monitor>,
)
    requires
        distinct_changed(changed),
    ensures
        reconcile_map(reconcile_map(m, changed, monitors), changed, monitors) == reconcile_map(
            m,
            changed,
            monitors,
        ),
{
    lemma_reconcile_settles_all(m, changed, monitors);
    lemma_reconcile_noop_when_settled(reconcile_map(m, changed, monitors), changed, monitors);
}

} // verus!
