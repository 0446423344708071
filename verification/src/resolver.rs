//! The monitor resolver: a pure heuristic from a window's placement intent and
//! the list of known monitors to the monitor the window most likely occupies.

use vstd::prelude::*;

use crate::types::{at_origin, rect_contains, EntityId, Monitor, MonitorSelection, Point, Window,
    WindowPosition};

verus! {

/// `i` is the first index whose monitor rectangle contains `q`.
pub open spec fn is_first_hit(monitors: Seq<Monitor>, q: Point, i: int) -> bool {
    &&& 0 <= i < monitors.len()
    &&& rect_contains(monitors[i], q)
    &&& forall|j: int| 0 <= j < i ==> !rect_contains(monitors[j], q)
}

/// No monitor rectangle contains `q`.
pub open spec fn no_hit(monitors: Seq<Monitor>, q: Point) -> bool {
    forall|j: int| 0 <= j < monitors.len() ==> !rect_contains(monitors[j], q)
}

/// `i` is the last index whose monitor sits at the origin.
pub open spec fn is_last_origin(monitors: Seq<Monitor>, i: int) -> bool {
    &&& 0 <= i < monitors.len()
    &&& at_origin(monitors[i])
    &&& forall|j: int| i < j < monitors.len() ==> !at_origin(monitors[j])
}

/// No monitor sits at the origin.
pub open spec fn no_origin(monitors: Seq<Monitor>) -> bool {
    forall|j: int| 0 <= j < monitors.len() ==> !at_origin(monitors[j])
}

/// `i` is the first index whose monitor is flagged primary.
pub open spec fn is_first_primary(monitors: Seq<Monitor>, i: int) -> bool {
    &&& 0 <= i < monitors.len()
    &&& monitors[i].primary
    &&& forall|j: int| 0 <= j < i ==> !monitors[j].primary
}

/// No monitor is flagged primary.
pub open spec fn no_primary(monitors: Seq<Monitor>) -> bool {
    forall|j: int| 0 <= j < monitors.len() ==> !monitors[j].primary
}

/// `i` is the first index whose monitor has entity id `e`.
pub open spec fn is_first_entity(monitors: Seq<Monitor>, e: EntityId, i: int) -> bool {
    &&& 0 <= i < monitors.len()
    &&& monitors[i].entity == e
    &&& forall|j: int| 0 <= j < i ==> monitors[j].entity != e
}

/// No monitor has entity id `e`.
pub open spec fn no_entity(monitors: Seq<Monitor>, e: EntityId) -> bool {
    forall|j: int| 0 <= j < monitors.len() ==> monitors[j].entity != e
}

/// What the resolver returns for a given placement and monitor list. For each
/// input this relation admits exactly one result:
/// - `Automatic`, `Centered(Current)` and `Centered(Index(_))` are
///   undeterminable, so the result is `None`;
/// - `At(q)` returns the first monitor whose rectangle contains `q`; failing
///   that, if either coordinate of `q` is negative, the monitor at the origin
///   (the last one in the list, where several sit there), else `None`;
/// - `Centered(Primary)` returns the first monitor flagged primary;
/// - `Centered(Entity(e))` returns the first monitor with entity id `e`.
pub open spec fn resolution_ok(
    position: WindowPosition,
    monitors: Seq<Monitor>,
    r: Option<usize>,
) -> bool {
    match position {
        WindowPosition::Automatic => r is None,
        WindowPosition::At(q) => match r {
            Option::Some(i) => is_first_hit(monitors, q, i as int) || (no_hit(monitors, q)
                && (q.x < 0 || q.y < 0) && is_last_origin(monitors, i as int)),
            Option::None => no_hit(monitors, q) && ((q.x < 0 || q.y < 0) ==> no_origin(
                monitors,
            )),
        },
        WindowPosition::Centered(selection) => match selection {
            MonitorSelection::Current => r is None,
            MonitorSelection::Index(_) => r is None,
            MonitorSelection::Primary => match r {
                Option::Some(i) => is_first_primary(monitors, i as int),
                Option::None => no_primary(monitors),
            },
            MonitorSelection::Entity(e) => match r {
                Option::Some(i) => is_first_entity(monitors, e, i as int),
                Option::None => no_entity(monitors, e),
            },
        },
    }
}

/// Attempts to determine, from static state alone, which monitor the window is
/// on. Returns the index of that monitor in `monitors`, or `None` where no
/// sound determination exists. Never fails: "unknown" is an expected outcome,
/// not an error.
pub fn determine_monitor(window: &Window, monitors: &Vec<Monitor>) -> (r: Option<usize>)
    ensures
        resolution_ok(window.position, monitors@, r),
        r matches Some(i) ==> i < monitors@.len(),
{
    match window.position {
        WindowPosition::Automatic => None,
        WindowPosition::At(q) => {
            let mut zero_monitor: Option<usize> = None;
            let n = monitors.len();
            let mut i: usize = 0;
            while i < n
                invariant
                    window.position == WindowPosition::At(q),
                    n == monitors@.len(),
                    i <= n,
                    forall|j: int| 0 <= j < i ==> !rect_contains(monitors@[j], q),
                    match zero_monitor {
                        Option::Some(z) => z < i && at_origin(monitors@[z as int])
                            && forall|j: int| z < j < i ==> !at_origin(monitors@[j]),
                        Option::None => forall|j: int| 0 <= j < i ==> !at_origin(monitors@[j]),
                    },
                decreases n - i,
            {
                let m = &monitors[i];
                if m.physical_position.x == 0 && m.physical_position.y == 0 {
                    zero_monitor = Some(i);
                }
                if q.x >= m.physical_position.x
                    && (q.x as i64) <= (m.physical_position.x as i64) + (m.physical_size.x as i64)
                    && q.y >= m.physical_position.y
                    && (q.y as i64) <= (m.physical_position.y as i64) + (m.physical_size.y as i64)
                {
                    return Some(i);
                }
                i = i + 1;
            }
            if q.x < 0 || q.y < 0 {
                zero_monitor
            } else {
                None
            }
        },
        WindowPosition::Centered(selection) => match selection {
            MonitorSelection::Current => None,
            MonitorSelection::Index(_) => None,
            MonitorSelection::Primary => {
                let n = monitors.len();
                let mut i: usize = 0;
                while i < n
                    invariant
                        window.position == WindowPosition::Centered(MonitorSelection::Primary),
                        n == monitors@.len(),
                        i <= n,
                        forall|j: int| 0 <= j < i ==> !monitors@[j].primary,
                    decreases n - i,
                {
                    if monitors[i].primary {
                        return Some(i);
                    }
                    i = i + 1;
                }
                None
            },
            MonitorSelection::Entity(e) => {
                let n = monitors.len();
                let mut i: usize = 0;
                while i < n
                    invariant
                        window.position == WindowPosition::Centered(MonitorSelection::Entity(e)),
                        n == monitors@.len(),
                        i <= n,
                        forall|j: int| 0 <= j < i ==> monitors@[j].entity != e,
                    decreases n - i,
                {
                    if monitors[i].entity == e {
                        return Some(i);
                    }
                    i = i + 1;
                }
                None
            },
        },
    }
}

/// Law: a point inside some monitor's rectangle always resolves. Whenever any
/// monitor's rectangle contains `q`, `At(q)` resolves to a monitor whose
/// rectangle contains `q`.
pub proof fn lemma_contained_point_resolves(
    monitors: Seq<Monitor>,
    q: Point,
    k: int,
    r: Option<usize>,
)
    requires
        0 <= k < monitors.len(),
        rect_contains(monitors[k], q),
        resolution_ok(WindowPosition::At(q), monitors, r),
    ensures
        r matches Some(i) && rect_contains(monitors[i as int], q),
{
    assert(!no_hit(monitors, q));
}

/// Law: an automatic placement never resolves.
pub proof fn lemma_automatic_unresolved(monitors: Seq<Monitor>, r: Option<usize>)
    requires
        resolution_ok(WindowPosition::Automatic, monitors, r),
    ensures
        r is None,
{
}

/// Law: centering on the current monitor or on an ordinal index never
/// resolves: neither is determinable from static state.
pub proof fn lemma_current_and_index_unresolved(
    monitors: Seq<Monitor>,
    n: usize,
    r_current: Option<usize>,
    r_index: Option<usize>,
)
    requires
        resolution_ok(
            WindowPosition::Centered(MonitorSelection::Current),
            monitors,
            r_current,
        ),
        resolution_ok(
            WindowPosition::Centered(MonitorSelection::Index(n)),
            monitors,
            r_index,
        ),
    ensures
        r_current is None,
        r_index is None,
{
}

/// Law: centering on the primary monitor resolves exactly when some monitor is
/// flagged primary, and then to the first such monitor in the list — the
/// tie-break when several carry the flag.
pub proof fn lemma_primary_selection(monitors: Seq<Monitor>, r: Option<usize>)
    requires
        resolution_ok(WindowPosition::Centered(MonitorSelection::Primary), monitors, r),
    ensures
        (r is Some) <==> exists|k: int| 0 <= k < monitors.len() && monitors[k].primary,
        r matches Some(i) ==> is_first_primary(monitors, i as int),
{
}

/// Law: with a single primary-flagged monitor, centering on the primary
/// resolves to exactly that monitor.
pub proof fn lemma_unique_primary_selected(monitors: Seq<Monitor>, r: Option<usize>, k: int)
    requires
        resolution_ok(WindowPosition::Centered(MonitorSelection::Primary), monitors, r),
        0 <= k < monitors.len(),
        monitors[k].primary,
        forall|j: int| 0 <= j < monitors.len() && j != k ==> !monitors[j].primary,
    ensures
        r == Some(k as usize),
{
    assert(!no_primary(monitors));
}

/// Law: centering on an explicit monitor reference resolves exactly when a
/// monitor with that entity id is in the list, and then to a monitor with that
/// id.
pub proof fn lemma_entity_selection(monitors: Seq<Monitor>, e: EntityId, r: Option<usize>)
    requires
        resolution_ok(WindowPosition::Centered(MonitorSelection::Entity(e)), monitors, r),
    ensures
        (r is Some) <==> exists|k: int| 0 <= k < monitors.len() && monitors[k].entity == e,
        r matches Some(i) ==> monitors[i as int].entity == e,
{
}

/// Law: the outcome of centering on an explicit monitor reference does not
/// depend on the order of the monitor list: for any two orderings of the same
/// monitors, the resolution succeeds on one exactly when it succeeds on the
/// other, and then both return a monitor with the requested entity id.
pub proof fn lemma_entity_selection_order_independent(
    m1: Seq<Monitor>,
    m2: Seq<Monitor>,
    e: EntityId,
    r1: Option<usize>,
    r2: Option<usize>,
)
    requires
        m1.to_multiset() == m2.to_multiset(),
        resolution_ok(WindowPosition::Centered(MonitorSelection::Entity(e)), m1, r1),
        resolution_ok(WindowPosition::Centered(MonitorSelection::Entity(e)), m2, r2),
    ensures
        (r1 is Some) <==> (r2 is Some),
        r1 matches Some(i) ==> m1[i as int].entity == e,
        r2 matches Some(i) ==> m2[i as int].entity == e,
{
    broadcast use vstd::seq_lib::group_to_multiset_ensures;

    assert forall|k: int| 0 <= k < m1.len() && m1[k].entity == e implies exists|j: int|
        0 <= j < m2.len() && m2[j].entity == e by {
        assert(m1.contains(m1[k]));
        assert(m1.to_multiset().count(m1[k]) > 0);
        assert(m2.to_multiset().count(m1[k]) > 0);
        assert(m2.contains(m1[k]));
        let j = choose|j: int| 0 <= j < m2.len() && m2[j] == m1[k];
        assert(m2[j].entity == e);
    }
    assert forall|k: int| 0 <= k < m2.len() && m2[k].entity == e implies exists|j: int|
        0 <= j < m1.len() && m1[j].entity == e by {
        assert(m2.contains(m2[k]));
        assert(m2.to_multiset().count(m2[k]) > 0);
        assert(m1.to_multiset().count(m2[k]) > 0);
        assert(m1.contains(m2[k]));
        let j = choose|j: int| 0 <= j < m1.len() && m1[j] == m2[k];
        assert(m1[j].entity == e);
    }
}

/// Law: the negative-coordinate fallback. If no monitor rectangle contains
/// `q`, a coordinate of `q` is negative, and some monitor sits at the origin,
/// then `At(q)` resolves to a monitor at the origin.
pub proof fn lemma_negative_fallback(monitors: Seq<Monitor>, q: Point, k: int, r: Option<usize>)
    requires
        no_hit(monitors, q),
        q.x < 0 || q.y < 0,
        0 <= k < monitors.len(),
        at_origin(monitors[k]),
        resolution_ok(WindowPosition::At(q), monitors, r),
    ensures
        r matches Some(i) && at_origin(monitors[i as int]),
{
    assert(!no_origin(monitors));
}

} // verus!
