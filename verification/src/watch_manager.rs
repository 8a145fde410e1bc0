//! The watch manager: owns the pairing of host watch handles with watch
//! elements and reconciles the active set against a newly loaded one during
//! a configuration reload, without tearing down watches whose element did
//! not change.

use crate::watch_element::WatchElement;
use crate::watch_element::WatchElementView;
use vstd::multiset::Multiset;
use vstd::pervasive::VecAdditionalExecFns;
use vstd::prelude::*;

verus! {

/// A host watch handle paired with the element it watches.
pub struct ActiveWatch {
    /// The handle the host watch table gave out for this element.
    pub descriptor: u64,
    /// The element being watched.
    pub element: WatchElement,
}

/// The mathematical content of an `ActiveWatch`.
#[verifier::ext_equal]
pub struct ActiveWatchView {
    /// The handle the host watch table gave out for this element.
    pub descriptor: u64,
    /// The element being watched.
    pub element: WatchElementView,
}

impl View for ActiveWatch {
    type V = ActiveWatchView;

    open spec fn view(&self) -> ActiveWatchView {
        ActiveWatchView { descriptor: self.descriptor, element: self.element@ }
    }
}

/// Manager of events
pub struct WatchManager {
    /// Elements currently watched
    pub current_elements: Vec<ActiveWatch>,
    /// Backup of elements from before transaction start
    pub previous_elements: Vec<ActiveWatch>,
    /// New elements to add after transaction end
    pub new_elements: Vec<WatchElement>,
}

/// The mathematical content of a `WatchManager`.
#[verifier::ext_equal]
pub struct WatchManagerView {
    /// Elements currently watched
    pub current: Seq<ActiveWatchView>,
    /// Backup of elements from before transaction start
    pub previous: Seq<ActiveWatchView>,
    /// New elements to add after transaction end
    pub staged: Seq<WatchElementView>,
}

impl View for WatchManager {
    type V = WatchManagerView;

    open spec fn view(&self) -> WatchManagerView {
        WatchManagerView {
            current: self.current_elements@.map_values(|a: ActiveWatch| a@),
            previous: self.previous_elements@.map_values(|a: ActiveWatch| a@),
            staged: self.new_elements@.map_values(|e: WatchElement| e@),
        }
    }
}

/// The first index of `watches` whose element equals `e`, or -1.
pub open spec fn find_match(watches: Seq<ActiveWatchView>, e: WatchElementView) -> int
    decreases watches.len(),
{
    if watches.len() == 0 {
        -1
    } else if watches[0].element == e {
        0
    } else {
        let r = find_match(watches.drop_first(), e);
        if r < 0 {
            -1
        } else {
            r + 1
        }
    }
}

/// The first index of `watches` whose descriptor equals `d`, or -1.
pub open spec fn find_descriptor(watches: Seq<ActiveWatchView>, d: u64) -> int
    decreases watches.len(),
{
    if watches.len() == 0 {
        -1
    } else if watches[0].descriptor == d {
        0
    } else {
        let r = find_descriptor(watches.drop_first(), d);
        if r < 0 {
            -1
        } else {
            r + 1
        }
    }
}

/// What `find_match` returns: -1 exactly when no element of `watches` equals
/// `e`, and otherwise the first index whose element equals `e`.
pub proof fn lemma_find_match(watches: Seq<ActiveWatchView>, e: WatchElementView)
    ensures
        find_match(watches, e) == -1 || (0 <= find_match(watches, e) < watches.len()),
        find_match(watches, e) == -1 ==> (forall|k: int|
            0 <= k < watches.len() ==> watches[k].element != e),
        find_match(watches, e) >= 0 ==> watches[find_match(watches, e)].element == e,
        find_match(watches, e) >= 0 ==> (forall|k: int|
            0 <= k < find_match(watches, e) ==> watches[k].element != e),
    decreases watches.len(),
{
    if watches.len() > 0 && watches[0].element != e {
        lemma_find_match(watches.drop_first(), e);
        assert(forall|k: int|
            1 <= k < watches.len() ==> watches[k] == watches.drop_first()[k - 1]);
    }
}

/// What `find_descriptor` returns: -1 exactly when no entry of `watches`
/// carries `d`, and otherwise the first index carrying `d`.
pub proof fn lemma_find_descriptor(watches: Seq<ActiveWatchView>, d: u64)
    ensures
        find_descriptor(watches, d) == -1 || (0 <= find_descriptor(watches, d) < watches.len()),
        find_descriptor(watches, d) == -1 ==> (forall|k: int|
            0 <= k < watches.len() ==> watches[k].descriptor != d),
        find_descriptor(watches, d) >= 0 ==> watches[find_descriptor(watches, d)].descriptor == d,
        find_descriptor(watches, d) >= 0 ==> (forall|k: int|
            0 <= k < find_descriptor(watches, d) ==> watches[k].descriptor != d),
    decreases watches.len(),
{
    if watches.len() > 0 && watches[0].descriptor != d {
        lemma_find_descriptor(watches.drop_first(), d);
        assert(forall|k: int|
            1 <= k < watches.len() ==> watches[k] == watches.drop_first()[k - 1]);
    }
}

/// Starting a transaction: the active set becomes the backup, and the active
/// and staged sets are cleared.
pub open spec fn spec_begin(m: WatchManagerView) -> WatchManagerView {
    WatchManagerView {
        current: Seq::empty(),
        previous: m.current,
        staged: Seq::empty(),
    }
}

/// Staging one element: if a structurally identical element stands in the
/// backup, its pair moves unchanged to the active set (the watch survives);
/// otherwise the element joins the staged list, with no watch-table call
/// implied yet.
pub open spec fn spec_stage(m: WatchManagerView, e: WatchElementView) -> WatchManagerView {
    let i = find_match(m.previous, e);
    if i >= 0 {
        WatchManagerView {
            current: m.current.push(m.previous[i]),
            previous: m.previous.remove(i),
            staged: m.staged,
        }
    } else {
        WatchManagerView { staged: m.staged.push(e), ..m }
    }
}

/// Ending a transaction: the backup (watches to remove from the host table)
/// and the staged list (elements to add to it) are handed out and cleared;
/// the active set keeps the moved pairs.
pub open spec fn spec_end(m: WatchManagerView) -> WatchManagerView {
    WatchManagerView { current: m.current, previous: Seq::empty(), staged: Seq::empty() }
}

/// Recording a successful host addition: a pair joins the active set; a pair
/// already carrying the same handle is replaced, so that at most one active
/// watch exists per handle.
pub open spec fn spec_install(m: WatchManagerView, d: u64, e: WatchElementView) -> WatchManagerView {
    let i = find_descriptor(m.current, d);
    let aw = ActiveWatchView { descriptor: d, element: e };
    if i >= 0 {
        WatchManagerView { current: m.current.update(i, aw), ..m }
    } else {
        WatchManagerView { current: m.current.push(aw), ..m }
    }
}

/// The element of the active pair carrying `d`, if any.
pub open spec fn spec_search(m: WatchManagerView, d: u64) -> Option<WatchElementView> {
    let i = find_descriptor(m.current, d);
    if i >= 0 {
        Some(m.current[i].element)
    } else {
        None
    }
}

/// No two of `watches` carry the same handle.
pub open spec fn unique_descriptors(watches: Seq<ActiveWatchView>) -> bool {
    forall|i: int, j: int|
        0 <= i < j < watches.len() ==> watches[i].descriptor != watches[j].descriptor
}

/// At most one active watch exists per handle at any time, the backup
/// included: the active set and the backup each carry pairwise distinct
/// handles, and no handle stands in both.
pub open spec fn handles_unique(m: WatchManagerView) -> bool {
    &&& unique_descriptors(m.current)
    &&& unique_descriptors(m.previous)
    &&& forall|i: int, j: int|
        0 <= i < m.current.len() && 0 <= j < m.previous.len() ==> m.current[i].descriptor
            != m.previous[j].descriptor
}

/// Starting a transaction keeps handles unique: the active set merely
/// becomes the backup.
pub proof fn lemma_begin_keeps_handles_unique(m: WatchManagerView)
    requires
        handles_unique(m),
    ensures
        handles_unique(spec_begin(m)),
{
}

/// Staging one element keeps handles unique: a pair only ever moves from
/// the backup to the active set, keeping its handle.
pub proof fn lemma_stage_keeps_handles_unique(m: WatchManagerView, e: WatchElementView)
    requires
        handles_unique(m),
    ensures
        handles_unique(spec_stage(m, e)),
{
    lemma_find_match(m.previous, e);
    let fm = find_match(m.previous, e);
    if fm >= 0 {
        let m1 = spec_stage(m, e);
        assert(forall|k: int|
            0 <= k < m1.previous.len() ==> m1.previous[k] == (if k < fm {
                m.previous[k]
            } else {
                m.previous[k + 1]
            }));
        assert(unique_descriptors(m1.previous));
        assert(forall|k: int|
            0 <= k < m1.current.len() - 1 ==> m1.current[k] == m.current[k]);
        assert(m1.current[m1.current.len() - 1] == m.previous[fm]);
        assert(unique_descriptors(m1.current));
    }
}

/// Ending a transaction keeps handles unique: the backup and the staged
/// list are merely cleared.
pub proof fn lemma_end_keeps_handles_unique(m: WatchManagerView)
    requires
        handles_unique(m),
    ensures
        handles_unique(spec_end(m)),
{
}

/// Recording a host addition keeps the active handles unique: a pair
/// already carrying the handle is replaced, never duplicated. It is called
/// once the transaction ended, with the backup empty.
pub proof fn lemma_install_keeps_handles_unique(m: WatchManagerView, d: u64, e: WatchElementView)
    requires
        handles_unique(m),
        m.previous.len() == 0,
    ensures
        handles_unique(spec_install(m, d, e)),
{
    lemma_find_descriptor(m.current, d);
    let fd = find_descriptor(m.current, d);
    let m1 = spec_install(m, d, e);
    if fd >= 0 {
        assert(forall|k: int|
            0 <= k < m1.current.len() && k != fd ==> m1.current[k] == m.current[k]);
        assert(forall|k: int|
            0 <= k < m.current.len() && k != fd ==> m.current[k].descriptor != d);
        assert(unique_descriptors(m1.current));
    } else {
        assert(forall|k: int| 0 <= k < m.current.len() ==> m1.current[k] == m.current[k]);
        assert(m1.current[m.current.len() as int].descriptor == d);
        assert(unique_descriptors(m1.current));
    }
}

/// A manager after staging a whole sequence of elements, in order.
pub open spec fn stage_all(m: WatchManagerView, elements: Seq<WatchElementView>) -> WatchManagerView
    decreases elements.len(),
{
    if elements.len() == 0 {
        m
    } else {
        stage_all(spec_stage(m, elements[0]), elements.drop_first())
    }
}

/// The elements of a sequence of active watches, in order.
pub open spec fn elements_of(watches: Seq<ActiveWatchView>) -> Seq<WatchElementView> {
    watches.map_values(|a: ActiveWatchView| a.element)
}

/// Once a pair whose element is `w` stands in the active set, staging
/// elements none of which is `w` leaves it there, brings no `w` into the
/// staged list, and brings no `w` back into the backup.
proof fn lemma_stage_all_keeps_moved(
    m: WatchManagerView,
    elements: Seq<WatchElementView>,
    d: u64,
    w: WatchElementView,
)
    requires
        m.current.contains(ActiveWatchView { descriptor: d, element: w }),
        forall|k: int| 0 <= k < m.previous.len() ==> m.previous[k].element != w,
        forall|k: int| 0 <= k < elements.len() ==> elements[k] != w,
        forall|k: int| 0 <= k < m.staged.len() ==> m.staged[k] != w,
    ensures
        stage_all(m, elements).current.contains(ActiveWatchView { descriptor: d, element: w }),
        forall|k: int|
            0 <= k < stage_all(m, elements).previous.len() ==> stage_all(
                m,
                elements,
            ).previous[k].element != w,
        forall|k: int|
            0 <= k < stage_all(m, elements).staged.len() ==> stage_all(m, elements).staged[k] != w,
    decreases elements.len(),
{
    if elements.len() > 0 {
        let e = elements[0];
        let m1 = spec_stage(m, e);
        let aw = ActiveWatchView { descriptor: d, element: w };
        lemma_find_match(m.previous, e);
        let fm = find_match(m.previous, e);
        let ci = choose|i: int| 0 <= i < m.current.len() && m.current[i] == aw;
        if fm >= 0 {
            assert(m1.current[ci] == aw);
            assert(m1.current.contains(aw));
        } else {
            assert(m1.current.contains(aw));
        }
        assert(forall|k: int| 0 <= k < m1.previous.len() ==> m1.previous[k].element != w);
        assert(forall|k: int| 0 <= k < m1.staged.len() ==> m1.staged[k] != w);
        assert(forall|k: int|
            0 <= k < elements.drop_first().len() ==> elements.drop_first()[k] != w);
        lemma_stage_all_keeps_moved(m1, elements.drop_first(), d, w);
    }
}

/// While the one pair whose element is `w` still waits in the backup and the
/// one occurrence of `w` still waits among the elements to stage, staging
/// them all moves that pair unchanged into the active set: it is neither
/// left for removal nor staged for re-addition.
proof fn lemma_stage_all_moves_pending(
    m: WatchManagerView,
    elements: Seq<WatchElementView>,
    d: u64,
    w: WatchElementView,
    pi: int,
    si: int,
)
    requires
        0 <= pi < m.previous.len(),
        m.previous[pi] == (ActiveWatchView { descriptor: d, element: w }),
        forall|k: int|
            0 <= k < m.previous.len() && k != pi ==> m.previous[k].element != w,
        0 <= si < elements.len(),
        elements[si] == w,
        forall|k: int| 0 <= k < elements.len() && k != si ==> elements[k] != w,
        forall|k: int| 0 <= k < m.staged.len() ==> m.staged[k] != w,
    ensures
        stage_all(m, elements).current.contains(ActiveWatchView { descriptor: d, element: w }),
        forall|k: int|
            0 <= k < stage_all(m, elements).previous.len() ==> stage_all(
                m,
                elements,
            ).previous[k].element != w,
        forall|k: int|
            0 <= k < stage_all(m, elements).staged.len() ==> stage_all(m, elements).staged[k] != w,
    decreases elements.len(),
{
    let e = elements[0];
    let m1 = spec_stage(m, e);
    let aw = ActiveWatchView { descriptor: d, element: w };
    lemma_find_match(m.previous, e);
    let fm = find_match(m.previous, e);
    if si == 0 {
        assert(fm >= 0);
        assert(fm == pi);
        assert(m1.current[m.current.len() as int] == aw);
        assert(m1.current.contains(aw));
        assert(forall|k: int| 0 <= k < m1.previous.len() ==> m1.previous[k].element != w);
        assert(forall|k: int|
            0 <= k < elements.drop_first().len() ==> elements.drop_first()[k] != w);
        lemma_stage_all_keeps_moved(m1, elements.drop_first(), d, w);
    } else {
        assert(e != w);
        if fm >= 0 {
            assert(fm != pi);
            let pi1 = if fm < pi {
                pi - 1
            } else {
                pi
            };
            assert(m1.previous[pi1] == aw);
            assert(forall|k: int|
                0 <= k < m1.previous.len() && k != pi1 ==> m1.previous[k].element != w);
            lemma_stage_all_moves_pending(m1, elements.drop_first(), d, w, pi1, si - 1);
        } else {
            lemma_stage_all_moves_pending(m1, elements.drop_first(), d, w, pi, si - 1);
        }
    }
}

/// Reload preserves watches: when the active set holds exactly one pair
/// whose element is `w` and the newly loaded elements also contain `w`
/// exactly once, reconciling (begin, stage each element, end) keeps that
/// pair in the active set: no pair with element `w` is handed out for
/// removal, and `w` is never staged for re-addition, so the host watch for
/// `w` is never torn down and recreated.
pub proof fn lemma_reload_preserves_watch(
    m: WatchManagerView,
    elements: Seq<WatchElementView>,
    d: u64,
    w: WatchElementView,
    ci: int,
    si: int,
)
    requires
        0 <= ci < m.current.len(),
        m.current[ci] == (ActiveWatchView { descriptor: d, element: w }),
        forall|k: int| 0 <= k < m.current.len() && k != ci ==> m.current[k].element != w,
        0 <= si < elements.len(),
        elements[si] == w,
        forall|k: int| 0 <= k < elements.len() && k != si ==> elements[k] != w,
    ensures
        stage_all(spec_begin(m), elements).current.contains(
            ActiveWatchView { descriptor: d, element: w },
        ),
        forall|k: int|
            0 <= k < stage_all(spec_begin(m), elements).previous.len() ==> stage_all(
                spec_begin(m),
                elements,
            ).previous[k].element != w,
        forall|k: int|
            0 <= k < stage_all(spec_begin(m), elements).staged.len() ==> stage_all(
                spec_begin(m),
                elements,
            ).staged[k] != w,
{
    lemma_stage_all_moves_pending(spec_begin(m), elements, d, w, ci, si);
}

/// A sequence's multiset is its first element plus the rest's multiset.
proof fn lemma_to_multiset_drop_first<A>(s: Seq<A>)
    requires
        s.len() > 0,
    ensures
        s.to_multiset() =~= s.drop_first().to_multiset().insert(s[0]),
{
    broadcast use vstd::seq_lib::group_to_multiset_ensures;

    assert(s.remove(0) =~= s.drop_first());
    assert(s.contains(s[0]));
    assert(s.remove(0).to_multiset() =~= s.to_multiset().remove(s[0]));
}

/// Staging conserves content: the staged elements land, one for one, either
/// as elements of moved pairs in the active set or in the staged list; and
/// every backed-up pair either stays in the backup or moves to the active
/// set, unchanged.
proof fn lemma_stage_all_conserves(m: WatchManagerView, elements: Seq<WatchElementView>)
    ensures
        elements_of(stage_all(m, elements).current).to_multiset().add(
            stage_all(m, elements).staged.to_multiset(),
        ) =~= elements_of(m.current).to_multiset().add(m.staged.to_multiset()).add(
            elements.to_multiset(),
        ),
        stage_all(m, elements).previous.to_multiset().add(
            stage_all(m, elements).current.to_multiset(),
        ) =~= m.previous.to_multiset().add(m.current.to_multiset()),
        elements_of(stage_all(m, elements).previous).to_multiset().add(
            elements_of(stage_all(m, elements).current).to_multiset(),
        ) =~= elements_of(m.previous).to_multiset().add(elements_of(m.current).to_multiset()),
    decreases elements.len(),
{
    broadcast use vstd::seq_lib::group_to_multiset_ensures;

    if elements.len() == 0 {
        assert(elements.to_multiset().len() == 0);
        assert(elements.to_multiset() =~= Multiset::<WatchElementView>::empty());
    } else {
        let e = elements[0];
        let m1 = spec_stage(m, e);
        let rest = elements.drop_first();
        lemma_find_match(m.previous, e);
        let fm = find_match(m.previous, e);
        lemma_to_multiset_drop_first(elements);
        if fm >= 0 {
            let pair = m.previous[fm];
            assert(pair.element == e);
            lemma_map_push(m.current, |a: ActiveWatchView| a.element, pair);
            assert(elements_of(m1.current) =~= elements_of(m.current).push(e));
            lemma_map_remove(m.previous, |a: ActiveWatchView| a.element, fm);
            assert(elements_of(m1.previous) =~= elements_of(m.previous).remove(fm));
            assert(m.previous.contains(pair));
            assert(elements_of(m.previous)[fm] == e);
            assert(elements_of(m.previous).contains(e));
            assert(m1.previous.to_multiset() =~= m.previous.to_multiset().remove(pair));
            assert(m1.current.to_multiset() =~= m.current.to_multiset().insert(pair));
            assert(elements_of(m1.previous).to_multiset() =~= elements_of(
                m.previous,
            ).to_multiset().remove(e));
            assert(elements_of(m1.current).to_multiset() =~= elements_of(
                m.current,
            ).to_multiset().insert(e));
        } else {
            assert(m1.staged.to_multiset() =~= m.staged.to_multiset().insert(e));
        }
        lemma_stage_all_conserves(m1, rest);
    }
}

/// Reload removes stale and adds new: reconciling the active set against a
/// newly loaded element sequence leaves, counting multiplicity, exactly the
/// loaded elements active (as moved pairs or as staged additions), and hands
/// out for removal exactly the pairs whose elements were active before but
/// are not covered by the loaded elements.
pub proof fn lemma_reload_exact(m: WatchManagerView, elements: Seq<WatchElementView>)
    ensures
        elements_of(stage_all(spec_begin(m), elements).current).to_multiset().add(
            stage_all(spec_begin(m), elements).staged.to_multiset(),
        ) =~= elements.to_multiset(),
        stage_all(spec_begin(m), elements).previous.to_multiset().add(
            stage_all(spec_begin(m), elements).current.to_multiset(),
        ) =~= m.current.to_multiset(),
        elements_of(stage_all(spec_begin(m), elements).previous).to_multiset().add(
            elements_of(stage_all(spec_begin(m), elements).current).to_multiset(),
        ) =~= elements_of(m.current).to_multiset(),
{
    broadcast use vstd::seq_lib::group_to_multiset_ensures;

    let m0 = spec_begin(m);
    lemma_stage_all_conserves(m0, elements);
    assert(m0.current.to_multiset().len() == 0);
    assert(m0.current.to_multiset() =~= Multiset::<ActiveWatchView>::empty());
    assert(elements_of(m0.current).to_multiset().len() == 0);
    assert(elements_of(m0.current).to_multiset() =~= Multiset::<WatchElementView>::empty());
    assert(m0.staged.to_multiset().len() == 0);
    assert(m0.staged.to_multiset() =~= Multiset::<WatchElementView>::empty());
}

/// Mapping a sequence commutes with pushing one value.
proof fn lemma_map_push<A, B>(s: Seq<A>, f: spec_fn(A) -> B, x: A)
    ensures
        s.push(x).map_values(f) =~= s.map_values(f).push(f(x)),
{
}

/// Mapping a sequence commutes with removing one index.
proof fn lemma_map_remove<A, B>(s: Seq<A>, f: spec_fn(A) -> B, i: int)
    requires
        0 <= i < s.len(),
    ensures
        s.remove(i).map_values(f) =~= s.map_values(f).remove(i),
{
}

/// Mapping a sequence commutes with updating one index.
proof fn lemma_map_update<A, B>(s: Seq<A>, f: spec_fn(A) -> B, i: int, x: A)
    requires
        0 <= i < s.len(),
    ensures
        s.update(i, x).map_values(f) =~= s.map_values(f).update(i, f(x)),
{
}

impl WatchManager {
    /// A manager with nothing watched, nothing backed up and nothing staged.
    pub fn new() -> (r: Self)
        ensures
            r@ == (WatchManagerView {
                current: Seq::<ActiveWatchView>::empty(),
                previous: Seq::<ActiveWatchView>::empty(),
                staged: Seq::<WatchElementView>::empty(),
            }),
    {
        let r = WatchManager {
            current_elements: Vec::new(),
            previous_elements: Vec::new(),
            new_elements: Vec::new(),
        };
        proof {
            assert(r@ =~= (WatchManagerView {
                current: Seq::<ActiveWatchView>::empty(),
                previous: Seq::<ActiveWatchView>::empty(),
                staged: Seq::<WatchElementView>::empty(),
            }));
        }
        r
    }

    /// Starts a new transaction, all events will be backed up
    pub fn begin_transaction(&mut self)
        ensures
            final(self)@ == spec_begin(old(self)@),
    {
        let mut moved: Vec<ActiveWatch> = Vec::new();
        core::mem::swap(&mut moved, &mut self.current_elements);
        self.previous_elements = moved;
        self.new_elements = Vec::new();
        assert(final(self)@ =~= spec_begin(old(self)@));
    }

    /// Adds a new element: if a structurally identical element exists in the
    /// backup, its pair is moved to the active set to avoid losing the watch;
    /// if not, the element is staged for addition at transaction end.
    pub fn add_element(&mut self, new_element: WatchElement)
        ensures
            final(self)@ == spec_stage(old(self)@, new_element@),
    {
        proof {
            lemma_find_match(self@.previous, new_element@);
        }
        let ghost fm = find_match(self@.previous, new_element@);
        let mut i: usize = 0;
        let n = self.previous_elements.len();
        while i < n
            invariant
                i <= n,
                n == self.previous_elements.len(),
                *self == *old(self),
                fm == find_match(self@.previous, new_element@),
                forall|k: int| 0 <= k < i ==> self@.previous[k].element != new_element@,
                fm == -1 || fm >= i,
            decreases n - i,
        {
            proof {
                lemma_find_match(self@.previous, new_element@);
            }
            if self.previous_elements[i].element.same_as(&new_element) {
                proof {
                    assert(self@.previous[i as int] == self.previous_elements@[i as int]@);
                    assert(self@.previous[i as int].element == new_element@);
                    assert(fm == i);
                }
                let moved_pair = self.previous_elements.remove(i);
                self.current_elements.push(moved_pair);
                proof {
                    lemma_map_remove(
                        old(self).previous_elements@,
                        |a: ActiveWatch| a@,
                        fm,
                    );
                    lemma_map_push(
                        old(self).current_elements@,
                        |a: ActiveWatch| a@,
                        moved_pair,
                    );
                    assert(final(self)@ =~= spec_stage(old(self)@, new_element@));
                }
                return ;
            }
            i = i + 1;
        }
        proof {
            assert(fm == -1);
        }
        let ghost e = new_element@;
        let staged_element = new_element;
        self.new_elements.push(staged_element);
        proof {
            lemma_map_push(old(self).new_elements@, |w: WatchElement| w@, staged_element);
            assert(final(self)@ =~= spec_stage(old(self)@, e));
        }
    }

    /// Ends the transaction: hands out the backed-up pairs whose watches are
    /// to be removed from the host table and the staged elements to be added
    /// to it, clearing both. Removals are handed out first so the host
    /// performs them before any addition.
    pub fn end_transaction(&mut self) -> (r: (Vec<ActiveWatch>, Vec<WatchElement>))
        ensures
            final(self)@ == spec_end(old(self)@),
            r.0@.map_values(|a: ActiveWatch| a@) == old(self)@.previous,
            r.1@.map_values(|e: WatchElement| e@) == old(self)@.staged,
    {
        let mut removals: Vec<ActiveWatch> = Vec::new();
        let mut additions: Vec<WatchElement> = Vec::new();
        core::mem::swap(&mut removals, &mut self.previous_elements);
        core::mem::swap(&mut additions, &mut self.new_elements);
        assert(final(self)@ =~= spec_end(old(self)@));
        (removals, additions)
    }

    /// Records that the host accepted a watch for `element` under handle
    /// `descriptor`, replacing any active pair already carrying that handle.
    pub fn install(&mut self, descriptor: u64, element: WatchElement)
        ensures
            final(self)@ == spec_install(old(self)@, descriptor, element@),
    {
        proof {
            lemma_find_descriptor(self@.current, descriptor);
        }
        let ghost fd = find_descriptor(self@.current, descriptor);
        let pair = ActiveWatch { descriptor, element };
        let mut i: usize = 0;
        let n = self.current_elements.len();
        while i < n
            invariant
                i <= n,
                n == self.current_elements.len(),
                *self == *old(self),
                pair@ == (ActiveWatchView { descriptor, element: element@ }),
                fd == find_descriptor(self@.current, descriptor),
                forall|k: int| 0 <= k < i ==> self@.current[k].descriptor != descriptor,
                fd == -1 || fd >= i,
            decreases n - i,
        {
            proof {
                lemma_find_descriptor(self@.current, descriptor);
            }
            if self.current_elements[i].descriptor == descriptor {
                proof {
                    assert(self@.current[i as int] == self.current_elements@[i as int]@);
                    assert(self@.current[i as int].descriptor == descriptor);
                    assert(fd == i);
                }
                let ghost e = pair.element@;
                let ghost gpair = pair;
                self.current_elements.set(i, pair);
                proof {
                    let target = spec_install(old(self)@, descriptor, e);
                    assert(self.current_elements@ == old(self).current_elements@.update(fd, gpair));
                    assert forall|k: int|
                        0 <= k < self@.current.len() implies self@.current[k] == target.current[k] by {
                        assert(self@.current[k] == self.current_elements@[k]@);
                        if k == fd {
                            assert(self.current_elements@[k] == gpair);
                        } else {
                            assert(self.current_elements@[k] == old(self).current_elements@[k]);
                            assert(old(self)@.current[k] == old(self).current_elements@[k]@);
                        }
                    }
                    assert(self@.current =~= target.current);
                    assert(self@ =~= target);
                }
                return ;
            }
            i = i + 1;
        }
        proof {
            assert(fd == -1);
        }
        let ghost e = pair.element@;
        self.current_elements.push(pair);
        proof {
            lemma_map_push(old(self).current_elements@, |a: ActiveWatch| a@, pair);
            assert(final(self)@ =~= spec_install(old(self)@, descriptor, e));
        }
    }

    /// Searches the active set for the element watched under `descriptor`;
    /// an unknown handle (for instance a stale event from a watch removed
    /// moments earlier) finds nothing.
    pub fn search_element(&self, watch_descriptor: u64) -> (r: Option<&WatchElement>)
        ensures
            (match r {
                Some(e) => Some(e@),
                None => None::<WatchElementView>,
            }) == spec_search(self@, watch_descriptor),
    {
        proof {
            lemma_find_descriptor(self@.current, watch_descriptor);
        }
        let ghost fd = find_descriptor(self@.current, watch_descriptor);
        let mut i: usize = 0;
        let n = self.current_elements.len();
        while i < n
            invariant
                i <= n,
                n == self.current_elements.len(),
                fd == find_descriptor(self@.current, watch_descriptor),
                forall|k: int| 0 <= k < i ==> self@.current[k].descriptor != watch_descriptor,
                fd == -1 || fd >= i,
            decreases n - i,
        {
            proof {
                lemma_find_descriptor(self@.current, watch_descriptor);
            }
            if self.current_elements[i].descriptor == watch_descriptor {
                proof {
                    assert(self@.current[i as int] == self.current_elements@[i as int]@);
                    assert(self@.current[i as int].descriptor == watch_descriptor);
                    assert(fd == i);
                }
                return Some(&self.current_elements[i].element);
            }
            i = i + 1;
        }
        None
    }
}

} // verus!
