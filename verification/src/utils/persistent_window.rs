//! Windows that live across frames: each is shown once per frame until it
//! says it is done, and while it is shown it may queue further windows for
//! the frames to come.

use vstd::prelude::*;

verus! {

/// Hands out window ids: 0, 1, 2 and so on, each one once. The counter is an
/// ordinary value, owned by whoever creates windows; where several managers
/// are to share one id space, they share one counter.
pub struct WindowIds {
    next: u64,
}

impl View for WindowIds {
    type V = nat;

    /// How many ids have been handed out, which is also the next id.
    closed spec fn view(&self) -> nat {
        self.next as nat
    }
}

impl WindowIds {
    /// The counter never passes the last value of `u64`.
    pub proof fn lemma_view_bounded(&self)
        ensures
            self@ <= u64::MAX,
    {
    }

    /// A counter that has handed out nothing yet.
    pub fn new() -> (ids: WindowIds)
        ensures
            ids@ == 0,
    {
        WindowIds { next: 0 }
    }

    /// A counter that goes on from `next`: for a host that kept count
    /// itself. The ids below `next` are taken to be in use.
    pub fn starting_at(next: u64) -> (ids: WindowIds)
        ensures
            ids@ == next,
    {
        WindowIds { next }
    }

    /// Hands out the next id. Every id is larger than all the ids handed out
    /// before it, so none comes twice. When `u64::MAX` ids have been handed
    /// out there is none left, and the counter stays as it is.
    pub fn issue(&mut self) -> (id: Option<u64>)
        ensures
            old(self)@ < u64::MAX ==> id == Some(old(self)@ as u64) && final(self)@ == old(self)@
                + 1,
            old(self)@ >= u64::MAX ==> id.is_none() && final(self)@ == old(self)@,
    {
        if self.next < u64::MAX {
            let id: u64 = self.next;
            self.next = id + 1;
            Some(id)
        } else {
            None
        }
    }
}

/// What a window does when it is shown.
///
/// `show` is called once per render pass with the window's id, the list of
/// windows queued during this pass, the GUI handle and the application's
/// state. It returns whether the window stays for the next pass. What it
/// pushes onto `new_windows` is first shown in the pass after this one.
///
/// `G` is the type of the GUI handle that a window draws itself through,
/// `S` the type of the application's state. Both are the host's; the
/// manager hands the values on and never looks inside.
///
/// `shown` is the relation between what one call of `show` was handed and
/// what it left behind. An implementation may say what its own relation is,
/// and its `show` is then held to it. One that does not say keeps the
/// relation that holds of every call, so nothing is known of what its `show`
/// does. The manager assumes nothing of the relation either way: `show` may
/// return either answer and leave the queue and the state in any shape. A
/// `show` that panics is not contained; the panic ends the pass and goes on
/// to the caller.
pub trait PersistentWindowFunction<S, G>: Sized {
    /// Whether one call of `show` can go like this: on the window `before`,
    /// under `id`, with the queue `queue_before`, the handle `gui` and the
    /// state `state_before`, it answers `keep` and leaves the window as
    /// `after`, the queue as `queue_after` and the state as `state_after`.
    /// Unless an implementation narrows it, every call can.
    open spec fn shown(
        before: Self,
        id: u64,
        queue_before: Seq<PersistentWindow<Self>>,
        gui: G,
        state_before: S,
        keep: bool,
        after: Self,
        queue_after: Seq<PersistentWindow<Self>>,
        state_after: S,
    ) -> bool {
        true
    }

    fn show(
        &mut self,
        id: &u64,
        new_windows: &mut Vec<PersistentWindow<Self>>,
        gui_ctx: &G,
        state: &mut S,
    ) -> (keep: bool)
        ensures
            Self::shown(
                *old(self),
                *id,
                old(new_windows)@,
                *gui_ctx,
                *old(state),
                keep,
                *final(self),
                final(new_windows)@,
                *final(state),
            ),
    ;
}

/// A window and the id it is known by.
pub struct PersistentWindow<W> {
    pub id: u64,
    pub function: W,
}

impl<W> PersistentWindow<W> {
    /// A window around `function`, under the next id of `ids`. There is no
    /// window when `ids` has none left.
    pub fn new(ids: &mut WindowIds, function: W) -> (window: Option<PersistentWindow<W>>)
        ensures
            old(ids)@ < u64::MAX ==> window == Some(
                (PersistentWindow { id: old(ids)@ as u64, function }),
            ) && final(ids)@ == old(ids)@ + 1,
            old(ids)@ >= u64::MAX ==> window.is_none() && final(ids)@ == old(ids)@,
    {
        match ids.issue() {
            Some(id) => Some(PersistentWindow { id, function }),
            None => None,
        }
    }
}

/// The ids of a list of windows, in the order of the list.
pub open spec fn ids_of<W>(windows: Seq<PersistentWindow<W>>) -> Seq<u64> {
    windows.map_values(|window: PersistentWindow<W>| window.id)
}

/// Whether the verdicts of a pass drop the item at `index`: there is a
/// verdict for it, and the verdict is `false`.
pub open spec fn dropped(verdicts: Seq<bool>, index: int) -> bool {
    0 <= index < verdicts.len() && !verdicts[index]
}

/// The items that a pass keeps: those that its verdicts do not drop, in
/// their old order.
pub open spec fn retained<T>(items: Seq<T>, verdicts: Seq<bool>) -> Seq<T>
    decreases items.len(),
{
    if items.len() == 0 {
        Seq::empty()
    } else if dropped(verdicts, items.len() - 1) {
        retained(items.drop_last(), verdicts)
    } else {
        retained(items.drop_last(), verdicts).push(items.last())
    }
}

/// The list after a pass: the items kept, then the items queued during the
/// pass, in the order they were queued.
pub open spec fn after_pass<T>(items: Seq<T>, verdicts: Seq<bool>, queued: Seq<T>) -> Seq<T> {
    retained(items, verdicts) + queued
}

/// Whatever a pass keeps was in the list before, at a place that the
/// verdicts do not drop; and the pass keeps no more items than there were.
pub proof fn lemma_retained_came_from<T>(items: Seq<T>, verdicts: Seq<bool>, j: int)
    requires
        0 <= j < retained(items, verdicts).len(),
    ensures
        retained(items, verdicts).len() <= items.len(),
        exists|i: int|
            j <= i < items.len() && !dropped(verdicts, i) && #[trigger] items[i] == retained(
                items,
                verdicts,
            )[j],
    decreases items.len(),
{
    lemma_retained_len(items, verdicts);
    let last = items.len() - 1;
    let front = retained(items.drop_last(), verdicts);
    lemma_retained_len(items.drop_last(), verdicts);
    if j < front.len() {
        lemma_retained_came_from(items.drop_last(), verdicts, j);
        let i = choose|i: int|
            j <= i < items.drop_last().len() && !dropped(verdicts, i)
                && #[trigger] items.drop_last()[i] == front[j];
        assert(items[i] == retained(items, verdicts)[j]);
    } else {
        assert(!dropped(verdicts, last));
        assert(items[last] == retained(items, verdicts)[j]);
    }
}

/// A pass keeps at most as many items as there were.
pub proof fn lemma_retained_len<T>(items: Seq<T>, verdicts: Seq<bool>)
    ensures
        retained(items, verdicts).len() <= items.len(),
    decreases items.len(),
{
    if items.len() > 0 {
        lemma_retained_len(items.drop_last(), verdicts);
    }
}

/// An item that the verdicts do not drop is kept.
pub proof fn lemma_retained_keeps<T>(items: Seq<T>, verdicts: Seq<bool>, i: int)
    requires
        0 <= i < items.len(),
        !dropped(verdicts, i),
    ensures
        retained(items, verdicts).contains(items[i]),
    decreases items.len(),
{
    let last = items.len() - 1;
    let front = retained(items.drop_last(), verdicts);
    if i == last {
        assert(retained(items, verdicts)[front.len() as int] == items[i]);
    } else {
        lemma_retained_keeps(items.drop_last(), verdicts, i);
        let j = choose|j: int| 0 <= j < front.len() && front[j] == items.drop_last()[i];
        assert(retained(items, verdicts)[j] == items[i]);
    }
}

/// A window whose `show` answered `false` is gone after the pass: where no
/// two windows of the list share an id, the id of a dropped window is the id
/// of none that is kept. Later passes walk the list only, so they never
/// show that window again.
pub proof fn lemma_dropped_is_gone(ids: Seq<u64>, verdicts: Seq<bool>, i: int)
    requires
        ids.no_duplicates(),
        0 <= i < ids.len(),
        dropped(verdicts, i),
    ensures
        !retained(ids, verdicts).contains(ids[i]),
{
    let kept = retained(ids, verdicts);
    if kept.contains(ids[i]) {
        let j = choose|j: int| 0 <= j < kept.len() && kept[j] == ids[i];
        lemma_retained_came_from(ids, verdicts, j);
        let k = choose|k: int|
            j <= k < ids.len() && !dropped(verdicts, k) && #[trigger] ids[k] == kept[j];
        assert(ids[k] == ids[i] && k != i);
    }
}

/// Whether `ids` are all different and all below `bound`: what holds of the
/// ids of a list whose windows all took their id from one counter that now
/// stands at `bound`.
pub open spec fn issued_below(ids: Seq<u64>, bound: nat) -> bool {
    &&& ids.no_duplicates()
    &&& forall|i: int| 0 <= i < ids.len() ==> ids[i] < bound
}

/// A window with a fresh id keeps the ids of a list apart: if the ids of the
/// list came from a counter that stands at `bound`, then so do the ids of
/// the list with the counter's next id behind them, the counter standing
/// one further.
pub proof fn lemma_fresh_id_keeps_ids_apart(ids: Seq<u64>, bound: nat)
    requires
        issued_below(ids, bound),
        bound < u64::MAX,
    ensures
        issued_below(ids.push(bound as u64), bound + 1),
{
}

/// A pass that queues nothing keeps the ids of a list apart, and below the
/// bound they were below.
pub proof fn lemma_retained_keeps_ids_apart(ids: Seq<u64>, verdicts: Seq<bool>, bound: nat)
    requires
        issued_below(ids, bound),
    ensures
        issued_below(retained(ids, verdicts), bound),
    decreases ids.len(),
{
    if ids.len() > 0 {
        let front = ids.drop_last();
        lemma_retained_keeps_ids_apart(front, verdicts, bound);
        let kept = retained(front, verdicts);
        if !dropped(verdicts, ids.len() - 1) {
            assert forall|j: int| 0 <= j < kept.len() implies kept[j] != ids.last() by {
                lemma_retained_came_from(front, verdicts, j);
            }
        }
    }
}

/// The windows queued during a pass stand behind every window that the pass
/// kept, in the order they were queued. A pass has one verdict for each
/// window that was in the list when it began, so a window queued during a
/// pass has no part in that pass: it is first shown in the next one.
pub proof fn lemma_queued_come_last<T>(items: Seq<T>, verdicts: Seq<bool>, queued: Seq<T>, k: int)
    requires
        0 <= k < queued.len(),
    ensures
        after_pass(items, verdicts, queued).len() == retained(items, verdicts).len() + queued.len(),
        after_pass(items, verdicts, queued)[retained(items, verdicts).len() + k] == queued[k],
        after_pass(items, verdicts, queued).subrange(0, retained(items, verdicts).len() as int)
            == retained(items, verdicts),
{
    assert(after_pass(items, verdicts, queued).subrange(
        0,
        retained(items, verdicts).len() as int,
    ) =~= retained(items, verdicts));
}

/// Keeping windows and reading their ids can be done in either order.
pub proof fn lemma_ids_of_retained<W>(windows: Seq<PersistentWindow<W>>, verdicts: Seq<bool>)
    ensures
        ids_of(retained(windows, verdicts)) == retained(ids_of(windows), verdicts),
    decreases windows.len(),
{
    if windows.len() == 0 {
        assert(ids_of(retained(windows, verdicts)) =~= retained(ids_of(windows), verdicts));
    } else {
        lemma_ids_of_retained(windows.drop_last(), verdicts);
        assert(ids_of(windows).drop_last() =~= ids_of(windows.drop_last()));
        assert(ids_of(retained(windows, verdicts)) =~= retained(ids_of(windows), verdicts));
    }
}

/// What happened in one pass over a list of windows, call by call.
pub struct Pass<W, S> {
    /// The answer of each window, in the order of the list.
    pub verdicts: Seq<bool>,
    /// The windows as their calls left them, in the order of the list.
    pub shown: Seq<PersistentWindow<W>>,
    /// The queue before the first call, then after each call.
    pub queues: Seq<Seq<PersistentWindow<W>>>,
    /// The state before the first call, then after each call.
    pub states: Seq<S>,
}

/// Whether `pass` is a pass over `before` with the handle `gui`, begun in
/// the state `start`.
///
/// It is one when every window of `before` was shown exactly once, in the
/// order of the list and under its own id, and each call took the queue and
/// the state as the call before it had left them: the first call an empty
/// queue and `start`, all of them the same `gui`. No call changes a
/// window's id.
pub open spec fn is_pass<W: PersistentWindowFunction<S, G>, S, G>(
    before: Seq<PersistentWindow<W>>,
    gui: G,
    start: S,
    pass: Pass<W, S>,
) -> bool {
    &&& pass.verdicts.len() == before.len()
    &&& pass.shown.len() == before.len()
    &&& pass.queues.len() == before.len() + 1
    &&& pass.states.len() == before.len() + 1
    &&& pass.queues[0] == Seq::<PersistentWindow<W>>::empty()
    &&& pass.states[0] == start
    &&& ids_of(pass.shown) == ids_of(before)
    &&& forall|i: int|
        0 <= i < before.len() ==> <W as PersistentWindowFunction<S, G>>::shown(
            before[i].function,
            before[i].id,
            pass.queues[i],
            gui,
            pass.states[i],
            #[trigger] pass.verdicts[i],
            pass.shown[i].function,
            pass.queues[i + 1],
            pass.states[i + 1],
        )
}

/// The list of windows that are shown every frame.
pub struct PersistentWindowManager<W> {
    windows: Vec<PersistentWindow<W>>,
}

impl<W> View for PersistentWindowManager<W> {
    type V = Seq<PersistentWindow<W>>;

    /// The windows, in the order they are shown.
    closed spec fn view(&self) -> Seq<PersistentWindow<W>> {
        self.windows@
    }
}

impl<W> PersistentWindowManager<W> {
    /// The ids of the windows, in the order they are shown.
    pub open spec fn ids(&self) -> Seq<u64> {
        ids_of(self@)
    }

    /// A manager without windows.
    pub fn new() -> (manager: PersistentWindowManager<W>)
        ensures
            manager@ == Seq::<PersistentWindow<W>>::empty(),
    {
        PersistentWindowManager { windows: Vec::new() }
    }

    /// Puts `window` behind the windows that are there.
    pub fn push(&mut self, window: PersistentWindow<W>)
        ensures
            final(self)@ == old(self)@.push(window),
    {
        self.windows.push(window);
    }

    /// Ends a pass: drops each window whose verdict is `false`, keeps the
    /// others in their order, and puts `new_windows` behind them. A window
    /// for which `verdicts` holds no entry stays.
    pub fn settle(&mut self, verdicts: &Vec<bool>, new_windows: Vec<PersistentWindow<W>>)
        ensures
            final(self)@ == after_pass(old(self)@, verdicts@, new_windows@),
    {
        let mut windows: Vec<PersistentWindow<W>> = Vec::new();
        std::mem::swap(&mut windows, &mut self.windows);
        let ghost before = windows@;
        assert(before.len() == windows.len());
        let mut kept: Vec<PersistentWindow<W>> = Vec::new();
        let mut index: usize = 0;
        for window in it: windows.into_iter()
            invariant
                index == it.index(),
                it.seq() == before,
                before.len() <= usize::MAX,
                kept@ == retained(before.take(index as int), verdicts@),
        {
            assert(before.take(index + 1).drop_last() =~= before.take(index as int));
            let keep = index >= verdicts.len() || verdicts[index];
            if keep {
                kept.push(window);
            }
            index = index + 1;
        }
        assert(before.take(index as int) =~= before);
        let mut new_windows = new_windows;
        kept.append(&mut new_windows);
        self.windows = kept;
    }

    /// Shows every window once, in order, then settles the pass.
    ///
    /// Each window that was in the list when the pass began is shown exactly
    /// once, with its own id, the queue of this pass, `gui_ctx` and `state`.
    /// A window stays if and only if its `show` returned `true`; the windows
    /// that stay keep their ids and their order. What the windows left in
    /// the queue is put behind them. A queued window is not shown in the
    /// pass that queued it.
    ///
    /// The answers are the windows' to give, so the contract speaks of
    /// whatever they were: there is a pass over the old list, as [`is_pass`]
    /// describes it, whose last state is the state left behind and whose
    /// verdicts and last queue settle the list. With no window in the list
    /// there is nobody to ask, and nothing changes.
    pub fn render<S, G>(&mut self, state: &mut S, gui_ctx: &G) where
        W: PersistentWindowFunction<S, G>,

        ensures
            exists|pass: Pass<W, S>| #[trigger]
                is_pass::<W, S, G>(old(self)@, *gui_ctx, *old(state), pass) && *final(state)
                    == pass.states.last() && final(self)@ == after_pass(
                    pass.shown,
                    pass.verdicts,
                    pass.queues.last(),
                ),
            exists|verdicts: Seq<bool>, queued: Seq<u64>|
                verdicts.len() == old(self).ids().len() && final(self).ids() == #[trigger] after_pass(
                    old(self).ids(),
                    verdicts,
                    queued,
                ),
            old(self)@.len() == 0 ==> final(self)@.len() == 0 && *final(state) == *old(state),
    {
        let mut new_windows: Vec<PersistentWindow<W>> = Vec::new();
        let mut verdicts: Vec<bool> = Vec::new();
        let ghost mut queues: Seq<Seq<PersistentWindow<W>>> = seq![new_windows@];
        let ghost mut states: Seq<S> = seq![*state];
        let mut index: usize = 0;
        while index < self.windows.len()
            invariant
                index <= self.windows.len(),
                self@.len() == old(self)@.len(),
                verdicts.len() == index,
                queues.len() == index + 1,
                states.len() == index + 1,
                queues[0] == Seq::<PersistentWindow<W>>::empty(),
                states[0] == *old(state),
                queues.last() == new_windows@,
                states.last() == *state,
                self.ids() == old(self).ids(),
                forall|j: int| index <= j < self@.len() ==> self@[j] == old(self)@[j],
                forall|i: int|
                    0 <= i < index ==> <W as PersistentWindowFunction<S, G>>::shown(
                        old(self)@[i].function,
                        old(self)@[i].id,
                        queues[i],
                        *gui_ctx,
                        states[i],
                        #[trigger] verdicts@[i],
                        self@[i].function,
                        queues[i + 1],
                        states[i + 1],
                    ),
            decreases self.windows.len() - index,
        {
            let ghost windows_before = self@;
            let window = &mut self.windows[index];
            let keep = window.function.show(&window.id, &mut new_windows, gui_ctx, state);
            verdicts.push(keep);
            proof {
                queues = queues.push(new_windows@);
                states = states.push(*state);
                assert(self.ids() =~= ids_of(windows_before));
            }
            index = index + 1;
        }
        let ghost pass = Pass { verdicts: verdicts@, shown: self@, queues, states };
        self.settle(&verdicts, new_windows);
        proof {
            assert(is_pass::<W, S, G>(old(self)@, *gui_ctx, *old(state), pass));
            lemma_ids_of_retained(pass.shown, verdicts@);
            assert(self.ids() =~= after_pass(old(self).ids(), verdicts@, ids_of(new_windows@)));
        }
    }
}

} // verus!
