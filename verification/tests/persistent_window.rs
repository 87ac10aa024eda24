use glium_app::utils::persistent_window::{
    PersistentWindow, PersistentWindowFunction, PersistentWindowManager, WindowIds,
};

/// What the windows of these tests write down: the ids that were shown, in
/// the order they were shown, and the counter that new windows take their
/// ids from.
struct Log {
    shown: Vec<u64>,
    ids: WindowIds,
}

impl Log {
    fn new() -> Log {
        Log { shown: Vec::new(), ids: WindowIds::new() }
    }

    fn take_shown(&mut self) -> Vec<u64> {
        std::mem::take(&mut self.shown)
    }
}

/// A window that stays for `frames_left` more passes after the current one,
/// and queues `spawn` children the first time it is shown.
struct Script {
    frames_left: u32,
    spawn: u32,
}

impl PersistentWindowFunction<Log, &'static str> for Script {
    fn show(
        &mut self,
        id: &u64,
        new_windows: &mut Vec<PersistentWindow<Script>>,
        gui_ctx: &&'static str,
        state: &mut Log,
    ) -> bool {
        assert_eq!(*gui_ctx, "gui");
        state.shown.push(*id);
        for _child in 0..self.spawn {
            let child = Script { frames_left: 0, spawn: 0 };
            new_windows.push(PersistentWindow::new(&mut state.ids, child).unwrap());
        }
        self.spawn = 0;
        if self.frames_left == 0 {
            false
        } else {
            self.frames_left -= 1;
            true
        }
    }
}

fn window(log: &mut Log, frames_left: u32, spawn: u32) -> PersistentWindow<Script> {
    PersistentWindow::new(&mut log.ids, Script { frames_left, spawn }).unwrap()
}

#[test]
fn ids_count_up_from_zero() {
    let mut ids = WindowIds::new();
    assert_eq!(ids.issue(), Some(0));
    assert_eq!(ids.issue(), Some(1));
    assert_eq!(ids.issue(), Some(2));
}

#[test]
fn ids_go_on_where_the_host_left_off() {
    let mut ids = WindowIds::starting_at(41);
    assert_eq!(ids.issue(), Some(41));
    assert_eq!(ids.issue(), Some(42));
}

#[test]
fn ids_run_out_rather_than_repeat() {
    let mut ids = WindowIds::starting_at(u64::MAX - 1);
    assert_eq!(ids.issue(), Some(u64::MAX - 1));
    assert_eq!(ids.issue(), None);
    assert_eq!(ids.issue(), None);
}

#[test]
fn new_window_takes_the_next_id() {
    let mut ids = WindowIds::new();
    let first = PersistentWindow::new(&mut ids, 'a').unwrap();
    let second = PersistentWindow::new(&mut ids, 'b').unwrap();
    assert_eq!((first.id, first.function), (0, 'a'));
    assert_eq!((second.id, second.function), (1, 'b'));
    assert_eq!(ids.issue(), Some(2));
}

#[test]
fn no_window_without_an_id() {
    let mut ids = WindowIds::starting_at(u64::MAX);
    assert!(PersistentWindow::new(&mut ids, 'a').is_none());
    assert_eq!(ids.issue(), None);
}

#[test]
fn render_of_an_empty_manager_does_nothing() {
    let mut manager: PersistentWindowManager<Script> = PersistentWindowManager::new();
    let mut log = Log::new();
    manager.render(&mut log, &"gui");
    manager.render(&mut log, &"gui");
    assert_eq!(log.shown, Vec::<u64>::new());
}

#[test]
fn windows_are_shown_in_the_order_they_were_pushed() {
    let mut manager = PersistentWindowManager::new();
    let mut log = Log::new();
    for _n in 0..4 {
        let w = window(&mut log, 10, 0);
        manager.push(w);
    }
    manager.render(&mut log, &"gui");
    assert_eq!(log.take_shown(), vec![0, 1, 2, 3]);
    manager.render(&mut log, &"gui");
    assert_eq!(log.take_shown(), vec![0, 1, 2, 3]);
}

#[test]
fn window_that_returns_false_is_shown_once_and_never_again() {
    let mut manager = PersistentWindowManager::new();
    let mut log = Log::new();
    let w = window(&mut log, 0, 0);
    manager.push(w);
    manager.render(&mut log, &"gui");
    assert_eq!(log.take_shown(), vec![0]);
    for _pass in 0..3 {
        manager.render(&mut log, &"gui");
        assert_eq!(log.take_shown(), Vec::<u64>::new());
    }
}

#[test]
fn windows_that_stay_keep_their_order() {
    let mut manager = PersistentWindowManager::new();
    let mut log = Log::new();
    for frames_left in [2u32, 0, 1, 0, 2] {
        let w = window(&mut log, frames_left, 0);
        manager.push(w);
    }
    manager.render(&mut log, &"gui");
    assert_eq!(log.take_shown(), vec![0, 1, 2, 3, 4]);
    manager.render(&mut log, &"gui");
    assert_eq!(log.take_shown(), vec![0, 2, 4]);
    manager.render(&mut log, &"gui");
    assert_eq!(log.take_shown(), vec![0, 4]);
    manager.render(&mut log, &"gui");
    assert_eq!(log.take_shown(), Vec::<u64>::new());
}

#[test]
fn queued_window_is_first_shown_in_the_following_pass() {
    let mut manager = PersistentWindowManager::new();
    let mut log = Log::new();
    let parent = window(&mut log, 5, 1);
    manager.push(parent);
    manager.render(&mut log, &"gui");
    // The child got id 1 during the pass and was not shown in it.
    assert_eq!(log.take_shown(), vec![0]);
    manager.render(&mut log, &"gui");
    assert_eq!(log.take_shown(), vec![0, 1]);
    // The child returned false on its first showing.
    manager.render(&mut log, &"gui");
    assert_eq!(log.take_shown(), vec![0]);
}

#[test]
fn queued_windows_come_behind_the_ones_that_stay() {
    let mut manager = PersistentWindowManager::new();
    let mut log = Log::new();
    let leaving = window(&mut log, 0, 2); // id 0, queues ids 3 and 4
    let staying = window(&mut log, 9, 1); // id 1, queues id 5
    let last = window(&mut log, 9, 0); // id 2
    manager.push(leaving);
    manager.push(staying);
    manager.push(last);
    manager.render(&mut log, &"gui");
    assert_eq!(log.take_shown(), vec![0, 1, 2]);
    manager.render(&mut log, &"gui");
    assert_eq!(log.take_shown(), vec![1, 2, 3, 4, 5]);
    manager.render(&mut log, &"gui");
    assert_eq!(log.take_shown(), vec![1, 2]);
}

#[test]
fn window_pushed_between_passes_is_shown_last() {
    let mut manager = PersistentWindowManager::new();
    let mut log = Log::new();
    let first = window(&mut log, 9, 0);
    manager.push(first);
    manager.render(&mut log, &"gui");
    let second = window(&mut log, 9, 0);
    manager.push(second);
    manager.render(&mut log, &"gui");
    assert_eq!(log.take_shown(), vec![0, 0, 1]);
}

/// A window that empties the queue of the pass and stays.
struct Sweeper;

impl PersistentWindowFunction<Vec<u64>, ()> for Sweeper {
    fn show(
        &mut self,
        id: &u64,
        new_windows: &mut Vec<PersistentWindow<Sweeper>>,
        _gui_ctx: &(),
        state: &mut Vec<u64>,
    ) -> bool {
        state.push(*id);
        if *id == 7 {
            new_windows.push(PersistentWindow { id: 100, function: Sweeper });
        } else {
            new_windows.clear();
        }
        true
    }
}

#[test]
fn what_is_in_the_queue_when_the_pass_ends_is_what_joins() {
    let mut manager = PersistentWindowManager::new();
    manager.push(PersistentWindow { id: 7, function: Sweeper });
    manager.push(PersistentWindow { id: 8, function: Sweeper });
    let mut shown = Vec::new();
    // 7 queues a window, 8 sweeps it away again.
    manager.render(&mut shown, &());
    manager.render(&mut shown, &());
    assert_eq!(shown, vec![7, 8, 7, 8]);

    let mut manager = PersistentWindowManager::new();
    manager.push(PersistentWindow { id: 8, function: Sweeper });
    manager.push(PersistentWindow { id: 7, function: Sweeper });
    let mut shown = Vec::new();
    manager.render(&mut shown, &());
    manager.render(&mut shown, &());
    assert_eq!(shown, vec![8, 7, 8, 7, 100]);
}

/// A window that only writes down that it was shown.
struct Mark;

impl PersistentWindowFunction<Vec<u64>, ()> for Mark {
    fn show(
        &mut self,
        id: &u64,
        _new_windows: &mut Vec<PersistentWindow<Mark>>,
        _gui_ctx: &(),
        state: &mut Vec<u64>,
    ) -> bool {
        state.push(*id);
        true
    }
}

fn marks(ids: &[u64]) -> Vec<PersistentWindow<Mark>> {
    ids.iter().map(|id| PersistentWindow { id: *id, function: Mark }).collect()
}

fn ids_in(manager: &mut PersistentWindowManager<Mark>) -> Vec<u64> {
    let mut shown = Vec::new();
    manager.render(&mut shown, &());
    shown
}

#[test]
fn settle_drops_by_verdict_and_appends() {
    let mut manager = PersistentWindowManager::new();
    for w in marks(&[10, 11, 12, 13]) {
        manager.push(w);
    }
    manager.settle(&vec![true, false, false, true], marks(&[20, 21]));
    assert_eq!(ids_in(&mut manager), vec![10, 13, 20, 21]);
}

#[test]
fn settle_keeps_windows_without_a_verdict() {
    let mut manager = PersistentWindowManager::new();
    for w in marks(&[10, 11, 12]) {
        manager.push(w);
    }
    manager.settle(&vec![false], Vec::new());
    assert_eq!(ids_in(&mut manager), vec![11, 12]);
    manager.settle(&Vec::new(), Vec::new());
    assert_eq!(ids_in(&mut manager), vec![11, 12]);
    manager.settle(&vec![true, false, false, false], marks(&[1]));
    assert_eq!(ids_in(&mut manager), vec![11, 1]);
}

#[test]
fn settle_can_empty_the_manager() {
    let mut manager = PersistentWindowManager::new();
    for w in marks(&[1, 2]) {
        manager.push(w);
    }
    manager.settle(&vec![false, false], Vec::new());
    assert_eq!(ids_in(&mut manager), Vec::<u64>::new());
}
