use memwatch::controls::{command_for, Command, Key};
use memwatch::collector::Request;
use memwatch::engine::Engine;
use memwatch::reader::FileRead;
use memwatch::rows::Delta;
use memwatch::sample::FatalError;
use memwatch::view::{SortKey, ViewMode};

fn names(list: &[&str]) -> Vec<Vec<u8>> {
    list.iter().map(|name| name.as_bytes().to_vec()).collect()
}

/// Runs one pass in which process `pid` has `pid * scale` kB of Pss.
fn run_pass(engine: &mut Engine, entries: &[&str], scale: u64, total: FileRead) {
    engine.begin_scan(&names(entries));
    let mut total = Some(total);
    loop {
        let read = match engine.next_request() {
            Request::Rollup(pid) => FileRead::Content(
                format!("Pss: {} kB\nRss: {} kB\n", pid as u64 * scale, pid as u64 * scale)
                    .into_bytes(),
            ),
            Request::Status(_) => FileRead::Failed,
            Request::Command(_) => FileRead::Content(b"worker\n".to_vec()),
            Request::SystemTotal => total.take().unwrap(),
            Request::Nothing => break,
        };
        engine.supply(read);
    }
}

fn meminfo() -> FileRead {
    FileRead::Content(b"MemTotal: 1234 kB\n".to_vec())
}

#[test]
fn tick_gating() {
    let mut engine = Engine::new(1000, 5000);
    assert!(!engine.should_tick(5000));
    assert!(!engine.should_tick(5999));
    assert!(engine.should_tick(6000));

    // A pass that was begun at 6000 and took until 7500.
    run_pass(&mut engine, &["1"], 1, meminfo());
    engine.tick(7500).unwrap();
    assert!(!engine.should_tick(7500));
    assert!(!engine.should_tick(8499));
    assert!(engine.should_tick(8500));
    assert!(engine.should_tick(100_000));
    // A clock that reads earlier than the last tick makes none due.
    assert!(!engine.should_tick(0));
}

#[test]
fn tick_gating_without_interval() {
    let engine = Engine::new(0, 10);
    assert!(engine.should_tick(10));
    assert!(engine.should_tick(0));
}

#[test]
fn initial_state_samples_at_once() {
    let mut engine = Engine::new(1000, 0);
    run_pass(&mut engine, &["3", "1", "2"], 10, meminfo());
    assert!(!engine.should_tick(5));
    let state = engine.initial_state(5).unwrap();
    assert_eq!(state.rows.len(), 3);
    assert_eq!(state.rows[0].pid, Some(3));
    assert_eq!(state.rows[0].pss_kb, 30);
    assert_eq!(state.rows[0].delta, Delta::New);
    assert_eq!(state.system_total_kb, 1234);
    assert_eq!(state.used_kb, 60);
    assert!(!engine.should_tick(1004));
    assert!(engine.should_tick(1005));
}

#[test]
fn tick_folds_successive_snapshots() {
    let mut engine = Engine::new(1000, 0);
    run_pass(&mut engine, &["1", "2"], 10, meminfo());
    engine.initial_state(0).unwrap();
    run_pass(&mut engine, &["2", "3"], 25, meminfo());
    let state = engine.tick(1000).unwrap();
    let shown: Vec<(Option<u32>, u128, Delta)> =
        state.rows.iter().map(|r| (r.pid, r.pss_kb, r.delta)).collect();
    assert_eq!(
        shown,
        vec![(Some(3), 75, Delta::New), (Some(2), 50, Delta::Change(30))]
    );
    assert_eq!(engine.get_state(), state);
}

#[test]
fn failed_tick_changes_nothing() {
    let mut engine = Engine::new(1000, 0);
    run_pass(&mut engine, &["1"], 10, meminfo());
    let before = engine.initial_state(0).unwrap();

    run_pass(&mut engine, &["1", "2"], 10, FileRead::PermissionDenied);
    assert_eq!(engine.tick(2000), Err(FatalError::SystemTotalUnreadable));
    assert_eq!(engine.get_state(), before);
    // The tick did not complete, so one is still due.
    assert!(engine.should_tick(2000));
    assert_eq!(engine.next_request(), Request::Nothing);

    run_pass(&mut engine, &["1", "2"], 10, FileRead::Content(b"MemFree: 1 kB\n".to_vec()));
    assert_eq!(engine.tick(2100), Err(FatalError::SystemTotalMalformed));

    run_pass(&mut engine, &["1", "2"], 10, meminfo());
    assert_eq!(engine.tick(2200).unwrap().rows.len(), 2);
    assert!(!engine.should_tick(2200));
}

#[test]
fn tick_without_a_finished_pass() {
    let mut engine = Engine::new(1000, 0);
    assert_eq!(engine.tick(5000), Err(FatalError::ScanIncomplete));
    engine.begin_scan(&names(&["1"]));
    assert_eq!(engine.initial_state(5000), Err(FatalError::ScanIncomplete));
    assert_eq!(engine.next_request(), Request::Rollup(1));
    assert!(engine.should_tick(5000));
}

#[test]
fn keys_and_commands() {
    assert_eq!(command_for(Key::Char('q')), Some(Command::Quit));
    assert_eq!(command_for(Key::Char('n')), Some(Command::NextSort));
    assert_eq!(command_for(Key::Char('v')), Some(Command::ToggleView));
    assert_eq!(command_for(Key::Up), Some(Command::ScrollUp));
    assert_eq!(command_for(Key::Down), Some(Command::ScrollDown));
    assert_eq!(command_for(Key::PageUp), Some(Command::PageUp));
    assert_eq!(command_for(Key::PageDown), Some(Command::PageDown));
    assert_eq!(command_for(Key::Char('Q')), None);
    assert_eq!(command_for(Key::Char('x')), None);
    assert_eq!(command_for(Key::Other), None);
}

#[test]
fn commands_move_the_cursor() {
    let mut engine = Engine::new(1000, 0);
    let entries: Vec<String> = (1..=10).map(|pid| pid.to_string()).collect();
    let entries: Vec<&str> = entries.iter().map(|s| s.as_str()).collect();
    run_pass(&mut engine, &entries, 1, meminfo());
    engine.initial_state(0).unwrap();
    engine.set_page_size(5);

    for _ in 0..20 {
        assert!(engine.apply(Command::ScrollDown, 5));
    }
    assert_eq!(engine.get_state().view.scroll_offset, 5);
    assert!(engine.apply(Command::ScrollUp, 5));
    assert_eq!(engine.get_state().view.scroll_offset, 4);
    assert!(engine.apply(Command::PageUp, 3));
    assert_eq!(engine.get_state().view.scroll_offset, 1);
    assert!(engine.apply(Command::PageDown, 3));
    assert_eq!(engine.get_state().view.scroll_offset, 4);
    assert!(engine.apply(Command::NextSort, 3));
    assert_eq!(engine.get_state().view.sort_key, SortKey::Rss);
    assert!(engine.apply(Command::ToggleView, 3));
    let state = engine.get_state();
    assert_eq!(state.view.view_mode, ViewMode::GroupedByCommand);
    assert_eq!(state.view.scroll_offset, 0);
    assert_eq!(state.rows.len(), 1);
    assert_eq!(state.rows[0].process_count, 10);
    assert_eq!(state.rows[0].pss_kb, 55);

    let before = engine.get_state();
    assert!(!engine.apply(Command::Quit, 3));
    assert_eq!(engine.get_state(), before);
}

#[test]
fn cursor_survives_ticks() {
    let mut engine = Engine::new(10, 0);
    run_pass(&mut engine, &["1", "2", "3", "4"], 1, meminfo());
    engine.initial_state(0).unwrap();
    engine.set_page_size(2);
    engine.next_sort();
    engine.scroll_down();
    engine.scroll_down();
    engine.page_down(2);
    engine.page_up(2);
    engine.scroll_up();
    engine.scroll_down();
    assert_eq!(engine.get_state().view.scroll_offset, 1);
    run_pass(&mut engine, &["1", "2", "3", "4", "5"], 1, meminfo());
    let state = engine.tick(10).unwrap();
    assert_eq!(state.view.sort_key, SortKey::Rss);
    assert_eq!(state.view.scroll_offset, 1);
    assert_eq!(state.view.page_size, 2);
    engine.toggle_view();
    assert_eq!(engine.get_state().view.scroll_offset, 0);
}
