use pizza_tower_timing::engine::{Command, RunState, Settings, TimerMode, TimerState};
use pizza_tower_timing::pair::Pair;
use pizza_tower_timing::rooms::Level;
use pizza_tower_timing::snapshot::MemoryValues;

fn settings_off() -> Settings {
    Settings {
        timer_mode: TimerMode::FullGame,
        start_enable: false,
        start_new_file: false,
        start_any_file: false,
        start_new_il: false,
        start_exit_level: false,
        reset_enable: false,
        reset_new_file: false,
        reset_any_file: false,
        reset_new_level: false,
        splits_enable: false,
        splits_level_end: false,
        splits_rooms: false,
    }
}

fn values(old_room: &str, room: &str) -> MemoryValues {
    let mut v = MemoryValues::new();
    v.room_name = Pair { old: old_room.as_bytes().to_vec(), current: room.as_bytes().to_vec() };
    v
}

fn with_level_seconds(mut v: MemoryValues, micros: i64) -> MemoryValues {
    v.level_seconds = Pair { old: v.level_seconds.current, current: micros };
    v
}

fn count(cmds: &[Command], c: Command) -> usize {
    cmds.iter().filter(|x| **x == c).count()
}

#[test]
fn new_file_start() {
    let mut st = settings_off();
    st.start_enable = true;
    st.start_new_file = true;
    let v = values("Finalintro", "tower_entrancehall");
    let mut s = RunState::new();
    let out = s.tick(&v, &st, TimerState::NotRunning, true);
    assert_eq!(out.commands, vec![Command::Start]);

    st.start_new_file = false;
    let mut s = RunState::new();
    let out = s.tick(&v, &st, TimerState::NotRunning, true);
    assert!(out.commands.is_empty());
}

#[test]
fn any_file_start() {
    let mut st = settings_off();
    st.start_enable = true;
    st.start_any_file = true;
    let mut s = RunState::new();
    let out = s.tick(&values("hub_loadingscreen", "tower_entrancehall"), &st, TimerState::NotRunning, true);
    assert_eq!(out.commands, vec![Command::Start]);
    let out = s.tick(&values("Finalintro", "tower_entrancehall"), &st, TimerState::NotRunning, true);
    assert!(out.commands.is_empty());
}

#[test]
fn boss_defeat_splits_once_until_rearmed() {
    let mut st = settings_off();
    st.splits_enable = true;
    st.splits_level_end = true;
    let mut s = RunState::new();
    s.current_level = Level::Hub;
    s.full_game_split_armed = true;

    let mut fight = values("boss_pepperman", "boss_pepperman");
    fight.boss_hp = Pair { old: 5, current: 0 };
    let out = s.tick(&fight, &st, TimerState::Running, true);
    assert!(out.commands.is_empty());

    let mut leave = values("boss_pepperman", "hub_room");
    leave.boss_hp = Pair { old: 0, current: 0 };
    let out = s.tick(&leave, &st, TimerState::Running, true);
    assert_eq!(out.commands, vec![Command::Split]);
    assert!(!s.full_game_split_armed);
    assert_eq!(s.current_level, Level::Hub);

    let out = s.tick(&fight, &st, TimerState::Running, true);
    assert!(out.commands.is_empty());
    let out = s.tick(&leave, &st, TimerState::Running, true);
    assert!(out.commands.is_empty());
}

#[test]
fn boss_hp_on_the_leaving_tick_blocks_the_split() {
    let mut st = settings_off();
    st.splits_enable = true;
    st.splits_level_end = true;
    let mut s = RunState::new();
    s.current_level = Level::Hub;
    s.full_game_split_armed = true;
    let mut leave = values("boss_pepperman", "hub_room");
    leave.boss_hp = Pair { old: 5, current: 0 };
    let out = s.tick(&leave, &st, TimerState::Running, true);
    assert!(out.commands.is_empty());
    assert!(s.full_game_split_armed);
}

#[test]
fn pizzaface_hub_counts_as_defeat() {
    let mut st = settings_off();
    st.splits_enable = true;
    st.splits_level_end = true;
    let mut s = RunState::new();
    s.current_level = Level::Hub;
    s.full_game_split_armed = true;
    let mut v = values("boss_pizzaface", "boss_pizzafacehub");
    v.boss_hp = Pair { old: 3, current: 3 };
    let out = s.tick(&v, &st, TimerState::Running, true);
    assert_eq!(out.commands, vec![Command::Split]);
}

#[test]
fn entering_a_level_arms_the_split() {
    let mut s = RunState::new();
    let st = settings_off();
    s.tick(&values("tower_1", "entrance_1"), &st, TimerState::Running, true);
    assert!(s.full_game_split_armed);
    assert_eq!(s.current_level, Level::JohnGutter);
}

#[test]
fn room_split_needs_a_room_change() {
    let mut st = settings_off();
    st.splits_enable = true;
    st.splits_rooms = true;
    let mut s = RunState::new();
    let mut t = 0i64;
    while t <= 3_000_000 {
        let v = with_level_seconds(values("entrance_3", "entrance_3"), t);
        let out = s.tick(&v, &st, TimerState::Running, true);
        assert!(out.commands.is_empty());
        t += 500_000;
    }
    let v = with_level_seconds(values("entrance_3", "entrance_4"), 3_000_000);
    let out = s.tick(&v, &st, TimerState::Running, true);
    assert_eq!(out.commands, vec![Command::Split]);
    assert_eq!(s.last_room_split_name, b"entrance_3".to_vec());
    assert_eq!(s.last_room_split_time, 3_000_000);
}

#[test]
fn room_split_dwell_on_return() {
    let mut st = settings_off();
    st.splits_enable = true;
    st.splits_rooms = true;
    let mut s = RunState::new();
    let out = s.tick(&with_level_seconds(values("a_1", "a_2"), 1_000_000), &st, TimerState::Running, true);
    assert_eq!(out.commands, vec![Command::Split]);
    let out = s.tick(&with_level_seconds(values("a_2", "a_1"), 2_000_000), &st, TimerState::Running, true);
    assert!(out.commands.is_empty());
    let out = s.tick(&with_level_seconds(values("a_1", "a_2"), 2_500_000), &st, TimerState::Running, true);
    assert_eq!(out.commands, vec![Command::Split]);
    let out = s.tick(&with_level_seconds(values("a_2", "a_1"), 5_000_000), &st, TimerState::Running, true);
    assert_eq!(out.commands, vec![Command::Split]);
}

#[test]
fn level_restart_resets_once() {
    let mut st = settings_off();
    st.reset_enable = true;
    st.reset_new_level = true;
    let mut s = RunState::new();
    s.current_level = Level::Pizzascape;
    s.last_room_split_time = 4_000_000;
    let out = s.tick(&with_level_seconds(values("medieval_2", "medieval_2"), 5_000_000), &st, TimerState::Running, true);
    assert!(out.commands.is_empty());
    let out = s.tick(&with_level_seconds(values("medieval_2", "medieval_2"), 6_000_000), &st, TimerState::Running, true);
    assert!(out.commands.is_empty());
    let out = s.tick(&with_level_seconds(values("medieval_2", "medieval_2"), 10_000), &st, TimerState::Running, true);
    assert_eq!(count(&out.commands, Command::Reset), 1);
    assert_eq!(s.last_room_split_time, 0);
    let out = s.tick(&with_level_seconds(values("medieval_2", "medieval_2"), 20_000), &st, TimerState::Running, true);
    assert!(out.commands.is_empty());
}

#[test]
fn no_level_restart_in_the_hub() {
    let mut st = settings_off();
    st.reset_enable = true;
    st.reset_new_level = true;
    let mut s = RunState::new();
    s.current_level = Level::Hub;
    s.level_time = Pair { old: 0, current: 9_000_000 };
    let out = s.tick(&with_level_seconds(values("tower_1", "tower_1"), 0), &st, TimerState::Running, true);
    assert!(out.commands.is_empty());
}

#[test]
fn file_resets() {
    let mut st = settings_off();
    st.reset_enable = true;
    st.reset_new_file = true;
    st.reset_any_file = true;
    let mut s = RunState::new();
    let out = s.tick(&values("tower_1", "Finalintro"), &st, TimerState::Running, true);
    assert_eq!(out.commands, vec![Command::Reset]);
    let out = s.tick(&values("Finalintro", "Finalintro"), &st, TimerState::Running, true);
    assert!(out.commands.is_empty());
    let out = s.tick(&values("tower_1", "hub_loadingscreen"), &st, TimerState::Running, true);
    assert_eq!(out.commands, vec![Command::Reset]);
}

#[test]
fn new_game_plus_anchor() {
    let mut st = settings_off();
    st.timer_mode = TimerMode::NewGamePlus;
    let mut s = RunState::new();
    let mut v = with_level_seconds(values("tower_entrancehall", "tower_entrancehall"), 500_000);
    v.file_minutes = Pair { old: 0, current: 30_000_000 };
    v.file_seconds = Pair { old: 0, current: 12_000_000 };
    let out = s.tick(&v, &st, TimerState::NotRunning, true);
    assert_eq!(s.ng_plus_offset, Some(1_812_000_000));
    assert_eq!(out.game_time, Some(0));

    let mut later = values("tower_entrancehall", "tower_1");
    later.file_minutes = Pair { old: 30_000_000, current: 31_000_000 };
    later.file_seconds = Pair { old: 12_000_000, current: 0 };
    let out = s.tick(&later, &st, TimerState::Running, true);
    assert_eq!(s.ng_plus_offset, Some(1_812_000_000));
    assert_eq!(out.game_time, Some(48_000_000));

    st.timer_mode = TimerMode::FullGame;
    let out = s.tick(&values("tower_1", "Finalintro"), &st, TimerState::NotRunning, true);
    assert_eq!(s.ng_plus_offset, None);
    assert_eq!(out.game_time, Some(0));
}

#[test]
fn game_time_modes() {
    let mut v = values("tower_1", "tower_1");
    v.file_minutes = Pair { old: 0, current: 2_000_000 };
    v.file_seconds = Pair { old: 0, current: 3_500_000 };
    v.level_minutes = Pair { old: 0, current: 1_000_000 };
    v.level_seconds = Pair { old: 0, current: 250_000 };
    let mut st = settings_off();
    for (mode, expected) in [
        (TimerMode::FullGame, 123_500_000i128),
        (TimerMode::IL, 60_250_000),
        (TimerMode::NewGamePlus, 123_500_000),
        (TimerMode::IW, 123_500_000),
    ] {
        st.timer_mode = mode;
        let mut s = RunState::new();
        let out = s.tick(&v, &st, TimerState::Running, true);
        assert_eq!(out.game_time, Some(expected));
    }
    let mut s = RunState::new();
    let out = s.tick(&v, &st, TimerState::Running, false);
    assert_eq!(out.game_time, None);
}

#[test]
fn world_anchor_in_the_hub() {
    let mut st = settings_off();
    st.timer_mode = TimerMode::IW;
    let mut s = RunState::new();
    let mut v = values("Finalintro", "tower_1");
    v.file_seconds = Pair { old: 0, current: 40_000_000 };
    let out = s.tick(&v, &st, TimerState::NotRunning, true);
    assert_eq!(s.iw_offset, Some(40_000_000));
    assert_eq!(out.game_time, Some(0));
    assert_eq!(out.level_name, "Hub");
    let mut w = values("tower_1", "entrance_1");
    w.file_seconds = Pair { old: 40_000_000, current: 41_000_000 };
    let out = s.tick(&w, &st, TimerState::Running, true);
    assert_eq!(out.game_time, Some(1_000_000));
    assert_eq!(out.level_name, "John Gutter");
}

#[test]
fn individual_level_start_window() {
    let mut st = settings_off();
    st.start_enable = true;
    st.start_new_il = true;
    for (micros, starts) in [(70_000i64, false), (70_001, true), (100_000, true), (100_001, false)] {
        let mut s = RunState::new();
        s.current_level = Level::JohnGutter;
        let v = with_level_seconds(values("entrance_1", "entrance_1"), micros);
        let out = s.tick(&v, &st, TimerState::NotRunning, true);
        assert_eq!(out.commands.len(), if starts { 1 } else { 0 });
    }
}

#[test]
fn leaving_a_level_into_the_hub_starts() {
    let mut st = settings_off();
    st.start_enable = true;
    st.start_exit_level = true;
    let mut s = RunState::new();
    s.current_level = Level::JohnGutter;
    let out = s.tick(&values("entrance_1", "tower_1"), &st, TimerState::NotRunning, true);
    assert_eq!(out.commands, vec![Command::Start]);
}

#[test]
fn end_fade_and_out_of_bounds_splits() {
    let mut st = settings_off();
    st.splits_enable = true;
    st.splits_level_end = true;
    let mut s = RunState::new();
    let mut fade = values("tower_entrancehall", "tower_entrancehall");
    fade.end_of_level = Pair { old: 0, current: 1 };
    let out = s.tick(&fade, &st, TimerState::Running, true);
    assert_eq!(out.commands, vec![Command::Split]);

    let oob = values("tower_5", "tower_finalhallway");
    let out = s.tick(&oob, &st, TimerState::Running, true);
    assert_eq!(out.commands, vec![Command::Split]);
    let out = s.tick(&oob, &st, TimerState::Running, true);
    assert!(out.commands.is_empty());
    let out = s.tick(&values("tower_5", "tower_5"), &st, TimerState::NotRunning, true);
    assert!(out.commands.is_empty());
    assert!(!s.oob_split_done);
    let out = s.tick(&oob, &st, TimerState::Running, true);
    assert_eq!(out.commands, vec![Command::Split]);
}

#[test]
fn reset_in_the_same_tick_rearms_the_out_of_bounds_split() {
    let mut st = settings_off();
    st.reset_enable = true;
    st.reset_any_file = true;
    st.splits_enable = true;
    st.splits_level_end = true;
    let mut s = RunState::new();
    s.oob_split_done = true;
    let out = s.tick(&values("tower_1", "hub_loadingscreen"), &st, TimerState::Running, true);
    assert_eq!(out.commands, vec![Command::Reset]);
    assert!(!s.oob_split_done);
}

#[test]
fn start_in_the_same_tick_keeps_the_out_of_bounds_flag() {
    let mut st = settings_off();
    st.start_enable = true;
    st.start_new_file = true;
    st.splits_enable = true;
    st.splits_level_end = true;
    let mut s = RunState::new();
    s.oob_split_done = true;
    let out = s.tick(&values("Finalintro", "tower_entrancehall"), &st, TimerState::NotRunning, true);
    assert_eq!(out.commands, vec![Command::Start]);
    assert!(s.oob_split_done);
    let out = s.tick(&values("tower_1", "tower_1"), &st, TimerState::NotRunning, true);
    assert!(out.commands.is_empty());
    assert!(!s.oob_split_done);
}
