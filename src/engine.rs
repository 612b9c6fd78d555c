use vstd::prelude::*;
use vstd::string::StringSliceAdditionalSpecFns;
use crate::pair::Pair;
use crate::rooms::{
    Level, classify, full_game_split_rooms, full_game_split_unlock_rooms, get_current_level,
    get_full_level_name, get_starting_room, is_room, is_split_room, level_name_spec, starting_room_spec,
    bytes_eq,
};
use crate::snapshot::{BufferReads, MemoryValues, buffer_applied};

verus! {

/// The room a new file starts from.
pub const INTRO_ROOM: &'static str = "Finalintro";
/// The first room of the game.
pub const ENTRANCE_HALL: &'static str = "tower_entrancehall";
/// The loading screen between the file select and the hub.
pub const LOADING_SCREEN: &'static str = "hub_loadingscreen";
/// The hallway leading to the final level.
pub const FINAL_HALLWAY: &'static str = "tower_finalhallway";
/// The hub floor from which the final hallway can be entered out of bounds.
pub const TOWER_FIVE: &'static str = "tower_5";
/// The last boss's room and the room it hands over to.
pub const PIZZAFACE_ROOM: &'static str = "boss_pizzaface";
pub const PIZZAFACE_HUB: &'static str = "boss_pizzafacehub";

/// Times are counted in microseconds.
pub const MICROS_PER_SECOND: i128 = 1_000_000;
/// A level attempt starts when its level time lies in (0.07 s, 0.1 s].
pub const IL_START_AFTER: i128 = 70_000;
pub const IL_START_UNTIL: i128 = 100_000;
/// Re-entering the room split last needs more than this much level time.
pub const ROOM_SPLIT_DWELL: i128 = 2_000_000;
/// A new-game-plus segment is anchored while the level time is under this.
pub const NG_PLUS_ANCHOR_LIMIT: i64 = 1_000_000;
/// No time computed from two 64-bit fields reaches this size.
pub const TIME_BOUND: i128 = 0x40_0000_0000_0000_0000;

#[derive(Clone, Copy, Debug, PartialEq, Eq, Structural)]
pub enum TimerMode {
    FullGame,
    IL,
    NewGamePlus,
    IW,
}

#[derive(Clone, Copy, Debug, PartialEq, Eq, Structural)]
pub enum TimerState {
    NotRunning,
    Running,
    Paused,
    Ended,
}

#[derive(Clone, Copy, Debug, PartialEq, Eq, Structural)]
pub enum Command {
    Start,
    Split,
    Reset,
}

/// The user's choices: the timing mode and a switch for each rule.
#[derive(Clone, Copy, Debug)]
pub struct Settings {
    pub timer_mode: TimerMode,
    pub start_enable: bool,
    pub start_new_file: bool,
    pub start_any_file: bool,
    pub start_new_il: bool,
    pub start_exit_level: bool,
    pub reset_enable: bool,
    pub reset_new_file: bool,
    pub reset_any_file: bool,
    pub reset_new_level: bool,
    pub splits_enable: bool,
    pub splits_level_end: bool,
    pub splits_rooms: bool,
}

/// The state that one monitoring session keeps between ticks.
pub struct RunState {
    pub current_level: Level,
    pub file_time: Pair<i128>,
    pub level_time: Pair<i128>,
    pub ng_plus_offset: Option<i128>,
    pub iw_offset: Option<i128>,
    pub full_game_split_armed: bool,
    pub oob_split_done: bool,
    pub last_room_split_name: Vec<u8>,
    pub last_room_split_time: i128,
}

/// The run state as the rules see it.
pub struct RunModel {
    pub level: Level,
    pub file_time: Pair<i128>,
    pub level_time: Pair<i128>,
    pub ng_plus_offset: Option<i128>,
    pub iw_offset: Option<i128>,
    pub armed: bool,
    pub oob_split_done: bool,
    pub last_split_name: Seq<u8>,
    pub last_split_time: i128,
}

pub open spec fn time_ok(t: int) -> bool {
    -TIME_BOUND <= t <= TIME_BOUND
}

pub open spec fn offset_ok(o: Option<i128>) -> bool {
    match o {
        Some(t) => time_ok(t as int),
        None => true,
    }
}

impl View for RunState {
    type V = RunModel;

    open spec fn view(&self) -> RunModel {
        RunModel {
            level: self.current_level,
            file_time: self.file_time,
            level_time: self.level_time,
            ng_plus_offset: self.ng_plus_offset,
            iw_offset: self.iw_offset,
            armed: self.full_game_split_armed,
            oob_split_done: self.oob_split_done,
            last_split_name: self.last_room_split_name@,
            last_split_time: self.last_room_split_time,
        }
    }
}

impl RunModel {
    /// Every time held lies within `TIME_BOUND`.
    pub open spec fn wf(self) -> bool {
        &&& time_ok(self.file_time.old as int)
        &&& time_ok(self.file_time.current as int)
        &&& time_ok(self.level_time.old as int)
        &&& time_ok(self.level_time.current as int)
        &&& offset_ok(self.ng_plus_offset)
        &&& offset_ok(self.iw_offset)
        &&& time_ok(self.last_split_time as int)
    }
}

/// What a tick asks of the timer: the commands in order, the game time to
/// show (with the host's own game time paused) where it is computed, and the
/// name of the current level.
pub struct TickOutput {
    pub commands: Vec<Command>,
    pub game_time: Option<i128>,
    pub level_name: &'static str,
}

pub open spec fn room_is(name: Seq<u8>, room: &str) -> bool {
    name == room.spec_bytes()
}

pub open spec fn name_changed(v: MemoryValues) -> bool {
    v.room_name.old@ != v.room_name.current@
}

pub open spec fn when(b: bool, c: Command) -> Seq<Command> {
    if b {
        seq![c]
    } else {
        seq![]
    }
}

/// Level rule: on a room change the level is classified anew, and entering an
/// unlock room arms the full-game split.
pub open spec fn level_phase(s: RunModel, v: MemoryValues) -> RunModel {
    if name_changed(v) {
        RunModel {
            level: classify(v.room_name.current@, s.level),
            armed: s.armed || is_split_room(v.room_name.current@),
            ..s
        }
    } else {
        s
    }
}

pub open spec fn file_time_of(v: MemoryValues) -> int {
    v.file_minutes.current * 60 + v.file_seconds.current
}

pub open spec fn level_time_of(v: MemoryValues) -> int {
    v.level_minutes.current * 60 + v.level_seconds.current
}

/// The new-game-plus anchor: while the timer is not running, set on the first
/// room with almost no level time, cleared on the intro or the loading screen.
pub open spec fn ng_plus_after(a: Option<i128>, v: MemoryValues, file: i128, timer: TimerState) -> Option<i128> {
    if timer != TimerState::NotRunning {
        a
    } else {
        let set = if a is None && room_is(v.room_name.current@, ENTRANCE_HALL) && v.level_minutes.current == 0
            && v.level_seconds.current < NG_PLUS_ANCHOR_LIMIT {
            Some(file)
        } else {
            a
        };
        if set is Some && (room_is(v.room_name.current@, LOADING_SCREEN) || room_is(v.room_name.current@, INTRO_ROOM)) {
            None
        } else {
            set
        }
    }
}

/// The per-world anchor: while the timer is not running, set on entering the
/// hub and cleared on leaving it.
pub open spec fn iw_after(a: Option<i128>, level: Level, file: i128, timer: TimerState) -> Option<i128> {
    if timer != TimerState::NotRunning {
        a
    } else if a is None && level == Level::Hub {
        Some(file)
    } else if a is Some && level != Level::Hub {
        None
    } else {
        a
    }
}

/// Game-time rule, where the timing buffer is present.
pub open spec fn time_phase(s: RunModel, v: MemoryValues, timer: TimerState, has_buffer: bool) -> RunModel {
    if !has_buffer {
        s
    } else {
        let f = file_time_of(v) as i128;
        let l = level_time_of(v) as i128;
        RunModel {
            file_time: Pair { old: s.file_time.current, current: f },
            level_time: Pair { old: s.level_time.current, current: l },
            ng_plus_offset: ng_plus_after(s.ng_plus_offset, v, f, timer),
            iw_offset: iw_after(s.iw_offset, s.level, f, timer),
            ..s
        }
    }
}

pub open spec fn offset_or_zero(o: Option<i128>) -> int {
    match o {
        Some(t) => t as int,
        None => 0,
    }
}

/// The game time reported in each mode.
pub open spec fn game_time_spec(s: RunModel, mode: TimerMode) -> int {
    match mode {
        TimerMode::FullGame => s.file_time.current as int,
        TimerMode::IL => s.level_time.current as int,
        TimerMode::NewGamePlus => s.file_time.current - offset_or_zero(s.ng_plus_offset),
        TimerMode::IW => s.file_time.current - offset_or_zero(s.iw_offset),
    }
}

pub open spec fn il_start(s: RunModel, v: MemoryValues) -> bool {
    match starting_room_spec(s.level) {
        Some(room) => room_is(v.room_name.current@, room) && IL_START_AFTER < s.level_time.current
            <= IL_START_UNTIL,
        None => false,
    }
}

/// Start rules, in order.
pub open spec fn start_cmds(s: RunModel, v: MemoryValues, st: Settings) -> Seq<Command> {
    if !st.start_enable {
        seq![]
    } else {
        when(
            st.start_new_file && room_is(v.room_name.current@, ENTRANCE_HALL) && room_is(v.room_name.old@, INTRO_ROOM),
            Command::Start,
        ) + when(
            st.start_any_file && room_is(v.room_name.current@, ENTRANCE_HALL) && room_is(
                v.room_name.old@,
                LOADING_SCREEN,
            ),
            Command::Start,
        ) + when(st.start_new_il && il_start(s, v), Command::Start) + when(
            st.start_exit_level && name_changed(v) && is_split_room(v.room_name.old@) && s.level == Level::Hub,
            Command::Start,
        )
    }
}

/// A restart inside a level: the level time went back outside the hub.
pub open spec fn level_restart(s: RunModel) -> bool {
    s.level_time.current < s.level_time.old && s.level != Level::Hub
}

pub open spec fn reset_cmds(s: RunModel, v: MemoryValues, st: Settings) -> Seq<Command> {
    if !st.reset_enable {
        seq![]
    } else {
        when(
            st.reset_new_file && room_is(v.room_name.current@, INTRO_ROOM) && !room_is(v.room_name.old@, INTRO_ROOM),
            Command::Reset,
        ) + when(st.reset_any_file && name_changed(v) && room_is(v.room_name.current@, LOADING_SCREEN), Command::Reset)
            + when(st.reset_new_level && level_restart(s), Command::Reset)
    }
}

/// Reset rule's effect on the state: a level restart forgets the last room
/// split's time.
pub open spec fn reset_phase(s: RunModel, st: Settings) -> RunModel {
    if st.reset_enable && st.reset_new_level && level_restart(s) {
        RunModel { last_split_time: 0, ..s }
    } else {
        s
    }
}

pub open spec fn level_end_fires(s: RunModel, v: MemoryValues) -> bool {
    &&& name_changed(v)
    &&& is_split_room(v.room_name.old@)
    &&& (s.level == Level::Hub || s.level == Level::ResultsScreen)
    &&& s.armed
    &&& (v.boss_hp.old == 0 || (room_is(v.room_name.current@, PIZZAFACE_HUB) && room_is(
        v.room_name.old@,
        PIZZAFACE_ROOM,
    )))
}

pub open spec fn fade_fires(v: MemoryValues) -> bool {
    v.end_of_level.current == 1 && v.end_of_level.old == 0 && room_is(v.room_name.current@, ENTRANCE_HALL)
}

/// The out-of-bounds split flag after a timer that is not running re-arms it.
pub open spec fn oob_flag_rearmed(s: RunModel, timer: TimerState) -> bool {
    s.oob_split_done && timer != TimerState::NotRunning
}

pub open spec fn oob_fires(s: RunModel, v: MemoryValues, timer: TimerState) -> bool {
    room_is(v.room_name.current@, FINAL_HALLWAY) && room_is(v.room_name.old@, TOWER_FIVE) && !oob_flag_rearmed(
        s,
        timer,
    )
}

pub open spec fn room_split_fires(s: RunModel, v: MemoryValues) -> bool {
    (s.level_time.current - s.last_split_time > ROOM_SPLIT_DWELL || v.room_name.current@ != s.last_split_name)
        && (name_changed(v) || (v.end_of_level.current == 1 && v.end_of_level.old == 1))
}

/// The full-game splits: end of a level or boss, the final fade, and the
/// out-of-bounds entry to the final hallway.
pub open spec fn level_end_cmds(s: RunModel, v: MemoryValues, timer: TimerState) -> Seq<Command> {
    when(level_end_fires(s, v), Command::Split) + when(fade_fires(v), Command::Split) + when(
        oob_fires(s, v, timer),
        Command::Split,
    )
}

pub open spec fn split_cmds(s: RunModel, v: MemoryValues, st: Settings, timer: TimerState) -> Seq<Command> {
    if !st.splits_enable {
        seq![]
    } else {
        (if st.splits_level_end {
            level_end_cmds(s, v, timer)
        } else {
            seq![]
        }) + when(st.splits_rooms && room_split_fires(s, v), Command::Split)
    }
}

pub open spec fn split_phase(s: RunModel, v: MemoryValues, st: Settings, timer: TimerState) -> RunModel {
    let level_end = st.splits_enable && st.splits_level_end;
    let rooms = st.splits_enable && st.splits_rooms && room_split_fires(s, v);
    RunModel {
        armed: if level_end && level_end_fires(s, v) {
            false
        } else {
            s.armed
        },
        oob_split_done: if level_end {
            oob_flag_rearmed(s, timer) || oob_fires(s, v, timer)
        } else {
            s.oob_split_done
        },
        last_split_time: if rooms {
            s.level_time.current
        } else {
            s.last_split_time
        },
        last_split_name: if rooms {
            v.room_name.old@
        } else {
            s.last_split_name
        },
        ..s
    }
}

/// The state after the level and game-time rules, which the start, reset and
/// split rules read.
pub open spec fn observed(s: RunModel, v: MemoryValues, timer: TimerState, has_buffer: bool) -> RunModel {
    time_phase(level_phase(s, v), v, timer, has_buffer)
}

/// The timer's state once this tick's start and reset commands took effect: a
/// reset stops it, and a start sets a stopped timer running.
pub open spec fn timer_after(timer: TimerState, started: bool, reset: bool) -> TimerState {
    if reset {
        TimerState::NotRunning
    } else if started && timer == TimerState::NotRunning {
        TimerState::Running
    } else {
        timer
    }
}

/// The timer as the split rules see it, after the start and reset rules.
pub open spec fn timer_for_splits(s: RunModel, v: MemoryValues, st: Settings, timer: TimerState, has_buffer: bool) -> TimerState {
    let o = observed(s, v, timer, has_buffer);
    timer_after(timer, start_cmds(o, v, st).len() > 0, reset_cmds(o, v, st).len() > 0)
}

/// The state after a whole tick.
pub open spec fn tick_state(s: RunModel, v: MemoryValues, st: Settings, timer: TimerState, has_buffer: bool) -> RunModel {
    let o = observed(s, v, timer, has_buffer);
    split_phase(reset_phase(o, st), v, st, timer_for_splits(s, v, st, timer, has_buffer))
}

/// The commands of a whole tick: starts, then resets, then splits.
pub open spec fn tick_commands(
    s: RunModel,
    v: MemoryValues,
    st: Settings,
    timer: TimerState,
    has_buffer: bool,
) -> Seq<Command> {
    let o = observed(s, v, timer, has_buffer);
    start_cmds(o, v, st) + reset_cmds(o, v, st) + split_cmds(
        reset_phase(o, st),
        v,
        st,
        timer_for_splits(s, v, st, timer, has_buffer),
    )
}

/// How many times `c` occurs in `cmds`.
pub open spec fn count_of(cmds: Seq<Command>, c: Command) -> nat
    decreases cmds.len(),
{
    if cmds.len() == 0 {
        0
    } else {
        count_of(cmds.drop_last(), c) + if cmds.last() == c {
            1nat
        } else {
            0nat
        }
    }
}

proof fn lemma_count_add(a: Seq<Command>, b: Seq<Command>, c: Command)
    ensures
        count_of(a + b, c) == count_of(a, c) + count_of(b, c),
    decreases b.len(),
{
    if b.len() == 0 {
        assert(a + b =~= a);
    } else {
        assert((a + b).drop_last() =~= a + b.drop_last());
        lemma_count_add(a, b.drop_last(), c);
    }
}

proof fn lemma_count_when(b: bool, d: Command, c: Command)
    ensures
        count_of(when(b, d), c) == (if b && d == c { 1nat } else { 0nat }),
{
    if b {
        let one = seq![d];
        assert(one.drop_last() =~= Seq::<Command>::empty());
        assert(one.last() == d);
        assert(count_of(one.drop_last(), c) == 0);
    } else {
        assert(when(b, d).len() == 0);
    }
}

/// A level restart is answered by exactly one reset. With the reset rules on
/// and the two room-based resets off, a tick whose level time goes back while
/// the level is not the hub yields exactly one reset command and forgets the
/// last room split's time; a tick whose level time does not go back, or that
/// is in the hub, yields none.
pub proof fn lemma_level_restart_resets_once(s: RunModel, v: MemoryValues, st: Settings, timer: TimerState)
    requires
        st.reset_enable,
        st.reset_new_level,
        !st.reset_new_file,
        !st.reset_any_file,
    ensures
        ({
            let o = observed(s, v, timer, true);
            let restart = level_time_of(v) < s.level_time.current && o.level != Level::Hub;
            &&& count_of(tick_commands(s, v, st, timer, true), Command::Reset) == (if restart {
                1nat
            } else {
                0nat
            })
            &&& restart ==> reset_phase(o, st).last_split_time == 0
        }),
{
    let o = observed(s, v, timer, true);
    let r = Command::Reset;
    let sc = start_cmds(o, v, st);
    let rc = reset_cmds(o, v, st);
    let p = reset_phase(o, st);
    let t = timer_for_splits(s, v, st, timer, true);
    let xc = split_cmds(p, v, st, t);
    lemma_count_add(sc + rc, xc, r);
    lemma_count_add(sc, rc, r);
    if st.start_enable {
        let a = when(
            st.start_new_file && room_is(v.room_name.current@, ENTRANCE_HALL) && room_is(v.room_name.old@, INTRO_ROOM),
            Command::Start,
        );
        let b = when(
            st.start_any_file && room_is(v.room_name.current@, ENTRANCE_HALL) && room_is(
                v.room_name.old@,
                LOADING_SCREEN,
            ),
            Command::Start,
        );
        let c = when(st.start_new_il && il_start(o, v), Command::Start);
        let d = when(
            st.start_exit_level && name_changed(v) && is_split_room(v.room_name.old@) && o.level == Level::Hub,
            Command::Start,
        );
        lemma_count_add(a + b + c, d, r);
        lemma_count_add(a + b, c, r);
        lemma_count_add(a, b, r);
        lemma_count_when(st.start_new_file && room_is(v.room_name.current@, ENTRANCE_HALL) && room_is(v.room_name.old@, INTRO_ROOM), Command::Start, r);
        lemma_count_when(st.start_any_file && room_is(v.room_name.current@, ENTRANCE_HALL) && room_is(v.room_name.old@, LOADING_SCREEN), Command::Start, r);
        lemma_count_when(st.start_new_il && il_start(o, v), Command::Start, r);
        lemma_count_when(st.start_exit_level && name_changed(v) && is_split_room(v.room_name.old@) && o.level == Level::Hub, Command::Start, r);
    }
    let a = when(
        st.reset_new_file && room_is(v.room_name.current@, INTRO_ROOM) && !room_is(v.room_name.old@, INTRO_ROOM),
        Command::Reset,
    );
    let b = when(st.reset_any_file && name_changed(v) && room_is(v.room_name.current@, LOADING_SCREEN), Command::Reset);
    let c = when(st.reset_new_level && level_restart(o), Command::Reset);
    lemma_count_add(a + b, c, r);
    lemma_count_add(a, b, r);
    lemma_count_when(st.reset_new_level && level_restart(o), Command::Reset, r);
    if st.splits_enable {
        let le = if st.splits_level_end {
            level_end_cmds(p, v, t)
        } else {
            seq![]
        };
        let rs = when(st.splits_rooms && room_split_fires(p, v), Command::Split);
        lemma_count_add(le, rs, r);
        lemma_count_when(st.splits_rooms && room_split_fires(p, v), Command::Split, r);
        if st.splits_level_end {
            let x = when(level_end_fires(p, v), Command::Split);
            let y = when(fade_fires(v), Command::Split);
            let z = when(oob_fires(p, v, t), Command::Split);
            lemma_count_add(x + y, z, r);
            lemma_count_add(x, y, r);
            lemma_count_when(level_end_fires(p, v), Command::Split, r);
            lemma_count_when(fade_fires(v), Command::Split, r);
            lemma_count_when(oob_fires(p, v, t), Command::Split, r);
        }
    }
}

proof fn lemma_anchor_rooms_differ()
    ensures
        ENTRANCE_HALL.spec_bytes() != LOADING_SCREEN.spec_bytes(),
        ENTRANCE_HALL.spec_bytes() != INTRO_ROOM.spec_bytes(),
{
    reveal_strlit("tower_entrancehall");
    reveal_strlit("hub_loadingscreen");
    reveal_strlit("Finalintro");
    broadcast use vstd::string::is_ascii_spec_bytes;
    assert(vstd::string::is_ascii(ENTRANCE_HALL));
    assert(vstd::string::is_ascii(LOADING_SCREEN));
    assert(vstd::string::is_ascii(INTRO_ROOM));
    assert(ENTRANCE_HALL.spec_bytes().len() == 18);
    assert(LOADING_SCREEN.spec_bytes().len() == 17);
    assert(INTRO_ROOM.spec_bytes().len() == 10);
}

/// Setting the new-game-plus anchor: on a tick with the timing buffer, the
/// timer not running and no anchor yet, being in the first room with no whole
/// minute and under a second of level time anchors the segment at this tick's
/// file time.
pub proof fn lemma_ng_plus_anchor_set(s: RunModel, v: MemoryValues)
    requires
        s.ng_plus_offset is None,
        room_is(v.room_name.current@, ENTRANCE_HALL),
        v.level_minutes.current == 0,
        v.level_seconds.current < NG_PLUS_ANCHOR_LIMIT,
    ensures
        observed(s, v, TimerState::NotRunning, true).ng_plus_offset == Some(file_time_of(v) as i128),
{
    lemma_anchor_rooms_differ();
}

/// Keeping the new-game-plus anchor: once set, it stays on every tick that
/// does not reach the intro or the loading screen with the timer stopped, and
/// the new-game-plus time reported is the file time minus the anchor. So the
/// reported time moves exactly as the file time does: it grows strictly from
/// one tick to the next whenever the file time does.
pub proof fn lemma_ng_plus_time_follows_file_time(s: RunModel, v: MemoryValues, timer: TimerState, a: i128)
    requires
        s.wf(),
        s.ng_plus_offset == Some(a),
        !(timer == TimerState::NotRunning && (room_is(v.room_name.current@, LOADING_SCREEN) || room_is(
            v.room_name.current@,
            INTRO_ROOM,
        ))),
    ensures
        ({
            let o = observed(s, v, timer, true);
            &&& o.ng_plus_offset == Some(a)
            &&& game_time_spec(o, TimerMode::NewGamePlus) == file_time_of(v) - a
            &&& game_time_spec(o, TimerMode::NewGamePlus) - game_time_spec(s, TimerMode::NewGamePlus)
                == file_time_of(v) - s.file_time.current
        }),
{
}

/// The new-game-plus time across a refresh. When a tick's buffer reads give
/// the file minutes `fm` and seconds `fs`, the refresh stores them, and the
/// engine tick that follows, with the anchor `a` set and no reset room reached
/// while the timer is stopped, keeps the anchor and reports `fm * 60 + fs - a`.
/// So from one refresh to the next the reported time grows by exactly as much
/// as the file time read from the buffer: strictly, whenever that does.
pub proof fn lemma_ng_plus_over_refresh(
    s: RunModel,
    before: MemoryValues,
    after: MemoryValues,
    reads: BufferReads,
    timer: TimerState,
    a: i128,
)
    requires
        s.wf(),
        s.ng_plus_offset == Some(a),
        buffer_applied(before, after, reads),
        reads.file_minutes is Some,
        reads.file_seconds is Some,
        !(timer == TimerState::NotRunning && (room_is(after.room_name.current@, LOADING_SCREEN) || room_is(
            after.room_name.current@,
            INTRO_ROOM,
        ))),
    ensures
        ({
            let file = reads.file_minutes->0 * 60 + reads.file_seconds->0;
            let o = observed(s, after, timer, true);
            &&& o.ng_plus_offset == Some(a)
            &&& o.file_time.current == file
            &&& game_time_spec(o, TimerMode::NewGamePlus) == file - a
            &&& game_time_spec(o, TimerMode::NewGamePlus) - game_time_spec(s, TimerMode::NewGamePlus) == file
                - s.file_time.current
        }),
{
    lemma_ng_plus_time_follows_file_time(s, after, timer, a);
}

/// Whether the room name changed since the previous tick.
pub fn room_changed(v: &MemoryValues) -> (r: bool)
    ensures
        r == name_changed(*v),
{
    !bytes_eq(v.room_name.old.as_slice(), v.room_name.current.as_slice())
}

fn push_when(cmds: &mut Vec<Command>, b: bool, c: Command)
    ensures
        final(cmds)@ == old(cmds)@ + when(b, c),
{
    if b {
        cmds.push(c);
    } else {
        assert(old(cmds)@ + when(b, c) =~= old(cmds)@);
    }
}

impl RunState {
    /// The state at the start of a monitoring session.
    pub fn new() -> (r: RunState)
        ensures
            r@.wf(),
            r@.level == Level::Unknown,
            r@.file_time == (Pair { old: 0i128, current: 0i128 }),
            r@.level_time == (Pair { old: 0i128, current: 0i128 }),
            r@.ng_plus_offset is None,
            r@.iw_offset is None,
            !r@.armed,
            !r@.oob_split_done,
            r@.last_split_name.len() == 0,
            r@.last_split_time == 0,
    {
        RunState {
            current_level: Level::Unknown,
            file_time: Pair { old: 0, current: 0 },
            level_time: Pair { old: 0, current: 0 },
            ng_plus_offset: None,
            iw_offset: None,
            full_game_split_armed: false,
            oob_split_done: false,
            last_room_split_name: Vec::new(),
            last_room_split_time: 0,
        }
    }

    fn update_level(&mut self, v: &MemoryValues, changed: bool)
        requires
            changed == name_changed(*v),
        ensures
            final(self)@ == level_phase(old(self)@, *v),
    {
        if changed {
            let name = v.room_name.current.as_slice();
            self.current_level = get_current_level(name, self.current_level);
            if !self.full_game_split_armed {
                self.full_game_split_armed = full_game_split_unlock_rooms(name);
            }
        }
    }

    fn update_time(&mut self, v: &MemoryValues, timer: TimerState, has_buffer: bool)
        requires
            old(self)@.wf(),
        ensures
            final(self)@.wf(),
            final(self)@ == time_phase(old(self)@, *v, timer, has_buffer),
    {
        if !has_buffer {
            return;
        }
        let f = v.file_minutes.current as i128 * 60 + v.file_seconds.current as i128;
        let l = v.level_minutes.current as i128 * 60 + v.level_seconds.current as i128;
        self.file_time.update(f);
        self.level_time.update(l);
        if timer == TimerState::NotRunning {
            let name = v.room_name.current.as_slice();
            if self.ng_plus_offset.is_none() && is_room(name, ENTRANCE_HALL) && v.level_minutes.current == 0
                && v.level_seconds.current < NG_PLUS_ANCHOR_LIMIT {
                self.ng_plus_offset = Some(f);
            }
            if self.ng_plus_offset.is_some() && (is_room(name, LOADING_SCREEN) || is_room(name, INTRO_ROOM)) {
                self.ng_plus_offset = None;
            }
            if self.iw_offset.is_none() && self.current_level == Level::Hub {
                self.iw_offset = Some(f);
            } else if self.iw_offset.is_some() && self.current_level != Level::Hub {
                self.iw_offset = None;
            }
        }
    }

    /// The game time to report in `mode`.
    pub fn game_time(&self, mode: TimerMode) -> (r: i128)
        requires
            self@.wf(),
        ensures
            r == game_time_spec(self@, mode),
    {
        match mode {
            TimerMode::FullGame => self.file_time.current,
            TimerMode::IL => self.level_time.current,
            TimerMode::NewGamePlus => match self.ng_plus_offset {
                Some(o) => self.file_time.current - o,
                None => self.file_time.current,
            },
            TimerMode::IW => match self.iw_offset {
                Some(o) => self.file_time.current - o,
                None => self.file_time.current,
            },
        }
    }

    fn il_start_now(&self, v: &MemoryValues) -> (r: bool)
        ensures
            r == il_start(self@, *v),
    {
        match get_starting_room(self.current_level) {
            Some(room) => is_room(v.room_name.current.as_slice(), room) && IL_START_AFTER < self.level_time.current
                && self.level_time.current <= IL_START_UNTIL,
            None => false,
        }
    }

    fn start_rules(&self, v: &MemoryValues, st: &Settings, changed: bool, cmds: &mut Vec<Command>)
        requires
            changed == name_changed(*v),
        ensures
            final(cmds)@ == old(cmds)@ + start_cmds(self@, *v, *st),
    {
        if !st.start_enable {
            assert(old(cmds)@ + start_cmds(self@, *v, *st) =~= old(cmds)@);
            return;
        }
        let cur = v.room_name.current.as_slice();
        let prev = v.room_name.old.as_slice();
        let ghost c0 = cmds@;
        let in_hall = is_room(cur, ENTRANCE_HALL);
        push_when(cmds, st.start_new_file && in_hall && is_room(prev, INTRO_ROOM), Command::Start);
        push_when(cmds, st.start_any_file && in_hall && is_room(prev, LOADING_SCREEN), Command::Start);
        push_when(cmds, st.start_new_il && self.il_start_now(v), Command::Start);
        push_when(
            cmds,
            st.start_exit_level && changed && full_game_split_rooms(prev) && self.current_level == Level::Hub,
            Command::Start,
        );
        assert(cmds@ =~= c0 + start_cmds(self@, *v, *st));
    }

    fn reset_rules(&mut self, v: &MemoryValues, st: &Settings, changed: bool, cmds: &mut Vec<Command>)
        requires
            changed == name_changed(*v),
            old(self)@.wf(),
        ensures
            final(self)@.wf(),
            final(self)@ == reset_phase(old(self)@, *st),
            final(cmds)@ == old(cmds)@ + reset_cmds(old(self)@, *v, *st),
    {
        if !st.reset_enable {
            assert(old(cmds)@ + reset_cmds(old(self)@, *v, *st) =~= old(cmds)@);
            return;
        }
        let cur = v.room_name.current.as_slice();
        let prev = v.room_name.old.as_slice();
        let ghost c0 = cmds@;
        let in_intro = is_room(cur, INTRO_ROOM);
        push_when(cmds, st.reset_new_file && in_intro && !is_room(prev, INTRO_ROOM), Command::Reset);
        push_when(cmds, st.reset_any_file && changed && is_room(cur, LOADING_SCREEN), Command::Reset);
        let restart = st.reset_new_level && self.level_time.decreased() && self.current_level != Level::Hub;
        if restart {
            self.last_room_split_time = 0;
        }
        push_when(cmds, restart, Command::Reset);
        assert(cmds@ =~= c0 + reset_cmds(old(self)@, *v, *st));
    }

    fn level_end_rules(&mut self, v: &MemoryValues, timer: TimerState, changed: bool, cmds: &mut Vec<Command>)
        requires
            changed == name_changed(*v),
        ensures
            final(self)@ == (RunModel {
                armed: old(self)@.armed && !level_end_fires(old(self)@, *v),
                oob_split_done: oob_flag_rearmed(old(self)@, timer) || oob_fires(old(self)@, *v, timer),
                ..old(self)@
            }),
            final(cmds)@ == old(cmds)@ + level_end_cmds(old(self)@, *v, timer),
    {
        let ghost c0 = cmds@;
        let cur = v.room_name.current.as_slice();
        let prev = v.room_name.old.as_slice();
        let level_end = changed && full_game_split_rooms(prev) && (self.current_level == Level::Hub
            || self.current_level == Level::ResultsScreen) && self.full_game_split_armed && (v.boss_hp.old == 0 || (
        is_room(cur, PIZZAFACE_HUB) && is_room(prev, PIZZAFACE_ROOM)));
        if level_end {
            self.full_game_split_armed = false;
        }
        push_when(cmds, level_end, Command::Split);
        let fade = v.end_of_level.current == 1 && v.end_of_level.old == 0 && is_room(cur, ENTRANCE_HALL);
        push_when(cmds, fade, Command::Split);
        if timer == TimerState::NotRunning && self.oob_split_done {
            self.oob_split_done = false;
        }
        let oob = is_room(cur, FINAL_HALLWAY) && is_room(prev, TOWER_FIVE) && !self.oob_split_done;
        if oob {
            self.oob_split_done = true;
        }
        push_when(cmds, oob, Command::Split);
        assert(cmds@ =~= c0 + level_end_cmds(old(self)@, *v, timer));
    }

    fn room_split_rule(&mut self, v: &MemoryValues, changed: bool, cmds: &mut Vec<Command>)
        requires
            changed == name_changed(*v),
            old(self)@.wf(),
        ensures
            final(self)@.wf(),
            final(self)@ == (if room_split_fires(old(self)@, *v) {
                RunModel {
                    last_split_time: old(self)@.level_time.current,
                    last_split_name: v.room_name.old@,
                    ..old(self)@
                }
            } else {
                old(self)@
            }),
            final(cmds)@ == old(cmds)@ + when(room_split_fires(old(self)@, *v), Command::Split),
    {
        let far_enough = self.level_time.current - self.last_room_split_time > ROOM_SPLIT_DWELL;
        let cur = v.room_name.current.as_slice();
        let other_room = !bytes_eq(cur, self.last_room_split_name.as_slice());
        let rooms = (far_enough || other_room) && (changed || (v.end_of_level.current == 1 && v.end_of_level.old == 1));
        if rooms {
            self.last_room_split_time = self.level_time.current;
            self.last_room_split_name = v.room_name.old.clone();
            assert(self@.last_split_name =~= v.room_name.old@);
        }
        push_when(cmds, rooms, Command::Split);
    }

    fn split_rules(
        &mut self,
        v: &MemoryValues,
        st: &Settings,
        timer: TimerState,
        changed: bool,
        cmds: &mut Vec<Command>,
    )
        requires
            changed == name_changed(*v),
            old(self)@.wf(),
        ensures
            final(self)@.wf(),
            final(self)@ == split_phase(old(self)@, *v, *st, timer),
            final(cmds)@ == old(cmds)@ + split_cmds(old(self)@, *v, *st, timer),
    {
        let ghost c0 = cmds@;
        if !st.splits_enable {
            assert(c0 + split_cmds(old(self)@, *v, *st, timer) =~= c0);
            return;
        }
        if st.splits_level_end {
            self.level_end_rules(v, timer, changed, cmds);
        }
        let ghost c1 = cmds@;
        if st.splits_rooms {
            self.room_split_rule(v, changed, cmds);
        } else {
            assert(c1 + when(false, Command::Split) =~= c1);
        }
        assert(cmds@ =~= c0 + split_cmds(old(self)@, *v, *st, timer));
    }

    /// Evaluates the rules once, after the values were refreshed: level,
    /// game time, start, reset and split, in that order. `timer` is the
    /// timer's state at the start of the tick; the split rules see it as this
    /// tick's start and reset commands leave it.
    pub fn tick(&mut self, v: &MemoryValues, st: &Settings, timer: TimerState, has_buffer: bool) -> (out: TickOutput)
        requires
            old(self)@.wf(),
        ensures
            final(self)@.wf(),
            final(self)@ == tick_state(old(self)@, *v, *st, timer, has_buffer),
            out.commands@ == tick_commands(old(self)@, *v, *st, timer, has_buffer),
            out.game_time == (if has_buffer {
                Some(game_time_spec(observed(old(self)@, *v, timer, has_buffer), st.timer_mode) as i128)
            } else {
                None::<i128>
            }),
            out.level_name == level_name_spec(final(self)@.level),
    {
        let changed = room_changed(v);
        let ghost s0 = self@;
        self.update_level(v, changed);
        self.update_time(v, timer, has_buffer);
        let ghost o = self@;
        assert(o == observed(s0, *v, timer, has_buffer));
        let game_time = if has_buffer {
            Some(self.game_time(st.timer_mode))
        } else {
            None
        };
        let mut commands: Vec<Command> = Vec::new();
        self.start_rules(v, st, changed, &mut commands);
        let ghost sc = start_cmds(o, *v, *st);
        assert(commands@ =~= sc);
        let started = commands.len() > 0;
        let after_starts = commands.len();
        self.reset_rules(v, st, changed, &mut commands);
        let ghost rc = reset_cmds(o, *v, *st);
        assert(commands@ == sc + rc);
        let reset = commands.len() > after_starts;
        let timer_now = if reset {
            TimerState::NotRunning
        } else if started && timer == TimerState::NotRunning {
            TimerState::Running
        } else {
            timer
        };
        assert(timer_now == timer_after(timer, sc.len() > 0, rc.len() > 0));
        assert(timer_now == timer_for_splits(s0, *v, *st, timer, has_buffer));
        self.split_rules(v, st, timer_now, changed, &mut commands);
        proof {
            assert(commands@ =~= tick_commands(s0, *v, *st, timer, has_buffer));
        }
        TickOutput { commands, game_time, level_name: get_full_level_name(self.current_level) }
    }
}

} // verus!
