use vstd::prelude::*;
use crate::pair::Pair;

verus! {

/// The longest room name or version text that the game stores.
pub const ROOM_NAME_SIZE_CAP: usize = 0x40;

/// Offsets of the timing buffer's fields from its start.
pub const GAME_VERSION_AT: u64 = 0x40;
pub const FILE_MINUTES_AT: u64 = 0x80;
pub const FILE_SECONDS_AT: u64 = 0x88;
pub const LEVEL_MINUTES_AT: u64 = 0x90;
pub const LEVEL_SECONDS_AT: u64 = 0x98;
pub const ROOM_NAME_AT: u64 = 0xA0;
pub const END_OF_LEVEL_AT: u64 = 0xE0;
pub const BOSS_HP_AT: u64 = 0xE1;

/// Size of one entry of the room name table.
pub const POINTER_SIZE: u64 = 8;

/// Addresses found once per attach; `None` where a scan has not succeeded.
#[derive(Clone, Copy, Debug)]
pub struct MemoryAddresses {
    pub main_address: Option<u64>,
    pub room_id: Option<u64>,
    pub room_names: Option<u64>,
    pub buffer_helper: Option<u64>,
}

impl MemoryAddresses {
    pub fn new() -> (r: MemoryAddresses)
        ensures
            r.main_address is None,
            r.room_id is None,
            r.room_names is None,
            r.buffer_helper is None,
    {
        MemoryAddresses { main_address: None, room_id: None, room_names: None, buffer_helper: None }
    }
}

/// The tracked game values. Times are in millionths of their unit (minutes or
/// seconds); text fields hold the bytes before the terminating NUL.
pub struct MemoryValues {
    pub game_version: Pair<Vec<u8>>,
    pub room_id: Pair<i32>,
    pub room_name: Pair<Vec<u8>>,
    pub file_seconds: Pair<i64>,
    pub file_minutes: Pair<i64>,
    pub level_seconds: Pair<i64>,
    pub level_minutes: Pair<i64>,
    pub end_of_level: Pair<u8>,
    pub boss_hp: Pair<u8>,
}

impl MemoryValues {
    /// Every value zero, every text empty.
    pub fn new() -> (r: MemoryValues)
        ensures
            r.game_version.old@.len() == 0 && r.game_version.current@.len() == 0,
            r.room_name.old@.len() == 0 && r.room_name.current@.len() == 0,
            r.room_id == (Pair { old: 0i32, current: 0i32 }),
            r.file_seconds == (Pair { old: 0i64, current: 0i64 }),
            r.file_minutes == (Pair { old: 0i64, current: 0i64 }),
            r.level_seconds == (Pair { old: 0i64, current: 0i64 }),
            r.level_minutes == (Pair { old: 0i64, current: 0i64 }),
            r.end_of_level == (Pair { old: 0u8, current: 0u8 }),
            r.boss_hp == (Pair { old: 0u8, current: 0u8 }),
    {
        MemoryValues {
            game_version: Pair { old: Vec::new(), current: Vec::new() },
            room_id: Pair { old: 0, current: 0 },
            room_name: Pair { old: Vec::new(), current: Vec::new() },
            file_seconds: Pair { old: 0, current: 0 },
            file_minutes: Pair { old: 0, current: 0 },
            level_seconds: Pair { old: 0, current: 0 },
            level_minutes: Pair { old: 0, current: 0 },
            end_of_level: Pair { old: 0, current: 0 },
            boss_hp: Pair { old: 0, current: 0 },
        }
    }

    /// The game version has been read once; until then it is not known.
    pub fn game_version_known(&self) -> (r: bool)
        ensures
            r == (self.game_version.current@.len() > 0),
    {
        self.game_version.current.len() > 0
    }
}

/// Why a tick's refresh failed; each ends the monitoring session.
#[derive(Clone, Copy, Debug, PartialEq, Eq, Structural)]
pub enum RefreshError {
    MainAddressMissing,
    RoomIdAddressMissing,
    RoomIdUnreadable,
    RoomNameUnreadable,
}

impl RefreshError {
    pub fn message(&self) -> &'static str {
        match self {
            RefreshError::MainAddressMissing => "Main Address is None in refresh mem values function",
            RefreshError::RoomIdAddressMissing => "The room ID address is not known",
            RefreshError::RoomIdUnreadable => "Could not read the room ID from memory",
            RefreshError::RoomNameUnreadable => "Could not read the room name, retrying signature scan...",
        }
    }
}

pub open spec fn room_id_address_spec(a: MemoryAddresses) -> Result<int, RefreshError> {
    match (a.main_address, a.room_id) {
        (None, _) => Err(RefreshError::MainAddressMissing),
        (_, None) => Err(RefreshError::RoomIdAddressMissing),
        (Some(m), Some(o)) => if m + o <= u64::MAX {
            Ok(m + o)
        } else {
            Err(RefreshError::RoomIdUnreadable)
        },
    }
}

/// The absolute address of the room id: module base plus the resolved offset.
pub fn room_id_address(a: &MemoryAddresses) -> (r: Result<u64, RefreshError>)
    ensures
        match r {
            Ok(v) => room_id_address_spec(*a) == Ok::<int, RefreshError>(v as int),
            Err(e) => room_id_address_spec(*a) == Err::<int, RefreshError>(e),
        },
{
    let m = match a.main_address {
        Some(m) => m,
        None => return Err(RefreshError::MainAddressMissing),
    };
    let o = match a.room_id {
        Some(o) => o,
        None => return Err(RefreshError::RoomIdAddressMissing),
    };
    match m.checked_add(o) {
        Some(v) => Ok(v),
        None => Err(RefreshError::RoomIdUnreadable),
    }
}

/// The address of the table entry that points at the name of room `room_id`.
pub fn room_name_slot(table: u64, room_id: i32) -> (r: Option<u64>)
    ensures
        r == (if 0 <= room_id && table + POINTER_SIZE * room_id <= u64::MAX {
            Some((table + POINTER_SIZE * room_id) as u64)
        } else {
            None::<u64>
        }),
{
    if room_id < 0 {
        return None;
    }
    let step = POINTER_SIZE * (room_id as u64);
    table.checked_add(step)
}

/// The index of the first NUL in `w` at or after `i`, or the length of `w`.
pub open spec fn first_nul_from(w: Seq<u8>, i: int) -> int
    decreases w.len() - i,
{
    if i < 0 || i >= w.len() {
        w.len() as int
    } else if w[i] == 0 {
        i
    } else {
        first_nul_from(w, i + 1)
    }
}

/// The first `ROOM_NAME_SIZE_CAP` bytes of `raw`, or all of it if shorter.
pub open spec fn c_window(raw: Seq<u8>) -> Seq<u8> {
    if raw.len() <= ROOM_NAME_SIZE_CAP {
        raw
    } else {
        raw.subrange(0, ROOM_NAME_SIZE_CAP as int)
    }
}

/// The text of a C string: the bytes before the first NUL, at most
/// `ROOM_NAME_SIZE_CAP` of them.
pub open spec fn c_text(raw: Seq<u8>) -> Seq<u8> {
    c_window(raw).subrange(0, first_nul_from(c_window(raw), 0))
}

/// A text stored as a C string: its bytes, a NUL, then whatever follows.
pub open spec fn c_encoded(text: Seq<u8>, rest: Seq<u8>) -> Seq<u8> {
    text + seq![0u8] + rest
}

pub open spec fn storable_text(text: Seq<u8>) -> bool {
    text.len() < ROOM_NAME_SIZE_CAP && forall|i: int| 0 <= i < text.len() ==> text[i] != 0
}

proof fn lemma_first_nul_at(w: Seq<u8>, n: int, i: int)
    requires
        0 <= i <= n < w.len(),
        w[n] == 0,
        forall|j: int| 0 <= j < n ==> w[j] != 0,
    ensures
        first_nul_from(w, i) == n,
    decreases n - i,
{
    if i < n {
        lemma_first_nul_at(w, n, i + 1);
    }
}

/// Decoding a stored text gives the text back, whatever follows its NUL.
pub proof fn lemma_c_text_round_trip(text: Seq<u8>, rest: Seq<u8>)
    requires
        storable_text(text),
    ensures
        c_text(c_encoded(text, rest)) == text,
{
    let e = c_encoded(text, rest);
    let w = c_window(e);
    assert(w[text.len() as int] == 0);
    assert forall|j: int| 0 <= j < text.len() implies w[j] != 0 by {
        assert(w[j] == text[j]);
    }
    lemma_first_nul_at(w, text.len() as int, 0);
    assert(w.subrange(0, text.len() as int) =~= text);
}

/// Decodes a C string read from memory.
pub fn cstring_text(raw: &[u8]) -> (r: Vec<u8>)
    ensures
        r@ == c_text(raw@),
        r@.len() <= ROOM_NAME_SIZE_CAP,
{
    let limit = if raw.len() <= ROOM_NAME_SIZE_CAP { raw.len() } else { ROOM_NAME_SIZE_CAP };
    let ghost window = c_window(raw@);
    let mut out: Vec<u8> = Vec::new();
    let mut i: usize = 0;
    while i < limit
        invariant
            limit == window.len(),
            limit <= raw@.len(),
            window == c_window(raw@),
            i <= limit,
            out@ == window.subrange(0, i as int),
            first_nul_from(window, 0) == first_nul_from(window, i as int),
        decreases limit - i,
    {
        assert(window[i as int] == raw@[i as int]);
        if raw[i] == 0 {
            return out;
        }
        out.push(raw[i]);
        i = i + 1;
    }
    assert(window.subrange(0, i as int) =~= window);
    out
}

/// What one read gives a pair: an update where the read succeeded, nothing
/// where it failed.
pub open spec fn after_read<T>(p: Pair<T>, read: Option<T>) -> Pair<T> {
    match read {
        Some(v) => Pair { old: p.current, current: v },
        None => p,
    }
}

/// The reads of the timing buffer's fields made this tick; `None` where a
/// read failed. Text fields hold the raw bytes read.
pub struct BufferReads {
    pub game_version: Option<Vec<u8>>,
    pub file_minutes: Option<i64>,
    pub file_seconds: Option<i64>,
    pub level_minutes: Option<i64>,
    pub level_seconds: Option<i64>,
    pub room_name: Option<Vec<u8>>,
    pub end_of_level: Option<u8>,
    pub boss_hp: Option<u8>,
}

/// What reading the room name through the name table gave.
pub enum NameTableRead {
    PointerUnreadable,
    NameUnreadable,
    Name(Vec<u8>),
}

/// Where the room name and the other fields came from this tick.
pub enum FieldReads {
    Buffer(BufferReads),
    NameTable(NameTableRead),
}

pub open spec fn text_after_read(p: Pair<Vec<u8>>, q: Pair<Vec<u8>>, read: Option<Vec<u8>>) -> bool {
    match read {
        Some(raw) => q.old == p.current && q.current@ == c_text(raw@),
        None => q == p,
    }
}

fn update_text(pair: &mut Pair<Vec<u8>>, read: Option<Vec<u8>>)
    ensures
        text_after_read(*old(pair), *final(pair), read),
{
    match read {
        Some(raw) => {
            let text = cstring_text(raw.as_slice());
            pair.update(text);
        },
        None => {},
    }
}

fn update_value<T>(pair: &mut Pair<T>, read: Option<T>)
    ensures
        *final(pair) == after_read(*old(pair), read),
{
    match read {
        Some(v) => pair.update(v),
        None => {},
    }
}

/// The fields other than room id and room name are unchanged.
pub open spec fn buffer_fields_unchanged(a: MemoryValues, b: MemoryValues) -> bool {
    &&& b.game_version == a.game_version
    &&& b.file_minutes == a.file_minutes
    &&& b.file_seconds == a.file_seconds
    &&& b.level_minutes == a.level_minutes
    &&& b.level_seconds == a.level_seconds
    &&& b.end_of_level == a.end_of_level
    &&& b.boss_hp == a.boss_hp
}

/// The values after the buffer reads `r` were applied to `a`. The version is
/// read only while it is not yet known.
pub open spec fn buffer_applied(a: MemoryValues, b: MemoryValues, r: BufferReads) -> bool {
    &&& if a.game_version.current@.len() == 0 {
        text_after_read(a.game_version, b.game_version, r.game_version)
    } else {
        b.game_version == a.game_version
    }
    &&& b.file_minutes == after_read(a.file_minutes, r.file_minutes)
    &&& b.file_seconds == after_read(a.file_seconds, r.file_seconds)
    &&& b.level_minutes == after_read(a.level_minutes, r.level_minutes)
    &&& b.level_seconds == after_read(a.level_seconds, r.level_seconds)
    &&& text_after_read(a.room_name, b.room_name, r.room_name)
    &&& b.end_of_level == after_read(a.end_of_level, r.end_of_level)
    &&& b.boss_hp == after_read(a.boss_hp, r.boss_hp)
}

/// Applies one tick's reads. The room id read comes first and its failure
/// fails the tick with nothing changed; a buffer field whose read failed keeps
/// its previous values; through the name table, which is the only source of
/// the room name, a failed read of the pointer or of the name fails the tick
/// and keeps the previous name.
pub fn refresh_mem_values(values: &mut MemoryValues, room_id: Option<i32>, reads: FieldReads) -> (r: Result<
    (),
    RefreshError,
>)
    ensures
        room_id is None ==> r == Err::<(), RefreshError>(RefreshError::RoomIdUnreadable) && *final(values)
            == *old(values),
        room_id is Some ==> final(values).room_id == after_read(old(values).room_id, room_id),
        room_id is Some ==> match reads {
            FieldReads::Buffer(b) => r is Ok && buffer_applied(*old(values), *final(values), b),
            FieldReads::NameTable(NameTableRead::PointerUnreadable) => r == Err::<(), RefreshError>(
                RefreshError::RoomNameUnreadable,
            ) && final(values).room_name == old(values).room_name && buffer_fields_unchanged(
                *old(values),
                *final(values),
            ),
            FieldReads::NameTable(NameTableRead::NameUnreadable) => r == Err::<(), RefreshError>(
                RefreshError::RoomNameUnreadable,
            ) && final(values).room_name == old(values).room_name && buffer_fields_unchanged(
                *old(values),
                *final(values),
            ),
            FieldReads::NameTable(NameTableRead::Name(raw)) => r is Ok && text_after_read(
                old(values).room_name,
                final(values).room_name,
                Some(raw),
            ) && buffer_fields_unchanged(*old(values), *final(values)),
        },
{
    match room_id {
        Some(id) => values.room_id.update(id),
        None => return Err(RefreshError::RoomIdUnreadable),
    }
    match reads {
        FieldReads::Buffer(b) => {
            if values.game_version.current.len() == 0 {
                update_text(&mut values.game_version, b.game_version);
            }
            update_value(&mut values.file_seconds, b.file_seconds);
            update_value(&mut values.file_minutes, b.file_minutes);
            update_value(&mut values.level_seconds, b.level_seconds);
            update_value(&mut values.level_minutes, b.level_minutes);
            update_text(&mut values.room_name, b.room_name);
            update_value(&mut values.end_of_level, b.end_of_level);
            update_value(&mut values.boss_hp, b.boss_hp);
            Ok(())
        },
        FieldReads::NameTable(NameTableRead::PointerUnreadable) => Err(RefreshError::RoomNameUnreadable),
        FieldReads::NameTable(NameTableRead::NameUnreadable) => Err(RefreshError::RoomNameUnreadable),
        FieldReads::NameTable(NameTableRead::Name(raw)) => {
            update_text(&mut values.room_name, Some(raw));
            Ok(())
        },
    }
}


/// Reading a timing buffer back: when every field of the buffer reads back,
/// with each text stored as a C string, the refresh leaves each field's current
/// value equal to what the buffer holds and its old value equal to the current
/// value of the tick before. The version is taken only while it is not yet
/// known.
pub proof fn lemma_buffer_round_trip(
    before: MemoryValues,
    after: MemoryValues,
    reads: BufferReads,
    version: Seq<u8>,
    room: Seq<u8>,
    version_rest: Seq<u8>,
    room_rest: Seq<u8>,
)
    requires
        storable_text(version),
        storable_text(room),
        reads.game_version matches Some(raw) && raw@ == c_encoded(version, version_rest),
        reads.room_name matches Some(raw) && raw@ == c_encoded(room, room_rest),
        reads.file_minutes is Some,
        reads.file_seconds is Some,
        reads.level_minutes is Some,
        reads.level_seconds is Some,
        reads.end_of_level is Some,
        reads.boss_hp is Some,
        buffer_applied(before, after, reads),
    ensures
        after.room_name.current@ == room && after.room_name.old == before.room_name.current,
        before.game_version.current@.len() == 0 ==> after.game_version.current@ == version
            && after.game_version.old == before.game_version.current,
        after.file_minutes == (Pair { old: before.file_minutes.current, current: reads.file_minutes->0 }),
        after.file_seconds == (Pair { old: before.file_seconds.current, current: reads.file_seconds->0 }),
        after.level_minutes == (Pair { old: before.level_minutes.current, current: reads.level_minutes->0 }),
        after.level_seconds == (Pair { old: before.level_seconds.current, current: reads.level_seconds->0 }),
        after.end_of_level == (Pair { old: before.end_of_level.current, current: reads.end_of_level->0 }),
        after.boss_hp == (Pair { old: before.boss_hp.current, current: reads.boss_hp->0 }),
{
    lemma_c_text_round_trip(version, version_rest);
    lemma_c_text_round_trip(room, room_rest);
}

} // verus!
