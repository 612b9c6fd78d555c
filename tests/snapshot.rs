use pizza_tower_timing::pair::Pair;
use pizza_tower_timing::snapshot::{
    cstring_text, refresh_mem_values, room_id_address, room_name_slot, BufferReads, FieldReads,
    MemoryAddresses, MemoryValues, NameTableRead, RefreshError,
};

fn c_string(text: &str, size: usize) -> Vec<u8> {
    let mut raw = text.as_bytes().to_vec();
    raw.push(0);
    raw.resize(size, 0xEE);
    raw
}

fn full_reads(room: &str, file_minutes: i64, file_seconds: i64) -> BufferReads {
    BufferReads {
        game_version: Some(c_string("v1.1.063", 0x40)),
        file_minutes: Some(file_minutes),
        file_seconds: Some(file_seconds),
        level_minutes: Some(0),
        level_seconds: Some(250_000),
        room_name: Some(c_string(room, 0x40)),
        end_of_level: Some(1),
        boss_hp: Some(7),
    }
}

#[test]
fn c_strings_stop_at_nul_and_cap() {
    assert_eq!(cstring_text(b"tower_1\0garbage"), b"tower_1".to_vec());
    assert_eq!(cstring_text(b""), Vec::<u8>::new());
    assert_eq!(cstring_text(&[0x41u8; 100]), vec![0x41u8; 0x40]);
    assert_eq!(cstring_text(b"\0abc"), Vec::<u8>::new());
}

#[test]
fn buffer_round_trip() {
    let mut v = MemoryValues::new();
    assert_eq!(refresh_mem_values(&mut v, Some(12), FieldReads::Buffer(full_reads("entrance_1", 2, 5_500_000))), Ok(()));
    assert_eq!(v.room_id, Pair { old: 0, current: 12 });
    assert_eq!(v.room_name.current, b"entrance_1".to_vec());
    assert_eq!(v.room_name.old, Vec::<u8>::new());
    assert_eq!(v.game_version.current, b"v1.1.063".to_vec());
    assert_eq!(v.file_minutes, Pair { old: 0, current: 2 });
    assert_eq!(v.file_seconds, Pair { old: 0, current: 5_500_000 });
    assert_eq!(v.level_seconds, Pair { old: 0, current: 250_000 });
    assert_eq!(v.end_of_level, Pair { old: 0, current: 1 });
    assert_eq!(v.boss_hp, Pair { old: 0, current: 7 });
    assert!(v.game_version_known());

    assert_eq!(refresh_mem_values(&mut v, Some(13), FieldReads::Buffer(full_reads("entrance_2", 3, 1))), Ok(()));
    assert_eq!(v.room_id, Pair { old: 12, current: 13 });
    assert_eq!(v.room_name.old, b"entrance_1".to_vec());
    assert_eq!(v.room_name.current, b"entrance_2".to_vec());
    assert_eq!(v.file_minutes, Pair { old: 2, current: 3 });
    assert_eq!(v.file_seconds, Pair { old: 5_500_000, current: 1 });
    assert_eq!(v.game_version.old, Vec::<u8>::new());
}

#[test]
fn failed_field_reads_keep_previous_values() {
    let mut v = MemoryValues::new();
    refresh_mem_values(&mut v, Some(1), FieldReads::Buffer(full_reads("entrance_1", 2, 3))).unwrap();
    let reads = BufferReads {
        game_version: None,
        file_minutes: None,
        file_seconds: Some(4),
        level_minutes: None,
        level_seconds: None,
        room_name: None,
        end_of_level: None,
        boss_hp: Some(6),
    };
    assert_eq!(refresh_mem_values(&mut v, Some(1), FieldReads::Buffer(reads)), Ok(()));
    assert_eq!(v.file_minutes, Pair { old: 0, current: 2 });
    assert_eq!(v.file_seconds, Pair { old: 3, current: 4 });
    assert_eq!(v.room_name.current, b"entrance_1".to_vec());
    assert_eq!(v.boss_hp, Pair { old: 7, current: 6 });
}

#[test]
fn room_id_failure_changes_nothing() {
    let mut v = MemoryValues::new();
    v.room_id = Pair { old: 4, current: 5 };
    let r = refresh_mem_values(&mut v, None, FieldReads::NameTable(NameTableRead::Name(c_string("tower_1", 8))));
    assert_eq!(r, Err(RefreshError::RoomIdUnreadable));
    assert_eq!(v.room_id, Pair { old: 4, current: 5 });
    assert!(v.room_name.current.is_empty());
}

#[test]
fn name_table_path() {
    let mut v = MemoryValues::new();
    let r = refresh_mem_values(&mut v, Some(3), FieldReads::NameTable(NameTableRead::Name(c_string("tower_2", 0x40))));
    assert_eq!(r, Ok(()));
    assert_eq!(v.room_name.current, b"tower_2".to_vec());
    let r = refresh_mem_values(&mut v, Some(5), FieldReads::NameTable(NameTableRead::NameUnreadable));
    assert_eq!(r, Err(RefreshError::RoomNameUnreadable));
    assert_eq!(v.room_id, Pair { old: 3, current: 5 });
    assert_eq!(v.room_name.current, b"tower_2".to_vec());
    assert_eq!(v.room_name.old, Vec::<u8>::new());
    let r = refresh_mem_values(&mut v, Some(4), FieldReads::NameTable(NameTableRead::PointerUnreadable));
    assert_eq!(r, Err(RefreshError::RoomNameUnreadable));
    assert_eq!(v.room_id, Pair { old: 5, current: 4 });
    assert_eq!(v.room_name.current, b"tower_2".to_vec());
}

#[test]
fn addresses_for_reads() {
    let mut a = MemoryAddresses::new();
    assert_eq!(room_id_address(&a), Err(RefreshError::MainAddressMissing));
    a.main_address = Some(0x1000);
    assert_eq!(room_id_address(&a), Err(RefreshError::RoomIdAddressMissing));
    a.room_id = Some(0x20);
    assert_eq!(room_id_address(&a), Ok(0x1020));
    a.main_address = Some(u64::MAX);
    assert_eq!(room_id_address(&a), Err(RefreshError::RoomIdUnreadable));
    assert_eq!(room_name_slot(0x5000, 3), Some(0x5018));
    assert_eq!(room_name_slot(0x5000, -1), None);
    assert_eq!(room_name_slot(u64::MAX - 4, 1), None);
}
