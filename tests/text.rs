use pizza_tower_timing::pair::Pair;
use pizza_tower_timing::snapshot::MemoryValues;
use pizza_tower_timing::text::{integer_variable, snapshot_variables};

#[test]
fn integers_print_in_decimal() {
    assert_eq!(integer_variable("Room ID", 0).text, "0");
    assert_eq!(integer_variable("Room ID", 1234).text, "1234");
    assert_eq!(integer_variable("Room ID", -42).text, "-42");
    assert_eq!(integer_variable("Buffer address", 0x7FF6_0000_1000).text, "140694538686464");
}

#[test]
fn snapshot_variables_follow_the_source() {
    let mut v = MemoryValues::new();
    v.room_id = Pair { old: 3, current: 17 };
    v.boss_hp = Pair { old: 5, current: 4 };
    let only_id = snapshot_variables(&v, false);
    assert_eq!(only_id.len(), 1);
    assert_eq!(only_id[0].name, "Room ID");
    assert_eq!(only_id[0].text, "17");
    let all = snapshot_variables(&v, true);
    assert_eq!(all.len(), 3);
    assert_eq!(all[1].text, "0");
    assert_eq!(all[2].name, "Boss HP");
    assert_eq!(all[2].text, "4");
}
