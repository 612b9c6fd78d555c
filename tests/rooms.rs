use pizza_tower_timing::rooms::{
    full_game_split_rooms, full_game_split_unlock_rooms, get_current_level, get_full_level_name,
    get_starting_room, Level,
};

#[test]
fn classifies_by_prefix() {
    assert_eq!(get_current_level(b"entrance_3", Level::Unknown), Level::JohnGutter);
    assert_eq!(get_current_level(b"tower_entrancehall", Level::Unknown), Level::Hub);
    assert_eq!(get_current_level(b"hub_loadingscreen", Level::War), Level::Hub);
    assert_eq!(get_current_level(b"rank_room", Level::War), Level::ResultsScreen);
    assert_eq!(get_current_level(b"trickytreat_2", Level::Hub), Level::TrickyTreat);
}

#[test]
fn unknown_prefix_keeps_the_level() {
    assert_eq!(get_current_level(b"boss_pepperman", Level::Pizzascape), Level::Pizzascape);
    assert_eq!(get_current_level(b"", Level::Hub), Level::Hub);
    assert_eq!(get_current_level(b"entrance", Level::Hub), Level::Hub);
}

#[test]
fn level_names_and_starting_rooms() {
    assert_eq!(get_full_level_name(Level::Unknown), "Unknown");
    assert_eq!(get_full_level_name(Level::Hub), "Hub");
    assert_eq!(get_full_level_name(Level::DeepDish9), "Deep-Dish 9");
    assert_eq!(get_starting_room(Level::JohnGutter), Some("entrance_1"));
    assert_eq!(get_starting_room(Level::Hub), None);
    assert_eq!(get_starting_room(Level::Unknown), None);
}

#[test]
fn split_rooms() {
    assert!(full_game_split_rooms(b"entrance_1"));
    assert!(full_game_split_rooms(b"boss_noise"));
    assert!(!full_game_split_rooms(b"entrance_2"));
    assert!(!full_game_split_rooms(b"tower_1"));
    assert!(full_game_split_unlock_rooms(b"boss_pizzaface"));
    assert!(!full_game_split_unlock_rooms(b"boss_pizzafacehub"));
}
