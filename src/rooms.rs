use vstd::prelude::*;
use vstd::string::StringSliceAdditionalSpecFns;

verus! {

/// Where the player is, judged by the prefix of the room name.
#[derive(Clone, Copy, Debug, PartialEq, Eq, Structural)]
pub enum Level {
    Unknown,
    Hub,
    ResultsScreen,
    JohnGutter,
    Pizzascape,
    AncientCheese,
    BloodsauceDungeon,
    OreganoDesert,
    Wasteyard,
    FunFarm,
    FastfoodSaloon,
    CrustCove,
    GnomeForest,
    DeepDish9,
    Golf,
    ThePigCity,
    PeppibotFactory,
    OhShit,
    Freezerator,
    Pizzascare,
    DontMakeASound,
    War,
    TrickyTreat,
}

/// One row of the level table: the room name prefix that identifies the level,
/// its display name, and the room a level attempt starts in.
#[derive(Clone, Copy, Debug)]
pub struct LevelInfo {
    pub prefix: &'static str,
    pub level: Level,
    pub name: &'static str,
    pub start_room: Option<&'static str>,
}

pub open spec fn info(
    prefix: &'static str,
    level: Level,
    name: &'static str,
    start_room: Option<&'static str>,
) -> LevelInfo {
    LevelInfo { prefix, level, name, start_room }
}

/// The level table, in the order in which prefixes are tried.
pub open spec fn level_table_spec() -> Seq<LevelInfo> {
    seq![
        info("hub_", Level::Hub, "Hub", None),
        info("tower_", Level::Hub, "Hub", None),
        info("rank_", Level::ResultsScreen, "Results Screen", None),
        info("entrance_", Level::JohnGutter, "John Gutter", Some("entrance_1")),
        info("medieval_", Level::Pizzascape, "Pizzascape", Some("medieval_1")),
        info("ruin_", Level::AncientCheese, "Ancient Cheese", Some("ruin_1")),
        info("dungeon_", Level::BloodsauceDungeon, "Bloodsauce Dungeon", Some("dungeon_1")),
        info("badland_", Level::OreganoDesert, "Oregano Desert", Some("badland_1")),
        info("graveyard_", Level::Wasteyard, "Wasteyard", Some("graveyard_1")),
        info("farm_", Level::FunFarm, "Fun Farm", Some("farm_1")),
        info("saloon_", Level::FastfoodSaloon, "Fastfood Saloon", Some("saloon_1")),
        info("plage_", Level::CrustCove, "Crust Cove", Some("plage_entrance")),
        info("forest_", Level::GnomeForest, "Gnome Forest", Some("forest_1")),
        info("space_", Level::DeepDish9, "Deep-Dish 9", Some("space_1")),
        info("minigolf_", Level::Golf, "GOLF", Some("minigolf_1")),
        info("street_", Level::ThePigCity, "The Pig City", Some("street_intro")),
        info("industrial_", Level::PeppibotFactory, "Peppibot Factory", Some("industrial_1")),
        info("sewer_", Level::OhShit, "Oh Shit!", Some("sewer_1")),
        info("freezer_", Level::Freezerator, "Refrigerator-Refrigerador-Freezerator", Some("freezer_1")),
        info("chateau_", Level::Pizzascare, "Pizzascare", Some("chateau_1")),
        info("kidsparty_", Level::DontMakeASound, "Don't Make A Sound", Some("kidsparty_1")),
        info("war_", Level::War, "WAR", Some("war_1")),
        info("trickytreat_", Level::TrickyTreat, "Tricky Treat", Some("trickytreat_1")),
    ]
}

pub fn level_table() -> (r: Vec<LevelInfo>)
    ensures
        r@ == level_table_spec(),
{
    let r = vec![
        LevelInfo { prefix: "hub_", level: Level::Hub, name: "Hub", start_room: None },
        LevelInfo { prefix: "tower_", level: Level::Hub, name: "Hub", start_room: None },
        LevelInfo { prefix: "rank_", level: Level::ResultsScreen, name: "Results Screen", start_room: None },
        LevelInfo { prefix: "entrance_", level: Level::JohnGutter, name: "John Gutter", start_room: Some("entrance_1") },
        LevelInfo { prefix: "medieval_", level: Level::Pizzascape, name: "Pizzascape", start_room: Some("medieval_1") },
        LevelInfo { prefix: "ruin_", level: Level::AncientCheese, name: "Ancient Cheese", start_room: Some("ruin_1") },
        LevelInfo {
            prefix: "dungeon_",
            level: Level::BloodsauceDungeon,
            name: "Bloodsauce Dungeon",
            start_room: Some("dungeon_1"),
        },
        LevelInfo {
            prefix: "badland_",
            level: Level::OreganoDesert,
            name: "Oregano Desert",
            start_room: Some("badland_1"),
        },
        LevelInfo { prefix: "graveyard_", level: Level::Wasteyard, name: "Wasteyard", start_room: Some("graveyard_1") },
        LevelInfo { prefix: "farm_", level: Level::FunFarm, name: "Fun Farm", start_room: Some("farm_1") },
        LevelInfo {
            prefix: "saloon_",
            level: Level::FastfoodSaloon,
            name: "Fastfood Saloon",
            start_room: Some("saloon_1"),
        },
        LevelInfo { prefix: "plage_", level: Level::CrustCove, name: "Crust Cove", start_room: Some("plage_entrance") },
        LevelInfo { prefix: "forest_", level: Level::GnomeForest, name: "Gnome Forest", start_room: Some("forest_1") },
        LevelInfo { prefix: "space_", level: Level::DeepDish9, name: "Deep-Dish 9", start_room: Some("space_1") },
        LevelInfo { prefix: "minigolf_", level: Level::Golf, name: "GOLF", start_room: Some("minigolf_1") },
        LevelInfo { prefix: "street_", level: Level::ThePigCity, name: "The Pig City", start_room: Some("street_intro") },
        LevelInfo {
            prefix: "industrial_",
            level: Level::PeppibotFactory,
            name: "Peppibot Factory",
            start_room: Some("industrial_1"),
        },
        LevelInfo { prefix: "sewer_", level: Level::OhShit, name: "Oh Shit!", start_room: Some("sewer_1") },
        LevelInfo {
            prefix: "freezer_",
            level: Level::Freezerator,
            name: "Refrigerator-Refrigerador-Freezerator",
            start_room: Some("freezer_1"),
        },
        LevelInfo { prefix: "chateau_", level: Level::Pizzascare, name: "Pizzascare", start_room: Some("chateau_1") },
        LevelInfo {
            prefix: "kidsparty_",
            level: Level::DontMakeASound,
            name: "Don't Make A Sound",
            start_room: Some("kidsparty_1"),
        },
        LevelInfo { prefix: "war_", level: Level::War, name: "WAR", start_room: Some("war_1") },
        LevelInfo {
            prefix: "trickytreat_",
            level: Level::TrickyTreat,
            name: "Tricky Treat",
            start_room: Some("trickytreat_1"),
        },
    ];
    assert(r@ =~= level_table_spec());
    r
}

/// The rooms that open and close a level or boss attempt.
pub open spec fn boss_rooms_spec() -> Seq<&'static str> {
    seq!["boss_pepperman", "boss_vigilante", "boss_noise", "boss_fakepep", "boss_pizzaface"]
}

pub fn boss_rooms() -> (r: Vec<&'static str>)
    ensures
        r@ == boss_rooms_spec(),
{
    let r = vec!["boss_pepperman", "boss_vigilante", "boss_noise", "boss_fakepep", "boss_pizzaface"];
    assert(r@ =~= boss_rooms_spec());
    r
}

pub open spec fn has_prefix(name: Seq<u8>, p: Seq<u8>) -> bool {
    p.len() <= name.len() && name.subrange(0, p.len() as int) == p
}

/// The level of the first table row, from row `i` on, whose prefix starts `name`.
pub open spec fn level_by_prefix_from(name: Seq<u8>, t: Seq<LevelInfo>, i: int) -> Option<Level>
    decreases t.len() - i,
{
    if i < 0 || i >= t.len() {
        None
    } else if has_prefix(name, t[i].prefix.spec_bytes()) {
        Some(t[i].level)
    } else {
        level_by_prefix_from(name, t, i + 1)
    }
}

/// The level that a room name puts the player in; a name with no known
/// prefix keeps the previous level.
pub open spec fn classify(name: Seq<u8>, previous: Level) -> Level {
    match level_by_prefix_from(name, level_table_spec(), 0) {
        Some(l) => l,
        None => previous,
    }
}

/// The first table row, from row `i` on, for level `l`.
pub open spec fn row_of_from(l: Level, t: Seq<LevelInfo>, i: int) -> Option<LevelInfo>
    decreases t.len() - i,
{
    if i < 0 || i >= t.len() {
        None
    } else if t[i].level == l {
        Some(t[i])
    } else {
        row_of_from(l, t, i + 1)
    }
}

pub open spec fn level_name_spec(l: Level) -> &'static str {
    match row_of_from(l, level_table_spec(), 0) {
        Some(row) => row.name,
        None => "Unknown",
    }
}

pub open spec fn starting_room_spec(l: Level) -> Option<&'static str> {
    match row_of_from(l, level_table_spec(), 0) {
        Some(row) => row.start_room,
        None => None,
    }
}

/// Rooms whose exit ends a level or boss attempt, and whose entry arms the
/// full-game split: the starting room of every level, and every boss room.
pub open spec fn is_split_room(name: Seq<u8>) -> bool {
    (exists|i: int|
        0 <= i < level_table_spec().len() && #[trigger] level_table_spec()[i].start_room is Some
            && name == level_table_spec()[i].start_room->0.spec_bytes())
    || (exists|i: int| 0 <= i < boss_rooms_spec().len() && name == (#[trigger] boss_rooms_spec()[i]).spec_bytes())
}

/// Whether `name` starts with `p`.
pub fn starts_with(name: &[u8], p: &[u8]) -> (r: bool)
    ensures
        r == has_prefix(name@, p@),
{
    if p.len() > name.len() {
        return false;
    }
    let mut i: usize = 0;
    while i < p.len()
        invariant
            p@.len() <= name@.len(),
            i <= p@.len(),
            forall|k: int| 0 <= k < i ==> name@[k] == p@[k],
        decreases p@.len() - i,
    {
        if name[i] != p[i] {
            assert(name@.subrange(0, p@.len() as int)[i as int] != p@[i as int]);
            return false;
        }
        i = i + 1;
    }
    assert(name@.subrange(0, p@.len() as int) =~= p@);
    true
}

/// Whether two byte strings are equal.
pub fn bytes_eq(a: &[u8], b: &[u8]) -> (r: bool)
    ensures
        r == (a@ == b@),
{
    if a.len() != b.len() {
        return false;
    }
    let r = starts_with(a, b);
    assert(a@ =~= a@.subrange(0, b@.len() as int));
    r
}

/// Whether the room name is the text `room`.
pub fn is_room(name: &[u8], room: &str) -> (r: bool)
    ensures
        r == (name@ == room.spec_bytes()),
{
    bytes_eq(name, room.as_bytes())
}

/// The level after entering the room `name`, coming from level `previous`.
pub fn get_current_level(name: &[u8], previous: Level) -> (r: Level)
    ensures
        r == classify(name@, previous),
{
    let t = level_table();
    let mut i: usize = 0;
    while i < t.len()
        invariant
            t@ == level_table_spec(),
            i <= t@.len(),
            level_by_prefix_from(name@, t@, 0) == level_by_prefix_from(name@, t@, i as int),
        decreases t@.len() - i,
    {
        if starts_with(name, t[i].prefix.as_bytes()) {
            return t[i].level;
        }
        i = i + 1;
    }
    previous
}

fn table_row(l: Level) -> (r: Option<LevelInfo>)
    ensures
        r == row_of_from(l, level_table_spec(), 0),
{
    let t = level_table();
    let mut i: usize = 0;
    while i < t.len()
        invariant
            t@ == level_table_spec(),
            i <= t@.len(),
            row_of_from(l, t@, 0) == row_of_from(l, t@, i as int),
        decreases t@.len() - i,
    {
        if t[i].level == l {
            return Some(t[i]);
        }
        i = i + 1;
    }
    None
}

/// The display name of a level.
pub fn get_full_level_name(l: Level) -> (r: &'static str)
    ensures
        r == level_name_spec(l),
{
    match table_row(l) {
        Some(row) => row.name,
        None => "Unknown",
    }
}

/// The room in which an attempt at level `l` starts, where it has one.
pub fn get_starting_room(l: Level) -> (r: Option<&'static str>)
    ensures
        r == starting_room_spec(l),
{
    match table_row(l) {
        Some(row) => row.start_room,
        None => None,
    }
}

/// Whether leaving the room `name` can end a level or boss attempt.
pub fn full_game_split_rooms(name: &[u8]) -> (r: bool)
    ensures
        r == is_split_room(name@),
{
    let t = level_table();
    let mut i: usize = 0;
    while i < t.len()
        invariant
            t@ == level_table_spec(),
            i <= t@.len(),
            forall|k: int|
                0 <= k < i ==> !(#[trigger] t@[k].start_room is Some && name@ == t@[k].start_room->0.spec_bytes()),
        decreases t@.len() - i,
    {
        match t[i].start_room {
            Some(room) => {
                if is_room(name, room) {
                    return true;
                }
            },
            None => {},
        }
        i = i + 1;
    }
    let bosses = boss_rooms();
    let mut j: usize = 0;
    while j < bosses.len()
        invariant
            t@ == level_table_spec(),
            bosses@ == boss_rooms_spec(),
            j <= bosses@.len(),
            forall|k: int|
                0 <= k < t@.len() ==> !(#[trigger] t@[k].start_room is Some && name@ == t@[k].start_room->0.spec_bytes()),
            forall|k: int| 0 <= k < j ==> name@ != (#[trigger] bosses@[k]).spec_bytes(),
        decreases bosses@.len() - j,
    {
        if is_room(name, bosses[j]) {
            return true;
        }
        j = j + 1;
    }
    false
}

/// Whether entering the room `name` arms the full-game split.
pub fn full_game_split_unlock_rooms(name: &[u8]) -> (r: bool)
    ensures
        r == is_split_room(name@),
{
    full_game_split_rooms(name)
}

} // verus!
