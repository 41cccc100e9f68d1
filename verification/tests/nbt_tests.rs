use mcproto::nbt::nbt::{Nbt, NbtCompound, NbtValue};
use mcproto::nbt::templates::level::player::PlayerData;
use mcproto::nbt::templates::level::LevelData;
use mcproto::nbt::NbtError;

#[test]
fn test_nbt_all_types_roundtrip() {
    let mut root = NbtCompound::new();

    // primitives
    root.insert("byte".into(), NbtValue::Byte(1));
    root.insert("short".into(), NbtValue::Short(2));
    root.insert("int".into(), NbtValue::Int(3));
    root.insert("long".into(), NbtValue::Long(4));
    root.insert("float".into(), NbtValue::Float(5.5f32.to_bits()));
    root.insert("double".into(), NbtValue::Double(6.6f64.to_bits()));

    // arrays
    root.insert("byte_array".into(), NbtValue::ByteArray(vec![1, 2, 3]));
    root.insert("int_array".into(), NbtValue::IntArray(vec![10, 20, 30]));
    root.insert("long_array".into(), NbtValue::LongArray(vec![100, 200, 300]));

    // string
    root.insert("string".into(), NbtValue::String("hello".into()));

    // list
    root.insert(
        "list".into(),
        NbtValue::List(vec![NbtValue::Int(1), NbtValue::Int(2), NbtValue::Int(3)]),
    );

    // compound
    let mut inner = NbtCompound::new();
    inner.insert("inner_key".into(), NbtValue::String("value".into()));
    root.insert("compound".into(), NbtValue::Compound(inner));

    let nbt = Nbt { root };

    let bytes = nbt.to_bytes().expect("to_bytes failed");

    let decoded = Nbt::from_bytes(&bytes).expect("from_bytes failed");

    assert_eq!(nbt.root, decoded.root);
}

fn small_doc() -> Nbt {
    let mut root = NbtCompound::new();
    root.insert("a".into(), NbtValue::Short(-2));
    Nbt { root }
}

#[test]
fn nbt_known_bytes() {
    let bytes = small_doc().to_bytes().unwrap();
    // compound tag, empty root name, short "a" = -2, end tag
    assert_eq!(bytes, vec![10, 0, 0, 2, 0, 1, b'a', 0xff, 0xfe, 0]);
}

#[test]
fn nbt_errors() {
    assert!(matches!(Nbt::from_bytes(&[]), Err(NbtError::Io(_))));
    assert!(matches!(Nbt::from_bytes(&[1, 0, 0, 0]), Err(NbtError::InvalidRoot)));
    assert!(matches!(Nbt::from_bytes(&[10, 0, 0, 13, 0, 1, b'a', 0]), Err(NbtError::UnknownTag(13))));
    assert!(matches!(Nbt::from_bytes(&[10, 0, 1, 0xff, 0]), Err(NbtError::Utf8(_))));
    assert!(matches!(Nbt::from_bytes(&[10, 0, 0, 3, 0, 1, b'a', 0, 0]), Err(NbtError::Io(_))));
}

#[test]
fn compound_insert_replaces_in_place() {
    let mut c = NbtCompound::new();
    assert!(c.insert("x".into(), NbtValue::Int(1)).is_none());
    assert!(c.insert("y".into(), NbtValue::Int(2)).is_none());
    assert_eq!(c.insert("x".into(), NbtValue::Int(3)), Some(NbtValue::Int(1)));
    assert_eq!(c.len(), 2);
    assert_eq!(c.get("x"), Some(&NbtValue::Int(3)));
    assert_eq!(c.entries[0].0, "x");
    assert!(c.get("z").is_none());
}

fn level_doc() -> LevelData {
    let mut rules = NbtCompound::new();
    rules.insert("doDaylightCycle".into(), NbtValue::String("true".into()));
    let mut gen = NbtCompound::new();
    gen.insert("seed".into(), NbtValue::Long(-42));
    let mut player = NbtCompound::new();
    player.insert("XpLevel".into(), NbtValue::Int(7));
    player.insert("Health".into(), NbtValue::Float(20.0f32.to_bits()));
    player.insert(
        "Pos".into(),
        NbtValue::List(vec![
            NbtValue::Double(1.5f64.to_bits()),
            NbtValue::Double(64.0f64.to_bits()),
            NbtValue::Double((-3.25f64).to_bits()),
        ]),
    );
    let mut data = NbtCompound::new();
    data.insert("LevelName".into(), NbtValue::String("World".into()));
    data.insert("SpawnX".into(), NbtValue::Int(10));
    data.insert("SpawnY".into(), NbtValue::Int(70));
    data.insert("SpawnZ".into(), NbtValue::Int(-5));
    data.insert("WorldGenSettings".into(), NbtValue::Compound(gen));
    data.insert("GameRules".into(), NbtValue::Compound(rules));
    data.insert("Player".into(), NbtValue::Compound(player));
    let mut root = NbtCompound::new();
    root.insert("Data".into(), NbtValue::Compound(data));
    LevelData { nbt: Nbt { root } }
}

#[test]
fn try_get_follows_paths() {
    let level = level_doc();
    assert_eq!(level.nbt.try_get("Data.SpawnX"), Some(&NbtValue::Int(10)));
    assert_eq!(level.nbt.try_get("Data.WorldGenSettings.seed"), Some(&NbtValue::Long(-42)));
    assert!(level.nbt.try_get("Data.Missing").is_none());
    assert!(level.nbt.try_get("Data.SpawnX.deeper").is_none());
    assert!(level.nbt.try_get("").is_none());
}

#[test]
fn try_get_mut_writes_back() {
    let mut level = level_doc();
    match level.nbt.try_get_mut("Data.WorldGenSettings.seed") {
        Some(v) => *v = NbtValue::Long(99),
        None => panic!("seed missing"),
    }
    assert_eq!(level.get_seed(), Some(99));
    assert!(level.nbt.try_get_mut("Data.Nope").is_none());
}

#[test]
fn level_name_and_seed() {
    let mut level = level_doc();
    assert_eq!(level.get_level_name(), Some("World"));
    assert_eq!(level.get_seed(), Some(-42));
    level.set_level_name("Other".to_string()).unwrap();
    assert_eq!(level.get_level_name(), Some("Other"));
}

#[test]
fn level_name_missing_is_error() {
    let mut level = LevelData { nbt: Nbt { root: NbtCompound::new() } };
    assert!(level.get_level_name().is_none());
    match level.set_level_name("x".to_string()) {
        Err(NbtError::UnknownCompound(k)) => assert_eq!(k, "Data.LevelName"),
        _ => panic!("expected an error"),
    }
}

#[test]
fn spawn_get_and_set() {
    let mut level = level_doc();
    assert_eq!(level.get_spawn(), Some((10, 70, -5)));
    level.set_spawn(1, 2, 3).unwrap();
    assert_eq!(level.get_spawn(), Some((1, 2, 3)));
}

#[test]
fn spawn_set_stops_at_missing_coordinate() {
    let mut data = NbtCompound::new();
    data.insert("SpawnX".into(), NbtValue::Int(10));
    let mut root = NbtCompound::new();
    root.insert("Data".into(), NbtValue::Compound(data));
    let mut level = LevelData { nbt: Nbt { root } };
    match level.set_spawn(4, 5, 6) {
        Err(NbtError::UnknownCompound(k)) => assert_eq!(k, "Data.SpawnY"),
        _ => panic!("expected an error"),
    }
    assert_eq!(level.nbt.try_get("Data.SpawnX"), Some(&NbtValue::Int(4)));
    assert!(level.get_spawn().is_none());
}

#[test]
fn gamerules() {
    let mut level = level_doc();
    level.set_gamerule("keepInventory", true).unwrap();
    level.set_gamerule("doDaylightCycle", false).unwrap();
    assert_eq!(
        level.nbt.try_get("Data.GameRules.keepInventory"),
        Some(&NbtValue::String("true".into()))
    );
    assert_eq!(
        level.nbt.try_get("Data.GameRules.doDaylightCycle"),
        Some(&NbtValue::String("false".into()))
    );
    let mut bare = LevelData { nbt: Nbt { root: NbtCompound::new() } };
    match bare.set_gamerule("x", true) {
        Err(NbtError::UnknownCompound(k)) => assert_eq!(k, "Data.GameRules"),
        _ => panic!("expected an error"),
    }
}

#[test]
fn player_fields() {
    let mut level = level_doc();
    assert!(level.player().is_some());
    let root = level.player_mut().expect("player missing");
    let mut player = PlayerData { root };
    assert_eq!(player.get_xp_level(), Some(7));
    assert_eq!(player.get_health().map(f32::from_bits), Some(20.0));
    let pos = player.get_pos().unwrap();
    assert_eq!(
        (f64::from_bits(pos.0), f64::from_bits(pos.1), f64::from_bits(pos.2)),
        (1.5, 64.0, -3.25)
    );
    player.set_xp_level(30).unwrap();
    player.set_health(5.0f32.to_bits()).unwrap();
    player.set_pos(0.5f64.to_bits(), 1.0f64.to_bits(), 2.0f64.to_bits()).unwrap();
    assert_eq!(player.get_xp_level(), Some(30));
    assert_eq!(player.get_health(), Some(5.0f32.to_bits()));
    assert_eq!(
        player.get_pos(),
        Some((0.5f64.to_bits(), 1.0f64.to_bits(), 2.0f64.to_bits()))
    );
    assert_eq!(level.nbt.try_get("Data.Player.XpLevel"), Some(&NbtValue::Int(30)));
}

#[test]
fn player_not_a_compound() {
    let mut value = NbtValue::Int(0);
    let mut player = PlayerData { root: &mut value };
    assert!(player.get_xp_level().is_none());
    assert!(player.get_pos().is_none());
    match player.set_health(1) {
        Err(NbtError::UnknownCompound(k)) => assert_eq!(k, "Data.Player"),
        _ => panic!("expected an error"),
    }
}

#[test]
fn unknown_tag_reads_nothing() {
    let mut s: &[u8] = &[1, 2, 3];
    assert!(matches!(mcproto::nbt::nbt::read_value(&mut s, 13), Err(NbtError::UnknownTag(13))));
    assert_eq!(s, &[1, 2, 3]);
}
