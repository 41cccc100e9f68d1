use mcproto::network::packet::configuration::{
    skin_parts, AddResourcePack, ChatMode, ClientInformation, Entries, Entry, MainHand,
    ParticleStatus, RegistryData, ServerLinkType,
};
use mcproto::network::packet::handshake::{Handshake, NextState};
use mcproto::network::packet::login::EncryptionRequest;
use mcproto::network::packet::play::bossbar::{BossBar, BossBarAction, BossBarColor, BossBarDivision};
use mcproto::network::packet::play::{
    Angle, ChangeDifficulty, CommandNode, Commands, Difficulty, EntityAnimationType, Position,
};
use mcproto::network::packet::play::{decode_lpvec3_bits, encode_lpvec3_bits};
use mcproto::network::packet::status::{PingRequest, PongResponse, StatusRequest};
use mcproto::network::packet::TextComponent;
use mcproto::utils::{
    ClientboundPacketTrait, CodecError, Int, Long, PacketCodec, ServerboundPacketTrait, Uuid,
};

fn encoded<T: PacketCodec>(v: &T) -> Vec<u8> {
    let mut buf = Vec::new();
    v.encode(&mut buf).unwrap();
    buf
}

#[test]
fn handshake_bytes() {
    let h = Handshake {
        protocol_version: 767,
        server_address: "localhost".to_string(),
        server_port: 25565,
        next_state: NextState::Login,
    };
    assert_eq!(h.packet_id(), 0x00);
    let mut buf = Vec::new();
    h.encode(&mut buf).unwrap();
    let mut expected = vec![0xff, 0x05, 9];
    expected.extend_from_slice(b"localhost");
    expected.extend_from_slice(&[0x63, 0xdd, 0x02]);
    assert_eq!(buf, expected);
}

#[test]
fn next_state_refuses_unknown() {
    let mut s: &[u8] = &[0x04];
    match NextState::decode(&mut s) {
        Err(CodecError::InvalidEnumValue { value, enum_name, .. }) => {
            assert_eq!(value, 4);
            assert_eq!(enum_name, "NextState");
        }
        _ => panic!("expected an error"),
    }
    let mut t: &[u8] = &[0x03];
    assert_eq!(NextState::decode(&mut t).unwrap(), NextState::Transfer);
}

#[test]
fn status_packets() {
    let mut buf = Vec::new();
    StatusRequest.encode(&mut buf).unwrap();
    assert!(buf.is_empty());
    let p = PingRequest::with_payload(300);
    assert_eq!(p.packet_id(), 0x01);
    p.encode(&mut buf).unwrap();
    assert_eq!(buf, vec![0xac, 0x02]);
    let mut s: &[u8] = &buf;
    let pong = PongResponse::decode(&mut s).unwrap();
    assert_eq!(pong.payload, 300);
    let random = PingRequest::new();
    let mut b2 = Vec::new();
    random.encode(&mut b2).unwrap();
    let mut s2: &[u8] = &b2;
    assert_eq!(PongResponse::decode(&mut s2).unwrap().payload, random.payload);
}

#[test]
fn string_codec() {
    let s = "héllo".to_string();
    let bytes = encoded(&s);
    assert_eq!(bytes[0], 6);
    let mut r: &[u8] = &bytes;
    assert_eq!(String::decode(&mut r).unwrap(), "héllo");
    let mut bad: &[u8] = &[2, 0xc3, 0x28];
    assert!(matches!(String::decode(&mut bad), Err(CodecError::DecodeError)));
    let mut short: &[u8] = &[5, b'a'];
    assert!(matches!(String::decode(&mut short), Err(CodecError::Io)));
    let mut negative: &[u8] = &[0xff, 0xff, 0xff, 0xff, 0x0f];
    assert!(matches!(String::decode(&mut negative), Err(CodecError::Io)));
}

#[test]
fn fixed_width_codecs() {
    assert_eq!(encoded(&Int(1)), vec![0, 0, 0, 1]);
    assert_eq!(encoded(&Long(-2)), vec![0xff, 0xff, 0xff, 0xff, 0xff, 0xff, 0xff, 0xfe]);
    assert_eq!(encoded(&0x1234u16), vec![0x12, 0x34]);
    assert_eq!(encoded(&(-2i16)), vec![0xff, 0xfe]);
    assert_eq!(encoded(&0xdeadbeefu32), vec![0xde, 0xad, 0xbe, 0xef]);
    assert_eq!(encoded(&1u64), vec![0, 0, 0, 0, 0, 0, 0, 1]);
    assert_eq!(encoded(&true), vec![1]);
    let mut bad: &[u8] = &[2];
    assert!(matches!(bool::decode(&mut bad), Err(CodecError::DecodeError)));
    let mut short: &[u8] = &[0, 0, 1];
    assert!(matches!(Int::decode(&mut short), Err(CodecError::Io)));
}

#[test]
fn uuid_and_options() {
    let id = Uuid::from_bytes([7; 16]);
    assert_eq!(encoded(&id), vec![7; 16]);
    let some: Option<Uuid> = Some(id);
    let bytes = encoded(&some);
    assert_eq!(bytes[0], 1);
    assert_eq!(bytes.len(), 17);
    let mut r: &[u8] = &bytes;
    assert_eq!(Option::<Uuid>::decode(&mut r).unwrap(), Some(id));
    let none: Option<Uuid> = None;
    assert_eq!(encoded(&none), vec![0]);
    let absent: Option<String> = None;
    assert_eq!(encoded(&absent), vec![0]);
    let mut back: &[u8] = &[0];
    assert_eq!(Option::<String>::decode(&mut back).unwrap(), None);
    let present: Option<String> = Some("a".to_string());
    assert_eq!(encoded(&present), vec![1, 1, b'a']);
    let data: Option<Vec<u8>> = Some(vec![9, 8]);
    assert_eq!(encoded(&data), vec![1, 2, 9, 8]);
}

#[test]
fn registry_data_decodes() {
    let entries = Entries(vec![
        Entry { entry_id: "a".to_string(), data: None },
        Entry { entry_id: "b".to_string(), data: Some(vec![1]) },
    ]);
    let mut buf = encoded(&"minecraft:x".to_string());
    entries.encode(&mut buf).unwrap();
    let mut s: &[u8] = &buf;
    let packet = RegistryData::decode(&mut s).unwrap();
    assert_eq!(packet.packet_id(), 0x07);
    assert_eq!(packet.registry_id, "minecraft:x");
    assert_eq!(packet.entries.0.len(), 2);
    assert_eq!(packet.entries.0[1].data, Some(vec![1]));
    assert!(s.is_empty());
}

#[test]
fn add_resource_pack_decodes() {
    let mut buf = encoded(&Uuid::from_bytes([1; 16]));
    buf.extend(encoded(&"http://x".to_string()));
    buf.extend(encoded(&"abc".to_string()));
    buf.extend(encoded(&true));
    buf.extend(encoded(&Some("hi".to_string())));
    let mut s: &[u8] = &buf;
    let p = AddResourcePack::decode(&mut s).unwrap();
    assert_eq!(p.url, "http://x");
    assert_eq!(p.hash, "abc");
    assert!(p.forced);
    assert_eq!(p.prompt_message, Some("hi".to_string()));
}

#[test]
fn client_information_bytes() {
    let info = ClientInformation {
        locale: "en_us".to_string(),
        view_distance: 12,
        chat_mode: ChatMode::CommandsOnly,
        chat_colors: true,
        displayed_skin_parts: skin_parts::CAPE | skin_parts::HAT,
        main_hand: MainHand::Right,
        enable_text_filtering: false,
        allow_server_listings: true,
        particle_status: ParticleStatus::Minimal,
    };
    let mut buf = Vec::new();
    info.encode(&mut buf).unwrap();
    let mut expected = vec![5];
    expected.extend_from_slice(b"en_us");
    expected.extend_from_slice(&[12, 1, 1, 0x41, 1, 0, 1, 2]);
    assert_eq!(buf, expected);
    assert_eq!(skin_parts::ALL, 0x7f);
}

#[test]
fn enum_errors_name_the_enum() {
    let mut s: &[u8] = &[10];
    match ServerLinkType::decode(&mut s) {
        Err(CodecError::InvalidEnumValue { value, enum_name, expected }) => {
            assert_eq!((value, enum_name, expected), (10, "ServerLinkType", "0..9"));
        }
        _ => panic!("expected an error"),
    }
    let mut t: &[u8] = &[3];
    match ChatMode::decode(&mut t) {
        Err(CodecError::InvalidEnumValue { enum_name, .. }) => assert_eq!(enum_name, "Chat Mode"),
        _ => panic!("expected an error"),
    }
}

#[test]
fn entity_animation_take_damage_is_not_read() {
    assert_eq!(encoded(&EntityAnimationType::TakeDamage), vec![1]);
    let mut s: &[u8] = &[1];
    assert!(matches!(
        EntityAnimationType::decode(&mut s),
        Err(CodecError::InvalidEnumValue { value: 1, .. })
    ));
    let mut t: &[u8] = &[5];
    assert_eq!(
        EntityAnimationType::decode(&mut t).unwrap(),
        EntityAnimationType::MagicCriticalEffect
    );
}

#[test]
fn change_difficulty_decodes() {
    let mut s: &[u8] = &[2, 1];
    let p = ChangeDifficulty::decode(&mut s).unwrap();
    assert_eq!(p.difficulty, Difficulty::Normal);
    assert!(p.difficulty_locked);
    let mut bad: &[u8] = &[4, 0];
    assert!(ChangeDifficulty::decode(&mut bad).is_err());
}

#[test]
fn position_packing() {
    let p = Position { x: 18357644, y: 831, z: -20882616 };
    let bytes = encoded(&p);
    assert_eq!(bytes, vec![0x46, 0x07, 0x63, 0x2c, 0x15, 0xb4, 0x83, 0x3f]);
    let mut s: &[u8] = &bytes;
    assert_eq!(Position::decode(&mut s).unwrap(), p);
    let q = Position { x: -1, y: -2048, z: 33554431 };
    let mut t: &[u8] = &encoded(&q);
    assert_eq!(Position::decode(&mut t).unwrap(), q);
}

#[test]
fn angle_is_one_byte() {
    assert_eq!(encoded(&Angle(200)), vec![200]);
}

#[test]
fn boss_bar_roundtrip() {
    let bars = vec![
        BossBarAction::Add {
            title: TextComponent("{\"text\":\"boss\"}".to_string()),
            health: 0.5f32.to_bits(),
            color: BossBarColor::Red,
            division: BossBarDivision::TenNotches,
            flags: 3,
        },
        BossBarAction::Remove,
        BossBarAction::UpdateHealth { health: 1.0f32.to_bits() },
        BossBarAction::UpdateTitle { title: TextComponent("t".to_string()) },
        BossBarAction::UpdateStyle { color: BossBarColor::White, division: BossBarDivision::NoDivision },
        BossBarAction::UpdateFlags { flags: 1 },
    ];
    for action in bars {
        let bar = BossBar { uuid: Uuid::from_bytes([2; 16]), action };
        let bytes = encoded(&bar);
        let mut s: &[u8] = &bytes;
        let back = BossBar::decode(&mut s).unwrap();
        assert_eq!(encoded(&back), bytes);
        assert!(s.is_empty());
    }
    let mut bad = vec![0u8; 16];
    bad.push(6);
    let mut s: &[u8] = &bad;
    assert!(matches!(
        BossBar::decode(&mut s),
        Err(CodecError::InvalidEnumValue { value: 6, .. })
    ));
}

#[test]
fn command_nodes() {
    let root = CommandNode {
        flags: 0,
        children: vec![1],
        redirect_node: None,
        name: None,
        parser: None,
        properties: None,
        suggestions_type: None,
    };
    let arg = CommandNode {
        flags: 0x02 | 0x08 | 0x10,
        children: vec![],
        redirect_node: Some(0),
        name: Some("x".to_string()),
        parser: Some("brigadier:integer".to_string()),
        properties: Some(vec![0]),
        suggestions_type: Some("minecraft:ask_server".to_string()),
    };
    assert_eq!(encoded(&root), vec![0, 1, 1]);
    let mut buf = encoded(&vec![root, arg]);
    buf.extend(encoded(&0i32));
    let mut s: &[u8] = &buf;
    let cmds = Commands::decode(&mut s).unwrap();
    assert_eq!(cmds.packet_id(), 0x10);
    assert_eq!(cmds.nodes.len(), 2);
    assert_eq!(cmds.nodes[1].name, Some("x".to_string()));
    assert_eq!(cmds.nodes[1].redirect_node, Some(0));
    assert_eq!(cmds.nodes[1].suggestions_type, Some("minecraft:ask_server".to_string()));
    assert_eq!(cmds.root_index, 0);
}

#[test]
fn encryption_request_decodes() {
    let mut buf = encoded(&String::new());
    buf.extend(encoded(&vec![1u8, 2, 3]));
    let mut s: &[u8] = &buf;
    let p = EncryptionRequest::decode(&mut s).unwrap();
    assert_eq!(p.server_id, "");
    assert_eq!(p.public_key, vec![1, 2, 3]);
}

#[test]
fn failed_reads_leave_the_rest() {
    let mut s: &[u8] = &[10, 0x42];
    assert!(ServerLinkType::decode(&mut s).is_err());
    assert_eq!(s, &[0x42]);
    let mut bar = vec![0u8; 16];
    bar.extend_from_slice(&[6, 0x42]);
    let mut b: &[u8] = &bar;
    assert!(BossBar::decode(&mut b).is_err());
    assert_eq!(b, &[0x42]);
    let mut short: &[u8] = &[0, 1];
    assert!(Int::decode(&mut short).is_err());
    assert_eq!(short, &[0, 1]);
    let mut bad_utf8: &[u8] = &[2, 0xc3, 0x28, 0x42];
    assert!(String::decode(&mut bad_utf8).is_err());
    assert_eq!(bad_utf8, &[0x42]);
}

#[test]
fn lpvec3_bit_packing() {
    let mut buf = Vec::new();
    encode_lpvec3_bits(1, 2, 3, 1, &mut buf);
    assert_eq!(buf, vec![9, 0, 0, 6, 0, 8]);
    let mut s: &[u8] = &buf;
    assert_eq!(decode_lpvec3_bits(&mut s).unwrap(), Some((1, 2, 3, 1)));
    let mut big = Vec::new();
    encode_lpvec3_bits(32766, 0, 16383, 5, &mut big);
    big.push(0x42);
    let mut t: &[u8] = &big;
    assert_eq!(decode_lpvec3_bits(&mut t).unwrap(), Some((32766, 0, 16383, 5)));
    assert_eq!(t, &[0x42]);
    let mut zero: &[u8] = &[0, 7];
    assert_eq!(decode_lpvec3_bits(&mut zero).unwrap(), None);
    assert_eq!(zero, &[7]);
}
