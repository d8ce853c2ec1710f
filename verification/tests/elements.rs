use wg_element::codec::{ByteReader, ElementError};
use wg_element::element::client::{
    AvatarUpdate, AvatarUpdateId, CreateBasePlayer, EntityMethod, EntityProperty, ForcedPosition,
    ResetEntities, SelectPlayerEntity, SetGameTime, TickSync, UpdateFrequencyNotification,
    Vec3Bits,
};
use wg_element::element::{
    DebugElementFixed, DebugElementUndefined, DebugElementVariable16, DebugElementVariable24,
    DebugElementVariable32, DebugElementVariable8, Element, ElementLength, Reply, SimpleElement,
    REPLY_ID,
};

fn encode_top<E: Element<Config = ()>>(e: &E) -> (u8, Vec<u8>) {
    let mut out = Vec::new();
    let id = Element::encode(e, &mut out, &()).unwrap();
    (id, out)
}

#[test]
fn tick_sync_roundtrip() {
    let (id, bytes) = encode_top(&TickSync { tick: 7 });
    assert_eq!(id, 0x13);
    assert_eq!(bytes, vec![7]);
    let mut reader = ByteReader::new(&bytes);
    let decoded = <TickSync as Element>::decode(&mut reader, bytes.len(), &(), id).unwrap();
    assert_eq!(decoded.tick, 7);
    assert_eq!(reader.remaining(), 0);
    assert_eq!(TickSync { tick: 7 }.encode_length(&()), ElementLength::Fixed(1));
}

#[test]
fn update_frequency_notification() {
    let (id, bytes) = encode_top(&UpdateFrequencyNotification { frequency: 10 });
    assert_eq!(id, UpdateFrequencyNotification::ID);
    assert_eq!(bytes, vec![10]);
    assert_eq!(<UpdateFrequencyNotification as SimpleElement>::len(), ElementLength::Fixed(7));
    let mut reader = ByteReader::new(&bytes);
    let decoded = <UpdateFrequencyNotification as SimpleElement>::decode(&mut reader, 1).unwrap();
    assert_eq!(decoded.frequency, 10);
}

#[test]
fn set_game_time_is_little_endian() {
    let (id, bytes) = encode_top(&SetGameTime { game_time: 0x0102_0304 });
    assert_eq!(id, 0x03);
    assert_eq!(bytes, vec![4, 3, 2, 1]);
    let mut reader = ByteReader::new(&bytes);
    let decoded = <SetGameTime as SimpleElement>::decode(&mut reader, 4).unwrap();
    assert_eq!(decoded.game_time, 0x0102_0304);
}

#[test]
fn reset_entities_flag() {
    let (id, bytes) = encode_top(&ResetEntities { keep_player_on_base: true });
    assert_eq!(id, 0x04);
    assert_eq!(bytes, vec![1]);
    let (_, bytes) = encode_top(&ResetEntities { keep_player_on_base: false });
    assert_eq!(bytes, vec![0]);
    let data = [2u8];
    let mut reader = ByteReader::new(&data);
    assert!(<ResetEntities as SimpleElement>::decode(&mut reader, 1).unwrap().keep_player_on_base);
    let data = [0u8];
    let mut reader = ByteReader::new(&data);
    assert!(!<ResetEntities as SimpleElement>::decode(&mut reader, 1).unwrap().keep_player_on_base);
}

#[test]
fn create_base_player_roundtrip() {
    let player = CreateBasePlayer { entity_id: 1, entity_type: 2, entity_data: vec![9, 8] };
    let (id, bytes) = encode_top(&player);
    assert_eq!(id, 0x05);
    assert_eq!(bytes, vec![1, 0, 0, 0, 2, 0, 9, 8]);
    assert_eq!(<CreateBasePlayer as SimpleElement>::len(), ElementLength::Variable16);
    let mut reader = ByteReader::new(&bytes);
    let decoded = <CreateBasePlayer as SimpleElement>::decode(&mut reader, bytes.len()).unwrap();
    assert_eq!(decoded.entity_id, 1);
    assert_eq!(decoded.entity_type, 2);
    assert_eq!(decoded.entity_data, vec![9, 8]);
    assert_eq!(reader.remaining(), 0);
}

#[test]
fn create_base_player_truncated() {
    let data = [1u8, 0, 0, 0, 2];
    let mut reader = ByteReader::new(&data);
    let r = <CreateBasePlayer as SimpleElement>::decode(&mut reader, 8);
    assert_eq!(r.err(), Some(ElementError::UnexpectedEof));
}

#[test]
fn select_player_entity_is_empty() {
    let (id, bytes) = encode_top(&SelectPlayerEntity);
    assert_eq!(id, 0x1A);
    assert!(bytes.is_empty());
    assert_eq!(<SelectPlayerEntity as SimpleElement>::len(), ElementLength::Fixed(0));
    let data: [u8; 0] = [];
    let mut reader = ByteReader::new(&data);
    let decoded = <SelectPlayerEntity as SimpleElement>::decode(&mut reader, 0).unwrap();
    assert_eq!(decoded, SelectPlayerEntity);
}

#[test]
fn unit_element() {
    let (id, bytes) = encode_top(&());
    assert_eq!(id, 0);
    assert!(bytes.is_empty());
    assert_eq!(<() as SimpleElement>::len(), ElementLength::Fixed(0));
}

#[test]
fn forced_position_floats_are_little_endian() {
    let pos = ForcedPosition {
        entity_id: 1,
        space_id: 2,
        vehicle_entity_id: 3,
        position: Vec3Bits { x: 1.0f32.to_bits(), y: (-2.5f32).to_bits(), z: 0.0f32.to_bits() },
        direction: Vec3Bits { x: 0.5f32.to_bits(), y: 0, z: 0 },
    };
    let (id, bytes) = encode_top(&pos);
    assert_eq!(id, 0x1B);
    assert_eq!(bytes.len(), 36);
    assert_eq!(&bytes[0..12], &[1, 0, 0, 0, 2, 0, 0, 0, 3, 0, 0, 0]);
    assert_eq!(&bytes[12..16], &1.0f32.to_le_bytes());
    assert_eq!(&bytes[16..20], &(-2.5f32).to_le_bytes());
    assert_eq!(&bytes[24..28], &0.5f32.to_le_bytes());
    let mut reader = ByteReader::new(&bytes);
    let decoded = <ForcedPosition as SimpleElement>::decode(&mut reader, 36).unwrap();
    assert_eq!(decoded, pos);
    assert_eq!(f32::from_bits(decoded.position.y), -2.5);
}

#[test]
fn forced_position_truncated() {
    let data = [0u8; 35];
    let mut reader = ByteReader::new(&data);
    let r = <ForcedPosition as SimpleElement>::decode(&mut reader, 35);
    assert_eq!(r, Err(ElementError::UnexpectedEof));
}

#[test]
fn reply_roundtrip() {
    let reply = Reply::new(42, TickSync { tick: 3 });
    let mut out = Vec::new();
    let id = Element::encode(&reply, &mut out, &()).unwrap();
    assert_eq!(id, REPLY_ID);
    assert_eq!(out, vec![42, 0, 0, 0, 3]);
    assert_eq!(reply.encode_length(&()), ElementLength::Variable32);
    assert_eq!(<Reply<TickSync> as Element>::decode_length(&(), REPLY_ID), ElementLength::Variable32);
    let mut reader = ByteReader::new(&out);
    let decoded = <Reply<TickSync> as Element>::decode(&mut reader, out.len(), &(), REPLY_ID).unwrap();
    assert_eq!(decoded.request_id, 42);
    assert_eq!(decoded.element.tick, 3);
}

#[test]
fn reply_with_unit_reads_request_id() {
    let data = [1u8, 2, 0, 0];
    let mut reader = ByteReader::new(&data);
    let decoded = <Reply<()> as Element>::decode(&mut reader, 4, &(), REPLY_ID).unwrap();
    assert_eq!(decoded.request_id, 0x0201);
}

#[test]
fn reply_truncated() {
    let data = [1u8, 2, 0];
    let mut reader = ByteReader::new(&data);
    let r = <Reply<()> as Element>::decode(&mut reader, 3, &(), REPLY_ID);
    assert_eq!(r.err().map(|_| ()), Some(()));
}

#[test]
fn debug_fixed_reads_its_length() {
    let data = [1u8, 2, 3, 4];
    let mut reader = ByteReader::new(&data);
    let e = <DebugElementFixed<9, 3> as SimpleElement>::decode(&mut reader, 4).unwrap();
    assert_eq!(e.data(), &[1, 2, 3]);
    assert_eq!(reader.remaining(), 1);
    let (id, bytes) = encode_top(&e);
    assert_eq!(id, 9);
    assert_eq!(bytes, vec![1, 2, 3]);
    assert_eq!(<DebugElementFixed<9, 3> as SimpleElement>::len(), ElementLength::Fixed(3));
}

#[test]
fn debug_variable_elements_read_the_given_length() {
    let data = [5u8, 6, 7];
    let mut reader = ByteReader::new(&data);
    let e = <DebugElementVariable8<1> as SimpleElement>::decode(&mut reader, 3).unwrap();
    assert_eq!(e.data(), &[5, 6, 7]);
    assert_eq!(encode_top(&e), (1, vec![5, 6, 7]));
    assert_eq!(<DebugElementVariable8<1> as SimpleElement>::len(), ElementLength::Variable8);
    let mut reader = ByteReader::new(&data);
    let e = <DebugElementVariable16<2> as SimpleElement>::decode(&mut reader, 2).unwrap();
    assert_eq!(e.data(), &[5, 6]);
    assert_eq!(<DebugElementVariable16<2> as SimpleElement>::len(), ElementLength::Variable16);
    let mut reader = ByteReader::new(&data);
    let e = <DebugElementVariable24<3> as SimpleElement>::decode(&mut reader, 1).unwrap();
    assert_eq!(e.data(), &[5]);
    assert_eq!(<DebugElementVariable24<3> as SimpleElement>::len(), ElementLength::Variable24);
    let mut reader = ByteReader::new(&data);
    let e = <DebugElementVariable32<4> as SimpleElement>::decode(&mut reader, 0).unwrap();
    assert!(e.data().is_empty());
    assert_eq!(<DebugElementVariable32<4> as SimpleElement>::len(), ElementLength::Variable32);
}

#[test]
fn debug_variable_element_truncated() {
    let data = [5u8, 6];
    let mut reader = ByteReader::new(&data);
    let r = <DebugElementVariable8<1> as SimpleElement>::decode(&mut reader, 3);
    assert!(r.is_err());
}

#[test]
fn debug_undefined_reads_to_end() {
    let data = [5u8, 6, 7, 8];
    let mut reader = ByteReader::new(&data);
    let e = <DebugElementUndefined<7> as SimpleElement>::decode(&mut reader, u32::MAX as usize).unwrap();
    assert_eq!(e.data(), &[5, 6, 7, 8]);
    assert_eq!(reader.remaining(), 0);
    assert_eq!(<DebugElementUndefined<7> as SimpleElement>::len(), ElementLength::Undefined);
}

#[test]
fn empty_input_is_an_error() {
    let data: [u8; 0] = [];
    let mut reader = ByteReader::new(&data);
    let r = <TickSync as SimpleElement>::decode(&mut reader, 0);
    assert_eq!(r, Err(ElementError::UnexpectedEof));
}

#[test]
fn id_constants() {
    assert_eq!(EntityMethod::FIRST_ID, 0x4E);
    assert_eq!(EntityMethod::LAST_ID, 0xA6);
    assert_eq!(EntityProperty::FIRST_ID, 0xA7);
    assert_eq!(EntityProperty::LAST_ID, 0xFE);
    let _ = AvatarUpdate {
        id: AvatarUpdateId::Alias(3),
        pos: Vec3Bits { x: 0, y: 0, z: 0 },
        dir: Vec3Bits { x: 0, y: 0, z: 0 },
    };
    let _ = AvatarUpdateId::NoAlias(5);
}
