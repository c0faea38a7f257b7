use zephyr_grid::errors::ZfsError;
use zephyr_grid::zchat::{
    sector_id_for_channel, sector_id_for_message, ChannelId, ZChatDescriptor, ZChatMessage,
    MAX_MESSAGE_SIZE, TEST_CHANNEL_ID,
};

const V1_BYTES: [u8; 37] = [
    163, 100, 110, 97, 109, 101, 101, 122, 99, 104, 97, 116, 103, 118, 101, 114, 115, 105, 111,
    110, 1, 110, 112, 114, 111, 111, 102, 95, 114, 101, 113, 117, 105, 114, 101, 100, 244,
];

fn sample_message(content: &str) -> ZChatMessage {
    ZChatMessage {
        sender_did: "did:key:z6".to_string(),
        channel_id: ChannelId::from_str_id(TEST_CHANNEL_ID),
        content: content.to_string(),
        timestamp_ms: 1_700_000_000_000,
    }
}

#[test]
fn v1_descriptor_fields() {
    let d = ZChatDescriptor::v1();
    assert_eq!(d.name, "zchat");
    assert_eq!(d.version, 1);
    assert!(!d.proof_required);
}

#[test]
fn descriptor_encoding_is_canonical_cbor() {
    let bytes = ZChatDescriptor::v1().encode_canonical().unwrap();
    assert_eq!(bytes, V1_BYTES.to_vec());
}

#[test]
fn descriptor_decode_round_trip() {
    let d = ZChatDescriptor { name: "chat-é".to_string(), version: 70_000, proof_required: true };
    let bytes = d.encode_canonical().unwrap();
    assert_eq!(ZChatDescriptor::decode_canonical(&bytes).unwrap(), d);
}

#[test]
fn descriptor_decode_rejects_trailing_and_truncated_bytes() {
    let mut longer = V1_BYTES.to_vec();
    longer.push(0);
    assert!(matches!(ZChatDescriptor::decode_canonical(&longer), Err(ZfsError::Decode(_))));
    assert!(matches!(
        ZChatDescriptor::decode_canonical(&V1_BYTES[..20]),
        Err(ZfsError::Decode(_))
    ));
    assert!(matches!(ZChatDescriptor::decode_canonical(&[]), Err(ZfsError::Decode(_))));
}

#[test]
fn descriptor_decode_rejects_non_shortest_integer() {
    let mut bytes = V1_BYTES[..20].to_vec();
    bytes.extend_from_slice(&[0x18, 0x01]);
    bytes.extend_from_slice(&V1_BYTES[21..]);
    assert!(ZChatDescriptor::decode_canonical(&bytes).is_err());
}

#[test]
fn descriptor_decode_rejects_invalid_utf8_name() {
    let mut bytes = V1_BYTES.to_vec();
    bytes[7] = 0xFF;
    assert!(ZChatDescriptor::decode_canonical(&bytes).is_err());
}

#[test]
fn program_id_is_hash_of_canonical_descriptor() {
    let pid = ZChatDescriptor::v1().program_id().unwrap();
    assert_eq!(
        hex::encode(pid.0),
        "b529781daa725d588a7fd39705f758711e348f26d9b7c46c884c25d59db6e741"
    );
}

#[test]
fn topic_is_prog_prefix_and_hex_id() {
    let topic = ZChatDescriptor::v1().topic().unwrap();
    assert_eq!(
        topic,
        "prog/b529781daa725d588a7fd39705f758711e348f26d9b7c46c884c25d59db6e741"
    );
}

#[test]
fn channel_id_constructors_agree() {
    let a = ChannelId::from_str_id("room");
    let b = ChannelId::new(b"room".to_vec());
    assert_eq!(a, b);
    assert_eq!(a.as_bytes(), b"room");
}

#[test]
fn channel_sector_id_is_prefixed_hash() {
    let c = ChannelId::from_str_id(TEST_CHANNEL_ID);
    let sid = c.sector_id();
    assert_eq!(
        hex::encode(sid.as_bytes()),
        "08e4cad12cc792f29cc2f14edef08bec6b499a44572bc1676d95134ea5372624"
    );
    assert_eq!(sid, sector_id_for_channel(&c));
}

#[test]
fn message_sector_id_is_prefixed_hash() {
    let c = ChannelId::from_str_id(TEST_CHANNEL_ID);
    let sid = sector_id_for_message(&c, 1_700_000_000_000, "did:key:z6");
    assert_eq!(
        hex::encode(sid.as_bytes()),
        "48ba6599815e963524ae0cdecadc5189126b3b7bbdd5d680739f6e9f3d0ad876"
    );
    let other = sector_id_for_message(&c, 1_700_000_000_001, "did:key:z6");
    assert_ne!(sid, other);
}

#[test]
fn message_round_trip() {
    let m = sample_message("hi");
    let bytes = m.encode_canonical().unwrap();
    assert_eq!(bytes[0], 0xA4);
    assert_eq!(ZChatMessage::decode_canonical(&bytes).unwrap(), m);
}

#[test]
fn message_encoding_layout() {
    let bytes = sample_message("hi").encode_canonical().unwrap();
    let expected: Vec<u8> = vec![
        164, 103, 99, 111, 110, 116, 101, 110, 116, 98, 104, 105, 106, 99, 104, 97, 110, 110, 101,
        108, 95, 105, 100, 78, 73, 78, 84, 69, 82, 76, 73, 78, 75, 45, 77, 65, 73, 78, 106, 115,
        101, 110, 100, 101, 114, 95, 100, 105, 100, 106, 100, 105, 100, 58, 107, 101, 121, 58, 122,
        54, 108, 116, 105, 109, 101, 115, 116, 97, 109, 112, 95, 109, 115, 27, 0, 0, 1, 139, 207,
        229, 104, 0,
    ];
    assert_eq!(bytes, expected);
}

#[test]
fn oversized_message_is_refused() {
    let m = sample_message(&"x".repeat(MAX_MESSAGE_SIZE));
    let err = m.encode_canonical().unwrap_err();
    let len = MAX_MESSAGE_SIZE + 84;
    assert_eq!(
        err,
        ZfsError::InvalidPayload(format!("ZChatMessage exceeds max size: {} > {}", len, MAX_MESSAGE_SIZE))
    );
}

#[test]
fn message_at_limit_is_accepted() {
    let m = sample_message(&"x".repeat(MAX_MESSAGE_SIZE - 82));
    let bytes = m.encode_canonical().unwrap();
    assert_eq!(bytes.len(), MAX_MESSAGE_SIZE);
}

#[test]
fn message_decode_rejects_descriptor_bytes() {
    assert!(matches!(ZChatMessage::decode_canonical(&V1_BYTES), Err(ZfsError::Decode(_))));
}
