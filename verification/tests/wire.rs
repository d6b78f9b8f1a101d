use darkfi_serial::{serialize, Encodable, VarInt};
use drawcanvas::codec;
use drawcanvas::stage::{drain_step, TICK_BUDGET_MS};

fn our_varint(n: u64) -> Vec<u8> {
    let mut out = Vec::new();
    codec::write_varint(&mut out, n);
    out
}

#[test]
fn varint_matches_reference_encoding() {
    for n in [
        0u64,
        1,
        0xFC,
        0xFD,
        0xFE,
        0xFFFF,
        0x10000,
        0xFFFF_FFFF,
        0x1_0000_0000,
        u64::MAX,
    ] {
        assert_eq!(our_varint(n), serialize(&VarInt(n)), "varint {n}");
    }
}

#[test]
fn varint_decode_accepts_reference_encoding() {
    for n in [0u64, 7, 0xFC, 0xFD, 0xFFFF, 0x10000, 0xFFFF_FFFF, 0x1_0000_0000] {
        let bytes = serialize(&VarInt(n));
        let (v, consumed) = codec::read_varint(&bytes, 0).expect("decodes");
        assert_eq!(v, n);
        assert_eq!(consumed, bytes.len());
    }
}

#[test]
fn varint_decode_rejects_non_minimal_forms() {
    assert!(codec::read_varint(&[0xFD, 0x05, 0x00], 0).is_none());
    assert!(codec::read_varint(&[0xFE, 0x05, 0x00, 0x00, 0x00], 0).is_none());
    assert!(
        codec::read_varint(&[0xFF, 0x05, 0, 0, 0, 0, 0, 0, 0], 0).is_none()
    );
    // truncated
    assert!(codec::read_varint(&[0xFD, 0x05], 0).is_none());
    assert!(codec::read_varint(&[], 0).is_none());
}

#[test]
fn scalar_bytes_match_reference_encoding() {
    for x in [0.0f32, 1.0, -1.0, 0.5, 2500.0, f32::EPSILON] {
        let mut out = Vec::new();
        codec::write_u32_le(&mut out, x.to_bits());
        assert_eq!(out, serialize(&x));
    }
}

#[test]
fn string_bytes_match_reference_encoding() {
    for s in ["", "a", "hello", "layer name with spaces"] {
        let mut out = Vec::new();
        codec::write_str_bytes(&mut out, &s.as_bytes().to_vec());
        assert_eq!(out, serialize(&s.to_string()));
    }
}

#[test]
fn name_list_matches_reference_encoding() {
    let names: Vec<Vec<u8>> = vec![b"a".to_vec(), b"b".to_vec(), b"origin".to_vec()];
    let mut out = Vec::new();
    codec::write_names(&mut out, &names);
    let reference: Vec<String> =
        vec!["a".to_string(), "b".to_string(), "origin".to_string()];
    assert_eq!(out, serialize(&reference));
}

#[test]
fn bool_bytes_match_reference_encoding() {
    let mut out = Vec::new();
    codec::write_bool(&mut out, true);
    codec::write_bool(&mut out, false);
    assert_eq!(out, [serialize(&true), serialize(&false)].concat());
}

#[test]
fn string_read_rejects_invalid_utf8() {
    // length 1, then a lone continuation byte
    assert!(codec::read_string(&[0x01, 0xFF], 0).is_none());
    // the same bytes are fine as a raw byte run
    assert!(codec::read_bytes(&[0x01, 0xFF], 0).is_some());
}

#[test]
fn key_down_event_matches_reference_encoding() {
    let out = codec::encode_key_down(&b"Space".to_vec(), true, true, false, false, true);
    let mut reference = Vec::new();
    0u8.encode(&mut reference).unwrap();
    "Space".encode(&mut reference).unwrap();
    vec!["shift", "ctrl"].encode(&mut reference).unwrap();
    true.encode(&mut reference).unwrap();
    assert_eq!(out, reference);
}

#[test]
fn key_down_event_keeps_modifier_order() {
    let out = codec::encode_key_down(&b"A".to_vec(), true, false, true, true, false);
    let mut reference = Vec::new();
    0u8.encode(&mut reference).unwrap();
    "A".encode(&mut reference).unwrap();
    vec!["shift", "alt", "logo"].encode(&mut reference).unwrap();
    false.encode(&mut reference).unwrap();
    assert_eq!(out, reference);
}

#[test]
fn mouse_wheel_event_matches_reference_encoding() {
    let out = codec::encode_mouse_wheel(1.5f32.to_bits(), (-3.0f32).to_bits());
    let mut reference = Vec::new();
    2u8.encode(&mut reference).unwrap();
    1.5f32.encode(&mut reference).unwrap();
    (-3.0f32).encode(&mut reference).unwrap();
    assert_eq!(out, reference);
}

#[test]
fn mouse_button_event_tags_and_identity() {
    let down = codec::encode_mouse_button(true, 2, 0, 0);
    let up = codec::encode_mouse_button(false, 2, 0, 0);
    assert_eq!(down[0], 3);
    assert_eq!(up[0], 4);
    assert_eq!(down[1], 2);
    assert_eq!(up[1], 2);
    assert_eq!(&down[2..], &up[2..]);
}

#[test]
fn command_tags_round_trip() {
    for tag in 0u8..=10 {
        let cmd = codec::Command::from_u8(tag).expect("known tag");
        assert_eq!(cmd.to_u8(), tag);
    }
    assert!(codec::Command::from_u8(11).is_none());
    assert!(codec::Command::from_u8(255).is_none());
}

#[test]
fn drain_step_spends_the_budget() {
    assert_eq!(TICK_BUDGET_MS, 20);
    assert_eq!(drain_step(20, 5), (15, true));
    assert_eq!(drain_step(15, 15), (0, false));
    assert_eq!(drain_step(20, 0), (20, true));
    assert_eq!(drain_step(3, 7), (0, false));
}
