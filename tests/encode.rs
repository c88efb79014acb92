use steel_text::encode::{encode_network, encode_text_component, EncodeError, DEFAULT_MAX_DEPTH};
use steel_text::tag::{get_nbt_tag_id, NbtCompound, NbtList, NbtTag};
use steel_text::writer::{write_nbt_compound, write_nbt_list, write_nbt_tag_payload};

fn entry(key: &str, value: NbtTag) -> (Vec<u8>, NbtTag) {
    (key.as_bytes().to_vec(), value)
}

fn compound(entries: Vec<(Vec<u8>, NbtTag)>) -> NbtCompound {
    NbtCompound { entries }
}

fn payload(tag: &NbtTag) -> Vec<u8> {
    let mut out = Vec::new();
    write_nbt_tag_payload(&mut out, tag);
    out
}

fn list_payload(list: &NbtList) -> Vec<u8> {
    let mut out = Vec::new();
    write_nbt_list(&mut out, list);
    out
}

#[test]
fn minimal_text() {
    let c = compound(vec![entry("text", NbtTag::String(b"hi".to_vec()))]);
    let bytes = encode_text_component(&c).unwrap();
    assert_eq!(
        bytes,
        vec![0x0A, 0x08, 0x00, 0x04, 0x74, 0x65, 0x78, 0x74, 0x00, 0x02, 0x68, 0x69, 0x00]
    );
}

#[test]
fn nested_compound() {
    let inner = compound(vec![entry("text", NbtTag::String(b"a".to_vec()))]);
    let c = compound(vec![entry("extra", NbtTag::Compound(inner))]);
    let bytes = encode_text_component(&c).unwrap();
    assert_eq!(
        bytes,
        vec![
            0x0A, 0x0A, 0x00, 0x05, 0x65, 0x78, 0x74, 0x72, 0x61, 0x08, 0x00, 0x04, 0x74, 0x65,
            0x78, 0x74, 0x00, 0x01, 0x61, 0x00, 0x00
        ]
    );
}

#[test]
fn empty_list_entry() {
    let c = compound(vec![entry("with", NbtTag::List(NbtList::Empty))]);
    let bytes = encode_text_component(&c).unwrap();
    assert_eq!(
        bytes,
        vec![0x0A, 0x09, 0x00, 0x04, 0x77, 0x69, 0x74, 0x68, 0x00, 0x00, 0x00, 0x00, 0x00, 0x00]
    );
}

#[test]
fn homogeneous_int_list() {
    let c = compound(vec![entry("codes", NbtTag::List(NbtList::Int(vec![1, 2, 3])))]);
    let bytes = encode_text_component(&c).unwrap();
    assert_eq!(
        bytes,
        vec![
            0x0A, 0x09, 0x00, 0x05, 0x63, 0x6F, 0x64, 0x65, 0x73, 0x03, 0x00, 0x00, 0x00, 0x03,
            0x00, 0x00, 0x00, 0x01, 0x00, 0x00, 0x00, 0x02, 0x00, 0x00, 0x00, 0x03, 0x00
        ]
    );
}

#[test]
fn long_array_entry() {
    let c = compound(vec![entry("ids", NbtTag::LongArray(vec![0x0102030405060708]))]);
    let bytes = encode_text_component(&c).unwrap();
    assert_eq!(
        bytes,
        vec![
            0x0A, 0x0C, 0x00, 0x03, 0x69, 0x64, 0x73, 0x00, 0x00, 0x00, 0x01, 0x01, 0x02, 0x03,
            0x04, 0x05, 0x06, 0x07, 0x08, 0x00
        ]
    );
}

#[test]
fn encoding_twice_gives_equal_bytes() {
    let inner = compound(vec![
        entry("text", NbtTag::String(b"x".to_vec())),
        entry("bold", NbtTag::Byte(1)),
    ]);
    let c = compound(vec![
        entry("text", NbtTag::String(b"hello".to_vec())),
        entry("extra", NbtTag::List(NbtList::Compound(vec![inner]))),
        entry("n", NbtTag::Double(2.5f64.to_bits())),
    ]);
    let first = encode_text_component(&c).unwrap();
    let second = encode_text_component(&c).unwrap();
    assert_eq!(first, second);
}

#[test]
fn framing_of_empty_compound() {
    let bytes = encode_text_component(&compound(vec![])).unwrap();
    assert_eq!(bytes, vec![0x0A, 0x00]);
    assert_eq!(bytes[0], 0x0A);
    assert_eq!(*bytes.last().unwrap(), 0x00);
}

#[test]
fn typed_empty_lists_use_canonical_form() {
    let expected = vec![0x00, 0x00, 0x00, 0x00, 0x00];
    assert_eq!(list_payload(&NbtList::Empty), expected);
    assert_eq!(list_payload(&NbtList::Int(vec![])), expected);
    assert_eq!(list_payload(&NbtList::String(vec![])), expected);
    assert_eq!(list_payload(&NbtList::Compound(vec![])), expected);
}

#[test]
fn empty_string_payload() {
    assert_eq!(payload(&NbtTag::String(vec![])), vec![0x00, 0x00]);
}

#[test]
fn empty_byte_array_payload() {
    assert_eq!(payload(&NbtTag::ByteArray(vec![])), vec![0x00, 0x00, 0x00, 0x00]);
}

#[test]
fn longest_string_is_written() {
    let s = vec![0x61u8; 65535];
    let c = compound(vec![entry("text", NbtTag::String(s))]);
    let bytes = encode_text_component(&c).unwrap();
    assert_eq!(bytes.len(), 1 + 1 + 2 + 4 + 2 + 65535 + 1);
    assert_eq!(&bytes[8..10], &[0xFF, 0xFF]);
    assert_eq!(bytes[10], 0x61);
}

#[test]
fn overlong_string_is_rejected() {
    let s = vec![0x61u8; 65536];
    let c = compound(vec![entry("text", NbtTag::String(s))]);
    assert_eq!(encode_text_component(&c), Err(EncodeError::LengthOverflow));
}

#[test]
fn overlong_key_is_rejected() {
    let key = vec![0x6Bu8; 65536];
    let c = compound(vec![(key, NbtTag::Byte(0))]);
    assert_eq!(encode_text_component(&c), Err(EncodeError::LengthOverflow));
}

#[test]
fn negative_scalars_are_twos_complement() {
    assert_eq!(payload(&NbtTag::Int(-1)), vec![0xFF, 0xFF, 0xFF, 0xFF]);
    assert_eq!(payload(&NbtTag::Byte(-1)), vec![0xFF]);
    assert_eq!(payload(&NbtTag::Short(-2)), vec![0xFF, 0xFE]);
    assert_eq!(payload(&NbtTag::Long(-1)), vec![0xFF; 8]);
}

#[test]
fn nan_bit_patterns_are_kept() {
    let f = 0x7FC0_0001u32;
    assert!(f32::from_bits(f).is_nan());
    assert_eq!(payload(&NbtTag::Float(f)), vec![0x7F, 0xC0, 0x00, 0x01]);
    let d = 0xFFF8_0000_0000_0123u64;
    assert!(f64::from_bits(d).is_nan());
    assert_eq!(
        payload(&NbtTag::Double(d)),
        vec![0xFF, 0xF8, 0x00, 0x00, 0x00, 0x00, 0x01, 0x23]
    );
}

#[test]
fn float_value_is_written_big_endian() {
    assert_eq!(payload(&NbtTag::Float(1.0f32.to_bits())), vec![0x3F, 0x80, 0x00, 0x00]);
}

#[test]
fn int_array_payload() {
    assert_eq!(
        payload(&NbtTag::IntArray(vec![1, -1])),
        vec![0, 0, 0, 2, 0, 0, 0, 1, 0xFF, 0xFF, 0xFF, 0xFF]
    );
}

#[test]
fn tag_ids_follow_the_table() {
    let tags = vec![
        NbtTag::Byte(0),
        NbtTag::Short(0),
        NbtTag::Int(0),
        NbtTag::Long(0),
        NbtTag::Float(0),
        NbtTag::Double(0),
        NbtTag::ByteArray(vec![]),
        NbtTag::String(vec![]),
        NbtTag::List(NbtList::Empty),
        NbtTag::Compound(compound(vec![])),
        NbtTag::IntArray(vec![]),
        NbtTag::LongArray(vec![]),
    ];
    let ids: Vec<u8> = tags.iter().map(get_nbt_tag_id).collect();
    assert_eq!(ids, (1u8..=12).collect::<Vec<u8>>());
}

#[test]
fn every_list_kind() {
    assert_eq!(list_payload(&NbtList::Byte(vec![-1])), vec![1, 0, 0, 0, 1, 0xFF]);
    assert_eq!(list_payload(&NbtList::Short(vec![258])), vec![2, 0, 0, 0, 1, 1, 2]);
    assert_eq!(
        list_payload(&NbtList::Long(vec![1])),
        vec![4, 0, 0, 0, 1, 0, 0, 0, 0, 0, 0, 0, 1]
    );
    assert_eq!(
        list_payload(&NbtList::Float(vec![0x3F80_0000])),
        vec![5, 0, 0, 0, 1, 0x3F, 0x80, 0, 0]
    );
    assert_eq!(
        list_payload(&NbtList::Double(vec![0x3FF0_0000_0000_0000])),
        vec![6, 0, 0, 0, 1, 0x3F, 0xF0, 0, 0, 0, 0, 0, 0]
    );
    assert_eq!(
        list_payload(&NbtList::ByteArray(vec![vec![9, 8]])),
        vec![7, 0, 0, 0, 1, 0, 0, 0, 2, 9, 8]
    );
    assert_eq!(
        list_payload(&NbtList::String(vec![b"ab".to_vec(), vec![]])),
        vec![8, 0, 0, 0, 2, 0, 2, 0x61, 0x62, 0, 0]
    );
    assert_eq!(
        list_payload(&NbtList::List(vec![NbtList::Empty, NbtList::Int(vec![7])])),
        vec![9, 0, 0, 0, 2, 0, 0, 0, 0, 0, 3, 0, 0, 0, 1, 0, 0, 0, 7]
    );
    assert_eq!(
        list_payload(&NbtList::Compound(vec![
            compound(vec![]),
            compound(vec![entry("a", NbtTag::Byte(5))]),
        ])),
        vec![10, 0, 0, 0, 2, 0, 1, 0, 1, 0x61, 5, 0]
    );
    assert_eq!(
        list_payload(&NbtList::IntArray(vec![vec![3]])),
        vec![11, 0, 0, 0, 1, 0, 0, 0, 1, 0, 0, 0, 3]
    );
    assert_eq!(
        list_payload(&NbtList::LongArray(vec![vec![], vec![2]])),
        vec![12, 0, 0, 0, 2, 0, 0, 0, 0, 0, 0, 0, 1, 0, 0, 0, 0, 0, 0, 0, 2]
    );
}

#[test]
fn compound_body_has_no_leading_id() {
    let mut out = vec![0xEE];
    write_nbt_compound(&mut out, &compound(vec![entry("k", NbtTag::Byte(3))]));
    assert_eq!(out, vec![0xEE, 1, 0, 1, 0x6B, 3, 0]);
}

fn nested(depth: usize) -> NbtCompound {
    let mut c = compound(vec![]);
    for _ in 1..depth {
        c = compound(vec![entry("e", NbtTag::Compound(c))]);
    }
    c
}

#[test]
fn depth_bound_is_enforced() {
    assert!(encode_network(&nested(3), 3).is_ok());
    assert_eq!(encode_network(&nested(4), 3), Err(EncodeError::DepthExceeded));
    assert_eq!(encode_network(&compound(vec![]), 0), Err(EncodeError::DepthExceeded));
    assert!(encode_text_component(&nested(DEFAULT_MAX_DEPTH)).is_ok());
    assert_eq!(
        encode_text_component(&nested(DEFAULT_MAX_DEPTH + 1)),
        Err(EncodeError::DepthExceeded)
    );
}

#[test]
fn lists_count_toward_depth() {
    let c = compound(vec![entry(
        "l",
        NbtTag::List(NbtList::List(vec![NbtList::Int(vec![1])])),
    )]);
    assert!(encode_network(&c, 3).is_ok());
    assert_eq!(encode_network(&c, 2), Err(EncodeError::DepthExceeded));
}

#[test]
fn depth_is_reported_before_length() {
    let c = compound(vec![entry("s", NbtTag::String(vec![0; 65536]))]);
    assert_eq!(encode_network(&c, 0), Err(EncodeError::DepthExceeded));
    assert_eq!(encode_network(&c, 1), Err(EncodeError::LengthOverflow));
}
