use sophon_wasm::elements::io::Reader;
use sophon_wasm::elements::{
    CountedList, Deserialize, Serialize, VarInt32, VarInt64, VarInt7, VarUint32, VarUint64,
};

fn varuint32_ser_test(val: u32, expected: Vec<u8>) {
    let mut buf = Vec::new();
    let v1 = VarUint32(val);
    v1.serialize(&mut buf);
    assert_eq!(expected, buf);
}

fn varuint32_de_test(dt: Vec<u8>, expected: u32) {
    let mut reader = Reader::new(dt.as_slice());
    let val = VarUint32::deserialize(&mut reader).expect("buf to be deserialized");
    assert_eq!(expected, val.0);
}

fn varuint32_serde_test(dt: Vec<u8>, val: u32) {
    varuint32_de_test(dt.clone(), val);
    varuint32_ser_test(val, dt);
}

fn varint32_ser_test(val: i32, expected: Vec<u8>) {
    let mut buf = Vec::new();
    let v1 = VarInt32(val);
    v1.serialize(&mut buf);
    assert_eq!(expected, buf);
}

fn varint32_de_test(dt: Vec<u8>, expected: i32) {
    let mut reader = Reader::new(dt.as_slice());
    let val = VarInt32::deserialize(&mut reader).expect("buf to be deserialized");
    assert_eq!(expected, val.0);
}

fn varint32_serde_test(dt: Vec<u8>, val: i32) {
    varint32_de_test(dt.clone(), val);
    varint32_ser_test(val, dt);
}

fn varuint64_ser_test(val: u64, expected: Vec<u8>) {
    let mut buf = Vec::new();
    let v1 = VarUint64(val);
    v1.serialize(&mut buf);
    assert_eq!(expected, buf);
}

fn varuint64_de_test(dt: Vec<u8>, expected: u64) {
    let mut reader = Reader::new(dt.as_slice());
    let val = VarUint64::deserialize(&mut reader).expect("buf to be deserialized");
    assert_eq!(expected, val.0);
}

fn varuint64_serde_test(dt: Vec<u8>, val: u64) {
    varuint64_de_test(dt.clone(), val);
    varuint64_ser_test(val, dt);
}

fn varint64_ser_test(val: i64, expected: Vec<u8>) {
    let mut buf = Vec::new();
    let v1 = VarInt64(val);
    v1.serialize(&mut buf);
    assert_eq!(expected, buf);
}

fn varint64_de_test(dt: Vec<u8>, expected: i64) {
    let mut reader = Reader::new(dt.as_slice());
    let val = VarInt64::deserialize(&mut reader).expect("buf to be deserialized");
    assert_eq!(expected, val.0);
}

fn varint64_serde_test(dt: Vec<u8>, val: i64) {
    varint64_de_test(dt.clone(), val);
    varint64_ser_test(val, dt);
}

#[test]
fn varuint32_0() {
    varuint32_serde_test(vec![0u8; 1], 0);
}

#[test]
fn varuint32_1() {
    varuint32_serde_test(vec![1u8; 1], 1);
}

#[test]
fn varuint32_135() {
    varuint32_serde_test(vec![135u8, 0x01], 135);
}

#[test]
fn varuint32_8192() {
    varuint32_serde_test(vec![0x80, 0x40], 8192);
}

#[test]
fn varint32_8192() {
    varint32_serde_test(vec![0x80, 0xc0, 0x00], 8192);
}

#[test]
fn varint32_neg_8192() {
    varint32_serde_test(vec![0x80, 0x40], -8192);
}

#[test]
fn varuint64_0() {
    varuint64_serde_test(vec![0u8; 1], 0);
}

#[test]
fn varuint64_1() {
    varuint64_serde_test(vec![1u8; 1], 1);
}

#[test]
fn varuint64_135() {
    varuint64_serde_test(vec![135u8, 0x01], 135);
}

#[test]
fn varuint64_8192() {
    varuint64_serde_test(vec![0x80, 0x40], 8192);
}

#[test]
fn varint64_8192() {
    varint64_serde_test(vec![0x80, 0xc0, 0x00], 8192);
}

#[test]
fn varint64_neg_8192() {
    varint64_serde_test(vec![0x80, 0x40], -8192);
}

#[test]
fn varint64_min() {
    varint64_serde_test(
        vec![0x80, 0x80, 0x80, 0x80, 0x80, 0x80, 0x80, 0x80, 0x80, 0x7f],
        -9223372036854775808,
    );
}

#[test]
fn varint64_max() {
    varint64_serde_test(
        vec![0xff, 0xff, 0xff, 0xff, 0xff, 0xff, 0xff, 0xff, 0xff, 0x00],
        9223372036854775807,
    );
}

#[test]
fn varint32_min() {
    varint32_serde_test(vec![0x80, 0x80, 0x80, 0x80, 0x78], -2147483648);
}

#[test]
fn varint32_max() {
    varint32_serde_test(vec![0xff, 0xff, 0xff, 0xff, 0x07], 2147483647);
}

#[test]
fn counted_list() {
    let payload = vec![
        133u8, //(128+5), length is 5
        0x80, 0x80, 0x80, 0x0, // padding
        0x01, 0x7d, 0x05, 0x07, 0x09,
    ];

    let mut reader = Reader::new(payload.as_slice());
    let list: CountedList<VarInt7> =
        CountedList::deserialize(&mut reader).expect("type_section be deserialized");

    let vars = list.into_inner();
    assert_eq!(5, vars.len());
    let v3: i8 = vars[1].0;
    assert_eq!(-0x03i8, v3);
}
