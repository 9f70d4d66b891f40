//! The length-framed wire buffer: values written by the encoder come back
//! from the decoder in order and unchanged.

use wasmlib::codec::{WasmDecoder, WasmEncoder};
use wasmlib::scaddress::{address_decode, address_encode, address_from_bytes};
use wasmlib::scagentid::{agent_id_decode, agent_id_encode, agent_id_from_bytes};
use wasmlib::scbigint::{big_int_decode, big_int_encode, big_int_from_string, big_int_to_string};
use wasmlib::scbool::{bool_decode, bool_encode};
use wasmlib::scbytes::{bytes_decode, bytes_encode};
use wasmlib::schash::{hash_decode, hash_encode, hash_from_bytes};
use wasmlib::schname::{hname_decode, hname_encode, ScHname};
use wasmlib::scint32::{int32_decode, int32_encode};
use wasmlib::scint64::{int64_decode, int64_encode};
use wasmlib::scstring::{string_decode, string_encode};
use wasmlib::scuint64::{uint64_decode, uint64_encode};

#[test]
fn fixed_width_values_round_trip_through_the_wire() {
    let mut enc = WasmEncoder::new();
    int32_encode(&mut enc, -1234567890);
    uint64_encode(&mut enc, u64::MAX);
    int64_encode(&mut enc, i64::MIN);
    bool_encode(&mut enc, true);
    hname_encode(&mut enc, ScHname(305419896));
    let buf = enc.buf();
    assert_eq!(&buf[..4], &[0x2e, 0xfd, 0x69, 0xb6]);

    let mut dec = WasmDecoder::new(&buf);
    assert_eq!(int32_decode(&mut dec), -1234567890);
    assert_eq!(uint64_decode(&mut dec), u64::MAX);
    assert_eq!(int64_decode(&mut dec), i64::MIN);
    assert!(bool_decode(&mut dec));
    assert_eq!(hname_decode(&mut dec), ScHname(305419896));
    assert_eq!(dec.remaining(), 0);
}

#[test]
fn variable_length_values_round_trip_through_the_wire() {
    let mut enc = WasmEncoder::new();
    string_encode(&mut enc, "héllo");
    bytes_encode(&mut enc, &[0, 1, 2, 255]);
    let big = big_int_from_string("340282366920938463463374607431768211456");
    big_int_encode(&mut enc, &big);
    string_encode(&mut enc, "");
    let buf = enc.buf();

    let mut dec = WasmDecoder::new(&buf);
    assert_eq!(string_decode(&mut dec), "héllo");
    assert_eq!(bytes_decode(&mut dec), vec![0, 1, 2, 255]);
    let back = big_int_decode(&mut dec);
    assert_eq!(big_int_to_string(&back), "340282366920938463463374607431768211456");
    assert_eq!(string_decode(&mut dec), "");
    assert_eq!(dec.remaining(), 0);
}

#[test]
fn identifiers_and_addresses_round_trip_through_the_wire() {
    let hash = hash_from_bytes(&(0u8..32).collect::<Vec<u8>>());
    let mut native_raw = vec![16u8];
    native_raw.extend(vec![5u8; 32]);
    let native = address_from_bytes(&native_raw);
    let mut eth_raw = vec![32u8];
    eth_raw.extend(vec![7u8; 20]);
    let eth = address_from_bytes(&eth_raw);
    let mut agent_raw = vec![32u8];
    agent_raw.extend(vec![9u8; 20]);
    agent_raw.extend([1, 0, 0, 0]);
    let agent = agent_id_from_bytes(&agent_raw);

    let mut enc = WasmEncoder::new();
    hash_encode(&mut enc, &hash);
    address_encode(&mut enc, &native);
    address_encode(&mut enc, &eth);
    agent_id_encode(&mut enc, &agent);
    let buf = enc.buf();

    let mut dec = WasmDecoder::new(&buf);
    assert!(hash_decode(&mut dec) == hash);
    assert!(address_decode(&mut dec) == native);
    assert!(address_decode(&mut dec) == eth);
    assert!(agent_id_decode(&mut dec) == agent);
    assert_eq!(dec.remaining(), 0);
}

#[test]
fn decoder_reads_exactly_the_announced_frame() {
    let mut enc = WasmEncoder::new();
    bytes_encode(&mut enc, b"abc");
    let buf = enc.buf();
    assert_eq!(buf.len(), 7);
    assert_eq!(&buf[..4], &[3, 0, 0, 0]);
    assert_eq!(&buf[4..], b"abc");
}
