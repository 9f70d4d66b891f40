//! Round trips and edge cases of the scalar codecs: bytes, strings, and
//! defaults.

use wasmlib::scaddress::{
    address_from_bytes, address_from_string, address_to_bytes, address_to_string,
    address_try_from_bytes, address_try_from_string,
};
use wasmlib::scagentid::{
    agent_id_from_bytes, agent_id_from_string, agent_id_to_bytes, agent_id_to_string,
    agent_id_try_from_bytes, ScAgentID,
};
use wasmlib::scbigint::{
    big_int_from_bytes, big_int_from_string, big_int_to_bytes, big_int_to_string,
    big_int_try_from_string,
};
use wasmlib::scbool::{
    bool_from_bytes, bool_from_string, bool_to_bytes, bool_to_string, bool_try_from_bytes,
    bool_try_from_string,
};
use wasmlib::scbytes::{bytes_from_string, bytes_to_string, bytes_try_from_string};
use wasmlib::schash::{
    hash_from_bytes, hash_from_string, hash_to_bytes, hash_try_from_bytes, hash_try_from_string,
};
use wasmlib::schname::{
    hname_from_bytes, hname_from_string, hname_to_bytes, hname_to_string, hname_try_from_string,
    ScHname,
};
use wasmlib::scint16::{int16_from_bytes, int16_from_string, int16_to_bytes, int16_to_string};
use wasmlib::scint32::{
    int32_from_bytes, int32_from_string, int32_to_bytes, int32_to_string, int32_try_from_bytes,
    int32_try_from_string,
};
use wasmlib::scint64::{int64_from_bytes, int64_from_string, int64_to_bytes, int64_to_string};
use wasmlib::scint8::{int8_from_bytes, int8_to_bytes, int8_to_string};
use wasmlib::scnftid::{nft_id_from_bytes, nft_id_from_string, nft_id_to_string};
use wasmlib::screquestid::{request_id_from_bytes, request_id_to_string};
use wasmlib::scstring::{
    string_from_bytes, string_to_bytes, string_try_from_bytes,
};
use wasmlib::sctokenid::{token_id_from_bytes, token_id_to_string, token_id_try_from_bytes};
use wasmlib::scuint16::{uint16_from_bytes, uint16_to_bytes, uint16_to_string};
use wasmlib::scuint32::{uint32_from_bytes, uint32_to_bytes, uint32_to_string};
use wasmlib::scuint64::{
    uint64_from_bytes, uint64_from_string, uint64_to_bytes, uint64_to_string,
    uint64_try_from_bytes, uint64_try_from_string,
};
use wasmlib::scuint8::{uint8_from_bytes, uint8_to_bytes, uint8_to_string};

#[test]
fn int32_negative_value_encodes_little_endian() {
    let buf = int32_to_bytes(-1234567890);
    assert_eq!(buf, vec![0x2e, 0xfd, 0x69, 0xb6]);
    assert_eq!(int32_from_bytes(&buf), -1234567890);
    assert_eq!(int32_to_string(-1234567890), "-1234567890");
    assert_eq!(int32_from_string("-1234567890"), -1234567890);
}

#[test]
fn int32_bytes_round_trips() {
    for v in [0, 1, -1, 42, i32::MIN, i32::MAX] {
        assert_eq!(int32_from_bytes(&int32_to_bytes(v)), v);
        assert_eq!(int32_from_string(&int32_to_string(v)), v);
    }
}

#[test]
fn int32_empty_buffer_decodes_to_default() {
    assert_eq!(int32_from_bytes(&[]), 0);
}

#[test]
fn int32_wrong_length_is_rejected() {
    assert_eq!(int32_try_from_bytes(&[1, 2, 3]), None);
    assert_eq!(int32_try_from_bytes(&[1, 2, 3, 4, 5]), None);
    assert_eq!(int32_try_from_bytes(&[]), Some(0));
    assert_eq!(int32_try_from_bytes(&[0x2e, 0xfd, 0x69, 0xb6]), Some(-1234567890));
}

#[test]
fn int32_string_rejects_garbage_and_overflow() {
    assert_eq!(int32_try_from_string(""), None);
    assert_eq!(int32_try_from_string("12a"), None);
    assert_eq!(int32_try_from_string("-"), None);
    assert_eq!(int32_try_from_string("2147483648"), None);
    assert_eq!(int32_try_from_string("-2147483649"), None);
    assert_eq!(int32_try_from_string("2147483647"), Some(i32::MAX));
    assert_eq!(int32_try_from_string("-2147483648"), Some(i32::MIN));
    assert_eq!(int32_try_from_string("+42"), Some(42));
    assert_eq!(int32_try_from_string("007"), Some(7));
}

#[test]
fn int8_and_int16_round_trips() {
    for v in [0i8, 1, -1, i8::MIN, i8::MAX] {
        assert_eq!(int8_from_bytes(&int8_to_bytes(v)), v);
    }
    assert_eq!(int8_to_string(-128), "-128");
    assert_eq!(int8_from_bytes(&[]), 0);
    for v in [0i16, 258, -1, i16::MIN, i16::MAX] {
        assert_eq!(int16_from_bytes(&int16_to_bytes(v)), v);
        assert_eq!(int16_from_string(&int16_to_string(v)), v);
    }
    assert_eq!(int16_to_bytes(258), vec![2, 1]);
}

#[test]
fn int64_round_trips_at_extremes() {
    for v in [0i64, -1, i64::MIN, i64::MAX] {
        assert_eq!(int64_from_bytes(&int64_to_bytes(v)), v);
        assert_eq!(int64_from_string(&int64_to_string(v)), v);
    }
    assert_eq!(int64_to_string(i64::MIN), "-9223372036854775808");
    assert_eq!(int64_from_string("-9223372036854775808"), i64::MIN);
}

#[test]
fn unsigned_round_trips() {
    for v in [0u8, 1, u8::MAX] {
        assert_eq!(uint8_from_bytes(&uint8_to_bytes(v)), v);
    }
    assert_eq!(uint8_to_string(255), "255");
    for v in [0u16, 513, u16::MAX] {
        assert_eq!(uint16_from_bytes(&uint16_to_bytes(v)), v);
    }
    assert_eq!(uint16_to_string(65535), "65535");
    for v in [0u32, 1, u32::MAX] {
        assert_eq!(uint32_from_bytes(&uint32_to_bytes(v)), v);
    }
    assert_eq!(uint32_to_string(4294967295), "4294967295");
    for v in [0u64, 1, u64::MAX] {
        assert_eq!(uint64_from_bytes(&uint64_to_bytes(v)), v);
        assert_eq!(uint64_from_string(&uint64_to_string(v)), v);
    }
    assert_eq!(uint64_to_string(u64::MAX), "18446744073709551615");
    assert_eq!(uint64_from_string("18446744073709551615"), u64::MAX);
    assert_eq!(uint64_from_bytes(&[]), 0);
    assert_eq!(uint64_try_from_bytes(&[1, 2]), None);
    assert_eq!(uint64_try_from_string("18446744073709551616"), None);
    assert_eq!(uint64_try_from_string("-1"), None);
}

#[test]
fn bool_round_trips() {
    assert_eq!(bool_to_bytes(true), vec![1]);
    assert_eq!(bool_to_bytes(false), vec![0]);
    assert!(bool_from_bytes(&bool_to_bytes(true)));
    assert!(!bool_from_bytes(&bool_to_bytes(false)));
    assert!(!bool_from_bytes(&[]));
    assert_eq!(bool_to_string(true), "true");
    assert_eq!(bool_to_string(false), "false");
    assert!(bool_from_string("true"));
    assert!(!bool_from_string("false"));
    assert_eq!(bool_try_from_bytes(&[1, 0]), None);
    assert_eq!(bool_try_from_string("yes"), None);
    assert_eq!(bool_try_from_string("True"), None);
    assert_eq!(bool_try_from_string("true"), Some(true));
    assert_eq!(bool_try_from_string("false"), Some(false));
}

#[test]
fn zero_hash_renders_as_sixty_four_zero_digits() {
    let zero = hash_from_bytes(&[]);
    let s = wasmlib::schash::hash_to_string(&zero);
    assert_eq!(s.len(), 64);
    assert!(s.chars().all(|c| c == '0'));
    let back = hash_from_string(&s);
    assert!(back == zero);
    assert_eq!(hash_to_bytes(&back), vec![0u8; 32]);
}

#[test]
fn hash_round_trips() {
    let bytes: Vec<u8> = (0u8..32).collect();
    let h = hash_from_bytes(&bytes);
    assert_eq!(hash_to_bytes(&h), bytes);
    let s = wasmlib::schash::hash_to_string(&h);
    let back = hash_from_string(&s);
    assert!(back == h);
    assert!(hash_try_from_bytes(&[1, 2, 3]).is_none());
    assert!(hash_try_from_string("0").is_none());
    assert!(hash_try_from_string("zz").is_none());
}

#[test]
fn nft_and_token_and_request_ids_round_trip() {
    let nft_bytes: Vec<u8> = (0u8..32).map(|b| b.wrapping_mul(7)).collect();
    let nft = nft_id_from_bytes(&nft_bytes);
    let s = nft_id_to_string(&nft);
    assert_eq!(s.len(), 64);
    assert!(nft_id_from_string(&s) == nft);

    let token_bytes: Vec<u8> = (0u8..38).collect();
    let token = token_id_from_bytes(&token_bytes);
    assert_eq!(token_id_to_string(&token).len(), 76);
    assert!(token_id_try_from_bytes(&token_bytes[..37]).is_none());

    let req_bytes: Vec<u8> = (0u8..34).collect();
    let req = request_id_from_bytes(&req_bytes);
    assert_eq!(request_id_to_string(&req).len(), 68);
}

#[test]
fn hname_round_trips() {
    let h = ScHname(0x12345678);
    let buf = hname_to_bytes(h);
    assert_eq!(buf, vec![0x78, 0x56, 0x34, 0x12]);
    assert_eq!(hname_from_bytes(&buf), h);
    assert_eq!(hname_to_string(h), "305419896");
    assert_eq!(hname_from_string("305419896"), h);
    assert_eq!(hname_from_bytes(&[]), ScHname(0));
    assert_eq!(hname_try_from_string("4294967296"), None);
}

#[test]
fn string_codec_round_trips() {
    let s = "héllo wörld";
    let buf = string_to_bytes(s);
    assert_eq!(string_from_bytes(&buf), s);
    assert_eq!(string_from_bytes(&[]), "");
    assert_eq!(string_try_from_bytes(&[0xff, 0xfe]), None);
    assert_eq!(string_try_from_bytes(b"plain"), Some("plain".to_string()));
}

#[test]
fn bytes_codec_round_trips() {
    let data = vec![0u8, 255, 16, 1];
    let s = bytes_to_string(&data);
    assert_eq!(s, "00ff1001");
    assert_eq!(bytes_from_string(&s), data);
    assert_eq!(bytes_try_from_string("0g"), None);
    assert_eq!(bytes_try_from_string("abc"), None);
    assert_eq!(bytes_try_from_string(""), Some(vec![]));
}

#[test]
fn native_address_round_trips() {
    let mut raw = vec![8u8];
    raw.extend((0u8..32).map(|b| b.wrapping_add(1)));
    let a = address_from_bytes(&raw);
    assert_eq!(address_to_bytes(&a), raw);
    let s = address_to_string(&a);
    assert_eq!(s.len(), 66);
    assert!(address_from_string(&s) == a);
}

#[test]
fn eth_address_renders_with_prefix() {
    let mut raw = vec![32u8];
    raw.extend([0xde, 0xad, 0xbe, 0xef].iter().cycle().take(20));
    let a = address_from_bytes(&raw);
    let s = address_to_string(&a);
    assert!(s.starts_with("0x"));
    assert_eq!(s.len(), 42);
    assert!(address_from_string(&s) == a);
}

#[test]
fn zero_eth_address_collapses_to_short_form() {
    let raw = {
        let mut v = vec![32u8];
        v.extend(vec![0u8; 20]);
        v
    };
    let a = address_from_bytes(&raw);
    assert_eq!(address_to_string(&a), "0x0");
    let back = address_from_string("0x0");
    assert!(back == a);
}

#[test]
fn address_default_and_errors() {
    let zero = address_from_bytes(&[]);
    assert_eq!(address_to_bytes(&zero), vec![0u8; 33]);
    assert!(address_try_from_bytes(&[1, 2, 3]).is_none());
    assert!(address_try_from_bytes(&vec![9u8; 33]).is_none());
    assert!(address_try_from_string("0x123").is_none());
    assert!(address_try_from_string("nothex").is_none());
}

#[test]
fn agent_id_round_trips() {
    let mut raw = vec![0u8];
    raw.extend((0u8..32).collect::<Vec<u8>>());
    let addr = address_from_bytes(&raw);
    let agent = ScAgentID::new(&addr, ScHname(7));
    let buf = agent_id_to_bytes(&agent);
    assert_eq!(buf.len(), 37);
    let back = agent_id_from_bytes(&buf);
    assert!(back == agent);
    let s = agent_id_to_string(&agent);
    assert!(agent_id_from_string(&s) == agent);
    assert!(back.address() == addr);
    assert_eq!(back.hname(), ScHname(7));
    assert!(agent_id_try_from_bytes(&buf[..36]).is_none());
    let zero = agent_id_from_bytes(&[]);
    assert_eq!(agent_id_to_bytes(&zero), vec![0u8; 37]);
}

#[test]
fn big_int_round_trips() {
    let v = big_int_from_string("123456789012345678901234567890");
    assert_eq!(big_int_to_string(&v), "123456789012345678901234567890");
    let buf = big_int_to_bytes(&v);
    let back = big_int_from_bytes(&buf);
    assert!(back == v);

    let zero = big_int_from_bytes(&[]);
    assert_eq!(big_int_to_string(&zero), "0");
    assert!(zero.is_zero());
    assert_eq!(big_int_to_bytes(&zero), Vec::<u8>::new());

    // trailing zero bytes do not change the value
    let a = big_int_from_bytes(&[1, 0, 0]);
    let b = big_int_from_bytes(&[1]);
    assert!(a == b);
    assert_eq!(big_int_to_string(&a), "1");

    assert_eq!(big_int_to_string(&big_int_from_bytes(&[0x2e, 0xfd, 0x69, 0xb6])), "3060399406");
    assert!(big_int_try_from_string("12x").is_none());
    assert!(big_int_try_from_string("").is_none());
    assert!(big_int_try_from_string("+123").is_some());
    assert_eq!(big_int_to_string(&big_int_try_from_string("0").unwrap()), "0");
}
