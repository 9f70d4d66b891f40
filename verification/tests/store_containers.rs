//! The store, location composition, scalar views, containers, and the
//! typed parameter views.

use wasmlib::containers::{
    ScImmutableStringArray, ScMutableStringArray, ScMutableStringArrayArray,
    ScMutableStringArrayMap, ScMutableStringMap, ScMutableStringMapArray, ScMutableStringMapMap,
};
use wasmlib::coreroot::{
    ImmutableDeployContractParams, ImmutableFindContractParams,
    ImmutableGrantDeployPermissionParams, ImmutableRequireDeployPermissionsParams,
    MutableDeployContractParams, MutableFindContractParams, MutableGrantDeployPermissionParams,
    MutableRequireDeployPermissionsParams,
};
use wasmlib::proxy::{params_proxy, state_proxy, Proxy};
use wasmlib::scaddress::address_from_bytes;
use wasmlib::scagentid::ScAgentID;
use wasmlib::scdict::ScDict;
use wasmlib::schname::ScHname;
use wasmlib::scint32::{ScImmutableInt32, ScMutableInt32};
use wasmlib::scstring::{string_to_bytes, ScImmutableString, ScMutableString};
use wasmlib::scuint64::ScMutableUint64;

#[test]
fn store_set_get_delete() {
    let mut d = ScDict::new();
    let p = state_proxy().root("x");
    assert!(!p.has(&d));
    assert_eq!(p.get(&d), Vec::<u8>::new());
    p.set(&mut d, &[1, 2, 3]);
    assert!(p.has(&d));
    assert_eq!(p.get(&d), vec![1, 2, 3]);
    p.set(&mut d, &[4]);
    assert_eq!(p.get(&d), vec![4]);
    p.delete(&mut d);
    assert!(!p.has(&d));
    assert_eq!(p.get(&d), Vec::<u8>::new());
}

#[test]
fn scalar_views_read_and_write_the_store() {
    let mut d = ScDict::new();
    let loc = state_proxy().root("counter");
    let w = ScMutableInt32::new(loc.clone());
    let r = ScImmutableInt32::new(loc);
    assert!(!r.has(&d));
    assert_eq!(r.value(&d), 0);
    w.set_value(&mut d, -1234567890);
    assert!(r.has(&d));
    assert_eq!(r.value(&d), -1234567890);
    assert_eq!(r.to_string(&d), "-1234567890");
    w.delete(&mut d);
    assert!(!w.has(&d));
    assert_eq!(w.value(&d), 0);
}

#[test]
fn absent_entry_reads_as_default_and_set_overwrites() {
    let mut d = ScDict::new();
    let map = ScMutableStringMap::new(state_proxy().root("m"));
    assert_eq!(map.get_string("k").value(&d), "");
    map.get_string("k").set_value(&mut d, "v");
    assert_eq!(map.get_string("k").value(&d), "v");
    map.get_string("k").set_value(&mut d, "w");
    assert_eq!(map.get_string("k").value(&d), "w");
    // unrelated keys are unaffected
    assert_eq!(map.get_string("other").value(&d), "");
    map.get_string("other").set_value(&mut d, "o");
    assert_eq!(map.get_string("k").value(&d), "w");
    assert_eq!(map.get_string("other").value(&d), "o");
}

#[test]
fn string_array_append_get_clear() {
    let mut d = ScDict::new();
    let root = state_proxy().root("names");
    let arr = ScMutableStringArray::new(root.clone());
    assert_eq!(arr.length(&d), 0);
    for s in ["a", "b", "c"] {
        let elt = arr.append_string(&mut d);
        elt.set_value(&mut d, s);
    }
    assert_eq!(arr.length(&d), 3);
    assert_eq!(arr.get_string(&d, 1).value(&d), "b");
    assert_eq!(arr.get_string(&d, 0).value(&d), "a");
    assert_eq!(arr.get_string(&d, 2).value(&d), "c");
    let reader = ScImmutableStringArray::new(root);
    assert_eq!(reader.length(&d), 3);
    assert_eq!(reader.get_string(&d, 1).value(&d), "b");
    arr.clear(&mut d);
    assert_eq!(arr.length(&d), 0);
}

#[test]
fn array_append_preserves_insertion_order() {
    let mut d = ScDict::new();
    let arr = ScMutableStringArray::new(state_proxy().root("seq"));
    let n: u32 = 20;
    for i in 0..n {
        let elt = arr.append_string(&mut d);
        elt.set_value(&mut d, &format!("item{}", i));
    }
    assert_eq!(arr.length(&d), n);
    for i in 0..n {
        assert_eq!(arr.get_string(&d, i).value(&d), format!("item{}", i));
    }
}

#[test]
fn nested_array_clear_resets_inner_lengths() {
    let mut d = ScDict::new();
    let outer = ScMutableStringArrayArray::new(state_proxy().root("aa"));
    for i in 0..3u32 {
        let inner = outer.append_string_array(&mut d);
        for j in 0..(i + 1) {
            let elt = inner.append_string(&mut d);
            elt.set_value(&mut d, &format!("{}-{}", i, j));
        }
    }
    assert_eq!(outer.length(&d), 3);
    assert_eq!(outer.get_string_array(&d, 2).length(&d), 3);
    assert_eq!(outer.get_string_array(&d, 2).get_string(&d, 1).value(&d), "2-1");

    let inner0 = outer.get_string_array(&d, 0);
    let inner1 = outer.get_string_array(&d, 1);
    let inner2 = outer.get_string_array(&d, 2);
    outer.clear(&mut d);
    assert_eq!(outer.length(&d), 0);
    // all previously nested arrays report length 0 as well
    assert_eq!(inner0.length(&d), 0);
    assert_eq!(inner1.length(&d), 0);
    assert_eq!(inner2.length(&d), 0);
}

#[test]
fn array_of_map_and_direct_composition_agree() {
    let mut d = ScDict::new();
    let root = state_proxy().root("am");
    let arr = ScMutableStringMapArray::new(root.clone());
    let map0 = arr.append_string_map(&mut d);
    map0.get_string("k").set_value(&mut d, "via container");

    // composing the location directly denotes the same storage slot
    let direct = root.index(0).key(&string_to_bytes("k"));
    let read = ScImmutableString::new(direct);
    assert_eq!(read.value(&d), "via container");

    // and writing through the direct path is seen by the container view
    let direct2 = root.index(0).key(&string_to_bytes("k2"));
    ScMutableString::new(direct2).set_value(&mut d, "via proxy");
    assert_eq!(arr.get_string_map(&d, 0).get_string("k2").value(&d), "via proxy");
}

#[test]
fn map_of_array_and_map_of_map_compose() {
    let mut d = ScDict::new();
    let byname = ScMutableStringArrayMap::new(state_proxy().root("ma"));
    let arr = byname.get_string_array("list");
    let elt = arr.append_string(&mut d);
    elt.set_value(&mut d, "first");
    assert_eq!(byname.get_string_array("list").length(&d), 1);
    assert_eq!(byname.get_string_array("list").get_string(&d, 0).value(&d), "first");
    assert_eq!(byname.get_string_array("empty").length(&d), 0);

    let mm = ScMutableStringMapMap::new(state_proxy().root("mm"));
    mm.get_string_map("outer").get_string("inner").set_value(&mut d, "deep");
    assert_eq!(mm.get_string_map("outer").get_string("inner").value(&d), "deep");
    assert_eq!(mm.get_string_map("other").get_string("inner").value(&d), "");
}

#[test]
fn map_clear_removes_only_the_companion_field() {
    // a keyed map cannot enumerate its entries: clearing removes the value
    // stored at the map's own location, while keyed entries survive; a
    // caller that must forget entries deletes them by key
    let mut d = ScDict::new();
    let map = ScMutableStringMap::new(state_proxy().root("mc"));
    map.get_string("k").set_value(&mut d, "v");
    map.clear(&mut d);
    assert_eq!(map.get_string("k").value(&d), "v");
    map.get_string("k").delete(&mut d);
    assert_eq!(map.get_string("k").value(&d), "");
}

#[test]
fn array_clear_then_reuse() {
    let mut d = ScDict::new();
    let arr = ScMutableStringArray::new(state_proxy().root("r"));
    let elt = arr.append_string(&mut d);
    elt.set_value(&mut d, "x");
    arr.clear(&mut d);
    assert_eq!(arr.length(&d), 0);
    assert_eq!(arr.append_string(&mut d).value(&d), "");
    let elt = arr.get_string(&d, 0);
    elt.set_value(&mut d, "y");
    assert_eq!(arr.length(&d), 1);
    assert_eq!(arr.get_string(&d, 0).value(&d), "y");
}

#[test]
fn proxy_roots_are_distinct() {
    let mut d = ScDict::new();
    let a = params_proxy().root("k");
    let b = state_proxy().root("k");
    a.set(&mut d, &[1]);
    assert!(!b.has(&d));
    b.set(&mut d, &[2]);
    assert_eq!(a.get(&d), vec![1]);
    assert_eq!(b.get(&d), vec![2]);
    let c = Proxy::new(&[9, 9]).root("k");
    assert!(!c.has(&d));
}

#[test]
fn deploy_contract_params_round_trip() {
    let mut d = ScDict::new();
    let w = MutableDeployContractParams::new();
    w.name().set_value(&mut d, "tester");
    let hash_bytes: Vec<u8> = (0u8..32).collect();
    let hash = wasmlib::schash::hash_from_bytes(&hash_bytes);
    w.program_hash().set_value(&mut d, &hash);
    w.init_params().get_bytes("seed").set_value(&mut d, &[1, 2]);

    let r = ImmutableDeployContractParams::new();
    assert_eq!(r.name().value(&d), "tester");
    assert!(r.program_hash().value(&d) == hash);
    assert_eq!(r.init_params().get_bytes("seed").value(&d), vec![1, 2]);
    assert_eq!(r.init_params().get_bytes("missing").value(&d), Vec::<u8>::new());

    w.init_params().clear(&mut d);
    assert_eq!(r.init_params().get_bytes("seed").value(&d), vec![1, 2]);
}

#[test]
fn permission_params_round_trip() {
    let mut d = ScDict::new();
    let mut raw = vec![0u8];
    raw.extend(vec![3u8; 32]);
    let deployer = ScAgentID::new(&address_from_bytes(&raw), ScHname(0));

    let grant = MutableGrantDeployPermissionParams::new();
    grant.deployer().set_value(&mut d, &deployer);
    let grant_r = ImmutableGrantDeployPermissionParams::new();
    assert!(grant_r.deployer().value(&d) == deployer);

    // grant and revoke share the parameter location under the same root
    let revoke_r = wasmlib::coreroot::ImmutableRevokeDeployPermissionParams::new();
    assert!(revoke_r.deployer().value(&d) == deployer);
    let revoke_w = wasmlib::coreroot::MutableRevokeDeployPermissionParams::new();
    revoke_w.deployer().delete(&mut d);
    assert!(!grant_r.deployer().has(&d));

    let req = MutableRequireDeployPermissionsParams::new();
    req.deploy_permissions_enabled().set_value(&mut d, true);
    let req_r = ImmutableRequireDeployPermissionsParams::new();
    assert!(req_r.deploy_permissions_enabled().value(&d));
    assert_eq!(req_r.deploy_permissions_enabled().to_string(&d), "true");
}

#[test]
fn find_contract_params_round_trip() {
    let mut d = ScDict::new();
    let w = MutableFindContractParams::new();
    w.hname().set_value(&mut d, ScHname(0xcafe));
    let r = ImmutableFindContractParams::new();
    assert_eq!(r.hname().value(&d), ScHname(0xcafe));
    assert_eq!(r.hname().to_string(&d), "51966");
}

#[test]
fn uint64_view_round_trip() {
    let mut d = ScDict::new();
    let v = ScMutableUint64::new(state_proxy().root("supply"));
    v.set_value(&mut d, u64::MAX);
    assert_eq!(v.value(&d), u64::MAX);
    assert_eq!(v.to_string(&d), "18446744073709551615");
}

#[test]
fn address_array_and_map_round_trip() {
    let mut d = ScDict::new();
    let arr = wasmlib::containers::ScMutableAddressArray::new(state_proxy().root("addrs"));
    let mut raw1 = vec![0u8];
    raw1.extend(vec![1u8; 32]);
    let a1 = address_from_bytes(&raw1);
    let mut raw2 = vec![32u8];
    raw2.extend(vec![2u8; 20]);
    let a2 = address_from_bytes(&raw2);

    let e = arr.append_address(&mut d);
    e.set_value(&mut d, &a1);
    let e = arr.append_address(&mut d);
    e.set_value(&mut d, &a2);
    assert_eq!(arr.length(&d), 2);
    assert!(arr.get_address(&d, 0).value(&d) == a1);
    assert!(arr.get_address(&d, 1).value(&d) == a2);

    let map = wasmlib::containers::ScMutableAddressMap::new(state_proxy().root("am2"));
    map.get_address(&a1).set_value(&mut d, &a2);
    assert!(map.get_address(&a1).value(&d) == a2);
    // an untouched key still reads as the all-zero native address
    let zero = address_from_bytes(&[]);
    assert!(map.get_address(&a2).value(&d) == zero);

    arr.clear(&mut d);
    assert_eq!(arr.length(&d), 0);
    assert!(arr.append_address(&mut d).value(&d) == zero);
}
