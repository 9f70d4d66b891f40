//! Typed parameter views of the root contract's entry points: deploying a
//! contract, granting, requiring and revoking deploy permission, and
//! looking a contract up by its name hash.
//!
//! Each view binds the well-known parameter field names to scalar views
//! under the call-parameters root location.

use vstd::prelude::*;
use vstd::utf8::encode_utf8;

use crate::proxy::{params_proxy, Proxy, PARAMS_ROOT_PREFIX};
use crate::scagentid::{ScImmutableAgentID, ScMutableAgentID};
use crate::scbool::{ScImmutableBool, ScMutableBool};
use crate::scbytes::{ScImmutableBytes, ScMutableBytes};
use crate::scdict::ScDict;
use crate::schash::{ScImmutableHash, ScMutableHash};
use crate::schname::{ScImmutableHname, ScMutableHname};
use crate::scstring::{string_to_bytes, ScImmutableString, ScMutableString};

verus! {

/// The field name of the deployer parameter.
pub const PARAM_DEPLOYER: &'static str = "dp";

/// The field name of the deploy-permissions-enabled parameter.
pub const PARAM_DEPLOY_PERMISSIONS_ENABLED: &'static str = "de";

/// The field name of the contract-name-hash parameter.
pub const PARAM_HNAME: &'static str = "hn";

/// The field name of the contract-name parameter.
pub const PARAM_NAME: &'static str = "nm";

/// The field name of the program-hash parameter.
pub const PARAM_PROGRAM_HASH: &'static str = "ph";

/// A read-only map from string keys to byte-string values.
pub struct MapStringToImmutableBytes {
    proxy: Proxy,
}

impl Clone for MapStringToImmutableBytes {
    /// A clone addresses the same location.
    fn clone(&self) -> (r: MapStringToImmutableBytes)
        ensures
            r@ == self@,
    {
        MapStringToImmutableBytes { proxy: self.proxy.clone() }
    }
}

impl View for MapStringToImmutableBytes {
    type V = Seq<u8>;

    closed spec fn view(&self) -> Seq<u8> {
        self.proxy@
    }
}

impl MapStringToImmutableBytes {
    /// A view bound to the given root location.
    pub fn new(proxy: Proxy) -> (r: MapStringToImmutableBytes)
        ensures
            r@ == proxy@,
    {
        MapStringToImmutableBytes { proxy }
    }

    /// The byte-string entry under `key`.
    pub fn get_bytes(&self, key: &str) -> (r: ScImmutableBytes)
        ensures
            r@ == self@ + encode_utf8(key@),
    {
        let kb = string_to_bytes(key);
        ScImmutableBytes::new(self.proxy.key(kb.as_slice()))
    }
}

/// A mutable map from string keys to byte-string values.
pub struct MapStringToMutableBytes {
    proxy: Proxy,
}

impl Clone for MapStringToMutableBytes {
    /// A clone addresses the same location.
    fn clone(&self) -> (r: MapStringToMutableBytes)
        ensures
            r@ == self@,
    {
        MapStringToMutableBytes { proxy: self.proxy.clone() }
    }
}

impl View for MapStringToMutableBytes {
    type V = Seq<u8>;

    closed spec fn view(&self) -> Seq<u8> {
        self.proxy@
    }
}

impl MapStringToMutableBytes {
    /// A view bound to the given root location.
    pub fn new(proxy: Proxy) -> (r: MapStringToMutableBytes)
        ensures
            r@ == proxy@,
    {
        MapStringToMutableBytes { proxy }
    }

    /// Removes the value at the map's own root location; keyed entries
    /// stay.
    pub fn clear(&self, dict: &mut ScDict)
        ensures
            final(dict)@ == old(dict)@.remove(self@),
    {
        self.proxy.clear_map(dict);
    }

    /// The byte-string entry under `key`.
    pub fn get_bytes(&self, key: &str) -> (r: ScMutableBytes)
        ensures
            r@ == self@ + encode_utf8(key@),
    {
        let kb = string_to_bytes(key);
        ScMutableBytes::new(self.proxy.key(kb.as_slice()))
    }
}

/// Read-only parameters of the deploy-contract entry point.
pub struct ImmutableDeployContractParams {
    proxy: Proxy,
}

impl Clone for ImmutableDeployContractParams {
    /// A clone addresses the same location.
    fn clone(&self) -> (r: ImmutableDeployContractParams)
        ensures
            r@ == self@,
    {
        ImmutableDeployContractParams { proxy: self.proxy.clone() }
    }
}

impl View for ImmutableDeployContractParams {
    type V = Seq<u8>;

    closed spec fn view(&self) -> Seq<u8> {
        self.proxy@
    }
}

impl ImmutableDeployContractParams {
    /// The view over the call-parameters root.
    pub fn new() -> (r: ImmutableDeployContractParams)
        ensures
            r@ == seq![PARAMS_ROOT_PREFIX],
    {
        ImmutableDeployContractParams { proxy: params_proxy() }
    }

    /// Additional parameters handed to the deployed contract's own
    /// initialization entry point.
    pub fn init_params(&self) -> (r: MapStringToImmutableBytes)
        ensures
            r@ == self@,
    {
        MapStringToImmutableBytes { proxy: self.proxy.clone() }
    }

    /// The name of the contract to be deployed, used to derive the
    /// contract's name hash, which must be unique on the chain.
    pub fn name(&self) -> (r: ScImmutableString)
        ensures
            r@ == self@ + encode_utf8(PARAM_NAME@),
    {
        ScImmutableString::new(self.proxy.root(PARAM_NAME))
    }

    /// The hash of the program blob to instantiate.
    pub fn program_hash(&self) -> (r: ScImmutableHash)
        ensures
            r@ == self@ + encode_utf8(PARAM_PROGRAM_HASH@),
    {
        ScImmutableHash::new(self.proxy.root(PARAM_PROGRAM_HASH))
    }
}

/// Mutable parameters of the deploy-contract entry point.
pub struct MutableDeployContractParams {
    proxy: Proxy,
}

impl Clone for MutableDeployContractParams {
    /// A clone addresses the same location.
    fn clone(&self) -> (r: MutableDeployContractParams)
        ensures
            r@ == self@,
    {
        MutableDeployContractParams { proxy: self.proxy.clone() }
    }
}

impl View for MutableDeployContractParams {
    type V = Seq<u8>;

    closed spec fn view(&self) -> Seq<u8> {
        self.proxy@
    }
}

impl MutableDeployContractParams {
    /// The view over the call-parameters root.
    pub fn new() -> (r: MutableDeployContractParams)
        ensures
            r@ == seq![PARAMS_ROOT_PREFIX],
    {
        MutableDeployContractParams { proxy: params_proxy() }
    }

    /// Additional parameters handed to the deployed contract's own
    /// initialization entry point.
    pub fn init_params(&self) -> (r: MapStringToMutableBytes)
        ensures
            r@ == self@,
    {
        MapStringToMutableBytes { proxy: self.proxy.clone() }
    }

    /// The name of the contract to be deployed, used to derive the
    /// contract's name hash, which must be unique on the chain.
    pub fn name(&self) -> (r: ScMutableString)
        ensures
            r@ == self@ + encode_utf8(PARAM_NAME@),
    {
        ScMutableString::new(self.proxy.root(PARAM_NAME))
    }

    /// The hash of the program blob to instantiate.
    pub fn program_hash(&self) -> (r: ScMutableHash)
        ensures
            r@ == self@ + encode_utf8(PARAM_PROGRAM_HASH@),
    {
        ScMutableHash::new(self.proxy.root(PARAM_PROGRAM_HASH))
    }
}

/// Read-only parameters of the grant-deploy-permission entry point.
pub struct ImmutableGrantDeployPermissionParams {
    proxy: Proxy,
}

impl Clone for ImmutableGrantDeployPermissionParams {
    /// A clone addresses the same location.
    fn clone(&self) -> (r: ImmutableGrantDeployPermissionParams)
        ensures
            r@ == self@,
    {
        ImmutableGrantDeployPermissionParams { proxy: self.proxy.clone() }
    }
}

impl View for ImmutableGrantDeployPermissionParams {
    type V = Seq<u8>;

    closed spec fn view(&self) -> Seq<u8> {
        self.proxy@
    }
}

impl ImmutableGrantDeployPermissionParams {
    /// The view over the call-parameters root.
    pub fn new() -> (r: ImmutableGrantDeployPermissionParams)
        ensures
            r@ == seq![PARAMS_ROOT_PREFIX],
    {
        ImmutableGrantDeployPermissionParams { proxy: params_proxy() }
    }

    /// The agent to grant deploy permission to.
    pub fn deployer(&self) -> (r: ScImmutableAgentID)
        ensures
            r@ == self@ + encode_utf8(PARAM_DEPLOYER@),
    {
        ScImmutableAgentID::new(self.proxy.root(PARAM_DEPLOYER))
    }
}

/// Mutable parameters of the grant-deploy-permission entry point.
pub struct MutableGrantDeployPermissionParams {
    proxy: Proxy,
}

impl Clone for MutableGrantDeployPermissionParams {
    /// A clone addresses the same location.
    fn clone(&self) -> (r: MutableGrantDeployPermissionParams)
        ensures
            r@ == self@,
    {
        MutableGrantDeployPermissionParams { proxy: self.proxy.clone() }
    }
}

impl View for MutableGrantDeployPermissionParams {
    type V = Seq<u8>;

    closed spec fn view(&self) -> Seq<u8> {
        self.proxy@
    }
}

impl MutableGrantDeployPermissionParams {
    /// The view over the call-parameters root.
    pub fn new() -> (r: MutableGrantDeployPermissionParams)
        ensures
            r@ == seq![PARAMS_ROOT_PREFIX],
    {
        MutableGrantDeployPermissionParams { proxy: params_proxy() }
    }

    /// The agent to grant deploy permission to.
    pub fn deployer(&self) -> (r: ScMutableAgentID)
        ensures
            r@ == self@ + encode_utf8(PARAM_DEPLOYER@),
    {
        ScMutableAgentID::new(self.proxy.root(PARAM_DEPLOYER))
    }
}

/// Read-only parameters of the require-deploy-permissions entry point.
pub struct ImmutableRequireDeployPermissionsParams {
    proxy: Proxy,
}

impl Clone for ImmutableRequireDeployPermissionsParams {
    /// A clone addresses the same location.
    fn clone(&self) -> (r: ImmutableRequireDeployPermissionsParams)
        ensures
            r@ == self@,
    {
        ImmutableRequireDeployPermissionsParams { proxy: self.proxy.clone() }
    }
}

impl View for ImmutableRequireDeployPermissionsParams {
    type V = Seq<u8>;

    closed spec fn view(&self) -> Seq<u8> {
        self.proxy@
    }
}

impl ImmutableRequireDeployPermissionsParams {
    /// The view over the call-parameters root.
    pub fn new() -> (r: ImmutableRequireDeployPermissionsParams)
        ensures
            r@ == seq![PARAMS_ROOT_PREFIX],
    {
        ImmutableRequireDeployPermissionsParams { proxy: params_proxy() }
    }

    /// Turns the permission check on or off.
    pub fn deploy_permissions_enabled(&self) -> (r: ScImmutableBool)
        ensures
            r@ == self@ + encode_utf8(PARAM_DEPLOY_PERMISSIONS_ENABLED@),
    {
        ScImmutableBool::new(self.proxy.root(PARAM_DEPLOY_PERMISSIONS_ENABLED))
    }
}

/// Mutable parameters of the require-deploy-permissions entry point.
pub struct MutableRequireDeployPermissionsParams {
    proxy: Proxy,
}

impl Clone for MutableRequireDeployPermissionsParams {
    /// A clone addresses the same location.
    fn clone(&self) -> (r: MutableRequireDeployPermissionsParams)
        ensures
            r@ == self@,
    {
        MutableRequireDeployPermissionsParams { proxy: self.proxy.clone() }
    }
}

impl View for MutableRequireDeployPermissionsParams {
    type V = Seq<u8>;

    closed spec fn view(&self) -> Seq<u8> {
        self.proxy@
    }
}

impl MutableRequireDeployPermissionsParams {
    /// The view over the call-parameters root.
    pub fn new() -> (r: MutableRequireDeployPermissionsParams)
        ensures
            r@ == seq![PARAMS_ROOT_PREFIX],
    {
        MutableRequireDeployPermissionsParams { proxy: params_proxy() }
    }

    /// Turns the permission check on or off.
    pub fn deploy_permissions_enabled(&self) -> (r: ScMutableBool)
        ensures
            r@ == self@ + encode_utf8(PARAM_DEPLOY_PERMISSIONS_ENABLED@),
    {
        ScMutableBool::new(self.proxy.root(PARAM_DEPLOY_PERMISSIONS_ENABLED))
    }
}

/// Read-only parameters of the revoke-deploy-permission entry point.
pub struct ImmutableRevokeDeployPermissionParams {
    proxy: Proxy,
}

impl Clone for ImmutableRevokeDeployPermissionParams {
    /// A clone addresses the same location.
    fn clone(&self) -> (r: ImmutableRevokeDeployPermissionParams)
        ensures
            r@ == self@,
    {
        ImmutableRevokeDeployPermissionParams { proxy: self.proxy.clone() }
    }
}

impl View for ImmutableRevokeDeployPermissionParams {
    type V = Seq<u8>;

    closed spec fn view(&self) -> Seq<u8> {
        self.proxy@
    }
}

impl ImmutableRevokeDeployPermissionParams {
    /// The view over the call-parameters root.
    pub fn new() -> (r: ImmutableRevokeDeployPermissionParams)
        ensures
            r@ == seq![PARAMS_ROOT_PREFIX],
    {
        ImmutableRevokeDeployPermissionParams { proxy: params_proxy() }
    }

    /// The agent to revoke deploy permission for.
    pub fn deployer(&self) -> (r: ScImmutableAgentID)
        ensures
            r@ == self@ + encode_utf8(PARAM_DEPLOYER@),
    {
        ScImmutableAgentID::new(self.proxy.root(PARAM_DEPLOYER))
    }
}

/// Mutable parameters of the revoke-deploy-permission entry point.
pub struct MutableRevokeDeployPermissionParams {
    proxy: Proxy,
}

impl Clone for MutableRevokeDeployPermissionParams {
    /// A clone addresses the same location.
    fn clone(&self) -> (r: MutableRevokeDeployPermissionParams)
        ensures
            r@ == self@,
    {
        MutableRevokeDeployPermissionParams { proxy: self.proxy.clone() }
    }
}

impl View for MutableRevokeDeployPermissionParams {
    type V = Seq<u8>;

    closed spec fn view(&self) -> Seq<u8> {
        self.proxy@
    }
}

impl MutableRevokeDeployPermissionParams {
    /// The view over the call-parameters root.
    pub fn new() -> (r: MutableRevokeDeployPermissionParams)
        ensures
            r@ == seq![PARAMS_ROOT_PREFIX],
    {
        MutableRevokeDeployPermissionParams { proxy: params_proxy() }
    }

    /// The agent to revoke deploy permission for.
    pub fn deployer(&self) -> (r: ScMutableAgentID)
        ensures
            r@ == self@ + encode_utf8(PARAM_DEPLOYER@),
    {
        ScMutableAgentID::new(self.proxy.root(PARAM_DEPLOYER))
    }
}

/// Read-only parameters of the find-contract entry point.
pub struct ImmutableFindContractParams {
    proxy: Proxy,
}

impl Clone for ImmutableFindContractParams {
    /// A clone addresses the same location.
    fn clone(&self) -> (r: ImmutableFindContractParams)
        ensures
            r@ == self@,
    {
        ImmutableFindContractParams { proxy: self.proxy.clone() }
    }
}

impl View for ImmutableFindContractParams {
    type V = Seq<u8>;

    closed spec fn view(&self) -> Seq<u8> {
        self.proxy@
    }
}

impl ImmutableFindContractParams {
    /// The view over the call-parameters root.
    pub fn new() -> (r: ImmutableFindContractParams)
        ensures
            r@ == seq![PARAMS_ROOT_PREFIX],
    {
        ImmutableFindContractParams { proxy: params_proxy() }
    }

    /// The name hash of the contract to look up.
    pub fn hname(&self) -> (r: ScImmutableHname)
        ensures
            r@ == self@ + encode_utf8(PARAM_HNAME@),
    {
        ScImmutableHname::new(self.proxy.root(PARAM_HNAME))
    }
}

/// Mutable parameters of the find-contract entry point.
pub struct MutableFindContractParams {
    proxy: Proxy,
}

impl Clone for MutableFindContractParams {
    /// A clone addresses the same location.
    fn clone(&self) -> (r: MutableFindContractParams)
        ensures
            r@ == self@,
    {
        MutableFindContractParams { proxy: self.proxy.clone() }
    }
}

impl View for MutableFindContractParams {
    type V = Seq<u8>;

    closed spec fn view(&self) -> Seq<u8> {
        self.proxy@
    }
}

impl MutableFindContractParams {
    /// The view over the call-parameters root.
    pub fn new() -> (r: MutableFindContractParams)
        ensures
            r@ == seq![PARAMS_ROOT_PREFIX],
    {
        MutableFindContractParams { proxy: params_proxy() }
    }

    /// The name hash of the contract to look up.
    pub fn hname(&self) -> (r: ScMutableHname)
        ensures
            r@ == self@ + encode_utf8(PARAM_HNAME@),
    {
        ScMutableHname::new(self.proxy.root(PARAM_HNAME))
    }
}

} // verus!
