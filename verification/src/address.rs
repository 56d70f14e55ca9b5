//! Plain-value addressing shared by the server and transport modules: link
//! MAC addresses, routed NPDU source addresses and object identifiers.

use vstd::prelude::*;

verus! {

/// Highest valid object instance number (22 bits).
pub const MAX_OBJECT_INSTANCE: u32 = 0x3F_FFFF;

/// Highest valid object type number (10 bits).
pub const MAX_OBJECT_TYPE: u16 = 0x3FF;

/// Byte-wise equality of two MAC addresses.
pub fn bytes_eq(a: &[u8], b: &[u8]) -> (r: bool)
    ensures
        r == (a@ == b@),
{
    if a.len() != b.len() {
        return false;
    }
    let mut i: usize = 0;
    while i < a.len()
        invariant
            a@.len() == b@.len(),
            i <= a@.len(),
            forall|k: int| 0 <= k < i ==> a@[k] == b@[k],
        decreases a@.len() - i,
    {
        if a[i] != b[i] {
            return false;
        }
        i = i + 1;
    }
    assert(a@ =~= b@);
    true
}

/// Routed source or destination of an NPDU: a network number and the MAC
/// address on that network.
#[derive(Clone, Debug)]
pub struct NpduAddress {
    /// Network number.
    pub network: u16,
    /// MAC address on that network.
    pub mac_address: Vec<u8>,
}

impl View for NpduAddress {
    type V = (u16, Seq<u8>);

    open spec fn view(&self) -> (u16, Seq<u8>) {
        (self.network, self.mac_address@)
    }
}

/// View of an optional routed address.
pub open spec fn opt_address_view(a: Option<NpduAddress>) -> Option<(u16, Seq<u8>)> {
    match a {
        Some(x) => Some(x@),
        None => None,
    }
}

impl NpduAddress {
    /// Routed address from its network number and MAC.
    pub fn new(network: u16, mac_address: Vec<u8>) -> (r: NpduAddress)
        ensures
            r.network == network,
            r.mac_address@ == mac_address@,
    {
        NpduAddress { network, mac_address }
    }

    /// A copy with the same network number and MAC.
    pub fn duplicate(&self) -> (r: NpduAddress)
        ensures
            r@ == self@,
    {
        NpduAddress { network: self.network, mac_address: self.mac_address.clone() }
    }
}

/// Equality of two routed addresses by value.
pub fn address_eq(a: &NpduAddress, b: &NpduAddress) -> (r: bool)
    ensures
        r == (a@ == b@),
{
    a.network == b.network && bytes_eq(a.mac_address.as_slice(), b.mac_address.as_slice())
}

/// Equality of two optional routed addresses by value.
pub fn opt_address_eq(a: Option<&NpduAddress>, b: Option<&NpduAddress>) -> (r: bool)
    ensures
        r == (match (a, b) {
            (Some(x), Some(y)) => x@ == y@,
            (None, None) => true,
            _ => false,
        }),
{
    match (a, b) {
        (Some(x), Some(y)) => address_eq(x, y),
        (None, None) => true,
        _ => false,
    }
}

/// A copy of an optional routed address.
pub fn duplicate_opt_address(a: Option<&NpduAddress>) -> (r: Option<NpduAddress>)
    ensures
        opt_address_view(r) == (match a {
            Some(x) => Some(x@),
            None => None::<(u16, Seq<u8>)>,
        }),
{
    match a {
        Some(x) => Some(x.duplicate()),
        None => None,
    }
}

/// A copy of a MAC address.
pub fn copy_mac(mac: &[u8]) -> (r: Vec<u8>)
    ensures
        r@ == mac@,
{
    let mut out: Vec<u8> = Vec::new();
    let mut i: usize = 0;
    while i < mac.len()
        invariant
            i <= mac@.len(),
            out@ == mac@.subrange(0, i as int),
        decreases mac@.len() - i,
    {
        out.push(mac[i]);
        i = i + 1;
        assert(out@ =~= mac@.subrange(0, i as int));
    }
    assert(out@ =~= mac@);
    out
}

/// BACnet object identifier: a 10-bit object type and a 22-bit instance.
#[derive(Clone, Copy, Debug, PartialEq, Eq, Hash, Structural)]
pub struct ObjectIdentifier {
    object_type: u16,
    instance: u32,
}

impl ObjectIdentifier {
    /// Object type number.
    pub closed spec fn type_view(self) -> u16 {
        self.object_type
    }

    /// Instance number.
    pub closed spec fn instance_view(self) -> u32 {
        self.instance
    }

    /// Identifier of `instance` of `object_type`; `None` when either is out
    /// of its encodable range.
    pub fn new(object_type: u16, instance: u32) -> (r: Option<ObjectIdentifier>)
        ensures
            r is Some <==> (object_type <= MAX_OBJECT_TYPE && instance <= MAX_OBJECT_INSTANCE),
            r matches Some(id) ==> id.type_view() == object_type && id.instance_view() == instance,
    {
        if object_type <= MAX_OBJECT_TYPE && instance <= MAX_OBJECT_INSTANCE {
            Some(ObjectIdentifier { object_type, instance })
        } else {
            None
        }
    }

    /// Object type number.
    pub fn object_type(&self) -> (r: u16)
        ensures
            r == self.type_view(),
    {
        self.object_type
    }

    /// Instance number.
    pub fn instance(&self) -> (r: u32)
        ensures
            r == self.instance_view(),
    {
        self.instance
    }
}

/// Two object identifiers with the same type and instance are the same
/// identifier.
pub proof fn lemma_identifier_by_parts(a: ObjectIdentifier, b: ObjectIdentifier)
    ensures
        (a.type_view() == b.type_view() && a.instance_view() == b.instance_view()) <==> a == b,
{
}

} // verus!
