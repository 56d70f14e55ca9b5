//! Protocol Implementation Conformance Statement vocabulary: the BACnet
//! device profile a device claims and the access a property offers, each
//! with its conventional text form.

use vstd::prelude::*;

verus! {

/// BACnet device profile (Annex L).
#[derive(Clone, Debug, PartialEq, Eq)]
pub enum DeviceProfile {
    /// Advanced application controller.
    BAac,
    /// Application-specific controller.
    BAsc,
    /// Operator workstation.
    BOws,
    /// Building controller.
    BBc,
    /// Operator panel.
    BOp,
    /// Router.
    BRouter,
    /// Gateway.
    BGw,
    /// Secure Connect node.
    BSc,
    /// A profile named by the vendor.
    Custom(String),
}

/// Conventional text of a device profile.
pub open spec fn profile_text(p: DeviceProfile) -> Seq<char> {
    match p {
        DeviceProfile::BAac => "B-AAC"@,
        DeviceProfile::BAsc => "B-ASC"@,
        DeviceProfile::BOws => "B-OWS"@,
        DeviceProfile::BBc => "B-BC"@,
        DeviceProfile::BOp => "B-OP"@,
        DeviceProfile::BRouter => "B-ROUTER"@,
        DeviceProfile::BGw => "B-GW"@,
        DeviceProfile::BSc => "B-SC"@,
        DeviceProfile::Custom(name) => name@,
    }
}

impl DeviceProfile {
    /// The profile's conventional text, such as `B-ASC`; a custom profile is
    /// written as its name.
    pub fn to_string(&self) -> (r: String)
        ensures
            r@ == profile_text(*self),
    {
        match self {
            DeviceProfile::BAac => "B-AAC".to_owned(),
            DeviceProfile::BAsc => "B-ASC".to_owned(),
            DeviceProfile::BOws => "B-OWS".to_owned(),
            DeviceProfile::BBc => "B-BC".to_owned(),
            DeviceProfile::BOp => "B-OP".to_owned(),
            DeviceProfile::BRouter => "B-ROUTER".to_owned(),
            DeviceProfile::BGw => "B-GW".to_owned(),
            DeviceProfile::BSc => "B-SC".to_owned(),
            DeviceProfile::Custom(name) => name.clone(),
        }
    }
}

/// Access a property offers.
#[derive(Clone, Copy, Debug, PartialEq, Eq, Structural)]
pub struct PropertyAccess {
    /// The property can be read.
    pub readable: bool,
    /// The property can be written.
    pub writable: bool,
    /// The property is optional for its object type.
    pub optional: bool,
}

/// Conventional text of a property access: `RW`, `RO` or `W`, and `-` for a
/// property that can be neither read nor written.
pub open spec fn access_text(a: PropertyAccess) -> Seq<char> {
    if a.readable && a.writable {
        "RW"@
    } else if a.readable {
        "RO"@
    } else if a.writable {
        "W"@
    } else {
        "-"@
    }
}

impl PropertyAccess {
    /// The access's conventional text.
    pub fn to_string(&self) -> (r: String)
        ensures
            r@ == access_text(*self),
    {
        if self.readable && self.writable {
            "RW".to_owned()
        } else if self.readable {
            "RO".to_owned()
        } else if self.writable {
            "W".to_owned()
        } else {
            "-".to_owned()
        }
    }
}

} // verus!
