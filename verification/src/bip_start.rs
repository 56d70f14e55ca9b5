//! Start-up decisions of a B/IP transport.
//!
//! Before any socket is opened, a transport refuses to start twice and
//! refuses a foreign-device registration with a zero time-to-live. Once the
//! local address is known, a configured BBMD is brought up with the BDT that
//! was persisted on disk when that table is still valid for this BBMD, and
//! with the configured table otherwise.

use vstd::prelude::*;
use vstd::string::StringExecFns;
use crate::bbmd::{
    bdt_error_text, bdt_outcome, decode_bdt, encode_bdt, lemma_bdt_wire_roundtrip, BbmdState, BdtEntry,
    MAX_FDT_ENTRIES,
};
use crate::error::{Error, TransportErrorKind};
use crate::topology::bip_mac;

verus! {

/// Checks made before a B/IP transport opens its socket: it must not be
/// started already, and a foreign-device registration needs a non-zero TTL.
pub fn check_bip_start(already_started: bool, foreign_device_ttl: Option<u16>) -> (r: Result<(), Error>)
    ensures
        r is Ok <==> !already_started && foreign_device_ttl != Some(0u16),
        already_started ==> (r matches Err(Error::Transport { kind, .. }) && kind
            == TransportErrorKind::AlreadyExists),
        !already_started && foreign_device_ttl == Some(0u16) ==> r matches Err(Error::Encoding(_)),
{
    if already_started {
        return Err(
            Error::Transport {
                kind: TransportErrorKind::AlreadyExists,
                message: "BIP transport already started".to_owned(),
            },
        );
    }
    match foreign_device_ttl {
        Some(0) => Err(Error::Encoding("foreign-device registration TTL must be non-zero".to_owned())),
        _ => Ok(()),
    }
}

/// Configuration of a BBMD that a transport brings up at start.
#[derive(Clone, Debug)]
pub struct BbmdConfig {
    /// BDT used when no valid persisted table exists.
    pub initial_bdt: Vec<BdtEntry>,
    /// Addresses allowed to send Delete-FDT-Entry.
    pub management_acl: Vec<[u8; 4]>,
    /// Whether foreign-device registrations are accepted.
    pub accept_foreign_devices: bool,
    /// Foreign Device Table capacity.
    pub max_fdt_entries: usize,
}

/// The table that persisted bytes `data` hold, when they decode.
pub open spec fn decoded_bdt(data: Seq<u8>) -> Option<Seq<BdtEntry>> {
    if exists|s: Seq<BdtEntry>| encode_bdt(s) == data {
        Some(choose|s: Seq<BdtEntry>| encode_bdt(s) == data)
    } else {
        None
    }
}

/// The BDT a BBMD at `ip:port` starts with: the persisted table when there is
/// one that decodes and is valid for this BBMD (as that BBMD would commit
/// it), otherwise the configured table.
pub open spec fn starting_bdt(
    persisted: Option<Seq<u8>>,
    configured: Seq<BdtEntry>,
    ip: [u8; 4],
    port: u16,
) -> Seq<BdtEntry> {
    match persisted {
        Some(data) => match decoded_bdt(data) {
            Some(s) => match bdt_outcome(s, ip, port) {
                Ok(t) => t,
                Err(_) => configured,
            },
            None => configured,
        },
        None => configured,
    }
}

/// The optional persisted bytes by their view.
pub open spec fn opt_bytes(persisted: Option<&[u8]>) -> Option<Seq<u8>> {
    match persisted {
        Some(d) => Some(d@),
        None => None,
    }
}

/// The BDT that `state`'s BBMD starts with, given the bytes read from its
/// persistence file (`None` when there is no file or it could not be read).
pub fn initial_bdt(state: &BbmdState, persisted: Option<&[u8]>, configured: Vec<BdtEntry>) -> (r: Vec<
    BdtEntry,
>)
    ensures
        r@ == starting_bdt(
            opt_bytes(persisted),
            configured@,
            state.local_ip_view(),
            state.local_port_view(),
        ),
{
    match persisted {
        Some(data) => match decode_bdt(data) {
            Ok(entries) => {
                proof {
                    let s = choose|s: Seq<BdtEntry>| encode_bdt(s) == data@;
                    assert(encode_bdt(entries@) == data@);
                    lemma_bdt_wire_roundtrip(s, entries@);
                }
                match state.validate_bdt(&entries) {
                    Ok(table) => table,
                    Err(_) => configured,
                }
            },
            Err(_) => {
                proof {
                    if exists|s: Seq<BdtEntry>| encode_bdt(s) == data@ {
                        let s = choose|s: Seq<BdtEntry>| encode_bdt(s) == data@;
                        crate::bbmd::lemma_encode_bdt_len(s);
                    }
                }
                configured
            },
        },
        None => configured,
    }
}

/// Text of a refused starting table.
fn bdt_configuration_text(reason: &str) -> (r: String)
    ensures
        r@ == "BDT configuration error: "@ + reason@,
{
    let mut m = "BDT configuration error: ".to_owned();
    m.append(reason);
    m
}

/// Brings up the BBMD of a transport bound to `local_ip:local_port`: its
/// starting BDT (see [`starting_bdt`]) must be valid, else the start fails
/// with an encoding error; then the management ACL, the acceptance of
/// foreign devices and the FDT capacity are those configured.
pub fn start_bbmd(local_ip: [u8; 4], local_port: u16, persisted: Option<&[u8]>, config: BbmdConfig) -> (r:
    Result<BbmdState, Error>)
    requires
        1 <= config.max_fdt_entries <= MAX_FDT_ENTRIES,
    ensures
        match bdt_outcome(
            starting_bdt(opt_bytes(persisted), config.initial_bdt@, local_ip, local_port),
            local_ip,
            local_port,
        ) {
            Ok(t) => r matches Ok(s) && s.bdt_view() == t && s.local_ip_view() == local_ip
                && s.local_port_view() == local_port && s.management_acl_view()
                == config.management_acl@ && s.accepts_foreign_devices_view()
                == config.accept_foreign_devices && s.max_fdt_entries_view() == config.max_fdt_entries,
            Err(e) => r matches Err(Error::Encoding(m)) && m@ == "BDT configuration error: "@
                + bdt_error_text(e),
        },
{
    let mut state = BbmdState::new(local_ip, local_port);
    let table = initial_bdt(&state, persisted, config.initial_bdt);
    match state.set_bdt(table) {
        Ok(()) => {},
        Err(e) => {
            return Err(Error::Encoding(bdt_configuration_text(e.message().as_str())));
        },
    }
    state.set_management_acl(config.management_acl);
    state.set_accept_foreign_devices(config.accept_foreign_devices);
    let capacity = state.set_max_fdt_entries(config.max_fdt_entries);
    assert(capacity is Ok);
    Ok(state)
}

/// Whether `mac` is the B/IP broadcast address of a port bound to `port`
/// with broadcast IP `broadcast_address`: that IP together with that UDP
/// port. The same IP at another port belongs to another B/IP network, and
/// the limited broadcast is this link's only when it is the configured one.
pub fn is_broadcast_mac(broadcast_address: [u8; 4], port: u16, mac: &[u8]) -> (r: bool)
    ensures
        r == (mac@ == bip_mac(broadcast_address, port)),
{
    if mac.len() != 6 {
        return false;
    }
    let r = mac[0] == broadcast_address[0] && mac[1] == broadcast_address[1] && mac[2]
        == broadcast_address[2] && mac[3] == broadcast_address[3] && mac[4] == (port / 256) as u8
        && mac[5] == (port % 256) as u8;
    if r {
        assert(mac@ =~= bip_mac(broadcast_address, port));
    }
    r
}

} // verus!
