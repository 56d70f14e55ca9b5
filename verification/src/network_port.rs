//! Live B/IP state published to NetworkPort objects.
//!
//! A server binds each IPv4 NetworkPort object to a snapshot of its
//! configuration. Once the transport is started, the snapshot takes the
//! transport's actual address (an ephemeral UDP port is only known then);
//! while the transport runs a BBMD, the snapshot also carries the BBMD's live
//! tables and its foreign-device acceptance.

use vstd::prelude::*;
use crate::address::copy_mac;
use crate::bbmd::{encode_bdt_entry, encode_fdt_entry, encoded_bdt_entry, encoded_fdt_entry, BdtEntry, FdtEntryWire};

verus! {

/// NetworkType value of an IPv4 port.
pub const NETWORK_TYPE_IPV4: u32 = 5;

/// BACnetIPMode value NORMAL.
pub const IP_MODE_NORMAL: u32 = 0;

/// BACnetIPMode value BBMD.
pub const IP_MODE_BBMD: u32 = 2;

/// The published state of one NetworkPort object. The link speed, a real
/// number, is carried alongside by the object itself.
#[derive(Clone, Debug)]
pub struct NetworkPortSnapshot {
    pub network_type: u32,
    pub network_number: u32,
    pub mac_address: Vec<u8>,
    pub max_apdu_length_accepted: u32,
    pub ip_address: Vec<u8>,
    pub ip_default_gateway: Vec<u8>,
    pub ip_subnet_mask: Vec<u8>,
    pub ip_udp_port: u16,
    pub bacnet_ip_mode: u32,
    pub bbmd_accept_fd_registrations: bool,
    /// Encoded BDT entries, one octet string each.
    pub bbmd_broadcast_distribution_table: Vec<Vec<u8>>,
    /// Encoded FDT entries, one octet string each.
    pub bbmd_foreign_device_table: Vec<Vec<u8>>,
}

/// Mathematical form of a [`NetworkPortSnapshot`].
pub struct NetworkPortView {
    pub network_type: u32,
    pub network_number: u32,
    pub mac_address: Seq<u8>,
    pub max_apdu_length_accepted: u32,
    pub ip_address: Seq<u8>,
    pub ip_default_gateway: Seq<u8>,
    pub ip_subnet_mask: Seq<u8>,
    pub ip_udp_port: u16,
    pub bacnet_ip_mode: u32,
    pub bbmd_accept_fd_registrations: bool,
    pub bbmd_broadcast_distribution_table: Seq<Seq<u8>>,
    pub bbmd_foreign_device_table: Seq<Seq<u8>>,
}

impl View for NetworkPortSnapshot {
    type V = NetworkPortView;

    open spec fn view(&self) -> NetworkPortView {
        NetworkPortView {
            network_type: self.network_type,
            network_number: self.network_number,
            mac_address: self.mac_address@,
            max_apdu_length_accepted: self.max_apdu_length_accepted,
            ip_address: self.ip_address@,
            ip_default_gateway: self.ip_default_gateway@,
            ip_subnet_mask: self.ip_subnet_mask@,
            ip_udp_port: self.ip_udp_port,
            bacnet_ip_mode: self.bacnet_ip_mode,
            bbmd_accept_fd_registrations: self.bbmd_accept_fd_registrations,
            bbmd_broadcast_distribution_table: self.bbmd_broadcast_distribution_table@.map_values(
                |e: Vec<u8>| e@,
            ),
            bbmd_foreign_device_table: self.bbmd_foreign_device_table@.map_values(|e: Vec<u8>| e@),
        }
    }
}

/// The live state of a BBMD as published to its NetworkPort objects.
#[derive(Clone, Debug)]
pub struct BbmdTables {
    /// Whether foreign-device registrations are accepted.
    pub accept_foreign_devices: bool,
    /// Broadcast Distribution Table.
    pub bdt: Vec<BdtEntry>,
    /// Foreign Device Table.
    pub fdt: Vec<FdtEntryWire>,
}

/// Whether a NetworkPort object of this type is bound to the B/IP transport.
pub open spec fn binds_to_bip(network_type: u32) -> bool {
    network_type == NETWORK_TYPE_IPV4
}

/// Only IPv4 NetworkPort objects are bound to the B/IP transport.
pub fn is_bip_port(snapshot: &NetworkPortSnapshot) -> (r: bool)
    ensures
        r == binds_to_bip(snapshot.network_type),
{
    snapshot.network_type == NETWORK_TYPE_IPV4
}

/// Whether activation publishes anything: there are bound ports and the
/// transport's address is a six-byte B/IP MAC.
pub fn activation_applies(bound_ports: usize, local_mac: &[u8]) -> (r: bool)
    ensures
        r == (bound_ports > 0 && local_mac@.len() == 6),
{
    bound_ports > 0 && local_mac.len() == 6
}

/// `baseline` with the address of a running B/IP transport: the MAC is the
/// transport's, the IP address its first four bytes, the UDP port its last two
/// (big-endian), and the maximum APDU length the transport's.
pub fn with_bip_identity(baseline: &NetworkPortSnapshot, local_mac: &[u8], max_apdu_length: u32) -> (r:
    NetworkPortSnapshot)
    requires
        local_mac@.len() == 6,
    ensures
        r@ == (NetworkPortView {
            mac_address: local_mac@,
            ip_address: local_mac@.subrange(0, 4),
            ip_udp_port: (local_mac@[4] * 256 + local_mac@[5]) as u16,
            max_apdu_length_accepted: max_apdu_length,
            ..baseline@
        }),
{
    let ip = copy_mac(&local_mac[0..4]);
    let hi: u16 = local_mac[4] as u16;
    let lo: u16 = local_mac[5] as u16;
    let r = NetworkPortSnapshot {
        network_type: baseline.network_type,
        network_number: baseline.network_number,
        mac_address: copy_mac(local_mac),
        max_apdu_length_accepted: max_apdu_length,
        ip_address: ip,
        ip_default_gateway: copy_mac(baseline.ip_default_gateway.as_slice()),
        ip_subnet_mask: copy_mac(baseline.ip_subnet_mask.as_slice()),
        ip_udp_port: hi * 256 + lo,
        bacnet_ip_mode: baseline.bacnet_ip_mode,
        bbmd_accept_fd_registrations: baseline.bbmd_accept_fd_registrations,
        bbmd_broadcast_distribution_table: copy_tables(&baseline.bbmd_broadcast_distribution_table),
        bbmd_foreign_device_table: copy_tables(&baseline.bbmd_foreign_device_table),
    };
    assert(r@.bbmd_broadcast_distribution_table =~= baseline@.bbmd_broadcast_distribution_table);
    assert(r@.bbmd_foreign_device_table =~= baseline@.bbmd_foreign_device_table);
    r
}

fn copy_tables(t: &Vec<Vec<u8>>) -> (r: Vec<Vec<u8>>)
    ensures
        r@.map_values(|e: Vec<u8>| e@) == t@.map_values(|e: Vec<u8>| e@),
{
    let mut out: Vec<Vec<u8>> = Vec::new();
    let mut i: usize = 0;
    while i < t.len()
        invariant
            i <= t@.len(),
            out@.len() == i,
            forall|j: int| 0 <= j < i ==> (#[trigger] out@[j])@ == t@[j]@,
        decreases t@.len() - i,
    {
        out.push(copy_mac(t[i].as_slice()));
        i = i + 1;
    }
    assert(out@.map_values(|e: Vec<u8>| e@) =~= t@.map_values(|e: Vec<u8>| e@));
    out
}

/// Every bound port with the address of the running B/IP transport.
pub fn ports_with_bip_identity(ports: &Vec<NetworkPortSnapshot>, local_mac: &[u8], max_apdu_length: u32) -> (r:
    Vec<NetworkPortSnapshot>)
    requires
        local_mac@.len() == 6,
    ensures
        r@.len() == ports@.len(),
        forall|i: int|
            0 <= i < ports@.len() ==> (#[trigger] r@[i])@ == (NetworkPortView {
                mac_address: local_mac@,
                ip_address: local_mac@.subrange(0, 4),
                ip_udp_port: (local_mac@[4] * 256 + local_mac@[5]) as u16,
                max_apdu_length_accepted: max_apdu_length,
                ..ports@[i]@
            }),
{
    let mut out: Vec<NetworkPortSnapshot> = Vec::new();
    let mut i: usize = 0;
    while i < ports.len()
        invariant
            i <= ports@.len(),
            local_mac@.len() == 6,
            out@.len() == i,
            forall|j: int|
                0 <= j < i ==> (#[trigger] out@[j])@ == (NetworkPortView {
                    mac_address: local_mac@,
                    ip_address: local_mac@.subrange(0, 4),
                    ip_udp_port: (local_mac@[4] * 256 + local_mac@[5]) as u16,
                    max_apdu_length_accepted: max_apdu_length,
                    ..ports@[j]@
                }),
        decreases ports@.len() - i,
    {
        out.push(with_bip_identity(&ports[i], local_mac, max_apdu_length));
        i = i + 1;
    }
    out
}

/// `port` as published while no BBMD runs: IP mode NORMAL.
pub fn normal_mode_snapshot(port: &NetworkPortSnapshot) -> (r: NetworkPortSnapshot)
    ensures
        r@ == (NetworkPortView { bacnet_ip_mode: IP_MODE_NORMAL, ..port@ }),
{
    let r = NetworkPortSnapshot {
        network_type: port.network_type,
        network_number: port.network_number,
        mac_address: copy_mac(port.mac_address.as_slice()),
        max_apdu_length_accepted: port.max_apdu_length_accepted,
        ip_address: copy_mac(port.ip_address.as_slice()),
        ip_default_gateway: copy_mac(port.ip_default_gateway.as_slice()),
        ip_subnet_mask: copy_mac(port.ip_subnet_mask.as_slice()),
        ip_udp_port: port.ip_udp_port,
        bacnet_ip_mode: IP_MODE_NORMAL,
        bbmd_accept_fd_registrations: port.bbmd_accept_fd_registrations,
        bbmd_broadcast_distribution_table: copy_tables(&port.bbmd_broadcast_distribution_table),
        bbmd_foreign_device_table: copy_tables(&port.bbmd_foreign_device_table),
    };
    assert(r@.bbmd_broadcast_distribution_table =~= port@.bbmd_broadcast_distribution_table);
    assert(r@.bbmd_foreign_device_table =~= port@.bbmd_foreign_device_table);
    r
}

/// `port` as published while a BBMD runs: IP mode BBMD, the BBMD's
/// acceptance of foreign devices, and its BDT and FDT, each entry as its
/// 10-byte encoding, in table order.
pub fn bbmd_snapshot(port: &NetworkPortSnapshot, tables: &BbmdTables) -> (r: NetworkPortSnapshot)
    ensures
        r@ == (NetworkPortView {
            bacnet_ip_mode: IP_MODE_BBMD,
            bbmd_accept_fd_registrations: tables.accept_foreign_devices,
            bbmd_broadcast_distribution_table: tables.bdt@.map_values(|e: BdtEntry| encode_bdt_entry(e)),
            bbmd_foreign_device_table: tables.fdt@.map_values(|e: FdtEntryWire| encode_fdt_entry(e)),
            ..port@
        }),
{
    let mut bdt: Vec<Vec<u8>> = Vec::new();
    let mut i: usize = 0;
    while i < tables.bdt.len()
        invariant
            i <= tables.bdt@.len(),
            bdt@.len() == i,
            forall|j: int| 0 <= j < i ==> (#[trigger] bdt@[j])@ == encode_bdt_entry(tables.bdt@[j]),
        decreases tables.bdt@.len() - i,
    {
        bdt.push(encoded_bdt_entry(&tables.bdt[i]));
        i = i + 1;
    }
    let mut fdt: Vec<Vec<u8>> = Vec::new();
    let mut k: usize = 0;
    while k < tables.fdt.len()
        invariant
            k <= tables.fdt@.len(),
            fdt@.len() == k,
            forall|j: int| 0 <= j < k ==> (#[trigger] fdt@[j])@ == encode_fdt_entry(tables.fdt@[j]),
        decreases tables.fdt@.len() - k,
    {
        fdt.push(encoded_fdt_entry(&tables.fdt[k]));
        k = k + 1;
    }
    let r = NetworkPortSnapshot {
        network_type: port.network_type,
        network_number: port.network_number,
        mac_address: copy_mac(port.mac_address.as_slice()),
        max_apdu_length_accepted: port.max_apdu_length_accepted,
        ip_address: copy_mac(port.ip_address.as_slice()),
        ip_default_gateway: copy_mac(port.ip_default_gateway.as_slice()),
        ip_subnet_mask: copy_mac(port.ip_subnet_mask.as_slice()),
        ip_udp_port: port.ip_udp_port,
        bacnet_ip_mode: IP_MODE_BBMD,
        bbmd_accept_fd_registrations: tables.accept_foreign_devices,
        bbmd_broadcast_distribution_table: bdt,
        bbmd_foreign_device_table: fdt,
    };
    assert(r@.bbmd_broadcast_distribution_table =~= tables.bdt@.map_values(
        |e: BdtEntry| encode_bdt_entry(e),
    ));
    assert(r@.bbmd_foreign_device_table =~= tables.fdt@.map_values(
        |e: FdtEntryWire| encode_fdt_entry(e),
    ));
    r
}

} // verus!
