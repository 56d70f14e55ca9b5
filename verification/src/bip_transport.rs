//! Settings and outbound framing of a B/IP transport.
//!
//! Socket options, BBMD mode and foreign-device registration are settled
//! before the transport starts; once its port is bound, unicast NPDUs go out
//! as Original-Unicast-NPDU, and broadcasts either as Original-Broadcast-NPDU
//! on the configured broadcast address or, for a registered foreign device,
//! as Distribute-Broadcast-To-Network to its BBMD.

use vstd::prelude::*;
use crate::bbmd::{BdtEntry, MAX_FDT_ENTRIES};
use crate::bip_start::{check_bip_start, BbmdConfig};
use crate::bvlc::{bvll_frame, encode_bvll, BvlcFunction, BVLL_HEADER_LEN, MAX_BVLL_FRAME_LEN};
use crate::bvlc_exchange::BipEndpoint;
use crate::error::{Error, TransportErrorKind};

verus! {

/// The BBMD settings as plain values: initial BDT, management ACL,
/// acceptance of foreign devices, FDT capacity.
pub struct BbmdSettingsView {
    pub initial_bdt: Seq<BdtEntry>,
    pub management_acl: Seq<[u8; 4]>,
    pub accept_foreign_devices: bool,
    pub max_fdt_entries: usize,
}

/// The plain-value form of a BBMD configuration.
pub open spec fn bbmd_settings(c: BbmdConfig) -> BbmdSettingsView {
    BbmdSettingsView {
        initial_bdt: c.initial_bdt@,
        management_acl: c.management_acl@,
        accept_foreign_devices: c.accept_foreign_devices,
        max_fdt_entries: c.max_fdt_entries,
    }
}

/// Settings of one B/IP transport.
pub struct BipSettings {
    interface: [u8; 4],
    port: u16,
    broadcast_address: [u8; 4],
    reuse_port: bool,
    bbmd: Option<BbmdConfig>,
    foreign_device: Option<(BipEndpoint, u16)>,
    start_committed: bool,
}

impl BipSettings {
    /// Local interface address.
    pub closed spec fn interface_view(&self) -> [u8; 4] {
        self.interface
    }

    /// UDP port: the configured one, the bound one once started.
    pub closed spec fn port_view(&self) -> u16 {
        self.port
    }

    /// Directed broadcast address.
    pub closed spec fn broadcast_view(&self) -> [u8; 4] {
        self.broadcast_address
    }

    /// Whether SO_REUSEPORT is requested.
    pub closed spec fn reuse_port_view(&self) -> bool {
        self.reuse_port
    }

    /// BBMD settings, when BBMD mode is enabled and not yet taken by start.
    pub closed spec fn bbmd_view(&self) -> Option<BbmdSettingsView> {
        match self.bbmd {
            Some(c) => Some(bbmd_settings(c)),
            None => None,
        }
    }

    /// The BBMD to register with and the TTL, for a foreign device.
    pub closed spec fn foreign_device_view(&self) -> Option<(BipEndpoint, u16)> {
        self.foreign_device
    }

    /// Whether start has been committed to.
    pub closed spec fn started_view(&self) -> bool {
        self.start_committed
    }

    /// Settings for a transport on `interface:port` broadcasting to
    /// `broadcast_address`: no socket option, no BBMD, no registration.
    pub fn new(interface: [u8; 4], port: u16, broadcast_address: [u8; 4]) -> (r: BipSettings)
        ensures
            r.interface_view() == interface,
            r.port_view() == port,
            r.broadcast_view() == broadcast_address,
            !r.reuse_port_view(),
            r.bbmd_view() is None,
            r.foreign_device_view() is None,
            !r.started_view(),
    {
        BipSettings {
            interface,
            port,
            broadcast_address,
            reuse_port: false,
            bbmd: None,
            foreign_device: None,
            start_committed: false,
        }
    }

    /// Requests SO_REUSEPORT; refused once start was committed to.
    pub fn set_reuse_port(&mut self, enabled: bool) -> (r: Result<(), Error>)
        ensures
            r is Ok <==> !old(self).started_view(),
            r is Ok ==> final(self).reuse_port_view() == enabled,
            r matches Err(e) ==> (e matches Error::Transport { kind, .. } && kind
                == TransportErrorKind::InvalidInput),
            r is Err ==> final(self).reuse_port_view() == old(self).reuse_port_view(),
            final(self).bbmd_view() == old(self).bbmd_view(),
            final(self).foreign_device_view() == old(self).foreign_device_view(),
            final(self).started_view() == old(self).started_view(),
            final(self).port_view() == old(self).port_view(),
    {
        if self.start_committed {
            return Err(
                Error::Transport {
                    kind: TransportErrorKind::InvalidInput,
                    message: "SO_REUSEPORT must be configured before B/IP transport start".to_owned(),
                },
            );
        }
        self.reuse_port = enabled;
        Ok(())
    }

    /// Enables BBMD mode with `bdt` as the initial table: an empty ACL,
    /// foreign devices accepted, the full FDT capacity.
    pub fn enable_bbmd(&mut self, bdt: Vec<BdtEntry>)
        ensures
            final(self).bbmd_view() == Some(
                BbmdSettingsView {
                    initial_bdt: bdt@,
                    management_acl: Seq::<[u8; 4]>::empty(),
                    accept_foreign_devices: true,
                    max_fdt_entries: MAX_FDT_ENTRIES,
                },
            ),
            final(self).foreign_device_view() == old(self).foreign_device_view(),
            final(self).started_view() == old(self).started_view(),
            final(self).port_view() == old(self).port_view(),
            final(self).reuse_port_view() == old(self).reuse_port_view(),
    {
        let config = BbmdConfig {
            initial_bdt: bdt,
            management_acl: Vec::new(),
            accept_foreign_devices: true,
            max_fdt_entries: MAX_FDT_ENTRIES,
        };
        assert(bbmd_settings(config).management_acl =~= Seq::<[u8; 4]>::empty());
        self.bbmd = Some(config);
    }

    /// Sets whether the BBMD accepts foreign devices; BBMD mode is required.
    pub fn set_bbmd_accept_foreign_devices(&mut self, accept: bool) -> (r: Result<(), Error>)
        ensures
            r is Ok <==> old(self).bbmd_view() is Some,
            r matches Err(e) ==> e is Encoding,
            r is Err ==> final(self).bbmd_view() == old(self).bbmd_view(),
            r is Ok ==> final(self).bbmd_view() == Some(
                BbmdSettingsView { accept_foreign_devices: accept, ..old(self).bbmd_view()->0 },
            ),
            final(self).foreign_device_view() == old(self).foreign_device_view(),
            final(self).started_view() == old(self).started_view(),
            final(self).port_view() == old(self).port_view(),
    {
        match self.bbmd.take() {
            Some(c) => {
                self.bbmd = Some(BbmdConfig { accept_foreign_devices: accept, ..c });
                Ok(())
            },
            None => Err(Error::Encoding("set_bbmd_accept_foreign_devices requires enable_bbmd".to_owned())),
        }
    }

    /// Sets the BBMD's FDT capacity, which must be in `1..=MAX_FDT_ENTRIES`;
    /// BBMD mode is required.
    pub fn set_bbmd_max_fdt_entries(&mut self, maximum: usize) -> (r: Result<(), Error>)
        ensures
            r is Ok <==> 1 <= maximum <= MAX_FDT_ENTRIES && old(self).bbmd_view() is Some,
            r matches Err(e) ==> e is Encoding,
            r is Err ==> final(self).bbmd_view() == old(self).bbmd_view(),
            r is Ok ==> final(self).bbmd_view() == Some(
                BbmdSettingsView { max_fdt_entries: maximum, ..old(self).bbmd_view()->0 },
            ),
            final(self).foreign_device_view() == old(self).foreign_device_view(),
            final(self).started_view() == old(self).started_view(),
            final(self).port_view() == old(self).port_view(),
    {
        if maximum == 0 || maximum > MAX_FDT_ENTRIES {
            return Err(Error::Encoding("FDT capacity must be in 1..=512".to_owned()));
        }
        match self.bbmd.take() {
            Some(c) => {
                self.bbmd = Some(BbmdConfig { max_fdt_entries: maximum, ..c });
                Ok(())
            },
            None => Err(Error::Encoding("set_bbmd_max_fdt_entries requires enable_bbmd".to_owned())),
        }
    }

    /// Sets the BBMD's management ACL; without BBMD mode the call is
    /// ignored. An empty ACL denies every Delete-FDT-Entry sender.
    pub fn set_bbmd_management_acl(&mut self, acl: Vec<[u8; 4]>)
        ensures
            old(self).bbmd_view() is Some ==> final(self).bbmd_view() == Some(
                BbmdSettingsView { management_acl: acl@, ..old(self).bbmd_view()->0 },
            ),
            old(self).bbmd_view() is None ==> final(self).bbmd_view() is None,
            final(self).foreign_device_view() == old(self).foreign_device_view(),
            final(self).started_view() == old(self).started_view(),
            final(self).port_view() == old(self).port_view(),
    {
        match self.bbmd.take() {
            Some(c) => {
                self.bbmd = Some(BbmdConfig { management_acl: acl, ..c });
            },
            None => {},
        }
    }

    /// Registers this transport as a foreign device of the BBMD at
    /// `bbmd` with `ttl` seconds of lifetime.
    pub fn register_as_foreign_device(&mut self, bbmd: BipEndpoint, ttl: u16)
        ensures
            final(self).foreign_device_view() == Some((bbmd, ttl)),
            final(self).bbmd_view() == old(self).bbmd_view(),
            final(self).started_view() == old(self).started_view(),
            final(self).port_view() == old(self).port_view(),
    {
        self.foreign_device = Some((bbmd, ttl));
    }

    /// Commits to starting: the checks that precede opening the socket (see
    /// [`check_bip_start`]); on success, later socket options are refused.
    pub fn commit_start(&mut self) -> (r: Result<(), Error>)
        ensures
            r is Ok <==> !old(self).started_view() && match old(self).foreign_device_view() {
                Some(fd) => fd.1 != 0,
                None => true,
            },
            r is Ok ==> final(self).started_view(),
            r is Err ==> final(self).started_view() == old(self).started_view(),
            final(self).bbmd_view() == old(self).bbmd_view(),
            final(self).foreign_device_view() == old(self).foreign_device_view(),
            final(self).port_view() == old(self).port_view(),
    {
        let ttl = match self.foreign_device {
            Some(fd) => Some(fd.1),
            None => None,
        };
        check_bip_start(self.start_committed, ttl)?;
        self.start_committed = true;
        Ok(())
    }

    /// Records the port the socket was bound to.
    pub fn record_bound_port(&mut self, port: u16)
        ensures
            final(self).port_view() == port,
            final(self).bbmd_view() == old(self).bbmd_view(),
            final(self).foreign_device_view() == old(self).foreign_device_view(),
            final(self).started_view() == old(self).started_view(),
            final(self).broadcast_view() == old(self).broadcast_view(),
    {
        self.port = port;
    }

    /// Hands the BBMD settings to the starting transport; they are not
    /// kept.
    pub fn take_bbmd_config(&mut self) -> (r: Option<BbmdConfig>)
        ensures
            match r {
                Some(c) => old(self).bbmd_view() == Some(bbmd_settings(c)),
                None => old(self).bbmd_view() is None,
            },
            final(self).bbmd_view() is None,
            final(self).foreign_device_view() == old(self).foreign_device_view(),
            final(self).started_view() == old(self).started_view(),
            final(self).port_view() == old(self).port_view(),
    {
        self.bbmd.take()
    }

    /// Where and in which frame a broadcast NPDU goes: to the BBMD as
    /// Distribute-Broadcast-To-Network for a registered foreign device,
    /// otherwise to the broadcast address on this transport's port as
    /// Original-Broadcast-NPDU.
    pub fn broadcast_frame(&self, npdu: &[u8]) -> (r: Result<(BipEndpoint, Vec<u8>), Error>)
        ensures
            r is Ok <==> npdu@.len() + BVLL_HEADER_LEN <= MAX_BVLL_FRAME_LEN,
            r matches Ok(t) ==> match self.foreign_device_view() {
                Some(fd) => t.0 == fd.0 && t.1@ == bvll_frame(
                    BvlcFunction::DISTRIBUTE_BROADCAST_TO_NETWORK,
                    npdu@,
                ),
                None => t.0 == (self.broadcast_view(), self.port_view()) && t.1@ == bvll_frame(
                    BvlcFunction::ORIGINAL_BROADCAST_NPDU,
                    npdu@,
                ),
            },
            r matches Err(e) ==> e is Encoding,
    {
        match self.foreign_device {
            Some(fd) => {
                let frame = encode_bvll(BvlcFunction::DISTRIBUTE_BROADCAST_TO_NETWORK, npdu)?;
                Ok((fd.0, frame))
            },
            None => {
                let frame = encode_bvll(BvlcFunction::ORIGINAL_BROADCAST_NPDU, npdu)?;
                Ok(((self.broadcast_address, self.port), frame))
            },
        }
    }
}

/// Where and in which frame a unicast NPDU to `mac` goes: the MAC must be a
/// six-byte B/IP address, and the NPDU is sent as Original-Unicast-NPDU.
pub fn unicast_frame(npdu: &[u8], mac: &[u8]) -> (r: Result<(BipEndpoint, Vec<u8>), Error>)
    ensures
        r is Ok <==> mac@.len() == 6 && npdu@.len() + BVLL_HEADER_LEN <= MAX_BVLL_FRAME_LEN,
        r matches Ok(t) ==> crate::topology::bip_mac(t.0.0, t.0.1) == mac@ && t.1@ == bvll_frame(
            BvlcFunction::ORIGINAL_UNICAST_NPDU,
            npdu@,
        ),
        r matches Err(e) ==> e is Encoding,
{
    if mac.len() != 6 {
        return Err(Error::Encoding("B/IP MAC must be 6 bytes".to_owned()));
    }
    let ip: [u8; 4] = [mac[0], mac[1], mac[2], mac[3]];
    let port: u16 = (mac[4] as u16) * 256 + (mac[5] as u16);
    let frame = encode_bvll(BvlcFunction::ORIGINAL_UNICAST_NPDU, npdu)?;
    assert(crate::topology::bip_mac(ip, port) =~= mac@) by {
        assert((port / 256) as u8 == mac@[4]);
        assert((port % 256) as u8 == mac@[5]);
    }
    Ok(((ip, port), frame))
}

} // verus!
