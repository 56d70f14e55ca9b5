//! Server configuration and the builders that assemble it.
//!
//! Each builder setter replaces exactly one setting and leaves every other
//! one as it was; finishing a builder hands its parts to the code that
//! starts the server.

use vstd::prelude::*;
use crate::address::ObjectIdentifier;
use crate::cov::{CovPolicy, DEFAULT_MAX_SUBSCRIPTIONS_GLOBAL, DEFAULT_MAX_SUBSCRIPTIONS_PER_PEER, DEFAULT_MAX_INDEFINITE_PER_PEER};
use crate::error::Error;

verus! {

/// Segmentation support a device advertises and enforces.
#[derive(Clone, Copy, Debug, PartialEq, Eq, Structural)]
pub enum Segmentation {
    /// Transmits and receives segmented messages.
    Both,
    /// Transmits segmented messages only.
    Transmit,
    /// Receives segmented messages only.
    Receive,
    /// Neither transmits nor receives segmented messages.
    NoSegmentation,
}

impl Segmentation {
    /// Whether inbound segmented requests are reassembled.
    pub fn receives_segments(self) -> (r: bool)
        ensures
            r == (self == Segmentation::Both || self == Segmentation::Receive),
    {
        match self {
            Segmentation::Both | Segmentation::Receive => true,
            _ => false,
        }
    }

    /// Whether segmented responses are transmitted.
    pub fn transmits_segments(self) -> (r: bool)
        ensures
            r == (self == Segmentation::Both || self == Segmentation::Transmit),
    {
        match self {
            Segmentation::Both | Segmentation::Transmit => true,
            _ => false,
        }
    }
}

/// Data from a TimeSynchronization request.
#[derive(Clone, Debug)]
pub struct TimeSyncData {
    /// Raw service request bytes (the caller decodes them if needed).
    pub raw_service_data: Vec<u8>,
    /// Whether this was a UTC time sync (vs. local).
    pub is_utc: bool,
}

/// Server configuration.
#[derive(Clone)]
pub struct ServerConfig {
    /// Local interface to bind.
    pub interface: [u8; 4],
    /// UDP port.
    pub port: u16,
    /// Directed broadcast address.
    pub broadcast_address: [u8; 4],
    /// Maximum APDU length accepted.
    pub max_apdu_length: u32,
    /// Segmentation support, enforced as advertised.
    pub segmentation_supported: Segmentation,
    /// Vendor identifier.
    pub vendor_id: u16,
    /// Milliseconds before a failed confirmed COV notification is retried.
    pub cov_retry_timeout_ms: u64,
    /// The one Audit Log that receives authorized notifications.
    pub audit_notification_sink: Option<ObjectIdentifier>,
    /// Password required for DeviceCommunicationControl.
    pub dcc_password: Option<String>,
    /// Password required for ReinitializeDevice.
    pub reinit_password: Option<String>,
    /// Periodic fault detection / reliability evaluation.
    pub enable_fault_detection: bool,
    /// Periodic Event Enrollment evaluation.
    pub enable_event_enrollment: bool,
    /// Seconds between Event Enrollment evaluation passes.
    pub event_enrollment_interval_secs: u64,
    /// COV quota policy.
    pub cov_policy: CovPolicy,
}

/// Default UDP port (0xBAC0).
pub const DEFAULT_BACNET_PORT: u16 = 0xBAC0;

/// Default maximum APDU length.
pub const DEFAULT_MAX_APDU_LENGTH: u32 = 1476;

/// Default confirmed COV notification retry timeout in milliseconds.
pub const DEFAULT_COV_RETRY_TIMEOUT_MS: u64 = 3000;

/// Default Event Enrollment evaluation interval in seconds.
pub const DEFAULT_EVENT_ENROLLMENT_INTERVAL_SECS: u64 = 10;

/// The default configuration, field by field.
pub open spec fn is_default_config(c: ServerConfig) -> bool {
    &&& c.interface == [0u8, 0, 0, 0]
    &&& c.port == DEFAULT_BACNET_PORT
    &&& c.broadcast_address == [255u8, 255, 255, 255]
    &&& c.max_apdu_length == DEFAULT_MAX_APDU_LENGTH
    &&& c.segmentation_supported == Segmentation::NoSegmentation
    &&& c.vendor_id == 0
    &&& c.cov_retry_timeout_ms == DEFAULT_COV_RETRY_TIMEOUT_MS
    &&& c.audit_notification_sink is None
    &&& c.dcc_password is None
    &&& c.reinit_password is None
    &&& !c.enable_fault_detection
    &&& c.enable_event_enrollment
    &&& c.event_enrollment_interval_secs == DEFAULT_EVENT_ENROLLMENT_INTERVAL_SECS
    &&& c.cov_policy.max_subscriptions_global == DEFAULT_MAX_SUBSCRIPTIONS_GLOBAL
    &&& c.cov_policy.max_subscriptions_per_peer == DEFAULT_MAX_SUBSCRIPTIONS_PER_PEER
    &&& c.cov_policy.max_indefinite_per_peer == DEFAULT_MAX_INDEFINITE_PER_PEER
    &&& c.cov_policy.allow_indefinite_subscriptions
    &&& c.cov_policy.reserved_capacity == 0
    &&& c.cov_policy.reserved_peers@.len() == 0
    &&& c.cov_policy.reserved_peer_keys@.len() == 0
}

impl Default for ServerConfig {
    fn default() -> (r: ServerConfig)
        ensures
            is_default_config(r),
    {
        ServerConfig {
            interface: [0, 0, 0, 0],
            port: DEFAULT_BACNET_PORT,
            broadcast_address: [255, 255, 255, 255],
            max_apdu_length: DEFAULT_MAX_APDU_LENGTH,
            segmentation_supported: Segmentation::NoSegmentation,
            vendor_id: 0,
            cov_retry_timeout_ms: DEFAULT_COV_RETRY_TIMEOUT_MS,
            audit_notification_sink: None,
            dcc_password: None,
            reinit_password: None,
            enable_fault_detection: false,
            enable_event_enrollment: true,
            event_enrollment_interval_secs: DEFAULT_EVENT_ENROLLMENT_INTERVAL_SECS,
            cov_policy: CovPolicy::default(),
        }
    }
}

impl ServerConfig {
    /// Event Enrollment interval actually used: zero is taken as one second.
    pub fn effective_event_enrollment_interval_secs(&self) -> (r: u64)
        ensures
            r == (if self.event_enrollment_interval_secs == 0 {
                1
            } else {
                self.event_enrollment_interval_secs
            }),
    {
        if self.event_enrollment_interval_secs == 0 {
            1
        } else {
            self.event_enrollment_interval_secs
        }
    }
}

// ----------------------------------------------------------------------------
// Generic builder
// ----------------------------------------------------------------------------

/// Builder of a server over a caller-provided transport `T`, object
/// database `D` and passive APDU observer `O`.
pub struct ServerBuilder<T, D, O> {
    config: ServerConfig,
    db: D,
    transport: Option<T>,
    apdu_observer: Option<O>,
}

impl<T, D, O> ServerBuilder<T, D, O> {
    /// Configuration assembled so far.
    pub closed spec fn config_view(&self) -> ServerConfig {
        self.config
    }

    /// Object database.
    pub closed spec fn db_view(&self) -> D {
        self.db
    }

    /// Transport, once set.
    pub closed spec fn transport_view(&self) -> Option<T> {
        self.transport
    }

    /// APDU observer, once set.
    pub closed spec fn observer_view(&self) -> Option<O> {
        self.apdu_observer
    }

    /// A builder with the default configuration, database `db` and no
    /// transport.
    pub fn new(db: D) -> (r: Self)
        ensures
            is_default_config(r.config_view()),
            r.db_view() == db,
            r.transport_view() is None,
            r.observer_view() is None,
    {
        ServerBuilder { config: ServerConfig::default(), db, transport: None, apdu_observer: None }
    }

    /// Attach a bounded, passive network-layer APDU observer.
    pub fn apdu_observer(self, observer: O) -> (r: Self)
        ensures
            r.config_view() == self.config_view(),
            r.db_view() == self.db_view(),
            r.transport_view() == self.transport_view(),
            r.observer_view() == Some(observer),
    {
        ServerBuilder { config: self.config, db: self.db, transport: self.transport, apdu_observer: Some(observer) }
    }

    /// Set the object database (transfers ownership).
    pub fn database(self, db: D) -> (r: Self)
        ensures
            r.config_view() == self.config_view(),
            r.db_view() == db,
            r.transport_view() == self.transport_view(),
            r.observer_view() == self.observer_view(),
    {
        ServerBuilder { config: self.config, db, transport: self.transport, apdu_observer: self.apdu_observer }
    }

    /// Set the pre-built transport.
    pub fn transport(self, transport: T) -> (r: Self)
        ensures
            r.config_view() == self.config_view(),
            r.db_view() == self.db_view(),
            r.transport_view() == Some(transport),
            r.observer_view() == self.observer_view(),
    {
        ServerBuilder { config: self.config, db: self.db, transport: Some(transport), apdu_observer: self.apdu_observer }
    }

    /// Set the password required for ReinitializeDevice requests.
    pub fn reinit_password(self, password: String) -> (r: Self)
        ensures
            r.config_view() == (ServerConfig { reinit_password: Some(password), ..self.config_view() }),
            r.db_view() == self.db_view(),
            r.transport_view() == self.transport_view(),
            r.observer_view() == self.observer_view(),
    {
        let ServerBuilder { config, db, transport, apdu_observer } = self;
        ServerBuilder { config: ServerConfig { reinit_password: Some(password), ..config }, db, transport, apdu_observer }
    }

    /// Select the only local Audit Log that receives authorized notifications.
    pub fn audit_notification_sink(self, sink: ObjectIdentifier) -> (r: Self)
        ensures
            r.config_view() == (ServerConfig { audit_notification_sink: Some(sink), ..self.config_view() }),
            r.db_view() == self.db_view(),
            r.transport_view() == self.transport_view(),
            r.observer_view() == self.observer_view(),
    {
        let ServerBuilder { config, db, transport, apdu_observer } = self;
        ServerBuilder { config: ServerConfig { audit_notification_sink: Some(sink), ..config }, db, transport, apdu_observer }
    }

    /// Enable periodic fault detection / reliability evaluation.
    pub fn enable_fault_detection(self, enabled: bool) -> (r: Self)
        ensures
            r.config_view() == (ServerConfig { enable_fault_detection: enabled, ..self.config_view() }),
            r.db_view() == self.db_view(),
            r.transport_view() == self.transport_view(),
            r.observer_view() == self.observer_view(),
    {
        let ServerBuilder { config, db, transport, apdu_observer } = self;
        ServerBuilder { config: ServerConfig { enable_fault_detection: enabled, ..config }, db, transport, apdu_observer }
    }

    /// Enable periodic Event Enrollment evaluation (default `true`).
    pub fn enable_event_enrollment(self, enabled: bool) -> (r: Self)
        ensures
            r.config_view() == (ServerConfig { enable_event_enrollment: enabled, ..self.config_view() }),
            r.db_view() == self.db_view(),
            r.transport_view() == self.transport_view(),
            r.observer_view() == self.observer_view(),
    {
        let ServerBuilder { config, db, transport, apdu_observer } = self;
        ServerBuilder { config: ServerConfig { enable_event_enrollment: enabled, ..config }, db, transport, apdu_observer }
    }

    /// Set the interval in seconds between Event Enrollment evaluation passes
    /// (default 10; zero is taken as one second).
    pub fn event_enrollment_interval_secs(self, secs: u64) -> (r: Self)
        ensures
            r.config_view() == (ServerConfig { event_enrollment_interval_secs: secs, ..self.config_view() }),
            r.db_view() == self.db_view(),
            r.transport_view() == self.transport_view(),
            r.observer_view() == self.observer_view(),
    {
        let ServerBuilder { config, db, transport, apdu_observer } = self;
        ServerBuilder { config: ServerConfig { event_enrollment_interval_secs: secs, ..config }, db, transport, apdu_observer }
    }

    /// Set the segmentation support this device advertises and enforces.
    pub fn segmentation_supported(self, segmentation: Segmentation) -> (r: Self)
        ensures
            r.config_view() == (ServerConfig { segmentation_supported: segmentation, ..self.config_view() }),
            r.db_view() == self.db_view(),
            r.transport_view() == self.transport_view(),
            r.observer_view() == self.observer_view(),
    {
        let ServerBuilder { config, db, transport, apdu_observer } = self;
        ServerBuilder { config: ServerConfig { segmentation_supported: segmentation, ..config }, db, transport, apdu_observer }
    }

    /// Set the vendor identifier.
    pub fn vendor_id(self, id: u16) -> (r: Self)
        ensures
            r.config_view() == (ServerConfig { vendor_id: id, ..self.config_view() }),
            r.db_view() == self.db_view(),
            r.transport_view() == self.transport_view(),
            r.observer_view() == self.observer_view(),
    {
        let ServerBuilder { config, db, transport, apdu_observer } = self;
        ServerBuilder { config: ServerConfig { vendor_id: id, ..config }, db, transport, apdu_observer }
    }

    /// Set the COV quota policy.
    pub fn cov_policy(self, policy: CovPolicy) -> (r: Self)
        ensures
            r.config_view() == (ServerConfig { cov_policy: policy, ..self.config_view() }),
            r.db_view() == self.db_view(),
            r.transport_view() == self.transport_view(),
            r.observer_view() == self.observer_view(),
    {
        let ServerBuilder { config, db, transport, apdu_observer } = self;
        ServerBuilder { config: ServerConfig { cov_policy: policy, ..config }, db, transport, apdu_observer }
    }

    /// The parts a server starts from; an encoding error when no transport
    /// was set.
    pub fn finish(self) -> (r: Result<(ServerConfig, D, T, Option<O>), Error>)
        ensures
            self.transport_view() is None <==> r is Err,
            r matches Err(e) ==> e is Encoding,
            r matches Ok(parts) ==> parts.0 == self.config_view() && parts.1 == self.db_view() && Some(parts.2)
                == self.transport_view() && parts.3 == self.observer_view(),
    {
        match self.transport {
            Some(t) => Ok((self.config, self.db, t, self.apdu_observer)),
            None => Err(Error::Encoding("transport not set on ServerBuilder".to_owned())),
        }
    }
}


// ----------------------------------------------------------------------------
// B/IP builder
// ----------------------------------------------------------------------------

/// Builder of a B/IP server, whose transport is made from the configured
/// interface, port and broadcast address; `D` is the object database and `O`
/// the passive APDU observer.
pub struct BipServerBuilder<D, O> {
    config: ServerConfig,
    db: D,
    apdu_observer: Option<O>,
}

impl<D, O> BipServerBuilder<D, O> {
    /// Configuration assembled so far.
    pub closed spec fn config_view(&self) -> ServerConfig {
        self.config
    }

    /// Object database.
    pub closed spec fn db_view(&self) -> D {
        self.db
    }

    /// APDU observer, once set.
    pub closed spec fn observer_view(&self) -> Option<O> {
        self.apdu_observer
    }

    /// A builder with the default configuration and database `db`.
    pub fn new(db: D) -> (r: Self)
        ensures
            is_default_config(r.config_view()),
            r.db_view() == db,
            r.observer_view() is None,
    {
        BipServerBuilder { config: ServerConfig::default(), db, apdu_observer: None }
    }

    /// Attach a bounded, passive network-layer APDU observer.
    pub fn apdu_observer(self, observer: O) -> (r: Self)
        ensures
            r.config_view() == self.config_view(),
            r.db_view() == self.db_view(),
            r.observer_view() == Some(observer),
    {
        BipServerBuilder { config: self.config, db: self.db, apdu_observer: Some(observer) }
    }

    /// Set the object database (transfers ownership).
    pub fn database(self, db: D) -> (r: Self)
        ensures
            r.config_view() == self.config_view(),
            r.db_view() == db,
            r.observer_view() == self.observer_view(),
    {
        BipServerBuilder { config: self.config, db, apdu_observer: self.apdu_observer }
    }

    /// Set the local interface IP.
    pub fn interface(self, ip: [u8; 4]) -> (r: Self)
        ensures
            r.config_view() == (ServerConfig { interface: ip, ..self.config_view() }),
            r.db_view() == self.db_view(),
            r.observer_view() == self.observer_view(),
    {
        let BipServerBuilder { config, db, apdu_observer } = self;
        BipServerBuilder { config: ServerConfig { interface: ip, ..config }, db, apdu_observer }
    }

    /// Set the UDP port.
    pub fn port(self, port: u16) -> (r: Self)
        ensures
            r.config_view() == (ServerConfig { port: port, ..self.config_view() }),
            r.db_view() == self.db_view(),
            r.observer_view() == self.observer_view(),
    {
        let BipServerBuilder { config, db, apdu_observer } = self;
        BipServerBuilder { config: ServerConfig { port: port, ..config }, db, apdu_observer }
    }

    /// Set the directed broadcast address.
    pub fn broadcast_address(self, addr: [u8; 4]) -> (r: Self)
        ensures
            r.config_view() == (ServerConfig { broadcast_address: addr, ..self.config_view() }),
            r.db_view() == self.db_view(),
            r.observer_view() == self.observer_view(),
    {
        let BipServerBuilder { config, db, apdu_observer } = self;
        BipServerBuilder { config: ServerConfig { broadcast_address: addr, ..config }, db, apdu_observer }
    }

    /// Set the password required for ReinitializeDevice requests.
    pub fn reinit_password(self, password: String) -> (r: Self)
        ensures
            r.config_view() == (ServerConfig { reinit_password: Some(password), ..self.config_view() }),
            r.db_view() == self.db_view(),
            r.observer_view() == self.observer_view(),
    {
        let BipServerBuilder { config, db, apdu_observer } = self;
        BipServerBuilder { config: ServerConfig { reinit_password: Some(password), ..config }, db, apdu_observer }
    }

    /// Select the only local Audit Log that receives authorized notifications.
    pub fn audit_notification_sink(self, sink: ObjectIdentifier) -> (r: Self)
        ensures
            r.config_view() == (ServerConfig { audit_notification_sink: Some(sink), ..self.config_view() }),
            r.db_view() == self.db_view(),
            r.observer_view() == self.observer_view(),
    {
        let BipServerBuilder { config, db, apdu_observer } = self;
        BipServerBuilder { config: ServerConfig { audit_notification_sink: Some(sink), ..config }, db, apdu_observer }
    }

    /// Enable periodic fault detection / reliability evaluation.
    pub fn enable_fault_detection(self, enabled: bool) -> (r: Self)
        ensures
            r.config_view() == (ServerConfig { enable_fault_detection: enabled, ..self.config_view() }),
            r.db_view() == self.db_view(),
            r.observer_view() == self.observer_view(),
    {
        let BipServerBuilder { config, db, apdu_observer } = self;
        BipServerBuilder { config: ServerConfig { enable_fault_detection: enabled, ..config }, db, apdu_observer }
    }

    /// Enable periodic Event Enrollment evaluation (default `true`).
    pub fn enable_event_enrollment(self, enabled: bool) -> (r: Self)
        ensures
            r.config_view() == (ServerConfig { enable_event_enrollment: enabled, ..self.config_view() }),
            r.db_view() == self.db_view(),
            r.observer_view() == self.observer_view(),
    {
        let BipServerBuilder { config, db, apdu_observer } = self;
        BipServerBuilder { config: ServerConfig { enable_event_enrollment: enabled, ..config }, db, apdu_observer }
    }

    /// Set the interval in seconds between Event Enrollment evaluation passes
    /// (default 10; zero is taken as one second).
    pub fn event_enrollment_interval_secs(self, secs: u64) -> (r: Self)
        ensures
            r.config_view() == (ServerConfig { event_enrollment_interval_secs: secs, ..self.config_view() }),
            r.db_view() == self.db_view(),
            r.observer_view() == self.observer_view(),
    {
        let BipServerBuilder { config, db, apdu_observer } = self;
        BipServerBuilder { config: ServerConfig { event_enrollment_interval_secs: secs, ..config }, db, apdu_observer }
    }

    /// Set the segmentation support this device advertises and enforces.
    pub fn segmentation_supported(self, segmentation: Segmentation) -> (r: Self)
        ensures
            r.config_view() == (ServerConfig { segmentation_supported: segmentation, ..self.config_view() }),
            r.db_view() == self.db_view(),
            r.observer_view() == self.observer_view(),
    {
        let BipServerBuilder { config, db, apdu_observer } = self;
        BipServerBuilder { config: ServerConfig { segmentation_supported: segmentation, ..config }, db, apdu_observer }
    }

    /// Set the vendor identifier advertised in I-Am responses.
    pub fn vendor_id(self, id: u16) -> (r: Self)
        ensures
            r.config_view() == (ServerConfig { vendor_id: id, ..self.config_view() }),
            r.db_view() == self.db_view(),
            r.observer_view() == self.observer_view(),
    {
        let BipServerBuilder { config, db, apdu_observer } = self;
        BipServerBuilder { config: ServerConfig { vendor_id: id, ..config }, db, apdu_observer }
    }

    /// Set the COV quota policy.
    pub fn cov_policy(self, policy: CovPolicy) -> (r: Self)
        ensures
            r.config_view() == (ServerConfig { cov_policy: policy, ..self.config_view() }),
            r.db_view() == self.db_view(),
            r.observer_view() == self.observer_view(),
    {
        let BipServerBuilder { config, db, apdu_observer } = self;
        BipServerBuilder { config: ServerConfig { cov_policy: policy, ..config }, db, apdu_observer }
    }

    /// The parts a B/IP server starts from; its transport binds to the
    /// configured interface and port and broadcasts to the configured
    /// broadcast address.
    pub fn finish(self) -> (r: (ServerConfig, D, Option<O>))
        ensures
            r.0 == self.config_view(),
            r.1 == self.db_view(),
            r.2 == self.observer_view(),
    {
        (self.config, self.db, self.apdu_observer)
    }
}

} // verus!
