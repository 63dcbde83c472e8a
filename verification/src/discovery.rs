//! The discovery lifecycle: one mDNS registration slot and one SSDP session
//! slot, at most one advertisement alive in each, a second advertisement
//! deregistering the first, and a stop that always empties both slots.
//!
//! The platform calls (the message bus, the DNS registration API, the
//! sockets) happen outside; these functions say what must be deregistered,
//! what is registered afterwards, and how the two arms' outcomes combine.

use vstd::prelude::*;

use crate::addr::{spec_is_ipv4, IpAddrWithScopeId};
use crate::{PlatformAbstractionError, PlatformError};

verus! {

/// How long a message-bus call may take before it counts as timed out, in
/// milliseconds.
pub const DBUS_TIMEOUT_MS: u64 = 5000;

/// The DNS-SD service type the agent registers.
pub open spec fn spec_dns_service_type() -> Seq<char> {
    "_dragon-claw._tcp"@
}

/// The advertised service: a display name, an interface address and a port.
pub struct ServiceEndpoint {
    pub name: String,
    pub addr: IpAddrWithScopeId,
    pub port: u16,
}

/// The platform error for a bus call that failed or did not answer in time:
/// a timeout is its own kind.
pub fn bus_error_kind(timed_out: bool) -> (r: PlatformError)
    ensures
        r == if timed_out {
            PlatformError::BusTimeout
        } else {
            PlatformError::Bus
        },
{
    if timed_out {
        PlatformError::BusTimeout
    } else {
        PlatformError::Bus
    }
}

/// The arguments of the Avahi `AddService` call for an endpoint: every
/// interface, the protocol of the endpoint's own family, no flags, the fixed
/// service type, and the endpoint's port.
pub struct AvahiAddServiceArgs {
    pub interface: i32,
    pub protocol: i32,
    pub flags: u32,
    pub service_type: String,
    pub port: u16,
}

/// Plans the Avahi `AddService` call for an endpoint.
pub fn avahi_add_service_args(endpoint: &ServiceEndpoint) -> (r: AvahiAddServiceArgs)
    ensures
        r.interface == -1,
        r.protocol == if spec_is_ipv4(endpoint.addr) {
            0int
        } else {
            1int
        },
        r.flags == 0,
        r.service_type@ == spec_dns_service_type(),
        r.port == endpoint.port,
{
    let protocol: i32 = if endpoint.addr.is_ipv4() {
        0
    } else {
        1
    };
    AvahiAddServiceArgs {
        interface: -1,
        protocol,
        flags: 0,
        service_type: String::from_str("_dragon-claw._tcp"),
        port: endpoint.port,
    }
}

/// The two registration slots of a discovery manager. At most one
/// advertisement occupies each slot at any time.
pub struct DiscoveryState {
    /// The endpoint registered with the platform naming service, if any.
    pub mdns_slot: Option<ServiceEndpoint>,
    /// The endpoint announced by the SSDP session, if any.
    pub ssdp_slot: Option<ServiceEndpoint>,
}

/// The state after the mDNS slot was taken.
pub open spec fn spec_take_mdns(s: DiscoveryState) -> (DiscoveryState, Option<ServiceEndpoint>) {
    (DiscoveryState { mdns_slot: None, ssdp_slot: s.ssdp_slot }, s.mdns_slot)
}

/// The state after an endpoint was registered into the mDNS slot.
pub open spec fn spec_fill_mdns(s: DiscoveryState, e: ServiceEndpoint) -> DiscoveryState {
    DiscoveryState { mdns_slot: Some(e), ssdp_slot: s.ssdp_slot }
}

impl DiscoveryState {
    /// A manager with nothing advertised.
    pub fn new() -> (r: Self)
        ensures
            r.mdns_slot is None,
            r.ssdp_slot is None,
    {
        DiscoveryState { mdns_slot: None, ssdp_slot: None }
    }

    /// Starts an advertisement on the mDNS arm: takes the slot and hands back
    /// the previous registration, which the caller must deregister before it
    /// registers the new endpoint.
    pub fn begin_mdns_advertise(&mut self) -> (r: Option<ServiceEndpoint>)
        ensures
            *final(self) == spec_take_mdns(*old(self)).0,
            r == spec_take_mdns(*old(self)).1,
            final(self).mdns_slot is None,
            final(self).ssdp_slot == old(self).ssdp_slot,
    {
        self.mdns_slot.take()
    }

    /// Records a successful registration of `endpoint` on the mDNS arm.
    pub fn complete_mdns_advertise(&mut self, endpoint: ServiceEndpoint)
        requires
            old(self).mdns_slot is None,
        ensures
            *final(self) == spec_fill_mdns(*old(self), endpoint),
            final(self).mdns_slot == Some(endpoint),
            final(self).ssdp_slot == old(self).ssdp_slot,
    {
        self.mdns_slot = Some(endpoint);
    }

    /// Starts an advertisement on the SSDP arm: takes the slot and hands back
    /// the session to stop, if one was running.
    pub fn begin_ssdp_advertise(&mut self) -> (r: Option<ServiceEndpoint>)
        ensures
            r == old(self).ssdp_slot,
            final(self).ssdp_slot is None,
            final(self).mdns_slot == old(self).mdns_slot,
    {
        self.ssdp_slot.take()
    }

    /// Records a successfully set-up SSDP session for `endpoint`.
    pub fn complete_ssdp_advertise(&mut self, endpoint: ServiceEndpoint)
        requires
            old(self).ssdp_slot is None,
        ensures
            final(self).ssdp_slot == Some(endpoint),
            final(self).mdns_slot == old(self).mdns_slot,
    {
        self.ssdp_slot = Some(endpoint);
    }

    /// Stops advertising: empties both slots and hands back what must be
    /// deregistered and stopped. Idempotent: on an empty manager it finds
    /// nothing and changes nothing.
    pub fn begin_stop(&mut self) -> (r: (Option<ServiceEndpoint>, Option<ServiceEndpoint>))
        ensures
            r.0 == old(self).mdns_slot,
            r.1 == old(self).ssdp_slot,
            final(self).mdns_slot is None,
            final(self).ssdp_slot is None,
    {
        let dns = self.mdns_slot.take();
        let ssdp = self.ssdp_slot.take();
        (dns, ssdp)
    }
}

/// Combines the two arms of an advertisement: success is disjunctive, and
/// only both arms failing surfaces as `Unsupported`.
pub fn advertise_outcome(mdns_ok: bool, ssdp_ok: bool) -> (r: Result<
    (),
    PlatformAbstractionError,
>)
    ensures
        r is Ok <==> (mdns_ok || ssdp_ok),
        r is Err ==> r == Result::<(), PlatformAbstractionError>::Err(
            PlatformAbstractionError::Unsupported,
        ),
{
    if mdns_ok || ssdp_ok {
        Ok(())
    } else {
        Err(PlatformAbstractionError::Unsupported)
    }
}

/// Combines the outcomes of a stop: both arms are always attempted; the
/// first error encountered, if any, is returned.
pub fn stop_outcome(first_error: Option<PlatformError>) -> (r: Result<
    (),
    PlatformAbstractionError,
>)
    ensures
        r is Ok <==> first_error is None,
        first_error is Some ==> r == Result::<(), PlatformAbstractionError>::Err(
            PlatformAbstractionError::Platform(first_error->0),
        ),
{
    match first_error {
        None => Ok(()),
        Some(e) => Err(PlatformAbstractionError::Platform(e)),
    }
}

/// After an advertisement succeeded, a stop deregisters exactly what was
/// registered, leaves both slots empty, and, with no platform error on
/// either arm, returns success.
pub proof fn lemma_stop_after_advertise(s: DiscoveryState, e: ServiceEndpoint)
    ensures
        ({
            let advertised = spec_fill_mdns(spec_take_mdns(s).0, e);
            let stopped = spec_take_mdns(advertised);
            stopped.1 == Some(e) && stopped.0.mdns_slot is None
        }),
{
}

/// A second advertisement first takes the first registration out of the slot
/// (so exactly it is deregistered), and only then registers the new
/// endpoint; a final stop finds only the second endpoint.
pub proof fn lemma_second_advertise_deregisters_first(
    s0: DiscoveryState,
    a: ServiceEndpoint,
    b: ServiceEndpoint,
)
    requires
        s0.mdns_slot is None,
    ensures
        ({
            let after_a = spec_fill_mdns(spec_take_mdns(s0).0, a);
            let take_b = spec_take_mdns(after_a);
            // the second call deregisters exactly the first registration
            take_b.1 == Some(a)
            // and only then registers the second endpoint
             && spec_fill_mdns(take_b.0, b).mdns_slot == Some(b)
            // a final stop deregisters the second endpoint only
             && spec_take_mdns(spec_fill_mdns(take_b.0, b)).1 == Some(b)
        }),
{
}

/// The sentinel with which the platform DNS registration accepts a submit
/// and promises a completion callback.
pub const DNS_REQUEST_PENDING: u32 = 9506;

/// Whether a DNS registration submit was accepted: only the pending
/// sentinel is; any other immediate return is a failure.
pub fn dns_submit_accepted(returned: u32) -> (r: bool)
    ensures
        r == (returned == DNS_REQUEST_PENDING),
{
    returned == DNS_REQUEST_PENDING
}

/// The outcome a DNS registration completion callback delivered: zero is
/// success, anything else the Win32 error to surface.
pub fn dns_completion_outcome(status: u32) -> (r: Result<(), PlatformError>)
    ensures
        r is Ok <==> status == 0,
        r is Err ==> r == Result::<(), PlatformError>::Err(PlatformError::Win32(status)),
{
    if status == 0 {
        Ok(())
    } else {
        Err(PlatformError::Win32(status))
    }
}

/// The host name a manager advertises under: the naming service's answer
/// when it gave one, else the kernel's, else the fixed fallback name.
pub fn choose_host_name(from_naming_service: Option<String>, from_kernel: Option<String>) -> (r:
    String)
    ensures
        r@ == (match from_naming_service {
            Some(n) => n@,
            None => match from_kernel {
                Some(k) => k@,
                None => "Dragon Claw Computer"@,
            },
        }),
{
    match from_naming_service {
        Some(n) => n,
        None => match from_kernel {
            Some(k) => k,
            None => fallback_name(),
        },
    }
}

/// Why a discovery server could not start.
#[derive(Debug, Clone, Copy, PartialEq, Eq, Structural)]
pub enum DiscoveryError {
    /// The current system configuration does not support discovery.
    Unavailable,
}

/// The name a registration falls back to when the host name cannot be
/// determined.
pub fn fallback_name() -> (r: String)
    ensures
        r@ == "Dragon Claw Computer"@,
{
    String::from_str("Dragon Claw Computer")
}

/// A running discovery registration: the instance name it was registered
/// under and the advertised port.
pub struct DiscoveryServer {
    pub host_name: String,
    pub port: u16,
}

impl DiscoveryServer {
    /// Decides the start of a discovery server from the outcomes of the
    /// naming-service calls: the bus, the proxy, the version query, the
    /// service registration and its commit must all succeed; a missing host
    /// name falls back to the fixed name and does not fail the start.
    pub fn start(
        dbus_ok: bool,
        avahi_ok: bool,
        version_ok: bool,
        host_name: Option<String>,
        add_service_ok: bool,
        commit_ok: bool,
        port: u16,
    ) -> (r: Result<DiscoveryServer, DiscoveryError>)
        ensures
            r is Ok <==> (dbus_ok && avahi_ok && version_ok && add_service_ok && commit_ok),
            r is Err ==> r->Err_0 == DiscoveryError::Unavailable,
            r is Ok ==> r->Ok_0.port == port,
            r is Ok ==> r->Ok_0.host_name@ == (match host_name {
                Some(h) => h@,
                None => "Dragon Claw Computer"@,
            }),
    {
        if !dbus_ok || !avahi_ok || !version_ok {
            return Err(DiscoveryError::Unavailable);
        }
        let name = match host_name {
            Some(h) => h,
            None => fallback_name(),
        };
        if !add_service_ok || !commit_ok {
            return Err(DiscoveryError::Unavailable);
        }
        Ok(DiscoveryServer { host_name: name, port })
    }
}

} // verus!
