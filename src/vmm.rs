//! Guest virtual machine settings and the errors of a guest's lifecycle.
use vstd::prelude::*;
use vstd::string::*;
use crate::net::{is_first_free, lemma_lease_then_release, AddressPool, GuestNetworkLease};
use crate::text::decimal;

verus! {

/// What can go wrong while a guest is started or talked to.
#[derive(Debug, PartialEq, Eq, Structural)]
pub enum Error {
    /// The hypervisor could not be created.
    VmmNew,
    /// The hypervisor refused its configuration.
    VmmConfigure,
    /// The hypervisor failed to boot the guest.
    VmmRun,
    /// The agent reported a status other than ready, or broke the protocol.
    BadAgentStatus,
    /// The address pool is exhausted.
    NoIPAvalaible,
    /// The agent did not finish within the allowed time.
    AgentTimeout,
}

/// An IPv4 address with its network prefix length.
#[derive(Clone, Copy, Debug, PartialEq, Eq, Structural)]
pub struct GuestInet {
    pub addr: u32,
    pub prefix: u8,
}

/// How a guest is to be launched.
#[derive(Debug)]
pub struct VMMOpts {
    /// Linux kernel path
    pub kernel: String,
    /// Number of virtual CPUs assigned to the guest
    pub cpus: u8,
    /// Memory amount (in MBytes) assigned to the guest
    pub memory: u32,
    /// Stdout console file path
    pub console: Option<String>,
    /// Path to the socket used for communication with the agent
    pub socket: Option<String>,
    /// initramfs path
    pub initramfs: Option<String>,
    /// Tap interface name
    pub tap: Option<String>,
    /// The guest's address
    pub ip: Option<GuestInet>,
    /// Gateway
    pub gateway: Option<String>,
}

/// The values handed to the hypervisor's configuration call.
#[derive(Debug)]
pub struct VmmSettings {
    pub cpus: u8,
    pub memory: u32,
    pub kernel: String,
    pub console: Option<String>,
    pub initramfs: Option<String>,
    pub tap: String,
    pub socket: Option<String>,
    pub ip: String,
    pub gateway: Option<String>,
}

/// `addr` in dotted decimal, most significant octet first.
pub open spec fn dotted(addr: u32) -> Seq<char> {
    decimal((addr / 0x1000000) as nat) + seq!['.'] + decimal(((addr / 0x10000) % 0x100) as nat)
        + seq!['.'] + decimal(((addr / 0x100) % 0x100) as nat) + seq!['.'] + decimal(
        (addr % 0x100) as nat,
    )
}

/// An address with its prefix length as text: `a.b.c.d/len`, or the bare
/// address when the prefix covers all 32 bits.
pub open spec fn inet_spec(addr: u32, prefix: u8) -> Seq<char> {
    if prefix == 32 {
        dotted(addr)
    } else {
        dotted(addr) + seq!['/'] + decimal(prefix as nat)
    }
}

/// Relies on cidr's `Ipv4Inet::new` (which accepts prefix lengths up to 32)
/// and its `Display` (`address/length`, or the bare address for a host
/// address), over `Ipv4Addr::from(u32)` and its dotted-decimal `Display`.
#[verifier::external_body]
fn inet_text(addr: u32, prefix: u8) -> (r: String)
    requires
        prefix <= 32,
    ensures
        r@ == inet_spec(addr, prefix),
{
    match cidr::Ipv4Inet::new(core::net::Ipv4Addr::from(addr), prefix) {
        Ok(inet) => inet.to_string(),
        Err(_) => String::new(),
    }
}

pub open spec fn opt_text(o: Option<String>) -> Option<Seq<char>> {
    match o {
        Some(s) => Some(s@),
        None => None,
    }
}

fn copy_opt(o: &Option<String>) -> (r: Option<String>)
    ensures
        opt_text(r) == opt_text(*o),
{
    match o {
        Some(s) => Some(s.clone()),
        None => None,
    }
}

impl VMMOpts {
    /// Options for a guest that uses `lease` and talks over `socket`.
    pub fn for_guest(
        kernel: &String,
        cpus: u8,
        memory: u32,
        console: &Option<String>,
        initramfs: &String,
        socket: &String,
        lease: &GuestNetworkLease,
    ) -> (r: Self)
        requires
            lease.prefix <= 32,
        ensures
            r.kernel@ == kernel@,
            r.cpus == cpus,
            r.memory == memory,
            opt_text(r.console) == opt_text(*console),
            opt_text(r.initramfs) == Some(initramfs@),
            opt_text(r.socket) == Some(socket@),
            opt_text(r.tap) == Some(lease.tap@),
            r.ip == Some(GuestInet { addr: lease.ip, prefix: lease.prefix }),
            opt_text(r.gateway) == Some(dotted(lease.gateway)),
    {
        VMMOpts {
            kernel: kernel.clone(),
            cpus,
            memory,
            console: copy_opt(console),
            socket: Some(socket.clone()),
            initramfs: Some(initramfs.clone()),
            tap: Some(lease.tap.clone()),
            ip: Some(GuestInet { addr: lease.ip, prefix: lease.prefix }),
            gateway: Some(inet_text(lease.gateway, 32)),
        }
    }
}

/// The hypervisor settings for `opts`; a guest needs a tap device and a
/// valid address, and the configuration is refused without them.
pub fn vmm_settings(opts: &VMMOpts) -> (r: Result<VmmSettings, Error>)
    ensures
        (opts.tap is Some && opts.ip is Some && opts.ip.unwrap().prefix <= 32) <==> r is Ok,
        r matches Err(e) ==> e == Error::VmmConfigure,
        r matches Ok(v) ==> {
            &&& v.cpus == opts.cpus
            &&& v.memory == opts.memory
            &&& v.kernel@ == opts.kernel@
            &&& opt_text(v.console) == opt_text(opts.console)
            &&& opt_text(v.initramfs) == opt_text(opts.initramfs)
            &&& opt_text(v.socket) == opt_text(opts.socket)
            &&& opt_text(v.gateway) == opt_text(opts.gateway)
            &&& Some(v.tap@) == opt_text(opts.tap)
            &&& v.ip@ == inet_spec(opts.ip.unwrap().addr, opts.ip.unwrap().prefix)
        },
{
    let tap = match &opts.tap {
        Some(t) => t.clone(),
        None => {
            return Err(Error::VmmConfigure);
        },
    };
    let ip = match opts.ip {
        Some(ip) => ip,
        None => {
            return Err(Error::VmmConfigure);
        },
    };
    if ip.prefix > 32 {
        return Err(Error::VmmConfigure);
    }
    Ok(
        VmmSettings {
            cpus: opts.cpus,
            memory: opts.memory,
            kernel: opts.kernel.clone(),
            console: copy_opt(&opts.console),
            initramfs: copy_opt(&opts.initramfs),
            tap,
            socket: copy_opt(&opts.socket),
            ip: inet_text(ip.addr, ip.prefix),
            gateway: copy_opt(&opts.gateway),
        },
    )
}

/// One step of reclaiming a guest's resources.
#[derive(Clone, Copy, Debug, PartialEq, Eq, Structural)]
pub enum Teardown {
    /// Close the channel to the agent.
    CloseChannel,
    /// Terminate the hypervisor.
    TerminateVm,
    /// Give the network lease back.
    ReleaseLease,
}

/// How an execution attempt ended.
#[derive(Clone, Copy, Debug, PartialEq, Eq, Structural)]
pub enum AttemptOutcome {
    /// The agent's response was received in full.
    Completed,
    /// The agent reported a bad status.
    AgentRejected,
    /// The agent did not finish in time.
    AgentTimedOut,
    /// The hypervisor could not be created, configured or booted.
    VmmFailed,
}

/// The teardown of an attempt, in order: the channel, then the guest, then
/// the lease; without a booted guest only the lease.
pub open spec fn teardown_spec(outcome: AttemptOutcome) -> Seq<Teardown> {
    if outcome == AttemptOutcome::VmmFailed {
        seq![Teardown::ReleaseLease]
    } else {
        seq![Teardown::CloseChannel, Teardown::TerminateVm, Teardown::ReleaseLease]
    }
}

/// Ends an attempt: the lease goes back to the pool, and the teardown steps
/// that the caller carries out are returned in order.
pub fn end_attempt(pool: &mut AddressPool, lease: GuestNetworkLease, outcome: AttemptOutcome) -> (r:
    Vec<Teardown>)
    requires
        lease.slot < old(pool).in_use@.len(),
    ensures
        final(pool).first == old(pool).first,
        final(pool).prefix == old(pool).prefix,
        final(pool).gateway == old(pool).gateway,
        final(pool).in_use@ == old(pool).in_use@.update(lease.slot as int, false),
        r@ == teardown_spec(outcome),
{
    pool.release(&lease);
    let r = if outcome == AttemptOutcome::VmmFailed {
        vec![Teardown::ReleaseLease]
    } else {
        vec![Teardown::CloseChannel, Teardown::TerminateVm, Teardown::ReleaseLease]
    };
    assert(r@ =~= teardown_spec(outcome));
    r
}

/// However an attempt ends, the lease taken at its start is released by its
/// end, exactly once and as the last teardown step: the pool is left as it
/// was before the lease was taken.
pub proof fn lemma_attempt_releases_lease(before: Seq<bool>, slot: int, outcome: AttemptOutcome)
    requires
        is_first_free(before, slot),
    ensures
        before.update(slot, true).update(slot, false) == before,
        teardown_spec(outcome).last() == Teardown::ReleaseLease,
        forall|i: int|
            0 <= i < teardown_spec(outcome).len() - 1 ==> #[trigger] teardown_spec(outcome)[i]
                != Teardown::ReleaseLease,
{
    lemma_lease_then_release(before, slot);
}

} // verus!
