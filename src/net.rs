//! Guest network identities: a fixed pool of IPv4 addresses, each lease
//! with its own tap device name.
use vstd::prelude::*;
use vstd::string::*;
use crate::text::{decimal, push_decimal};
use crate::vmm::Error;

verus! {

/// A guest's network identity while it lives.
#[derive(Debug)]
pub struct GuestNetworkLease {
    /// Position of the address in its pool.
    pub slot: usize,
    /// Name of the guest's tap device.
    pub tap: String,
    /// The guest's address, as a 32-bit number.
    pub ip: u32,
    /// Length of the network prefix.
    pub prefix: u8,
    /// The gateway's address, as a 32-bit number.
    pub gateway: u32,
}

/// The addresses `first`, `first + 1`, ... one per entry of `in_use`, which
/// tells whether it is leased.
#[derive(Debug)]
pub struct AddressPool {
    pub first: u32,
    pub prefix: u8,
    pub gateway: u32,
    pub in_use: Vec<bool>,
}

/// The tap device name of the lease in `slot`: `tap` and the slot number.
pub open spec fn tap_name(slot: nat) -> Seq<char> {
    seq!['t', 'a', 'p'] + decimal(slot)
}

/// Some slot is free.
pub open spec fn has_free(in_use: Seq<bool>) -> bool {
    exists|i: int| 0 <= i < in_use.len() && !in_use[i]
}

/// `i` is the first free slot.
pub open spec fn is_first_free(in_use: Seq<bool>, i: int) -> bool {
    0 <= i < in_use.len() && !in_use[i] && forall|j: int| 0 <= j < i ==> in_use[j]
}

impl AddressPool {
    pub open spec fn wf(&self) -> bool {
        &&& self.first as int + self.in_use@.len() <= u32::MAX as int + 1
        &&& self.prefix <= 32
    }

    /// A pool of `size` free addresses from `first` on.
    pub fn new(first: u32, size: usize, prefix: u8, gateway: u32) -> (r: Self)
        requires
            first as int + size <= u32::MAX as int + 1,
            prefix <= 32,
        ensures
            r.wf(),
            r.first == first,
            r.prefix == prefix,
            r.gateway == gateway,
            r.in_use@ == Seq::new(size as nat, |i: int| false),
    {
        let mut in_use: Vec<bool> = Vec::new();
        let mut i: usize = 0;
        while i < size
            invariant
                i <= size,
                in_use@ == Seq::new(i as nat, |k: int| false),
            decreases size - i,
        {
            in_use.push(false);
            i = i + 1;
            assert(in_use@ =~= Seq::new(i as nat, |k: int| false));
        }
        AddressPool { first, prefix, gateway, in_use }
    }

    /// Leases the first free address; fails, changing nothing, when every
    /// address is leased.
    pub fn provision(&mut self) -> (r: Result<GuestNetworkLease, Error>)
        requires
            old(self).wf(),
        ensures
            final(self).wf(),
            final(self).first == old(self).first,
            final(self).prefix == old(self).prefix,
            final(self).gateway == old(self).gateway,
            has_free(old(self).in_use@) <==> r is Ok,
            r matches Err(e) ==> e == Error::NoIPAvalaible && *final(self) == *old(self),
            r matches Ok(l) ==> {
                &&& is_first_free(old(self).in_use@, l.slot as int)
                &&& final(self).in_use@ == old(self).in_use@.update(l.slot as int, true)
                &&& l.ip == old(self).first + l.slot
                &&& l.tap@ == tap_name(l.slot as nat)
                &&& l.prefix == old(self).prefix
                &&& l.gateway == old(self).gateway
            },
    {
        let mut i: usize = 0;
        while i < self.in_use.len()
            invariant
                i <= self.in_use@.len(),
                *self == *old(self),
                self.wf(),
                forall|j: int| 0 <= j < i ==> self.in_use@[j],
            decreases self.in_use@.len() - i,
        {
            if !self.in_use[i] {
                let ip = self.first + i as u32;
                self.in_use.set(i, true);
                let mut tap = String::from_str("tap");
                proof {
                    reveal_strlit("tap");
                }
                assert(tap@ =~= seq!['t', 'a', 'p']);
                push_decimal(&mut tap, i as u64);
                return Ok(
                    GuestNetworkLease {
                        slot: i,
                        tap,
                        ip,
                        prefix: self.prefix,
                        gateway: self.gateway,
                    },
                );
            }
            i = i + 1;
        }
        Err(Error::NoIPAvalaible)
    }

    /// Gives the lease's address back to the pool.
    pub fn release(&mut self, lease: &GuestNetworkLease)
        requires
            lease.slot < old(self).in_use@.len(),
        ensures
            final(self).first == old(self).first,
            final(self).prefix == old(self).prefix,
            final(self).gateway == old(self).gateway,
            final(self).in_use@ == old(self).in_use@.update(lease.slot as int, false),
            old(self).wf() ==> final(self).wf(),
    {
        self.in_use.set(lease.slot, false);
    }
}

/// A leased address goes back to the pool once released: leasing the first
/// free slot and then releasing it leaves the pool as it was.
pub proof fn lemma_lease_then_release(in_use: Seq<bool>, slot: int)
    requires
        is_first_free(in_use, slot),
    ensures
        in_use.update(slot, true).update(slot, false) == in_use,
        !in_use.update(slot, true).update(slot, false)[slot],
{
    assert(in_use.update(slot, true).update(slot, false) =~= in_use);
}

/// An empty pool, or one with every address leased, has nothing to give.
pub proof fn lemma_exhausted_pool(in_use: Seq<bool>)
    requires
        forall|i: int| 0 <= i < in_use.len() ==> in_use[i],
    ensures
        !has_free(in_use),
{
}

} // verus!
