//! Address routing for command packets.
//!
//! The first byte of a command datagram is its header. The canonical wire
//! scheme is fixed here once: the high six bits of the header are a binary
//! robot address in [0, 63] and the low two bits are reserved, so the
//! address of header `h` is `h / 4` and the canonical header for address `a`
//! (reserved bits zero) is `a * 4`. A router holds the table of provisioned
//! addresses and resolves a header to an address only if that address is
//! provisioned.

use vstd::prelude::*;

verus! {

/// Number of distinct robot addresses.
pub const ADDRESS_COUNT: usize = 64;

/// The address carried by a command header: its high six bits.
pub open spec fn spec_address_of_header(h: u8) -> u8 {
    h / 4
}

/// The canonical header for an address: the address in the high six bits,
/// reserved bits zero.
pub open spec fn spec_header_for(a: u8) -> u8
    recommends
        a < 64,
{
    (a * 4) as u8
}

/// Extracts the address field of a command header.
pub fn address_of_header(h: u8) -> (a: u8)
    ensures
        a == spec_address_of_header(h),
        a < 64,
{
    h / 4
}

/// Builds the canonical header addressing `a`, with the reserved bits zero.
pub fn header_for(a: u8) -> (h: u8)
    requires
        a < 64,
    ensures
        h == spec_header_for(a),
        spec_address_of_header(h) == a,
{
    a * 4
}

/// The routing table: which of the 64 addresses are provisioned.
pub struct Router {
    provisioned: Vec<bool>,
}

impl Router {
    /// The table covers every address.
    pub closed spec fn wf(&self) -> bool {
        self.provisioned@.len() == ADDRESS_COUNT
    }

    /// Whether address `a` is provisioned.
    pub closed spec fn spec_provisioned(&self, a: int) -> bool
        recommends
            0 <= a < 64,
    {
        self.provisioned@[a]
    }

    /// What [`Router::resolve`] returns for a header.
    pub open spec fn spec_resolve(&self, header: u8) -> Option<u8> {
        let a = spec_address_of_header(header);
        if self.spec_provisioned(a as int) {
            Some(a)
        } else {
            None
        }
    }

    /// Builds a router provisioning exactly the listed addresses.
    pub fn new(addresses: &Vec<u8>) -> (r: Router)
        requires
            forall|k: int| 0 <= k < addresses@.len() ==> addresses@[k] < 64,
        ensures
            r.wf(),
            forall|a: int| 0 <= a < 64 ==> (r.spec_provisioned(a) <==> addresses@.contains(a as u8)),
    {
        let mut provisioned: Vec<bool> = Vec::new();
        let mut i: usize = 0;
        while i < ADDRESS_COUNT
            invariant
                i <= ADDRESS_COUNT,
                provisioned@.len() == i,
                forall|a: int| 0 <= a < i ==> !provisioned@[a],
            decreases ADDRESS_COUNT - i,
        {
            provisioned.push(false);
            i = i + 1;
        }
        let mut k: usize = 0;
        while k < addresses.len()
            invariant
                k <= addresses@.len(),
                forall|t: int| 0 <= t < addresses@.len() ==> addresses@[t] < 64,
                provisioned@.len() == ADDRESS_COUNT,
                forall|a: int|
                    0 <= a < 64 ==> (provisioned@[a] <==> exists|t: int|
                        0 <= t < k && addresses@[t] == a),
            decreases addresses@.len() - k,
        {
            let a = addresses[k];
            provisioned.set(a as usize, true);
            k = k + 1;
            proof {
                assert(forall|x: int|
                    0 <= x < 64 && provisioned@[x] && x != a ==> exists|t: int|
                        0 <= t < k && addresses@[t] == x);
                assert(addresses@[k - 1] == a);
            }
        }
        proof {
            assert forall|a: int|
                0 <= a < 64 implies (provisioned@[a] <==> addresses@.contains(a as u8)) by {
                if provisioned@[a] {
                    let t = choose|t: int| 0 <= t < k && addresses@[t] == a;
                    assert(addresses@[t] == a as u8);
                }
                if addresses@.contains(a as u8) {
                    let t = choose|t: int|
                        0 <= t < addresses@.len() && addresses@[t] == a as u8;
                    assert(addresses@[t] == a);
                }
            }
        }
        Router { provisioned }
    }

    /// Resolves a command header to the provisioned address it names, or
    /// `None` when the address is not provisioned (an unknown robot).
    pub fn resolve(&self, header: u8) -> (r: Option<u8>)
        requires
            self.wf(),
        ensures
            r == self.spec_resolve(header),
    {
        let a = address_of_header(header);
        if self.provisioned[a as usize] {
            Some(a)
        } else {
            None
        }
    }
}

/// Header extraction: for every address, the canonical header resolves back
/// to that address on any router that provisions it.
pub proof fn lemma_header_round_trip(r: Router, a: u8)
    requires
        r.wf(),
        a < 64,
        r.spec_provisioned(a as int),
    ensures
        r.spec_resolve(spec_header_for(a)) == Some(a),
{
}

/// Unknown address: a header whose address is not provisioned resolves to
/// `None`.
pub proof fn lemma_unknown_address(r: Router, header: u8)
    requires
        r.wf(),
        !r.spec_provisioned(spec_address_of_header(header) as int),
    ensures
        r.spec_resolve(header) == None::<u8>,
{
}

} // verus!
