//! Interface-qualified host addresses as plain values: four octets for IPv4,
//! eight groups and a scope id for IPv6, together with the textual forms the
//! discovery announcements carry.
//!
//! The textual form is fixed: dotted decimal for IPv4; all eight groups in
//! lower-case hex, colon-separated and without zero compression, for IPv6.

use vstd::prelude::*;

verus! {

/// An interface address, with the scope id that IPv6 multicast needs.
#[derive(Debug, Clone, Copy, PartialEq, Eq)]
pub enum IpAddrWithScopeId {
    V4 { octets: [u8; 4] },
    V6 { segments: [u16; 8], scope_id: u32 },
}

/// Whether the address is an IPv4 address.
pub open spec fn spec_is_ipv4(a: IpAddrWithScopeId) -> bool {
    a is V4
}

/// Whether the address is a loopback address: `127.x.y.z` or `::1`.
pub open spec fn spec_is_loopback(a: IpAddrWithScopeId) -> bool {
    match a {
        IpAddrWithScopeId::V4 { octets } => octets[0] == 127,
        IpAddrWithScopeId::V6 { segments, .. } => segments[0] == 0 && segments[1] == 0
            && segments[2] == 0 && segments[3] == 0 && segments[4] == 0 && segments[5] == 0
            && segments[6] == 0 && segments[7] == 1,
    }
}

impl IpAddrWithScopeId {
    /// Returns true if the address is an IPv4 address.
    pub fn is_ipv4(&self) -> (r: bool)
        ensures
            r == spec_is_ipv4(*self),
    {
        match self {
            IpAddrWithScopeId::V4 { .. } => true,
            IpAddrWithScopeId::V6 { .. } => false,
        }
    }

    /// Returns true if the address is a loopback address.
    pub fn is_loopback(&self) -> (r: bool)
        ensures
            r == spec_is_loopback(*self),
    {
        match self {
            IpAddrWithScopeId::V4 { octets } => octets[0] == 127,
            IpAddrWithScopeId::V6 { segments, .. } => {
                let mut all_zero = true;
                if segments[0] != 0 {
                    all_zero = false;
                }
                if segments[1] != 0 {
                    all_zero = false;
                }
                if segments[2] != 0 {
                    all_zero = false;
                }
                if segments[3] != 0 {
                    all_zero = false;
                }
                if segments[4] != 0 {
                    all_zero = false;
                }
                if segments[5] != 0 {
                    all_zero = false;
                }
                if segments[6] != 0 {
                    all_zero = false;
                }
                all_zero && segments[7] == 1
            },
        }
    }
}

/// The non-loopback IPv4 addresses of a list, in order.
pub open spec fn spec_kept_v4(s: Seq<IpAddrWithScopeId>) -> Seq<IpAddrWithScopeId> {
    s.filter(|a: IpAddrWithScopeId| spec_is_ipv4(a) && !spec_is_loopback(a))
}

/// The non-loopback IPv6 addresses of a list, in order.
pub open spec fn spec_kept_v6(s: Seq<IpAddrWithScopeId>) -> Seq<IpAddrWithScopeId> {
    s.filter(|a: IpAddrWithScopeId| !spec_is_ipv4(a) && !spec_is_loopback(a))
}

/// Splits the local addresses into the IPv4 and IPv6 families, dropping
/// loopback addresses, in their given order.
pub fn partition_addresses(addrs: &Vec<IpAddrWithScopeId>) -> (r: (
    Vec<IpAddrWithScopeId>,
    Vec<IpAddrWithScopeId>,
))
    ensures
        r.0@ == spec_kept_v4(addrs@),
        r.1@ == spec_kept_v6(addrs@),
{
    let mut v4: Vec<IpAddrWithScopeId> = Vec::new();
    let mut v6: Vec<IpAddrWithScopeId> = Vec::new();
    proof {
        reveal(Seq::filter);
        assert(spec_kept_v4(addrs@.take(0int)) =~= Seq::<IpAddrWithScopeId>::empty());
        assert(spec_kept_v6(addrs@.take(0int)) =~= Seq::<IpAddrWithScopeId>::empty());
    }
    let mut i: usize = 0;
    while i < addrs.len()
        invariant
            0 <= i <= addrs@.len(),
            v4@ == spec_kept_v4(addrs@.take(i as int)),
            v6@ == spec_kept_v6(addrs@.take(i as int)),
        decreases addrs@.len() - i,
    {
        let a = addrs[i];
        if !a.is_loopback() {
            if a.is_ipv4() {
                v4.push(a);
            } else {
                v6.push(a);
            }
        }
        proof {
            reveal(Seq::filter);
            let pre = addrs@.take(i as int);
            let now = addrs@.take(i + 1);
            assert(now.len() == i + 1);
            assert(now.drop_last() =~= pre);
            assert(now.last() == a);
            assert(v4@ == spec_kept_v4(now));
            assert(v6@ == spec_kept_v6(now));
        }
        i += 1;
    }
    proof {
        assert(addrs@.take(addrs@.len() as int) =~= addrs@);
    }
    (v4, v6)
}

/// The decimal digits of `n`, most significant first.
pub open spec fn spec_dec(n: nat) -> Seq<u8>
    decreases n,
{
    if n < 10 {
        seq![(48 + n) as u8]
    } else {
        spec_dec(n / 10).push((48 + n % 10) as u8)
    }
}

/// The lower-case hex digits of `n`, most significant first.
pub open spec fn spec_hex_digit(d: nat) -> u8 {
    if d < 10 {
        (48 + d) as u8
    } else {
        (87 + d) as u8
    }
}

/// The lower-case hex form of `n`, most significant digit first.
pub open spec fn spec_hex(n: nat) -> Seq<u8>
    decreases n,
{
    if n < 16 {
        seq![spec_hex_digit(n)]
    } else {
        spec_hex(n / 16).push(spec_hex_digit(n % 16))
    }
}

/// Writes `n` in decimal.
pub fn dec_bytes(n: u32) -> (r: Vec<u8>)
    ensures
        r@ == spec_dec(n as nat),
    decreases n,
{
    if n < 10 {
        let mut v: Vec<u8> = Vec::new();
        v.push(48 + (n as u8));
        proof {
            assert(v@ =~= spec_dec(n as nat));
        }
        v
    } else {
        let mut v = dec_bytes(n / 10);
        v.push(48 + ((n % 10) as u8));
        v
    }
}

/// Writes `n` in lower-case hex.
pub fn hex_bytes(n: u16) -> (r: Vec<u8>)
    ensures
        r@ == spec_hex(n as nat),
    decreases n,
{
    if n < 16 {
        let d = n as u8;
        let mut v: Vec<u8> = Vec::new();
        if d < 10 {
            v.push(48 + d);
        } else {
            v.push(87 + d);
        }
        proof {
            assert(v@ =~= spec_hex(n as nat));
        }
        v
    } else {
        let mut v = hex_bytes(n / 16);
        let d = (n % 16) as u8;
        if d < 10 {
            v.push(48 + d);
        } else {
            v.push(87 + d);
        }
        v
    }
}

/// The textual form of an address, without port, brackets or scope.
pub open spec fn spec_addr_text(a: IpAddrWithScopeId) -> Seq<u8> {
    match a {
        IpAddrWithScopeId::V4 { octets } => spec_dec(octets[0] as nat) + seq![46u8] + spec_dec(
            octets[1] as nat,
        ) + seq![46u8] + spec_dec(octets[2] as nat) + seq![46u8] + spec_dec(octets[3] as nat),
        IpAddrWithScopeId::V6 { segments, .. } => spec_hex(segments[0] as nat) + seq![58u8]
            + spec_hex(segments[1] as nat) + seq![58u8] + spec_hex(segments[2] as nat)
            + seq![58u8] + spec_hex(segments[3] as nat) + seq![58u8] + spec_hex(segments[4] as nat)
            + seq![58u8] + spec_hex(segments[5] as nat) + seq![58u8] + spec_hex(segments[6] as nat)
            + seq![58u8] + spec_hex(segments[7] as nat),
    }
}

/// The textual form of an address with a port: `a.b.c.d:p`, or the address
/// in brackets followed by `:p` for IPv6.
pub open spec fn spec_endpoint_text(a: IpAddrWithScopeId, port: u16) -> Seq<u8> {
    if spec_is_ipv4(a) {
        spec_addr_text(a) + seq![58u8] + spec_dec(port as nat)
    } else {
        seq![91u8] + spec_addr_text(a) + seq![93u8, 58u8] + spec_dec(port as nat)
    }
}

impl IpAddrWithScopeId {
    /// Writes the textual form of the address.
    pub fn addr_text(&self) -> (r: Vec<u8>)
        ensures
            r@ == spec_addr_text(*self),
    {
        match self {
            IpAddrWithScopeId::V4 { octets } => {
                let mut res = dec_bytes(octets[0] as u32);
                res.push(46);
                let o1 = dec_bytes(octets[1] as u32);
                append_vec(&mut res, &o1);
                res.push(46);
                let o2 = dec_bytes(octets[2] as u32);
                append_vec(&mut res, &o2);
                res.push(46);
                let o3 = dec_bytes(octets[3] as u32);
                append_vec(&mut res, &o3);
                proof {
                    assert(res@ =~= spec_addr_text(*self));
                }
                res
            },
            IpAddrWithScopeId::V6 { segments, .. } => {
                let mut res = hex_bytes(segments[0]);
                res.push(58);
                let g1 = hex_bytes(segments[1]);
                append_vec(&mut res, &g1);
                res.push(58);
                let g2 = hex_bytes(segments[2]);
                append_vec(&mut res, &g2);
                res.push(58);
                let g3 = hex_bytes(segments[3]);
                append_vec(&mut res, &g3);
                res.push(58);
                let g4 = hex_bytes(segments[4]);
                append_vec(&mut res, &g4);
                res.push(58);
                let g5 = hex_bytes(segments[5]);
                append_vec(&mut res, &g5);
                res.push(58);
                let g6 = hex_bytes(segments[6]);
                append_vec(&mut res, &g6);
                res.push(58);
                let g7 = hex_bytes(segments[7]);
                append_vec(&mut res, &g7);
                proof {
                    assert(res@ =~= spec_addr_text(*self));
                }
                res
            },
        }
    }

    /// Writes the textual form of the address with a port.
    pub fn endpoint_text(&self, port: u16) -> (r: Vec<u8>)
        ensures
            r@ == spec_endpoint_text(*self, port),
    {
        let mut out: Vec<u8> = Vec::new();
        let is4 = self.is_ipv4();
        if !is4 {
            out.push(91);
        }
        let a = self.addr_text();
        append_vec(&mut out, &a);
        if !is4 {
            out.push(93);
        }
        out.push(58);
        let p = dec_bytes(port as u32);
        append_vec(&mut out, &p);
        proof {
            assert(out@ =~= spec_endpoint_text(*self, port));
        }
        out
    }
}

/// Appends the bytes of `src` to `out`.
pub fn append_vec(out: &mut Vec<u8>, src: &Vec<u8>)
    ensures
        final(out)@ == old(out)@ + src@,
{
    let mut i: usize = 0;
    while i < src.len()
        invariant
            0 <= i <= src@.len(),
            out@ == old(out)@ + src@.take(i as int),
        decreases src@.len() - i,
    {
        out.push(src[i]);
        proof {
            assert(old(out)@ + src@.take(i as int) + seq![src@[i as int]] =~= old(out)@ + src@.take(
                i + 1,
            ));
        }
        i += 1;
    }
    proof {
        assert(src@.take(src@.len() as int) =~= src@);
    }
}

} // verus!
