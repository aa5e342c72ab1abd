use crate::invite::{endpoint_text, format_endpoint, Ipv4Endpoint};
use vstd::prelude::*;

verus! {

// ---------------------------------------------------------------------------
// Finding the public address with a STUN binding request
// ---------------------------------------------------------------------------

pub const STUN_MAGIC_COOKIE: u32 = 0x2112_A442;

pub const STUN_BINDING_REQUEST: u16 = 0x0001;

pub const STUN_BINDING_SUCCESS_RESPONSE: u16 = 0x0101;

pub const STUN_ATTR_XOR_MAPPED_ADDRESS: u16 = 0x0020;

pub const STUN_ATTR_MAPPED_ADDRESS: u16 = 0x0001;

/// An IPv4 address by its four octets.
#[derive(Debug, Clone, Copy, PartialEq, Eq, Structural)]
pub struct Ipv4Octets {
    pub a: u8,
    pub b: u8,
    pub c: u8,
    pub d: u8,
}

pub open spec fn be16(hi: u8, lo: u8) -> nat {
    hi as nat * 256 + lo as nat
}

pub open spec fn cookie_bytes() -> Seq<u8> {
    seq![0x21u8, 0x12, 0xA4, 0x42]
}

/// A binding request: the message type, a zero length, the magic cookie and the
/// transaction id.
pub open spec fn binding_request(txid: Seq<u8>) -> Seq<u8> {
    seq![0x00u8, 0x01, 0x00, 0x00] + cookie_bytes() + txid
}

pub fn stun_binding_request(txid: &[u8]) -> (r: Vec<u8>)
    requires
        txid.len() == 12,
    ensures
        r@ == binding_request(txid@),
        r@.len() == 20,
{
    let mut r: Vec<u8> = vec![0x00u8, 0x01, 0x00, 0x00, 0x21, 0x12, 0xA4, 0x42];
    let mut i: usize = 0;
    while i < txid.len()
        invariant
            i <= txid.len(),
            r@ == seq![0x00u8, 0x01, 0x00, 0x00] + cookie_bytes() + txid@.take(i as int),
        decreases txid.len() - i,
    {
        r.push(txid[i]);
        i += 1;
        assert(r@ =~= seq![0x00u8, 0x01, 0x00, 0x00] + cookie_bytes() + txid@.take(i as int));
    }
    assert(txid@.take(12) =~= txid@);
    r
}

/// The address in a MAPPED-ADDRESS value (family 1), XOR-ed with the cookie when `xor`.
pub open spec fn mapped_value(value: Seq<u8>, xor: bool) -> Option<Ipv4Octets> {
    if value.len() < 8 || value[1] != 0x01 {
        None
    } else if xor {
        Some(
            Ipv4Octets {
                a: value[4] ^ 0x21u8,
                b: value[5] ^ 0x12u8,
                c: value[6] ^ 0xA4u8,
                d: value[7] ^ 0x42u8,
            },
        )
    } else {
        Some(Ipv4Octets { a: value[4], b: value[5], c: value[6], d: value[7] })
    }
}

/// `parse_xor_mapped_ipv4` with the magic cookie.
pub fn parse_xor_mapped_ipv4(value: &[u8]) -> (r: Option<Ipv4Octets>)
    ensures
        r == mapped_value(value@, true),
{
    if value.len() < 8 || value[1] != 0x01 {
        return None;
    }
    Some(Ipv4Octets { a: value[4] ^ 0x21, b: value[5] ^ 0x12, c: value[6] ^ 0xA4, d: value[7] ^ 0x42 })
}

pub fn parse_mapped_ipv4(value: &[u8]) -> (r: Option<Ipv4Octets>)
    ensures
        r == mapped_value(value@, false),
{
    if value.len() < 8 || value[1] != 0x01 {
        return None;
    }
    Some(Ipv4Octets { a: value[4], b: value[5], c: value[6], d: value[7] })
}

/// Walks the attributes from `cursor` to `end`: the first XOR-MAPPED-ADDRESS or
/// MAPPED-ADDRESS that holds an IPv4 address; none when an attribute runs past the end.
/// Attribute values are padded to four bytes.
pub open spec fn attribute_walk(p: Seq<u8>, cursor: nat, end: nat) -> Option<Ipv4Octets>
    decreases end + 4 - cursor,
{
    if cursor + 4 > end || end > p.len() {
        None
    } else {
        let kind = be16(p[cursor as int], p[cursor + 1int]);
        let len = be16(p[cursor + 2int], p[cursor + 3int]);
        let start = cursor + 4;
        if start + len > end {
            None
        } else {
            let value = p.subrange(start as int, (start + len) as int);
            let found = if kind == STUN_ATTR_XOR_MAPPED_ADDRESS {
                mapped_value(value, true)
            } else if kind == STUN_ATTR_MAPPED_ADDRESS {
                mapped_value(value, false)
            } else {
                None
            };
            if found is Some {
                found
            } else {
                proof {
                    assert(len <= (len + 3) / 4 * 4 <= len + 3);
                }
                attribute_walk(p, start + (len + 3) / 4 * 4, end)
            }
        }
    }
}

/// The mapped address in a binding success response that answers the transaction.
pub open spec fn stun_mapped(p: Seq<u8>, txid: Seq<u8>) -> Option<Ipv4Octets> {
    if p.len() < 20 || be16(p[0], p[1]) != STUN_BINDING_SUCCESS_RESPONSE {
        None
    } else if p.len() < 20 + be16(p[2], p[3]) {
        None
    } else if p.subrange(4, 8) != cookie_bytes() || p.subrange(8, 20) != txid {
        None
    } else {
        attribute_walk(p, 20, 20 + be16(p[2], p[3]))
    }
}

pub fn parse_stun_mapped_ipv4(packet: &[u8], txid: &[u8]) -> (r: Option<Ipv4Octets>)
    requires
        txid.len() == 12,
    ensures
        r == stun_mapped(packet@, txid@),
{
    if packet.len() < 20 {
        return None;
    }
    let message_type = packet[0] as usize * 256 + packet[1] as usize;
    if message_type != STUN_BINDING_SUCCESS_RESPONSE as usize {
        return None;
    }
    let length = packet[2] as usize * 256 + packet[3] as usize;
    if packet.len() < 20 + length {
        return None;
    }
    if !(packet[4] == 0x21 && packet[5] == 0x12 && packet[6] == 0xA4 && packet[7] == 0x42) {
        assert(packet@.subrange(4, 8) != cookie_bytes()) by {
            if packet@.subrange(4, 8) == cookie_bytes() {
                assert(packet@.subrange(4, 8)[0] == packet@[4]);
                assert(packet@.subrange(4, 8)[1] == packet@[5]);
                assert(packet@.subrange(4, 8)[2] == packet@[6]);
                assert(packet@.subrange(4, 8)[3] == packet@[7]);
            }
        }
        return None;
    }
    assert(packet@.subrange(4, 8) =~= cookie_bytes());
    let mut k: usize = 0;
    while k < 12
        invariant
            k <= 12,
            txid.len() == 12,
            packet.len() >= 20,
            forall|j: int| 0 <= j < k ==> packet@[8 + j] == txid@[j],
        decreases 12 - k,
    {
        if packet[8 + k] != txid[k] {
            assert(packet@.subrange(8, 20)[k as int] != txid@[k as int]);
            return None;
        }
        k += 1;
    }
    assert(packet@.subrange(8, 20) =~= txid@);
    let end = 20 + length;
    let mut cursor: usize = 20;
    while cursor + 4 <= end
        invariant
            end <= packet.len(),
            end == 20 + be16(packet@[2], packet@[3]),
            end <= 20 + 65535,
            20 <= cursor <= end + 3,
            stun_mapped(packet@, txid@) == attribute_walk(packet@, cursor as nat, end as nat),
        decreases end + 4 - cursor,
    {
        let kind = packet[cursor] as usize * 256 + packet[cursor + 1] as usize;
        let len = packet[cursor + 2] as usize * 256 + packet[cursor + 3] as usize;
        let start = cursor + 4;
        if start + len > end {
            return None;
        }
        let value = &packet[start..start + len];
        let found = if kind == STUN_ATTR_XOR_MAPPED_ADDRESS as usize {
            parse_xor_mapped_ipv4(value)
        } else if kind == STUN_ATTR_MAPPED_ADDRESS as usize {
            parse_mapped_ipv4(value)
        } else {
            None
        };
        if found.is_some() {
            return found;
        }
        assert(len <= (len + 3) / 4 * 4 <= len + 3);
        cursor = start + (len + 3) / 4 * 4;
    }
    None
}

// ---------------------------------------------------------------------------
// Choosing the address to advertise
// ---------------------------------------------------------------------------

/// An address others on the internet can reach: not private (10/8, 172.16/12,
/// 192.168/16), loopback (127/8), link-local (169.254/16), broadcast, documentation
/// (192.0.2/24, 198.51.100/24, 203.0.113/24) or unspecified.
pub open spec fn public_ipv4(ip: Ipv4Octets) -> bool {
    &&& !(ip.a == 10 || (ip.a == 172 && 16 <= ip.b <= 31) || (ip.a == 192 && ip.b == 168))
    &&& ip.a != 127
    &&& !(ip.a == 169 && ip.b == 254)
    &&& !(ip.a == 255 && ip.b == 255 && ip.c == 255 && ip.d == 255)
    &&& !((ip.a == 192 && ip.b == 0 && ip.c == 2) || (ip.a == 198 && ip.b == 51 && ip.c == 100) || (ip.a
        == 203 && ip.b == 0 && ip.c == 113))
    &&& !(ip.a == 0 && ip.b == 0 && ip.c == 0 && ip.d == 0)
}

pub fn is_public_ipv4(ip: Ipv4Octets) -> (r: bool)
    ensures
        r == public_ipv4(ip),
{
    let private = ip.a == 10 || (ip.a == 172 && 16 <= ip.b && ip.b <= 31) || (ip.a == 192 && ip.b == 168);
    let loopback = ip.a == 127;
    let link_local = ip.a == 169 && ip.b == 254;
    let broadcast = ip.a == 255 && ip.b == 255 && ip.c == 255 && ip.d == 255;
    let documentation = (ip.a == 192 && ip.b == 0 && ip.c == 2) || (ip.a == 198 && ip.b == 51 && ip.c
        == 100) || (ip.a == 203 && ip.b == 0 && ip.c == 113);
    let unspecified = ip.a == 0 && ip.b == 0 && ip.c == 0 && ip.d == 0;
    !private && !loopback && !link_local && !broadcast && !documentation && !unspecified
}

pub open spec fn octets_of(e: Ipv4Endpoint) -> Ipv4Octets {
    Ipv4Octets { a: e.a, b: e.b, c: e.c, d: e.d }
}

/// Whether the bind address must be replaced by a detected one before it is advertised.
pub fn advertise_needs_detection(bind: Ipv4Endpoint) -> (r: bool)
    ensures
        r == !public_ipv4(octets_of(bind)),
{
    !is_public_ipv4(Ipv4Octets { a: bind.a, b: bind.b, c: bind.c, d: bind.d })
}

/// The address to advertise for a bind address: the bind address when it is public, else
/// the detected one (the STUN answer, else the local interface address), else loopback;
/// with the bind port.
pub open spec fn advertised(bind: Ipv4Endpoint, detected: Option<Ipv4Octets>) -> Ipv4Endpoint {
    let ip = if public_ipv4(octets_of(bind)) {
        octets_of(bind)
    } else {
        match detected {
            Some(d) => d,
            None => Ipv4Octets { a: 127, b: 0, c: 0, d: 1 },
        }
    };
    Ipv4Endpoint { a: ip.a, b: ip.b, c: ip.c, d: ip.d, port: bind.port }
}

pub fn resolve_advertise_addr(bind: Ipv4Endpoint, detected: Option<Ipv4Octets>) -> (r: String)
    ensures
        r@ == endpoint_text(advertised(bind, detected)),
{
    let ip = if is_public_ipv4(Ipv4Octets { a: bind.a, b: bind.b, c: bind.c, d: bind.d }) {
        Ipv4Octets { a: bind.a, b: bind.b, c: bind.c, d: bind.d }
    } else {
        match detected {
            Some(d) => d,
            None => Ipv4Octets { a: 127, b: 0, c: 0, d: 1 },
        }
    };
    format_endpoint(Ipv4Endpoint { a: ip.a, b: ip.b, c: ip.c, d: ip.d, port: bind.port })
}

} // verus!
