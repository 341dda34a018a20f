//! Handshake inspector: classifies the first packet of a freshly accepted
//! connection as a login attempt, a status probe, or something to ignore.
//!
//! The packet layout is: packet-length varint, packet-id varint (must be
//! zero), protocol-version varint (discarded), address-length varint (must
//! be non-negative), that many address bytes (skipped), two port bytes
//! (skipped), and the next-state varint that declares the client's intent.

use vstd::prelude::*;
use vstd::slice::slice_subrange;

use crate::varint::lemma_varint_round_trip;
use crate::varint::read_varint;
use crate::varint::varint_enc;
use crate::varint::varint_end;
use crate::varint::varint_readable;
use crate::varint::varint_value;

verus! {

/// What the first packet of a connection declares.
#[derive(Debug, Clone, Copy, PartialEq, Eq, Structural)]
pub enum HandshakeOutcome {
    /// Next-state 2: the client wants to join the game.
    Login,
    /// Next-state 1: the client wants the synthetic server listing.
    StatusProbe,
    /// Anything else: an empty, truncated, malformed or unknown packet.
    Ignore,
}

/// The classification of a received byte sequence, following the packet
/// layout exactly: any truncated or malformed varint, a non-zero packet
/// id, a negative address length, or an unknown next-state all yield
/// `Ignore`; next-state 1 is a status probe and next-state 2 a login.
pub open spec fn classify_handshake_spec(d: Seq<u8>) -> HandshakeOutcome {
    if !varint_readable(d) {
        HandshakeOutcome::Ignore
    } else {
        let o1 = varint_end(d) + 1;
        let r1 = d.skip(o1);
        if !varint_readable(r1) {
            HandshakeOutcome::Ignore
        } else if (varint_value(r1) as i32) != 0 {
            HandshakeOutcome::Ignore
        } else {
            let o2 = o1 + varint_end(r1) + 1;
            let r2 = d.skip(o2);
            if !varint_readable(r2) {
                HandshakeOutcome::Ignore
            } else {
                let o3 = o2 + varint_end(r2) + 1;
                let r3 = d.skip(o3);
                if !varint_readable(r3) {
                    HandshakeOutcome::Ignore
                } else if (varint_value(r3) as i32) < 0 {
                    HandshakeOutcome::Ignore
                } else {
                    let o4 = o3 + varint_end(r3) + 1 + (varint_value(r3) as i32) + 2;
                    if o4 >= d.len() {
                        HandshakeOutcome::Ignore
                    } else {
                        let r4 = d.skip(o4);
                        if !varint_readable(r4) {
                            HandshakeOutcome::Ignore
                        } else if (varint_value(r4) as i32) == 1 {
                            HandshakeOutcome::StatusProbe
                        } else if (varint_value(r4) as i32) == 2 {
                            HandshakeOutcome::Login
                        } else {
                            HandshakeOutcome::Ignore
                        }
                    }
                }
            }
        }
    }
}

/// A handshake packet composed exactly per the protocol layout, with
/// packet id 0 and the given fields.
pub open spec fn well_formed_handshake(
    length_prefix: u32,
    protocol_version: u32,
    addr: Seq<u8>,
    port: Seq<u8>,
    next_state: u32,
) -> Seq<u8> {
    varint_enc(length_prefix) + (varint_enc(0) + (varint_enc(protocol_version) + (varint_enc(
        addr.len() as u32,
    ) + (addr + (port + varint_enc(next_state))))))
}

/// Skipping in two steps is skipping once.
proof fn lemma_skip_skip(s: Seq<u8>, a: int, b: int)
    requires
        0 <= a,
        0 <= b,
        a + b <= s.len(),
    ensures
        s.skip(a).skip(b) =~= s.skip(a + b),
{
}

/// A sequence that starts with a varint encoding reads back as that
/// varint, and skipping past it leaves the rest.
proof fn lemma_strip_prefix(n: u32, rest: Seq<u8>, d: Seq<u8>)
    requires
        d == varint_enc(n) + rest,
    ensures
        varint_readable(d),
        varint_value(d) == n,
        varint_end(d) + 1 == varint_enc(n).len(),
        1 <= varint_end(d) + 1 <= 5,
        d.skip(varint_end(d) + 1) == rest,
        d.len() == varint_enc(n).len() + rest.len(),
{
    lemma_varint_round_trip(n, rest);
    assert(d.skip(varint_enc(n).len() as int) =~= rest);
}

/// Law: on a well-formed handshake packet the classification is decided
/// by the next-state field alone: 1 is a status probe, 2 a login, and
/// anything else is ignored.
pub proof fn lemma_classify_well_formed(
    length_prefix: u32,
    protocol_version: u32,
    addr: Seq<u8>,
    port: Seq<u8>,
    next_state: u32,
)
    requires
        addr.len() <= 0x7fff_ffff,
        port.len() == 2,
    ensures
        classify_handshake_spec(
            well_formed_handshake(length_prefix, protocol_version, addr, port, next_state),
        ) == (if next_state == 1 {
            HandshakeOutcome::StatusProbe
        } else if next_state == 2 {
            HandshakeOutcome::Login
        } else {
            HandshakeOutcome::Ignore
        }),
{
    let e1 = varint_enc(length_prefix);
    let e2 = varint_enc(0);
    let e3 = varint_enc(protocol_version);
    let e4 = varint_enc(addr.len() as u32);
    let e5 = varint_enc(next_state);
    let d = well_formed_handshake(length_prefix, protocol_version, addr, port, next_state);
    let t4 = addr + (port + e5);
    let t3 = e4 + t4;
    let t2 = e3 + t3;
    let t1 = e2 + t2;

    assert(d == e1 + t1);
    lemma_strip_prefix(length_prefix, t1, d);
    let o1: int = varint_end(d) + 1;
    let r1 = d.skip(o1);
    assert(r1 == t1);

    lemma_strip_prefix(0, t2, t1);
    assert((varint_value(r1) as i32) == 0);
    let o2: int = o1 + varint_end(r1) + 1;
    lemma_skip_skip(d, o1, varint_end(r1) + 1);
    let r2 = d.skip(o2);
    assert(r2 == t2);

    lemma_strip_prefix(protocol_version, t3, t2);
    let o3: int = o2 + varint_end(r2) + 1;
    lemma_skip_skip(d, o2, varint_end(r2) + 1);
    let r3 = d.skip(o3);
    assert(r3 == t3);

    lemma_strip_prefix(addr.len() as u32, t4, t3);
    assert(varint_value(r3) == addr.len());
    assert((varint_value(r3) as i32) == addr.len());
    let a: int = addr.len() as int;
    lemma_skip_skip(d, o3, varint_end(r3) + 1);
    assert(d.skip(o3 + varint_end(r3) + 1) == t4);
    assert(t4.skip(a) =~= port + e5);
    lemma_skip_skip(d, o3 + varint_end(r3) + 1, a);
    assert(d.skip(o3 + varint_end(r3) + 1 + a) == port + e5);
    assert((port + e5).skip(2) =~= e5);
    lemma_skip_skip(d, o3 + varint_end(r3) + 1 + a, 2);
    let o4: int = o3 + varint_end(r3) + 1 + (varint_value(r3) as i32) + 2;
    assert(o4 == o3 + varint_end(r3) + 1 + a + 2);
    let r4 = d.skip(o4);
    assert(r4 == e5);

    assert(e5 =~= e5 + Seq::<u8>::empty());
    lemma_strip_prefix(next_state, Seq::<u8>::empty(), e5);
    assert(o4 < d.len());
    assert(varint_readable(r4));
    assert(varint_value(r4) == next_state);
    assert((next_state as i32) == 1 <==> next_state == 1) by (bit_vector);
    assert((next_state as i32) == 2 <==> next_state == 2) by (bit_vector);
}

/// Classify the bytes read from a new connection.
pub fn classify_handshake(data: &[u8]) -> (r: HandshakeOutcome)
    ensures
        r == classify_handshake_spec(data@),
{
    let n: usize = data.len();
    let p1: (i32, usize) = match read_varint(data) {
        Some(p) => p,
        None => {
            return HandshakeOutcome::Ignore;
        },
    };
    let o1: usize = p1.1;
    let sub1 = slice_subrange(data, o1, n);
    proof {
        assert(sub1@ =~= data@.skip(o1 as int));
    }
    let p2: (i32, usize) = match read_varint(sub1) {
        Some(p) => p,
        None => {
            return HandshakeOutcome::Ignore;
        },
    };
    if p2.0 != 0 {
        return HandshakeOutcome::Ignore;
    }
    let o2: usize = o1 + p2.1;
    let sub2 = slice_subrange(data, o2, n);
    proof {
        assert(sub2@ =~= data@.skip(o2 as int));
    }
    let p3: (i32, usize) = match read_varint(sub2) {
        Some(p) => p,
        None => {
            return HandshakeOutcome::Ignore;
        },
    };
    let o3: usize = o2 + p3.1;
    let sub3 = slice_subrange(data, o3, n);
    proof {
        assert(sub3@ =~= data@.skip(o3 as int));
    }
    let p4: (i32, usize) = match read_varint(sub3) {
        Some(p) => p,
        None => {
            return HandshakeOutcome::Ignore;
        },
    };
    let addr_len: i32 = p4.0;
    if addr_len < 0 {
        return HandshakeOutcome::Ignore;
    }
    let o3b: usize = o3 + p4.1;
    let addr_bytes: usize = addr_len as usize;
    let rem: usize = n - o3b;
    if addr_bytes >= rem {
        return HandshakeOutcome::Ignore;
    }
    let rem2: usize = rem - addr_bytes;
    if rem2 <= 2 {
        return HandshakeOutcome::Ignore;
    }
    let o4: usize = o3b + addr_bytes + 2;
    let sub4 = slice_subrange(data, o4, n);
    proof {
        assert(sub4@ =~= data@.skip(o4 as int));
    }
    let p5: (i32, usize) = match read_varint(sub4) {
        Some(p) => p,
        None => {
            return HandshakeOutcome::Ignore;
        },
    };
    if p5.0 == 1 {
        HandshakeOutcome::StatusProbe
    } else if p5.0 == 2 {
        HandshakeOutcome::Login
    } else {
        HandshakeOutcome::Ignore
    }
}

} // verus!
