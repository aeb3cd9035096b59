//! Framing check for the binary form of an OpenPGP encrypted message.
//!
//! Only new-format packets are admitted. A message is a run of session-key
//! packets (PKESK or SKESK) closed by exactly one SEIPD packet that ends
//! with the input.

use vstd::prelude::*;

verus! {

/// Packet type of a Public-Key Encrypted Session Key packet.
pub const PKESK: u8 = 1;

/// Packet type of a Symmetric-Key Encrypted Session Key packet.
pub const SKESK: u8 = 3;

/// Packet type of a Symmetrically Encrypted and Integrity Protected Data packet.
pub const SEIPD: u8 = 18;

/// A packet as it lies in a byte string: its type and the index one past
/// its body.
pub struct PacketSpan {
    pub type_id: u8,
    pub end: int,
}

/// A tag octet opens a new-format packet when its two high bits are set.
pub open spec fn is_new_format_tag(tag: u8) -> bool {
    tag & 0xC0 == 0xC0
}

/// The packet type carried by a new-format tag octet.
pub open spec fn packet_type(tag: u8) -> u8 {
    tag & 0x3F
}

/// A length octet in `[224, 255)` announces a partial body chunk.
pub open spec fn is_partial_length(octet: u8) -> bool {
    224 <= octet < 255
}

/// Size of the chunk announced by a partial length octet.
pub open spec fn partial_chunk_len(octet: u8) -> nat {
    (1u32 << ((octet & 0x1F) as u32)) as nat
}

/// Index of the first length octet at or after `j` that is not a partial
/// length, each partial chunk being skipped whole. `None` when the input
/// ends first.
pub open spec fn final_length_pos(b: Seq<u8>, j: int) -> Option<int>
    decreases b.len() - j,
{
    if j < 0 || j >= b.len() {
        None
    } else if is_partial_length(b[j]) {
        let next = j + 1 + partial_chunk_len(b[j]);
        if next < b.len() {
            final_length_pos(b, next)
        } else {
            None
        }
    } else {
        Some(j)
    }
}

/// Index one past the body whose one-, two- or five-octet length field
/// starts at `k`. `None` when the field is cut short by the end of input.
pub open spec fn body_end(b: Seq<u8>, k: int) -> Option<int> {
    if k < 0 || k >= b.len() {
        None
    } else if b[k] < 192 {
        Some(k + 1 + b[k])
    } else if b[k] < 224 {
        if k + 1 < b.len() {
            Some(k + 2 + (b[k] - 192) * 256 + b[k + 1] + 192)
        } else {
            None
        }
    } else if b[k] == 255 {
        if k + 4 < b.len() {
            Some(
                k + 5 + b[k + 1] * 0x100_0000 + b[k + 2] * 0x1_0000 + b[k + 3] * 0x100 + b[k + 4],
            )
        } else {
            None
        }
    } else {
        None
    }
}

/// The packet that starts at index `i`, if a complete header stands there.
/// The body may still run past the end of `b`.
pub open spec fn packet_at(b: Seq<u8>, i: int) -> Option<PacketSpan> {
    if 0 <= i < b.len() && is_new_format_tag(b[i]) {
        match final_length_pos(b, i + 1) {
            Some(k) => match body_end(b, k) {
                Some(end) => Some(PacketSpan { type_id: packet_type(b[i]), end }),
                None => None,
            },
            None => None,
        }
    } else {
        None
    }
}

/// The bytes from `i` on are session-key packets followed by one SEIPD
/// packet that ends exactly with the input.
pub open spec fn packets_ok(b: Seq<u8>, i: int) -> bool
    decreases b.len() - i,
{
    match packet_at(b, i) {
        Some(p) => if p.end == b.len() {
            p.type_id == SEIPD
        } else {
            &&& i < p.end < b.len()
            &&& (p.type_id == PKESK || p.type_id == SKESK)
            &&& packets_ok(b, p.end)
        },
        None => false,
    }
}

/// `b` is a well-formed encrypted message.
pub open spec fn is_encrypted_message(b: Seq<u8>) -> bool {
    packets_ok(b, 0)
}

/// A packet ends after the index at which it starts.
pub proof fn lemma_packet_end_after_start(b: Seq<u8>, i: int)
    requires
        packet_at(b, i) is Some,
    ensures
        packet_at(b, i)->0.end > i + 1,
{
    lemma_final_length_pos_bounds(b, i + 1);
}

proof fn lemma_final_length_pos_bounds(b: Seq<u8>, j: int)
    ensures
        final_length_pos(b, j) matches Some(k) ==> j <= k < b.len() && !is_partial_length(b[k]),
    decreases b.len() - j,
{
    if 0 <= j < b.len() && is_partial_length(b[j]) {
        let next = j + 1 + partial_chunk_len(b[j]);
        if next < b.len() {
            lemma_final_length_pos_bounds(b, next);
        }
    }
}

/// `cuts` lists, in order, the index at which each packet of `b` from `start`
/// on begins, followed by `b.len()`: every packet ends where the next one
/// begins, the last one is an SEIPD packet that ends with the input, and
/// every earlier one is a session-key packet.
pub open spec fn is_packet_chain(b: Seq<u8>, start: int, cuts: Seq<int>) -> bool {
    &&& cuts.len() >= 2
    &&& cuts[0] == start
    &&& cuts[cuts.len() - 1] == b.len()
    &&& forall|k: int|
        0 <= k < cuts.len() - 1 ==> (#[trigger] packet_at(b, cuts[k]) matches Some(p) && p.end
            == cuts[k + 1])
    &&& forall|k: int|
        0 <= k < cuts.len() - 2 ==> (#[trigger] packet_at(b, cuts[k]) matches Some(p) && (p.type_id
            == PKESK || p.type_id == SKESK))
    &&& packet_at(b, cuts[cuts.len() - 2]) matches Some(p) && p.type_id == SEIPD
}

proof fn lemma_accepted_gives_chain(b: Seq<u8>, i: int) -> (cuts: Seq<int>)
    requires
        packets_ok(b, i),
    ensures
        is_packet_chain(b, i, cuts),
    decreases b.len() - i,
{
    let p = packet_at(b, i)->0;
    if p.end == b.len() {
        seq![i, p.end]
    } else {
        let rest = lemma_accepted_gives_chain(b, p.end);
        let cuts = seq![i] + rest;
        assert forall|k: int| 0 <= k < cuts.len() - 1 implies (#[trigger] packet_at(b, cuts[k])
            matches Some(q) && q.end == cuts[k + 1]) by {
            if k > 0 {
                assert(cuts[k] == rest[k - 1]);
                assert(cuts[k + 1] == rest[k]);
            }
        }
        assert forall|k: int| 0 <= k < cuts.len() - 2 implies (#[trigger] packet_at(b, cuts[k])
            matches Some(q) && (q.type_id == PKESK || q.type_id == SKESK)) by {
            if k > 0 {
                assert(cuts[k] == rest[k - 1]);
            }
        }
        assert(cuts[cuts.len() - 2] == rest[rest.len() - 2]);
        cuts
    }
}

proof fn lemma_chain_gives_accepted(b: Seq<u8>, i: int, cuts: Seq<int>)
    requires
        is_packet_chain(b, i, cuts),
    ensures
        packets_ok(b, i),
    decreases cuts.len(),
{
    let p = packet_at(b, cuts[0])->0;
    assert(p.end == cuts[1]);
    lemma_packet_end_after_start(b, i);
    if cuts.len() > 2 {
        let rest = cuts.subrange(1, cuts.len() as int);
        assert forall|k: int| 0 <= k < rest.len() - 1 implies (#[trigger] packet_at(b, rest[k])
            matches Some(q) && q.end == rest[k + 1]) by {
            assert(rest[k] == cuts[k + 1]);
            assert(packet_at(b, cuts[k + 1]) is Some);
        }
        assert forall|k: int| 0 <= k < rest.len() - 2 implies (#[trigger] packet_at(b, rest[k])
            matches Some(q) && (q.type_id == PKESK || q.type_id == SKESK)) by {
            assert(rest[k] == cuts[k + 1]);
            assert(packet_at(b, cuts[k + 1]) is Some);
        }
        assert(rest[rest.len() - 2] == cuts[cuts.len() - 2]);
        lemma_chain_gives_accepted(b, cuts[1], rest);
        assert(packet_at(b, cuts[1]) is Some);
        assert(packet_at(b, cuts[0]) is Some);
    }
}

/// An input is accepted exactly when its packets, laid end to end, consume
/// it whole, the last packet being an SEIPD packet and every packet before
/// it a PKESK or SKESK packet.
pub proof fn lemma_accepted_iff_packet_chain(b: Seq<u8>)
    ensures
        is_encrypted_message(b) <==> exists|cuts: Seq<int>| is_packet_chain(b, 0, cuts),
{
    if is_encrypted_message(b) {
        let cuts = lemma_accepted_gives_chain(b, 0);
        assert(is_packet_chain(b, 0, cuts));
    }
    if exists|cuts: Seq<int>| is_packet_chain(b, 0, cuts) {
        let cuts = choose|cuts: Seq<int>| is_packet_chain(b, 0, cuts);
        lemma_chain_gives_accepted(b, 0, cuts);
    }
}

/// The bytes of one packet with a one-octet length field.
pub open spec fn short_packet(type_id: u8, body: Seq<u8>) -> Seq<u8> {
    seq![0xC0u8 | type_id, body.len() as u8] + body
}

/// One PKESK packet followed by one SEIPD packet, both with one-octet
/// lengths, is accepted, whatever their bodies hold.
pub proof fn lemma_minimal_message_accepted(key: Seq<u8>, data: Seq<u8>)
    requires
        key.len() < 192,
        data.len() < 192,
    ensures
        is_encrypted_message(short_packet(PKESK, key) + short_packet(SEIPD, data)),
{
    let b = short_packet(PKESK, key) + short_packet(SEIPD, data);
    let second = 2 + key.len() as int;
    assert(0xC0u8 | 1 == 0xC1 && 0xC1u8 & 0xC0 == 0xC0 && 0xC1u8 & 0x3F == 1) by (bit_vector);
    assert(0xC0u8 | 18 == 0xD2 && 0xD2u8 & 0xC0 == 0xC0 && 0xD2u8 & 0x3F == 18) by (bit_vector);
    assert(b[0] == 0xC1u8);
    assert(b[1] == key.len() as u8);
    assert(b[second] == 0xD2u8);
    assert(b[second + 1] == data.len() as u8);
    assert(final_length_pos(b, 1) == Some(1int));
    assert(body_end(b, 1) == Some(second));
    assert(final_length_pos(b, second + 1) == Some(second + 1));
    assert(body_end(b, second + 1) == Some(b.len() as int));
    assert(packet_at(b, second) == Some(PacketSpan { type_id: SEIPD, end: b.len() as int }));
    assert(packets_ok(b, second));
    assert(packet_at(b, 0) == Some(PacketSpan { type_id: PKESK, end: second }));
}

/// A one-octet length field encodes the body lengths 0 to 191, a two-octet
/// field exactly 192 to 8383, and a five-octet field any 32-bit length.
pub proof fn lemma_length_field_ranges(b: Seq<u8>, k: int)
    requires
        body_end(b, k) is Some,
    ensures
        b[k] < 192 ==> body_end(b, k)->0 == k + 1 + b[k],
        192 <= b[k] < 224 ==> 192 <= body_end(b, k)->0 - (k + 2) <= 8383,
        192 <= b[k] < 224 ==> (body_end(b, k)->0 - (k + 2) == 192 <==> b[k] == 192 && b[k + 1]
            == 0),
        192 <= b[k] < 224 ==> (body_end(b, k)->0 - (k + 2) == 8383 <==> b[k] == 223 && b[k + 1]
            == 255),
        b[k] == 255 ==> 0 <= body_end(b, k)->0 - (k + 5) <= 0xFFFF_FFFF,
{
}

/// Decides whether `payload` is a well-formed encrypted message.
pub fn check_openpgp_payload(payload: &[u8]) -> (ok: bool)
    ensures
        ok == is_encrypted_message(payload@),
{
    let n = payload.len();
    let mut i: usize = 0;
    while i < n
        invariant
            i <= n,
            n == payload@.len(),
            packets_ok(payload@, i as int) == packets_ok(payload@, 0),
        decreases n - i,
    {
        let tag = payload[i];
        if tag & 0xC0 != 0xC0 {
            return false;
        }
        let type_id = tag & 0x3F;
        let mut k = i + 1;
        if k >= n {
            return false;
        }
        while payload[k] >= 224 && payload[k] < 255
            invariant
                i < k < n,
                n == payload@.len(),
                is_new_format_tag(payload@[i as int]),
                packets_ok(payload@, i as int) == packets_ok(payload@, 0),
                final_length_pos(payload@, k as int) == final_length_pos(payload@, i + 1),
            decreases n - k,
        {
            let octet = payload[k];
            assert(octet & 0x1F < 32) by (bit_vector);
            let chunk: u32 = 1u32 << ((octet & 0x1F) as u32);
            if chunk as usize >= n - k - 1 {
                return false;
            }
            k = k + 1 + chunk as usize;
        }
        let first = payload[k];
        let header_end: usize;
        let body_len: u64;
        if first < 192 {
            body_len = first as u64;
            header_end = k + 1;
        } else if first < 224 {
            if k + 1 >= n {
                return false;
            }
            body_len = (first as u64 - 192) * 256 + payload[k + 1] as u64 + 192;
            header_end = k + 2;
        } else {
            if n - k <= 4 {
                return false;
            }
            body_len = payload[k + 1] as u64 * 0x100_0000 + payload[k + 2] as u64 * 0x1_0000
                + payload[k + 3] as u64 * 0x100 + payload[k + 4] as u64;
            header_end = k + 5;
        }
        let room = (n - header_end) as u64;
        if body_len == room {
            return type_id == SEIPD;
        } else if body_len > room {
            return false;
        } else if type_id != PKESK && type_id != SKESK {
            return false;
        }
        i = header_end + body_len as usize;
    }
    false
}

} // verus!
