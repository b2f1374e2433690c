//! H.264 over RTP: fragmentation units and sample times.

use vstd::prelude::*;
use crate::bytes::{copy_bytes, push_bytes};

verus! {

/// The first byte of every fragment of a NAL unit: its importance bits and the
/// fragment type.
pub open spec fn fragment_indicator(header: u8) -> u8 {
    (header & 0x80) | (header & 0x60) | 28
}

/// The second byte of a fragment: whether it is the first or the last, and the type
/// of the NAL unit.
pub open spec fn fragment_header(header: u8, first: bool, last: bool) -> u8 {
    (if first {
        0x80u8
    } else {
        0u8
    }) | (if last {
        0x40u8
    } else {
        0u8
    }) | (header & 0x1f)
}

/// The fragments of a NAL unit from position `offset` of its body on.
pub open spec fn fragments_from(nal: Seq<u8>, max: nat, offset: int) -> Seq<Seq<u8>>
    decreases nal.len() - 1 - offset,
{
    let body = nal.skip(1);
    if nal.len() == 0 || max == 0 || offset < 0 || offset >= body.len() {
        Seq::empty()
    } else {
        let end = if offset + max < body.len() {
            offset + max
        } else {
            body.len() as int
        };
        seq![
            seq![
                fragment_indicator(nal[0]),
                fragment_header(nal[0], offset == 0, end == body.len()),
            ] + body.subrange(offset, end),
        ] + fragments_from(nal, max, end)
    }
}

/// The RTP payloads of a NAL unit: the unit itself where it fits, else fragments of
/// at most `max` bytes of its body.
pub open spec fn fu_a_payloads(nal: Seq<u8>, max: nat) -> Seq<Seq<u8>> {
    if nal.len() == 0 || max == 0 {
        Seq::empty()
    } else if nal.len() <= max + 1 {
        seq![nal]
    } else {
        fragments_from(nal, max, 0)
    }
}

/// The payloads of a list of packets.
pub open spec fn packet_bytes(packets: Seq<Vec<u8>>) -> Seq<Seq<u8>> {
    Seq::new(packets.len(), |i: int| packets[i]@)
}

/// Splits a NAL unit into RTP payloads.
pub fn fragment_h264_fu_a(nal: &[u8], max_fragment_payload: usize) -> (packets: Vec<Vec<u8>>)
    ensures
        packet_bytes(packets@) == fu_a_payloads(nal@, max_fragment_payload as nat),
{
    let len: usize = nal.len();
    let mut packets: Vec<Vec<u8>> = Vec::new();
    if len == 0 || max_fragment_payload == 0 {
        assert(packet_bytes(packets@) =~= fu_a_payloads(nal@, max_fragment_payload as nat));
        return packets;
    }
    if len - 1 <= max_fragment_payload {
        packets.push(copy_bytes(nal));
        assert(packet_bytes(packets@) =~= seq![nal@]);
        return packets;
    }
    let header: u8 = nal[0];
    let indicator: u8 = (header & 0x80) | (header & 0x60) | 28;
    let body: &[u8] = vstd::slice::slice_subrange(nal, 1, len);
    assert(body@ =~= nal@.skip(1));
    let body_len: usize = len - 1;
    let mut offset: usize = 0;
    let ghost max = max_fragment_payload as nat;
    assert(packet_bytes(packets@) + fragments_from(nal@, max, 0) =~= fragments_from(nal@, max, 0));
    while offset < body_len
        invariant
            len == nal@.len(),
            len > 1,
            body_len == len - 1,
            body@ == nal@.skip(1),
            header == nal@[0],
            indicator == fragment_indicator(header),
            max == max_fragment_payload,
            max > 0,
            offset <= body_len,
            packet_bytes(packets@) + fragments_from(nal@, max, offset as int) == fragments_from(
                nal@,
                max,
                0,
            ),
        decreases body_len - offset,
    {
        let ghost before = packets@;
        let ghost at = offset as int;
        let end: usize = if max_fragment_payload < body_len - offset {
            offset + max_fragment_payload
        } else {
            body_len
        };
        let start_bit: u8 = if offset == 0 {
            0x80
        } else {
            0
        };
        let end_bit: u8 = if end == body_len {
            0x40
        } else {
            0
        };
        let mut packet: Vec<u8> = Vec::new();
        packet.push(indicator);
        packet.push(start_bit | end_bit | (header & 0x1f));
        push_bytes(&mut packet, vstd::slice::slice_subrange(body, offset, end));
        let ghost bytes = packet@;
        assert(bytes =~= seq![
            fragment_indicator(header),
            fragment_header(header, at == 0, end == body@.len()),
        ] + body@.subrange(at, end as int));
        packets.push(packet);
        offset = end;
        assert(packet_bytes(packets@) =~= packet_bytes(before).push(bytes));
        assert(packet_bytes(packets@) + fragments_from(nal@, max, offset as int) =~= packet_bytes(
            before,
        ) + fragments_from(nal@, max, at));
    }
    assert(fragments_from(nal@, max, offset as int) =~= Seq::<Seq<u8>>::empty());
    assert(packet_bytes(packets@) =~= fragments_from(nal@, max, 0));
    packets
}

/// The given bits of the first bytes of all packets, put together.
pub open spec fn indicator_bits(packets: Seq<Seq<u8>>, mask: u8) -> u8
    decreases packets.len(),
{
    if packets.len() == 0 {
        0
    } else {
        indicator_bits(packets.drop_last(), mask) | (packets.last()[0] & mask)
    }
}

/// What stands behind the two header bytes of all packets, in a row.
pub open spec fn fragment_bodies(packets: Seq<Seq<u8>>) -> Seq<u8>
    decreases packets.len(),
{
    if packets.len() == 0 {
        Seq::empty()
    } else {
        fragment_bodies(packets.drop_last()) + packets.last().skip(2)
    }
}

/// Packet `k` of a series is a fragment, marked as first or last exactly where it is,
/// and of the type of the first one.
pub open spec fn fragment_fits(packets: Seq<Seq<u8>>, k: int) -> bool {
    let packet = packets[k];
    &&& packet.len() >= 3
    &&& packet[0] & 0x1f == 28
    &&& (packet[1] & 0x80 != 0) == (k == 0)
    &&& (packet[1] & 0x40 != 0) == (k + 1 == packets.len())
    &&& packet[1] & 0x1f == packets[0][1] & 0x1f
}

/// The NAL unit behind a series of RTP payloads, where they fit together.
pub open spec fn reassembled(packets: Seq<Seq<u8>>) -> Option<Seq<u8>> {
    if packets.len() == 0 {
        None
    } else if packets.len() == 1 && packets[0].len() > 0 && packets[0][0] & 0x1f != 28 {
        Some(packets[0])
    } else if forall|k: int| 0 <= k < packets.len() ==> #[trigger] fragment_fits(packets, k) {
        Some(
            seq![
                indicator_bits(packets, 0x80) | indicator_bits(packets, 0x60) | (packets[0][1]
                    & 0x1f),
            ] + fragment_bodies(packets),
        )
    } else {
        None
    }
}

/// Puts the fragments of a NAL unit together again. Truncated or mixed fragments and
/// missing marks give nothing.
pub fn reassemble_h264_fu_a(packets: &[Vec<u8>]) -> (nal: Option<Vec<u8>>)
    ensures
        match reassembled(packet_bytes(packets@)) {
            Some(bytes) => nal is Some && nal->0@ == bytes,
            None => nal is None,
        },
{
    let ghost list = packet_bytes(packets@);
    if packets.len() == 0 {
        return None;
    }
    assert(list[0] == packets@[0]@);
    if packets.len() == 1 && packets[0].len() > 0 && packets[0][0] & 0x1f != 28 {
        return Some(copy_bytes(packets[0].as_slice()));
    }
    if packets[0].len() < 3 {
        assert(!fragment_fits(list, 0));
        return None;
    }
    let nal_type: u8 = packets[0][1] & 0x1f;
    let mut forbidden: u8 = 0;
    let mut nri: u8 = 0;
    let mut body: Vec<u8> = Vec::new();
    let mut k: usize = 0;
    assert(list.take(0) =~= Seq::<Seq<u8>>::empty());
    while k < packets.len()
        invariant
            k <= packets@.len(),
            packets@.len() > 0,
            list == packet_bytes(packets@),
            nal_type == list[0][1] & 0x1f,
            !(list.len() == 1 && list[0].len() > 0 && list[0][0] & 0x1f != 28),
            forall|j: int| 0 <= j < k ==> #[trigger] fragment_fits(list, j),
            forbidden == indicator_bits(list.take(k as int), 0x80),
            nri == indicator_bits(list.take(k as int), 0x60),
            body@ == fragment_bodies(list.take(k as int)),
        decreases packets@.len() - k,
    {
        let packet: &[u8] = packets[k].as_slice();
        assert(list[k as int] == packet@);
        assert(list.take(k as int + 1).drop_last() =~= list.take(k as int));
        assert(list.take(k as int + 1).last() == packet@);
        if packet.len() < 3 {
            assert(!fragment_fits(list, k as int));
            return None;
        }
        let indicator: u8 = packet[0];
        let fu_header: u8 = packet[1];
        let start: bool = fu_header & 0x80 != 0;
        let end: bool = fu_header & 0x40 != 0;
        if indicator & 0x1f != 28 || start != (k == 0) || end != (k + 1 == packets.len()) || fu_header
            & 0x1f != nal_type {
            assert(!fragment_fits(list, k as int));
            return None;
        }
        forbidden = forbidden | (indicator & 0x80);
        nri = nri | (indicator & 0x60);
        let chunk: &[u8] = vstd::slice::slice_subrange(packet, 2, packet.len());
        assert(chunk@ =~= packet@.skip(2));
        push_bytes(&mut body, chunk);
        assert(fragment_fits(list, k as int));
        k += 1;
    }
    assert(list.take(k as int) =~= list);
    let mut nal: Vec<u8> = Vec::new();
    nal.push(forbidden | nri | nal_type);
    push_bytes(&mut nal, body.as_slice());
    assert(nal@ =~= seq![forbidden | nri | nal_type] + fragment_bodies(list));
    Some(nal)
}

proof fn lemma_header_bits(header: u8, first: bool, last: bool)
    ensures
        fragment_indicator(header) & 0x1f == 28,
        fragment_indicator(header) & 0x80 == header & 0x80,
        fragment_indicator(header) & 0x60 == header & 0x60,
        (fragment_header(header, first, last) & 0x80 != 0) == first,
        (fragment_header(header, first, last) & 0x40 != 0) == last,
        fragment_header(header, first, last) & 0x1f == header & 0x1f,
        (header & 0x80) | (header & 0x60) | (header & 0x1f) == header,
        (header & 0x80) | (header & 0x80) == header & 0x80,
        (header & 0x60) | (header & 0x60) == header & 0x60,
        0u8 | (header & 0x80) == header & 0x80,
        0u8 | (header & 0x60) == header & 0x60,
{
    let a: u8 = if first {
        0x80u8
    } else {
        0u8
    };
    let b: u8 = if last {
        0x40u8
    } else {
        0u8
    };
    assert(((header & 0x80) | (header & 0x60) | 28) & 0x1f == 28 && ((header & 0x80) | (header
        & 0x60) | 28) & 0x80 == header & 0x80 && ((header & 0x80) | (header & 0x60) | 28) & 0x60
        == header & 0x60 && (header & 0x80) | (header & 0x60) | (header & 0x1f) == header && (header
        & 0x80) | (header & 0x80) == header & 0x80 && (header & 0x60) | (header & 0x60) == header
        & 0x60 && 0u8 | (header & 0x80) == header & 0x80 && 0u8 | (header & 0x60) == header & 0x60)
        by (bit_vector);
    assert((a == 0x80u8 || a == 0u8) && (b == 0x40u8 || b == 0u8) ==> ((a | b | (header & 0x1f))
        & 0x80 != 0) == (a == 0x80u8) && ((a | b | (header & 0x1f)) & 0x40 != 0) == (b == 0x40u8)
        && (a | b | (header & 0x1f)) & 0x1f == header & 0x1f) by (bit_vector);
}

/// The fragments before position `offset` hold the body up to there.
proof fn lemma_fragment_prefix(nal: Seq<u8>, max: nat, offset: int, before: Seq<Seq<u8>>)
    requires
        nal.len() > max + 1,
        max > 0,
        0 <= offset <= nal.len() - 1,
        offset == 0 <==> before.len() == 0,
        before.len() > 0 ==> indicator_bits(before, 0x80) == nal[0] & 0x80 && indicator_bits(
            before,
            0x60,
        ) == nal[0] & 0x60,
        fragment_bodies(before) == nal.skip(1).take(offset),
        forall|k: int|
            0 <= k < before.len() ==> {
                &&& (#[trigger] before[k]).len() >= 3
                &&& before[k][0] == fragment_indicator(nal[0])
                &&& before[k][1] == fragment_header(
                    nal[0],
                    k == 0,
                    offset == nal.len() - 1 && k + 1 == before.len(),
                )
            },
    ensures
        ({
            let all = before + fragments_from(nal, max, offset);
            &&& all.len() > 0
            &&& indicator_bits(all, 0x80) == nal[0] & 0x80
            &&& indicator_bits(all, 0x60) == nal[0] & 0x60
            &&& fragment_bodies(all) == nal.skip(1)
            &&& forall|k: int|
                0 <= k < all.len() ==> {
                    &&& (#[trigger] all[k]).len() >= 3
                    &&& all[k][0] == fragment_indicator(nal[0])
                    &&& all[k][1] == fragment_header(nal[0], k == 0, k + 1 == all.len())
                }
        }),
    decreases nal.len() - 1 - offset,
{
    let body = nal.skip(1);
    if offset == body.len() {
        assert(before + fragments_from(nal, max, offset) =~= before);
        assert(body.take(offset) =~= body);
    } else {
        let end = if offset + max < body.len() {
            offset + max
        } else {
            body.len() as int
        };
        let packet = seq![
            fragment_indicator(nal[0]),
            fragment_header(nal[0], offset == 0, end == body.len()),
        ] + body.subrange(offset, end);
        let more = before.push(packet);
        lemma_header_bits(nal[0], offset == 0, end == body.len());
        assert(more.drop_last() =~= before);
        assert(more.last()[0] == fragment_indicator(nal[0]));
        if before.len() == 0 {
            assert(indicator_bits(before, 0x80) == 0);
            assert(indicator_bits(before, 0x60) == 0);
        }
        assert(indicator_bits(more, 0x80) == indicator_bits(before, 0x80) | (nal[0] & 0x80));
        assert(indicator_bits(more, 0x60) == indicator_bits(before, 0x60) | (nal[0] & 0x60));
        assert(packet.skip(2) =~= body.subrange(offset, end));
        assert(body.take(offset) + body.subrange(offset, end) =~= body.take(end));
        assert(before + fragments_from(nal, max, offset) =~= more + fragments_from(nal, max, end));
        assert forall|k: int| 0 <= k < more.len() implies {
            &&& (#[trigger] more[k]).len() >= 3
            &&& more[k][0] == fragment_indicator(nal[0])
            &&& more[k][1] == fragment_header(
                nal[0],
                k == 0,
                end == nal.len() - 1 && k + 1 == more.len(),
            )
        } by {
            if k < before.len() {
                assert(more[k] == before[k]);
            }
        }
        lemma_fragment_prefix(nal, max, end, more);
    }
}

/// What was fragmented comes back: a NAL unit that is not itself of the fragment type,
/// or that is split, is reassembled byte for byte.
pub proof fn law_fragments_round_trip(nal: Seq<u8>, max: nat)
    requires
        nal.len() > 0,
        max > 0,
        nal.len() <= max + 1 ==> nal[0] & 0x1f != 28,
    ensures
        reassembled(fu_a_payloads(nal, max)) == Some(nal),
{
    if nal.len() > max + 1 {
        let all = fragments_from(nal, max, 0);
        let none = Seq::<Seq<u8>>::empty();
        assert(nal.skip(1).take(0) =~= Seq::<u8>::empty());
        lemma_fragment_prefix(nal, max, 0, none);
        assert(none + all =~= all);
        assert forall|k: int| 0 <= k < all.len() implies #[trigger] fragment_fits(all, k) by {
            lemma_header_bits(nal[0], k == 0, k + 1 == all.len());
            lemma_header_bits(nal[0], true, 1 == all.len());
            assert(all[k].len() >= 3);
            assert(all[0].len() >= 3);
        }
        lemma_header_bits(nal[0], true, 1 == all.len());
        assert(all[0].len() >= 3);
        assert(seq![nal[0]] + nal.skip(1) =~= nal);
        assert(reassembled(all)->0 =~= nal);
    }
}

/// No fragment carries more of the body than it may, and every fragment carries some.
pub proof fn law_fragments_are_bounded(nal: Seq<u8>, max: nat, offset: int, k: int)
    requires
        0 <= offset,
        0 <= k < fragments_from(nal, max, offset).len(),
    ensures
        3 <= fragments_from(nal, max, offset)[k].len() <= max + 2,
    decreases nal.len() - 1 - offset,
{
    let body = nal.skip(1);
    let end = if offset + max < body.len() {
        offset + max
    } else {
        body.len() as int
    };
    if k > 0 {
        law_fragments_are_bounded(nal, max, end, k - 1);
        assert(fragments_from(nal, max, offset)[k] == fragments_from(nal, max, end)[k - 1]);
    }
}

/// The nanoseconds that a time stamp of a 90 kHz clock stands for, where the product fits
/// into 64 bits.
pub open spec fn media_time(timestamp: u64) -> Option<int> {
    if timestamp * 1_000_000_000 <= u64::MAX {
        Some(timestamp * 1_000_000_000 / 90_000)
    } else {
        None
    }
}

/// Nanoseconds since 1970 behind a time stamp of a 90 kHz clock. `None` where the
/// product does not fit into 64 bits.
pub fn timestamp_from_90khz(timestamp: u64) -> (nanos: Option<u64>)
    ensures
        nanos is Some <==> timestamp * 1_000_000_000 <= u64::MAX,
        nanos matches Some(n) ==> n == timestamp * 1_000_000_000 / 90_000,
        match media_time(timestamp) {
            Some(n) => nanos is Some && nanos->0 == n,
            None => nanos is None,
        },
{
    match timestamp.checked_mul(1_000_000_000) {
        Some(product) => Some(product / 90_000),
        None => None,
    }
}

/// Ticks from one 32-bit RTP time stamp to the next, across the wrap.
pub open spec fn rtp_delta(previous: u64, current: u64) -> int {
    (current % 0x1_0000_0000 - previous % 0x1_0000_0000) % 0x1_0000_0000
}

/// How long a sample lasts in nanoseconds.
pub open spec fn sample_nanos(previous: Option<u64>, current: u64, fallback_nanos: u64) -> int {
    match previous {
        None => fallback_nanos as int,
        Some(before) => {
            let delta = rtp_delta(before, current);
            if delta == 0 || delta > 900_000 {
                fallback_nanos as int
            } else {
                delta * 1_000_000_000 / 90_000
            }
        },
    }
}

/// The duration of a sample in nanoseconds: from its predecessor's time stamp to its
/// own. The usual duration of a frame where there is no predecessor, no progress, or a
/// gap of more than ten seconds.
pub fn duration_from_90khz(previous: Option<u64>, current: u64, fallback_nanos: u64) -> (nanos: u64)
    ensures
        nanos == sample_nanos(previous, current, fallback_nanos),
{
    match previous {
        None => fallback_nanos,
        Some(before) => {
            let now: u64 = current % 0x1_0000_0000;
            let then: u64 = before % 0x1_0000_0000;
            let delta: u64 = if now >= then {
                now - then
            } else {
                now + 0x1_0000_0000 - then
            };
            if delta == 0 || delta > 900_000 {
                fallback_nanos
            } else {
                delta * 1_000_000_000 / 90_000
            }
        },
    }
}

/// Time stamps that advance give times that do not go back.
pub proof fn law_times_are_monotonic(a: u64, b: u64)
    requires
        a <= b,
    ensures
        a * 1_000_000_000 / 90_000 <= b * 1_000_000_000 / 90_000,
        media_time(b) is Some ==> media_time(a) is Some && media_time(a)->0 <= media_time(b)->0,
{
}

/// The clock runs at 90 000 ticks per second: a time is less than one nanosecond off its
/// time stamp, and every time stamp whose nanoseconds fit into 64 bits has one.
pub proof fn law_clock_runs_at_90khz(timestamp: u64)
    ensures
        media_time(timestamp) matches Some(nanos) ==> {
            &&& 0 <= nanos
            &&& 9 * nanos <= 100_000 * timestamp < 9 * (nanos + 1)
        },
        media_time(timestamp) is Some <==> timestamp <= 18_446_744_073,
{
}

/// A sample lasts as long as the clock ran since the one before it, also where the 32 bits
/// of the clock wrapped in between. Without a predecessor, without progress and behind a gap
/// of more than ten seconds it lasts as long as the caller says.
pub proof fn law_samples_last_until_the_next(start: u64, ticks: u64, wraps: int, fallback_nanos: u64)
    requires
        0 <= start + ticks + wraps * 0x1_0000_0000 <= u64::MAX,
        ticks < 0x1_0000_0000,
    ensures
        ({
            let current = (start + ticks + wraps * 0x1_0000_0000) as u64;
            let nanos = sample_nanos(Some(start), current, fallback_nanos);
            &&& 0 < ticks <= 900_000 ==> 9 * nanos <= 100_000 * ticks < 9 * (nanos + 1)
            &&& ticks == 0 || ticks > 900_000 ==> nanos == fallback_nanos
        }),
        sample_nanos(None, start, fallback_nanos) == fallback_nanos,
{
    let current = (start + ticks + wraps * 0x1_0000_0000) as u64;
    assert(current % 0x1_0000_0000 == (start + ticks) as int % 0x1_0000_0000) by {
        vstd::arithmetic::div_mod::lemma_mod_multiples_vanish(
            wraps,
            start + ticks,
            0x1_0000_0000,
        );
    }
    assert((current % 0x1_0000_0000 - start % 0x1_0000_0000) % 0x1_0000_0000 == ticks as int) by {
        let m = 0x1_0000_0000int;
        let s = start as int % m;
        assert((start + ticks) as int % m == if s + ticks < m {
            s + ticks
        } else {
            s + ticks - m
        });
    }
}

/// A NAL unit that fits goes out as it is, in one packet. One that does not is split: every
/// packet names the fragment type and the importance of the unit in its first byte and its
/// type in the second, the first packet alone is marked as first and the last one alone as
/// last, and behind these two bytes stands, in order, the whole body.
pub proof fn law_fragments_name_their_unit(nal: Seq<u8>, max: nat)
    requires
        nal.len() > 0,
        max > 0,
    ensures
        nal.len() <= max + 1 ==> fu_a_payloads(nal, max) == seq![nal],
        nal.len() > max + 1 ==> {
            let packets = fu_a_payloads(nal, max);
            &&& packets.len() >= 2
            &&& fragment_bodies(packets) == nal.skip(1)
            &&& forall|k: int|
                0 <= k < packets.len() ==> {
                    &&& 3 <= (#[trigger] packets[k]).len() <= max + 2
                    &&& packets[k][0] % 32 == 28
                    &&& packets[k][0] / 32 == nal[0] / 32
                    &&& packets[k][1] % 32 == nal[0] % 32
                    &&& packets[k][1] >= 128 <==> k == 0
                    &&& packets[k][1] / 64 % 2 == 1 <==> k + 1 == packets.len()
                }
        },
{
    if nal.len() > max + 1 {
        let packets = fragments_from(nal, max, 0);
        let none = Seq::<Seq<u8>>::empty();
        assert(nal.skip(1).take(0) =~= Seq::<u8>::empty());
        lemma_fragment_prefix(nal, max, 0, none);
        assert(none + packets =~= packets);
        assert forall|k: int| 0 <= k < packets.len() implies {
            &&& 3 <= (#[trigger] packets[k]).len() <= max + 2
            &&& packets[k][0] % 32 == 28
            &&& packets[k][0] / 32 == nal[0] / 32
            &&& packets[k][1] % 32 == nal[0] % 32
            &&& packets[k][1] >= 128 <==> k == 0
            &&& packets[k][1] / 64 % 2 == 1 <==> k + 1 == packets.len()
        } by {
            law_fragments_are_bounded(nal, max, 0, k);
            lemma_header_values(nal[0], k == 0, k + 1 == packets.len());
            assert(packets[k].len() >= 3);
        }
        if packets.len() == 1 {
            assert(packets.drop_last() =~= none);
            assert(fragment_bodies(none) =~= Seq::<u8>::empty());
            assert(fragment_bodies(packets) =~= packets[0].skip(2));
            law_fragments_are_bounded(nal, max, 0, 0);
        }
    }
}

proof fn lemma_header_values(header: u8, first: bool, last: bool)
    ensures
        fragment_indicator(header) % 32 == 28,
        fragment_indicator(header) / 32 == header / 32,
        fragment_header(header, first, last) % 32 == header % 32,
        fragment_header(header, first, last) >= 128 <==> first,
        fragment_header(header, first, last) / 64 % 2 == 1 <==> last,
{
    let a: u8 = if first {
        0x80u8
    } else {
        0u8
    };
    let b: u8 = if last {
        0x40u8
    } else {
        0u8
    };
    assert(((header & 0x80) | (header & 0x60) | 28) % 32 == 28 && ((header & 0x80) | (header & 0x60)
        | 28) / 32 == header / 32) by (bit_vector);
    assert((a == 0x80u8 || a == 0u8) && (b == 0x40u8 || b == 0u8) ==> (a | b | (header & 0x1f)) % 32
        == header % 32 && ((a | b | (header & 0x1f)) >= 128) == (a == 0x80u8) && ((a | b | (header
        & 0x1f)) / 64 % 2 == 1) == (b == 0x40u8)) by (bit_vector);
}

/// The body of a series of packets is what stands behind their first two bytes, packet by
/// packet.
pub proof fn law_bodies_are_joined(packets: Seq<Seq<u8>>, packet: Seq<u8>)
    ensures
        fragment_bodies(Seq::empty()) == Seq::<u8>::empty(),
        fragment_bodies(packets.push(packet)) == fragment_bodies(packets) + packet.skip(2),
{
    assert(packets.push(packet).drop_last() =~= packets);
}

/// Fragments that do not belong together are refused: none at all, one too short, of another
/// kind or type, without its marks or marked in the middle.
pub proof fn law_broken_fragments_are_refused(packets: Seq<Seq<u8>>, k: int)
    requires
        packets.len() == 0 || (0 <= k < packets.len() && (packets.len() > 1 || packets[0].len() == 0
            || packets[0][0] % 32 == 28) && (packets[k].len() < 3 || packets[k][0] % 32 != 28
            || packets[k][1] % 32 != packets[0][1] % 32 || (packets[k][1] >= 128) != (k == 0) || (
        packets[k][1] / 64 % 2 == 1) != (k + 1 == packets.len()))),
    ensures
        reassembled(packets) is None,
{
    assert forall|b: u8| #[trigger] (b & 0x1f) == b % 32 by {
        assert(b & 0x1f == b % 32) by (bit_vector);
    }
    assert forall|b: u8| (#[trigger] (b & 0x80) != 0) == (b >= 128) by {
        assert((b & 0x80 != 0) == (b >= 128)) by (bit_vector);
    }
    assert forall|b: u8| (#[trigger] (b & 0x40) != 0) == (b / 64 % 2 == 1) by {
        assert((b & 0x40 != 0) == (b / 64 % 2 == 1)) by (bit_vector);
    }
    if packets.len() > 0 {
        assert(!fragment_fits(packets, k));
    }
}

} // verus!
