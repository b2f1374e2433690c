//! Annex B byte streams: start codes, NAL units and the few header bits that the
//! session contract depends on.

use vstd::prelude::*;
use crate::bytes::contents;

verus! {

/// The four-byte start code in front of each NAL unit.
pub open spec fn start_code() -> Seq<u8> {
    seq![0u8, 0u8, 0u8, 1u8]
}

/// The length of the start code that begins at `i`: four bytes `0 0 0 1`, or
/// three bytes `0 0 1` with at least one byte behind them. Zero where none begins.
pub open spec fn start_code_len(data: Seq<u8>, i: int) -> int {
    if i + 3 < data.len() && data[i] == 0 && data[i + 1] == 0 && data[i + 2] == 1 {
        3
    } else if i + 3 < data.len() && data[i] == 0 && data[i + 1] == 0 && data[i + 2] == 0 && data[i
        + 3] == 1 {
        4
    } else {
        0
    }
}

/// The start codes found by scanning from `i`, left to right, as pairs of
/// position and length.
pub open spec fn start_codes_from(data: Seq<u8>, i: int) -> Seq<(int, int)>
    decreases data.len() - i,
{
    if i < 0 || i + 3 >= data.len() {
        Seq::empty()
    } else if start_code_len(data, i) > 0 {
        seq![(i, start_code_len(data, i))] + start_codes_from(data, i + start_code_len(data, i))
    } else {
        start_codes_from(data, i + 1)
    }
}

/// The non-empty payloads between the given start codes, the last one reaching
/// to the end of the buffer.
pub open spec fn payloads(data: Seq<u8>, starts: Seq<(int, int)>) -> Seq<Seq<u8>>
    decreases starts.len(),
{
    if starts.len() == 0 {
        Seq::empty()
    } else {
        let from = starts[0].0 + starts[0].1;
        let to = if starts.len() > 1 {
            starts[1].0
        } else {
            data.len() as int
        };
        let rest = payloads(data, starts.skip(1));
        if to > from {
            seq![data.subrange(from, to)] + rest
        } else {
            rest
        }
    }
}

/// The NAL units of an Annex B buffer.
pub open spec fn nal_units(data: Seq<u8>) -> Seq<Seq<u8>> {
    payloads(data, start_codes_from(data, 0))
}

/// The type field of an H.264 NAL unit.
pub open spec fn nal_type(nal: Seq<u8>) -> u8 {
    nal[0] & 0x1f
}

/// The types of a list of H.264 NAL units.
pub open spec fn nal_types(nals: Seq<Seq<u8>>) -> Seq<u8> {
    Seq::new(nals.len(), |i: int| nal_type(nals[i]))
}

/// The buffer that holds the given NAL units, each behind a four-byte start code.
pub open spec fn framed(nals: Seq<Seq<u8>>) -> Seq<u8>
    decreases nals.len(),
{
    if nals.len() == 0 {
        Seq::empty()
    } else {
        framed(nals.drop_last()) + start_code() + nals.last()
    }
}

/// Positions and lengths as mathematical integers.
pub open spec fn start_pairs(starts: Seq<(usize, usize)>) -> Seq<(int, int)> {
    Seq::new(starts.len(), |i: int| (starts[i].0 as int, starts[i].1 as int))
}

/// The given start codes lie in `from..to`, in order and without overlap.
pub open spec fn start_codes_ordered(starts: Seq<(int, int)>, from: int, to: int) -> bool {
    forall|k: int|
        #![trigger starts[k]]
        0 <= k < starts.len() ==> {
            &&& from <= starts[k].0
            &&& 3 <= starts[k].1 <= 4
            &&& starts[k].0 + starts[k].1 <= to
            &&& (k + 1 < starts.len() ==> starts[k].0 + starts[k].1 <= starts[k + 1].0)
        }
}

proof fn lemma_start_codes_ordered(data: Seq<u8>, i: int)
    requires
        0 <= i,
    ensures
        start_codes_ordered(start_codes_from(data, i), i, data.len() as int),
    decreases data.len() - i,
{
    let all = start_codes_from(data, i);
    if i + 3 < data.len() {
        let len = start_code_len(data, i);
        if len > 0 {
            lemma_start_codes_ordered(data, i + len);
            let rest = start_codes_from(data, i + len);
            assert(all == seq![(i, len)] + rest);
            assert forall|k: int| #![trigger all[k]] 0 <= k < all.len() implies {
                &&& i <= all[k].0
                &&& 3 <= all[k].1 <= 4
                &&& all[k].0 + all[k].1 <= data.len()
                &&& (k + 1 < all.len() ==> all[k].0 + all[k].1 <= all[k + 1].0)
            } by {
                if k > 0 {
                    assert(all[k] == rest[k - 1]);
                    if k + 1 < all.len() {
                        assert(all[k + 1] == rest[k]);
                    }
                } else if all.len() > 1 {
                    assert(all[1] == rest[0]);
                }
            }
        } else {
            lemma_start_codes_ordered(data, i + 1);
            let rest = start_codes_from(data, i + 1);
            assert(all == rest);
            assert forall|k: int| #![trigger all[k]] 0 <= k < all.len() implies {
                &&& i <= all[k].0
                &&& 3 <= all[k].1 <= 4
                &&& all[k].0 + all[k].1 <= data.len()
                &&& (k + 1 < all.len() ==> all[k].0 + all[k].1 <= all[k + 1].0)
            } by {
                assert(rest[k] == all[k]);
            }
        }
    }
}

fn start_codes(data: &[u8]) -> (starts: Vec<(usize, usize)>)
    ensures
        start_pairs(starts@) == start_codes_from(data@, 0),
{
    let mut starts: Vec<(usize, usize)> = Vec::new();
    let mut i: usize = 0;
    while data.len() > 3 && i < data.len() - 3
        invariant
            i <= data@.len(),
            start_pairs(starts@) + start_codes_from(data@, i as int) == start_codes_from(data@, 0),
        decreases data@.len() - i,
    {
        let ghost before = starts@;
        let ghost at = i as int;
        if data[i] == 0 && data[i + 1] == 0 && data[i + 2] == 1 {
            starts.push((i, 3));
            i += 3;
            assert(start_pairs(starts@) + start_codes_from(data@, i as int) =~= start_pairs(before)
                + start_codes_from(data@, at));
        } else if data[i] == 0 && data[i + 1] == 0 && data[i + 2] == 0 && data[i + 3] == 1 {
            starts.push((i, 4));
            i += 4;
            assert(start_pairs(starts@) + start_codes_from(data@, i as int) =~= start_pairs(before)
                + start_codes_from(data@, at));
        } else {
            i += 1;
        }
    }
    assert(start_codes_from(data@, i as int) =~= Seq::<(int, int)>::empty());
    assert(start_pairs(starts@) =~= start_codes_from(data@, 0));
    starts
}

/// The NAL units of an Annex B buffer, with three- and four-byte start codes.
/// A trailing start code without payload contributes no NAL unit.
pub fn annexb_nals(data: &[u8]) -> (nals: Vec<&[u8]>)
    ensures
        contents(nals@) == nal_units(data@),
{
    let len: usize = data.len();
    let starts = start_codes(data);
    let mut nals: Vec<&[u8]> = Vec::new();
    let mut k: usize = 0;
    let ghost pairs = start_pairs(starts@);
    proof {
        lemma_start_codes_ordered(data@, 0);
        assert(pairs.skip(0) =~= pairs);
        assert(contents(nals@) + payloads(data@, pairs.skip(0)) =~= nal_units(data@));
    }
    while k < starts.len()
        invariant
            len == data@.len(),
            k <= starts@.len(),
            pairs == start_pairs(starts@),
            pairs == start_codes_from(data@, 0),
            start_codes_ordered(pairs, 0, data@.len() as int),
            contents(nals@) + payloads(data@, pairs.skip(k as int)) == nal_units(data@),
        decreases starts@.len() - k,
    {
        let ghost before = nals@;
        let ghost tail = pairs.skip(k as int);
        assert(pairs[k as int] == (starts@[k as int].0 as int, starts@[k as int].1 as int));
        assert(tail[0] == pairs[k as int]);
        assert(tail.skip(1) =~= pairs.skip(k as int + 1));
        let from: usize = starts[k].0 + starts[k].1;
        let to: usize = if k + 1 < starts.len() {
            assert(tail[1] == pairs[k as int + 1]);
            starts[k + 1].0
        } else {
            len
        };
        assert(to <= data@.len()) by {
            if k + 1 < starts@.len() {
                assert(pairs[k as int + 1].0 + pairs[k as int + 1].1 <= data@.len());
            }
        }
        if to > from {
            let nal: &[u8] = vstd::slice::slice_subrange(data, from, to);
            nals.push(nal);
            assert(contents(nals@) =~= contents(before).push(nal@));
        }
        k += 1;
        assert(contents(nals@) + payloads(data@, pairs.skip(k as int)) =~= contents(before) + payloads(data@, tail));
    }
    assert(payloads(data@, pairs.skip(k as int)) =~= Seq::<Seq<u8>>::empty());
    assert(contents(nals@) =~= nal_units(data@));
    nals
}

/// The H.264 types of the NAL units of an Annex B buffer.
pub fn annexb_nal_types(data: &[u8]) -> (types: Vec<u8>)
    ensures
        types@ == nal_types(nal_units(data@)),
{
    let nals = annexb_nals(data);
    let ghost units = nal_units(data@);
    proof {
        lemma_start_codes_ordered(data@, 0);
        lemma_payloads_not_empty(data@, start_codes_from(data@, 0));
    }
    let mut types: Vec<u8> = Vec::new();
    let mut k: usize = 0;
    while k < nals.len()
        invariant
            k <= nals@.len(),
            units == contents(nals@),
            forall|j: int| 0 <= j < units.len() ==> (#[trigger] units[j]).len() > 0,
            types@ == nal_types(units).take(k as int),
        decreases nals@.len() - k,
    {
        let nal: &[u8] = nals[k];
        assert(units[k as int] == nal@);
        types.push(nal[0] & 0x1f);
        k += 1;
        assert(types@ =~= nal_types(units).take(k as int));
    }
    assert(types@ =~= nal_types(units));
    types
}

proof fn lemma_payloads_not_empty(data: Seq<u8>, starts: Seq<(int, int)>)
    requires
        start_codes_ordered(starts, 0, data.len() as int),
    ensures
        forall|j: int|
            0 <= j < payloads(data, starts).len() ==> (#[trigger] payloads(data, starts)[j]).len()
                > 0,
    decreases starts.len(),
{
    if starts.len() > 0 {
        let rest = starts.skip(1);
        assert forall|k: int| #![trigger rest[k]] 0 <= k < rest.len() implies {
            &&& 0 <= rest[k].0
            &&& 3 <= rest[k].1 <= 4
            &&& rest[k].0 + rest[k].1 <= data.len()
            &&& (k + 1 < rest.len() ==> rest[k].0 + rest[k].1 <= rest[k + 1].0)
        } by {
            assert(rest[k] == starts[k + 1]);
            if k + 1 < rest.len() {
                assert(rest[k + 1] == starts[k + 2]);
            }
        }
        lemma_payloads_not_empty(data, rest);
        if starts.len() > 1 {
            assert(starts[1].0 + starts[1].1 <= data.len());
        }
        assert(starts[0].0 + starts[0].1 <= data.len());
        let later = payloads(data, rest);
        let all = payloads(data, starts);
        let first = all.len() - later.len();
        assert forall|j: int| 0 <= j < all.len() implies (#[trigger] all[j]).len() > 0 by {
            if j >= first {
                assert(all[j] == later[j - first]);
            }
        }
    }
}

/// A decodable segment opens with SPS, PPS and IDR in this order.
pub open spec fn opens_decodable(types: Seq<u8>) -> bool {
    types.len() >= 3 && types[0] == 7 && types[1] == 8 && types[2] == 5
}

/// Whether an Annex B buffer opens with SPS, PPS and IDR, so that a late joiner
/// decodes at once.
pub fn annexb_starts_with_sps_pps_idr(data: &[u8]) -> (opens: bool)
    ensures
        opens == opens_decodable(nal_types(nal_units(data@))),
{
    let types = annexb_nal_types(data);
    types.len() >= 3 && types[0] == 7 && types[1] == 8 && types[2] == 5
}

/// What remains of a NAL payload once each emulation prevention byte is taken
/// out: a `3` behind exactly `zeros == 2` zero bytes.
pub open spec fn unescaped(data: Seq<u8>, zeros: int) -> Seq<u8>
    decreases data.len(),
{
    if data.len() == 0 {
        Seq::empty()
    } else if zeros == 2 && data[0] == 3 {
        unescaped(data.skip(1), 0)
    } else {
        seq![data[0]] + unescaped(
            data.skip(1),
            if data[0] == 0 {
                zeros + 1
            } else {
                0
            },
        )
    }
}

/// Takes the emulation prevention bytes out of a NAL payload.
pub fn remove_emulation_prevention(data: &[u8]) -> (out: Vec<u8>)
    ensures
        out@ == unescaped(data@, 0),
{
    let len: usize = data.len();
    let mut out: Vec<u8> = Vec::new();
    let mut zeros: usize = 0;
    let mut i: usize = 0;
    assert(data@.skip(0) =~= data@);
    assert(out@ + unescaped(data@.skip(0), 0) =~= unescaped(data@, 0));
    while i < len
        invariant
            len == data@.len(),
            zeros <= i <= len,
            out@ + unescaped(data@.skip(i as int), zeros as int) == unescaped(data@, 0),
        decreases len - i,
    {
        let ghost tail = data@.skip(i as int);
        let ghost before = out@;
        let ghost run = zeros as int;
        let byte: u8 = data[i];
        assert(tail[0] == byte);
        assert(tail.skip(1) =~= data@.skip(i as int + 1));
        if zeros == 2 && byte == 3 {
            zeros = 0;
        } else {
            out.push(byte);
            zeros = if byte == 0 {
                zeros + 1
            } else {
                0
            };
        }
        i += 1;
        assert(out@ + unescaped(data@.skip(i as int), zeros as int) =~= before + unescaped(tail, run));
    }
    assert(unescaped(data@.skip(i as int), zeros as int) =~= Seq::<u8>::empty());
    assert(out@ =~= unescaped(data@, 0));
    out
}

/// Bit `i` of a buffer, most significant bit of the first byte first.
pub open spec fn bit_at(data: Seq<u8>, i: int) -> bool {
    (data[i / 8] >> ((7 - i % 8) as u8)) & 1 == 1
}

/// How many bits in a row from `i` on are zero, counted up to `limit`.
pub open spec fn zero_run(data: Seq<u8>, i: int, limit: nat) -> nat
    decreases limit,
{
    if limit == 0 || i >= 8 * data.len() || bit_at(data, i) {
        0
    } else {
        1 + zero_run(data, i + 1, (limit - 1) as nat)
    }
}

/// The number that `n` bits from `i` on hold, most significant first.
pub open spec fn bits_value(data: Seq<u8>, i: int, n: nat) -> nat
    decreases n,
{
    if n == 0 {
        0
    } else {
        2 * bits_value(data, i, (n - 1) as nat) + (if bit_at(data, i + n - 1) {
            1nat
        } else {
            0nat
        })
    }
}

/// The power of two with exponent `n`.
pub open spec fn two_to(n: nat) -> nat
    decreases n,
{
    if n == 0 {
        1
    } else {
        2 * two_to((n - 1) as nat)
    }
}

/// The unsigned Exp-Golomb code at bit `i` with the position behind it: a run of
/// at most 31 zeros, a one, and as many bits as there were zeros. `None` where the
/// buffer ends first or the run is longer.
pub open spec fn exp_golomb(data: Seq<u8>, i: int) -> Option<(nat, int)> {
    let zeros = zero_run(data, i, 32);
    if zeros > 31 || i + 2 * zeros + 1 > 8 * data.len() {
        None
    } else {
        Some(
            (
                (two_to(zeros) - 1 + bits_value(data, i + zeros + 1, zeros)) as nat,
                i + 2 * zeros + 1,
            ),
        )
    }
}

/// Reads single bits and Exp-Golomb codes from a buffer.
pub struct BitReader<'a> {
    data: &'a [u8],
    byte: usize,
    offset: u8,
}

impl<'a> BitReader<'a> {
    /// The buffer that is read.
    pub closed spec fn buffer(&self) -> Seq<u8> {
        self.data@
    }

    /// The position of the next bit.
    pub closed spec fn position(&self) -> int {
        8 * self.byte + self.offset
    }

    /// The position lies inside the buffer or right behind it.
    pub closed spec fn wf(&self) -> bool {
        self.offset < 8 && (self.byte < self.data@.len() || (self.byte == self.data@.len()
            && self.offset == 0))
    }

    /// A reader at the first bit of `data`.
    pub fn new(data: &'a [u8]) -> (reader: Self)
        ensures
            reader.wf(),
            reader.buffer() == data@,
            reader.position() == 0,
    {
        BitReader { data, byte: 0, offset: 0 }
    }

    /// The next bit, or `None` at the end of the buffer.
    pub fn read_bit(&mut self) -> (bit: Option<bool>)
        requires
            old(self).wf(),
        ensures
            final(self).wf(),
            final(self).buffer() == old(self).buffer(),
            bit is Some <==> old(self).position() < 8 * old(self).buffer().len(),
            bit matches Some(value) ==> value == bit_at(old(self).buffer(), old(self).position())
                && final(self).position() == old(self).position() + 1,
            bit is None ==> final(self).position() == old(self).position(),
    {
        if self.byte >= self.data.len() {
            return None;
        }
        let byte: u8 = self.data[self.byte];
        let bit: bool = (byte >> (7 - self.offset)) & 1 == 1;
        assert((8 * self.byte + self.offset) / 8 == self.byte);
        assert((8 * self.byte + self.offset) % 8 == self.offset);
        if self.offset == 7 {
            self.offset = 0;
            self.byte = self.byte + 1;
        } else {
            self.offset = self.offset + 1;
        }
        Some(bit)
    }

    /// The next unsigned Exp-Golomb code.
    pub fn read_ue(&mut self) -> (code: Option<u32>)
        requires
            old(self).wf(),
        ensures
            final(self).wf(),
            final(self).buffer() == old(self).buffer(),
            match exp_golomb(old(self).buffer(), old(self).position()) {
                Some((value, next)) => code == Some(value as u32) && value <= u32::MAX
                    && final(self).position() == next,
                None => code is None,
            },
    {
        let ghost data = self.buffer();
        let ghost start = self.position();
        let mut zeros: u32 = 0;
        let mut scale: u32 = 1;
        loop
            invariant_except_break
                self.wf(),
                self.buffer() == data,
                data == old(self).buffer(),
                start == old(self).position(),
                self.position() == start + zeros,
                zeros <= 31,
                scale == two_to(zeros as nat),
                scale <= 0x8000_0000,
                zeros < 31 ==> scale <= 0x4000_0000,
                zero_run(data, start, 32) == zeros + zero_run(
                    data,
                    start + zeros,
                    (32 - zeros) as nat,
                ),
            ensures
                self.wf(),
                self.buffer() == data,
                self.position() == start + zeros + 1,
                zeros <= 31,
                scale == two_to(zeros as nat),
                scale <= 0x8000_0000,
                zero_run(data, start, 32) == zeros,
                start + zeros + 1 <= 8 * data.len(),
            decreases 32 - zeros,
        {
            match self.read_bit() {
                None => {
                    return None;
                },
                Some(true) => {
                    break;
                },
                Some(false) => {
                    if zeros == 31 {
                        assert(zero_run(data, start + 32, 0) == 0);
                        return None;
                    }
                    zeros += 1;
                    scale = scale * 2;
                    proof {
                        lemma_two_to_bound(zeros as nat, 31);
                    }
                },
            }
        }
        let mut value: u32 = 0;
        let mut read: u32 = 0;
        proof {
            lemma_two_to_bound(0, zeros as nat);
        }
        while read < zeros
            invariant
                self.wf(),
                self.buffer() == data,
                data == old(self).buffer(),
                start == old(self).position(),
                zeros <= 31,
                read <= zeros,
                scale == two_to(zeros as nat),
                scale <= 0x8000_0000,
                zero_run(data, start, 32) == zeros,
                self.position() == start + zeros + 1 + read,
                self.position() <= 8 * data.len(),
                value == bits_value(data, start + zeros + 1, read as nat),
                value < two_to(read as nat),
                read < zeros ==> two_to(read as nat) <= 0x4000_0000,
            decreases zeros - read,
        {
            match self.read_bit() {
                None => {
                    return None;
                },
                Some(bit) => {
                    value = 2 * value + (if bit {
                        1
                    } else {
                        0
                    });
                },
            }
            read += 1;
            proof {
                lemma_two_to_bound(read as nat, zeros as nat);
            }
        }
        Some(scale - 1 + value)
    }
}

proof fn lemma_two_to_bound(n: nat, limit: nat)
    requires
        limit <= 31,
    ensures
        n <= limit ==> two_to(n) <= 0x8000_0000,
        n < limit ==> two_to(n) <= 0x4000_0000,
        two_to(31) == 0x8000_0000,
        two_to(30) == 0x4000_0000,
{
    reveal_with_fuel(two_to, 33);
    if n <= limit {
        lemma_two_to_monotone(n, 31);
        if n < limit {
            lemma_two_to_monotone(n, 30);
        }
    }
}

proof fn lemma_two_to_monotone(n: nat, m: nat)
    requires
        n <= m,
    ensures
        1 <= two_to(n) <= two_to(m),
    decreases m,
{
    if m > 0 {
        if n < m {
            lemma_two_to_monotone(n, (m - 1) as nat);
        } else {
            lemma_two_to_monotone((n - 1) as nat, (m - 1) as nat);
        }
    }
}

/// Whether a slice payload (the NAL unit behind its header byte) declares a B
/// slice: slice type 1 or 6 behind the first macroblock number.
pub open spec fn declares_b_slice(payload: Seq<u8>) -> bool {
    let bits = unescaped(payload, 0);
    match exp_golomb(bits, 0) {
        None => false,
        Some((_, next)) => match exp_golomb(bits, next) {
            None => false,
            Some((slice_type, _)) => slice_type == 1 || slice_type == 6,
        },
    }
}

/// Whether a NAL unit is a slice (type 1 or 5) that declares a B slice.
pub open spec fn is_b_slice_unit(nal: Seq<u8>) -> bool {
    (nal_type(nal) == 1 || nal_type(nal) == 5) && declares_b_slice(nal.skip(1))
}

/// Whether a slice payload declares a B slice.
pub fn slice_is_b(slice_payload: &[u8]) -> (found: bool)
    ensures
        found == declares_b_slice(slice_payload@),
{
    let rbsp = remove_emulation_prevention(slice_payload);
    let mut reader = BitReader::new(rbsp.as_slice());
    if reader.read_ue().is_none() {
        return false;
    }
    match reader.read_ue() {
        Some(slice_type) => slice_type == 1 || slice_type == 6,
        None => false,
    }
}

/// Some NAL unit of the list is a B slice.
pub open spec fn holds_b_slice(nals: Seq<Seq<u8>>) -> bool {
    exists|k: int| 0 <= k < nals.len() && is_b_slice_unit(#[trigger] nals[k])
}

/// Whether any slice of an Annex B buffer is a B slice. A baseline stream has
/// none, so any hit means that the encoder left the contract.
pub fn annexb_contains_b_slice(data: &[u8]) -> (found: bool)
    ensures
        found == holds_b_slice(nal_units(data@)),
{
    let nals = annexb_nals(data);
    let ghost units = nal_units(data@);
    proof {
        lemma_start_codes_ordered(data@, 0);
        lemma_payloads_not_empty(data@, start_codes_from(data@, 0));
    }
    let mut k: usize = 0;
    while k < nals.len()
        invariant
            k <= nals@.len(),
            units == contents(nals@),
            units == nal_units(data@),
            forall|j: int| 0 <= j < units.len() ==> (#[trigger] units[j]).len() > 0,
            forall|j: int| 0 <= j < k ==> !is_b_slice_unit(#[trigger] units[j]),
        decreases nals@.len() - k,
    {
        let nal: &[u8] = nals[k];
        assert(units[k as int] == nal@);
        let kind: u8 = nal[0] & 0x1f;
        if kind == 1 || kind == 5 {
            let payload: &[u8] = vstd::slice::slice_subrange(nal, 1, nal.len());
            assert(payload@ =~= nal@.skip(1));
            if slice_is_b(payload) {
                return true;
            }
        }
        k += 1;
    }
    false
}

/// Whether a PPS declares CAVLC entropy coding only: the flag behind the two
/// set numbers is present and zero.
pub open spec fn declares_cavlc(pps: Seq<u8>) -> bool {
    let bits = unescaped(pps.skip(1), 0);
    &&& pps.len() >= 2
    &&& match exp_golomb(bits, 0) {
        None => false,
        Some((_, second)) => match exp_golomb(bits, second) {
            None => false,
            Some((_, flag)) => flag < 8 * bits.len() && !bit_at(bits, flag),
        },
    }
}

/// Whether a PPS NAL unit signals CAVLC only, as every baseline stream does.
pub fn pps_is_cavlc_only(pps: &[u8]) -> (cavlc: bool)
    ensures
        cavlc == declares_cavlc(pps@),
{
    if pps.len() < 2 {
        return false;
    }
    let body: &[u8] = vstd::slice::slice_subrange(pps, 1, pps.len());
    assert(body@ =~= pps@.skip(1));
    let rbsp = remove_emulation_prevention(body);
    let mut reader = BitReader::new(rbsp.as_slice());
    if reader.read_ue().is_none() {
        return false;
    }
    if reader.read_ue().is_none() {
        return false;
    }
    match reader.read_bit() {
        Some(flag) => !flag,
        None => false,
    }
}

/// Two zero bytes and a byte of at most one begin at `i`.
pub open spec fn zeros_at(data: Seq<u8>, i: int) -> bool {
    data[i] == 0 && data[i + 1] == 0 && data[i + 2] <= 1
}

/// The emulation prevention triple `0 0 3` begins at `i`.
pub open spec fn escape_at(data: Seq<u8>, i: int) -> bool {
    data[i] == 0 && data[i + 1] == 0 && data[i + 2] == 3
}

/// A NAL unit as an encoder emits it: not empty, free of start codes inside, and
/// with a last byte that is not zero.
pub open spec fn is_emulation_free(nal: Seq<u8>) -> bool {
    &&& nal.len() > 0
    &&& nal.last() != 0
    &&& forall|i: int| 0 <= i < nal.len() - 2 ==> !#[trigger] zeros_at(nal, i)
}

/// The buffer of a list of NAL units begins with the first of them.
proof fn lemma_framed_front(nals: Seq<Seq<u8>>)
    requires
        nals.len() > 0,
    ensures
        framed(nals) == start_code() + nals[0] + framed(nals.skip(1)),
    decreases nals.len(),
{
    if nals.len() == 1 {
        assert(nals.drop_last() =~= Seq::<Seq<u8>>::empty());
        assert(nals.skip(1) =~= Seq::<Seq<u8>>::empty());
        assert(framed(nals) =~= start_code() + nals[0] + framed(nals.skip(1)));
    } else {
        lemma_framed_front(nals.drop_last());
        assert(nals.drop_last().skip(1) =~= nals.skip(1).drop_last());
        assert(nals.skip(1).last() == nals.last());
        assert(nals.drop_last()[0] == nals[0]);
        assert(framed(nals) =~= start_code() + nals[0] + framed(nals.skip(1)));
    }
}

/// No start code begins inside a NAL unit that holds none.
proof fn lemma_scan_skips_unit(data: Seq<u8>, from: int, to: int)
    requires
        0 <= from <= to <= data.len(),
        from < to ==> data[to - 1] != 0,
        forall|i: int| from <= i < to - 2 ==> !#[trigger] zeros_at(data, i),
    ensures
        start_codes_from(data, from) == start_codes_from(data, to),
    decreases to - from,
{
    if from < to {
        assert(start_code_len(data, from) == 0) by {
            if from < to - 2 {
                assert(!zeros_at(data, from));
            } else if from == to - 1 {
                assert(data[from] != 0);
            } else if from == to - 2 {
                assert(data[from + 1] != 0);
            }
        }
        if from + 3 < data.len() {
            lemma_scan_skips_unit(data, from + 1, to);
        } else {
            assert(start_codes_from(data, from) =~= start_codes_from(data, to));
        }
    }
}

/// Scanning over one framed NAL unit finds its start code and nothing else.
proof fn lemma_scan_one_unit(before: Seq<u8>, nal: Seq<u8>, tail: Seq<u8>)
    requires
        is_emulation_free(nal),
    ensures
        ({
            let data = before + start_code() + nal + tail;
            let at = before.len() as int;
            let end = at + 4 + nal.len();
            &&& start_codes_from(data, at) == seq![(at, 4int)] + start_codes_from(data, end)
            &&& data.subrange(at + 4, end) == nal
        }),
{
    let data = before + start_code() + nal + tail;
    let at = before.len() as int;
    let end = at + 4 + nal.len();
    assert(data[at] == 0 && data[at + 1] == 0 && data[at + 2] == 0 && data[at + 3] == 1);
    assert(start_code_len(data, at) == 4);
    assert forall|i: int| at + 4 <= i < end - 2 implies !#[trigger] zeros_at(data, i) by {
        assert(!zeros_at(nal, i - at - 4));
        assert(data[i] == nal[i - at - 4]);
        assert(data[i + 1] == nal[i - at - 4 + 1]);
        assert(data[i + 2] == nal[i - at - 4 + 2]);
    }
    assert(data[end - 1] == nal.last());
    lemma_scan_skips_unit(data, at + 4, end);
    assert(data.subrange(at + 4, end) =~= nal);
}

/// The payload behind the first start code, then the payloads behind the others.
proof fn lemma_payloads_front(data: Seq<u8>, at: int, end: int, later: Seq<(int, int)>)
    requires
        0 <= at,
        at + 4 < end <= data.len(),
        later.len() == 0 ==> end == data.len(),
        later.len() > 0 ==> later[0].0 == end,
    ensures
        payloads(data, seq![(at, 4int)] + later) == seq![data.subrange(at + 4, end)] + payloads(
            data,
            later,
        ),
{
    let starts = seq![(at, 4int)] + later;
    assert(starts.skip(1) =~= later);
    if later.len() > 0 {
        assert(starts[1] == later[0]);
    }
}

/// The payloads behind the start codes that a scan from `at` finds.
#[verifier::opaque]
pub open spec fn units_from(data: Seq<u8>, at: int) -> Seq<Seq<u8>> {
    payloads(data, start_codes_from(data, at))
}

/// A scan from `at` finds a four-byte start code there.
#[verifier::opaque]
pub open spec fn unit_begins(data: Seq<u8>, at: int) -> bool {
    start_codes_from(data, at).len() > 0 && start_codes_from(data, at)[0] == (at, 4int)
}

proof fn lemma_unit_joins(data: Seq<u8>, at: int, end: int)
    requires
        0 <= at,
        at + 4 < end <= data.len(),
        start_codes_from(data, at) == seq![(at, 4int)] + start_codes_from(data, end),
        end < data.len() ==> unit_begins(data, end),
    ensures
        unit_begins(data, at),
        units_from(data, at) == seq![data.subrange(at + 4, end)] + units_from(data, end),
{
    reveal(units_from);
    reveal(unit_begins);
    let later = start_codes_from(data, end);
    if end == data.len() {
        assert(later.len() == 0);
    }
    lemma_payloads_front(data, at, end, later);
}

/// One framed NAL unit is read, then what follows it.
proof fn lemma_unit_then_rest(before: Seq<u8>, nal: Seq<u8>, tail: Seq<u8>)
    requires
        is_emulation_free(nal),
        tail.len() > 0 ==> unit_begins(
            before + start_code() + nal + tail,
            (before + start_code() + nal).len() as int,
        ),
    ensures
        ({
            let data = before + start_code() + nal + tail;
            let end = (before + start_code() + nal).len() as int;
            &&& unit_begins(data, before.len() as int)
            &&& units_from(data, before.len() as int) == seq![nal] + units_from(data, end)
        }),
{
    let data = before + start_code() + nal + tail;
    let at = before.len() as int;
    let end = at + 4 + nal.len();
    assert(end == (before + start_code() + nal).len());
    lemma_scan_one_unit(before, nal, tail);
    lemma_unit_joins(data, at, end);
}

proof fn lemma_units_behind(before: Seq<u8>, nals: Seq<Seq<u8>>)
    requires
        forall|k: int| 0 <= k < nals.len() ==> is_emulation_free(#[trigger] nals[k]),
    ensures
        units_from(before + framed(nals), before.len() as int) == nals,
        nals.len() > 0 ==> unit_begins(before + framed(nals), before.len() as int),
    decreases nals.len(),
{
    let data = before + framed(nals);
    if nals.len() == 0 {
        reveal(units_from);
        assert(units_from(data, before.len() as int) =~= nals);
    } else {
        let nal = nals[0];
        let rest = nals.skip(1);
        let next = before + start_code() + nal;
        assert(data == next + framed(rest)) by {
            lemma_framed_front(nals);
            assert(data =~= next + framed(rest));
        }
        assert(is_emulation_free(nal));
        assert forall|k: int| 0 <= k < rest.len() implies is_emulation_free(#[trigger] rest[k]) by {
            assert(rest[k] == nals[k + 1]);
        }
        lemma_units_behind(next, rest);
        lemma_unit_then_rest(before, nal, framed(rest));
        assert(seq![nal] + rest =~= nals);
    }
}

/// Reading back what was framed: NAL units that hold no start code come out of
/// the buffer that they were framed into, in the same order and unchanged.
pub proof fn law_framing_round_trip(nals: Seq<Seq<u8>>)
    requires
        forall|k: int| 0 <= k < nals.len() ==> is_emulation_free(#[trigger] nals[k]),
    ensures
        nal_units(framed(nals)) == nals,
{
    let before = Seq::<u8>::empty();
    assert(before + framed(nals) =~= framed(nals));
    lemma_units_behind(before, nals);
    reveal(units_from);
}

proof fn lemma_unescaped_kept(data: Seq<u8>, zeros: int)
    requires
        0 <= zeros,
        zeros == 2 && data.len() > 0 ==> data[0] != 3,
        zeros == 1 && data.len() >= 2 ==> !(data[0] == 0 && data[1] == 3),
        forall|i: int| 0 <= i < data.len() - 2 ==> !#[trigger] escape_at(data, i),
    ensures
        unescaped(data, zeros) == data,
    decreases data.len(),
{
    if data.len() > 0 {
        let rest = data.skip(1);
        let run = if data[0] == 0 {
            zeros + 1
        } else {
            0
        };
        assert forall|i: int| 0 <= i < rest.len() - 2 implies !#[trigger] escape_at(rest, i) by {
            assert(!escape_at(data, i + 1));
            assert(rest[i] == data[i + 1]);
            assert(rest[i + 1] == data[i + 2]);
            assert(rest[i + 2] == data[i + 3]);
        }
        if data.len() >= 3 {
            assert(!escape_at(data, 0));
            assert(rest[0] == data[1] && rest[1] == data[2]);
        }
        lemma_unescaped_kept(rest, run);
        assert(unescaped(data, zeros) =~= data);
    }
}

/// A payload without the byte triple `0 0 3` is its own unescaped form.
pub proof fn law_unescaped_payload_is_kept(data: Seq<u8>)
    requires
        forall|i: int| 0 <= i < data.len() - 2 ==> !#[trigger] escape_at(data, i),
    ensures
        unescaped(data, 0) == data,
{
    lemma_unescaped_kept(data, 0);
}

/// Framed NAL units stand in a row, each behind the bytes `0 0 0 1`: the first one opens the
/// buffer, and every further one adds its own bytes and four more at the end.
pub proof fn law_frames_stand_in_a_row(nals: Seq<Seq<u8>>, nal: Seq<u8>)
    ensures
        framed(Seq::empty()) == Seq::<u8>::empty(),
        framed(nals.push(nal)) == framed(nals) + seq![0u8, 0u8, 0u8, 1u8] + nal,
        framed(seq![nal] + nals) == seq![0u8, 0u8, 0u8, 1u8] + nal + framed(nals),
{
    assert(nals.push(nal).drop_last() =~= nals);
    let longer = seq![nal] + nals;
    lemma_framed_front(longer);
    assert(longer.skip(1) =~= nals);
}

/// A payload with its emulation prevention bytes put in: a `3` in front of every byte of at
/// most three that stands behind two zeros. `zeros` counts the zeros in front of it.
pub open spec fn escaped(payload: Seq<u8>, zeros: int) -> Seq<u8>
    decreases payload.len(),
{
    if payload.len() == 0 {
        Seq::empty()
    } else if zeros == 2 && payload[0] <= 3 {
        seq![3u8, payload[0]] + escaped(
            payload.skip(1),
            if payload[0] == 0 {
                1
            } else {
                0
            },
        )
    } else {
        seq![payload[0]] + escaped(
            payload.skip(1),
            if payload[0] == 0 {
                zeros + 1
            } else {
                0
            },
        )
    }
}

proof fn lemma_escaping_is_undone(payload: Seq<u8>, zeros: int)
    requires
        0 <= zeros <= 2,
    ensures
        unescaped(escaped(payload, zeros), zeros) == payload,
    decreases payload.len(),
{
    let bytes = escaped(payload, zeros);
    if payload.len() > 0 {
        let rest = payload.skip(1);
        if zeros == 2 && payload[0] <= 3 {
            let run = if payload[0] == 0 {
                1int
            } else {
                0int
            };
            lemma_escaping_is_undone(rest, run);
            let tail = escaped(rest, run);
            assert(bytes.skip(1) =~= seq![payload[0]] + tail);
            assert(bytes.skip(1).skip(1) =~= tail);
            assert(unescaped(bytes, 2) == unescaped(bytes.skip(1), 0));
            assert(unescaped(bytes.skip(1), 0) == seq![payload[0]] + unescaped(tail, run));
        } else {
            let run = if payload[0] == 0 {
                zeros + 1
            } else {
                0
            };
            lemma_escaping_is_undone(rest, run);
            let tail = escaped(rest, run);
            assert(bytes.skip(1) =~= tail);
            assert(bytes[0] == payload[0]);
            assert(unescaped(bytes, zeros) == seq![payload[0]] + unescaped(tail, run));
        }
        assert(seq![payload[0]] + rest =~= payload);
    }
}

/// Taking emulation prevention bytes out undoes putting them in, whatever the payload.
pub proof fn law_escaping_is_undone(payload: Seq<u8>)
    ensures
        unescaped(escaped(payload, 0), 0) == payload,
{
    lemma_escaping_is_undone(payload, 0);
}

/// Bits are read most significant first: the eight bits of a byte are its value.
pub proof fn law_bits_make_bytes(data: Seq<u8>, k: int)
    requires
        0 <= k < data.len(),
    ensures
        bits_value(data, 8 * k, 8) == data[k],
{
    reveal_with_fuel(bits_value, 9);
    let b = data[k];
    assert forall|j: int| 0 <= j < 8 implies #[trigger] bit_at(data, 8 * k + j) == ((b >> ((7 - j)
        as u8)) & 1 == 1) by {
        assert((8 * k + j) / 8 == k);
        assert((8 * k + j) % 8 == j);
    }
    assert(bit_at(data, 8 * k + 0) == ((b >> 7u8) & 1 == 1));
    assert(bit_at(data, 8 * k + 1) == ((b >> 6u8) & 1 == 1));
    assert(bit_at(data, 8 * k + 2) == ((b >> 5u8) & 1 == 1));
    assert(bit_at(data, 8 * k + 3) == ((b >> 4u8) & 1 == 1));
    assert(bit_at(data, 8 * k + 4) == ((b >> 3u8) & 1 == 1));
    assert(bit_at(data, 8 * k + 5) == ((b >> 2u8) & 1 == 1));
    assert(bit_at(data, 8 * k + 6) == ((b >> 1u8) & 1 == 1));
    assert(bit_at(data, 8 * k + 7) == ((b >> 0u8) & 1 == 1));
    assert(b == (if (b >> 7u8) & 1 == 1 { 128u8 } else { 0u8 }) + (if (b >> 6u8) & 1 == 1 {
        64u8
    } else {
        0u8
    }) + (if (b >> 5u8) & 1 == 1 {
        32u8
    } else {
        0u8
    }) + (if (b >> 4u8) & 1 == 1 {
        16u8
    } else {
        0u8
    }) + (if (b >> 3u8) & 1 == 1 {
        8u8
    } else {
        0u8
    }) + (if (b >> 2u8) & 1 == 1 {
        4u8
    } else {
        0u8
    }) + (if (b >> 1u8) & 1 == 1 {
        2u8
    } else {
        0u8
    }) + (if (b >> 0u8) & 1 == 1 {
        1u8
    } else {
        0u8
    })) by (bit_vector);
}

proof fn lemma_zero_run(data: Seq<u8>, i: int, limit: nat)
    requires
        0 <= i,
    ensures
        zero_run(data, i, limit) <= limit,
        forall|j: int|
            i <= j < i + zero_run(data, i, limit) ==> !#[trigger] bit_at(data, j) && j < 8
                * data.len(),
        zero_run(data, i, limit) < limit && i + zero_run(data, i, limit) < 8 * data.len() ==> bit_at(
            data,
            i + zero_run(data, i, limit),
        ),
    decreases limit,
{
    if limit > 0 && i < 8 * data.len() && !bit_at(data, i) {
        lemma_zero_run(data, i + 1, (limit - 1) as nat);
    }
}

proof fn lemma_leading_one(data: Seq<u8>, i: int, n: nat)
    requires
        bit_at(data, i),
    ensures
        bits_value(data, i, n + 1) == two_to(n) + bits_value(data, i + 1, n),
    decreases n,
{
    if n > 0 {
        lemma_leading_one(data, i, (n - 1) as nat);
        assert(i + (n + 1) - 1 == i + 1 + n - 1);
    } else {
        reveal_with_fuel(bits_value, 2);
    }
}

/// An Exp-Golomb code is a run of zeros and then one more bit than there were zeros, which
/// hold the number plus one and begin with a one.
pub proof fn law_exp_golomb_counts_its_zeros(data: Seq<u8>, i: int)
    requires
        0 <= i,
    ensures
        exp_golomb(data, i) matches Some((value, next)) ==> {
            let zeros = (next - i - 1) / 2;
            &&& next == i + 2 * zeros + 1
            &&& 0 <= zeros <= 31
            &&& next <= 8 * data.len()
            &&& forall|j: int| i <= j < i + zeros ==> !#[trigger] bit_at(data, j)
            &&& bit_at(data, i + zeros)
            &&& value + 1 == bits_value(data, i + zeros, (zeros + 1) as nat)
        },
        i < 8 * data.len() && bit_at(data, i) ==> exp_golomb(data, i) == Some((0nat, i + 1)),
{
    lemma_zero_run(data, i, 32);
    let zeros = zero_run(data, i, 32);
    if exp_golomb(data, i) is Some {
        lemma_leading_one(data, i + zeros, zeros);
        lemma_two_to_monotone(0, zeros);
    }
    if i < 8 * data.len() && bit_at(data, i) {
        reveal_with_fuel(bits_value, 2);
    }
}

/// A slice is a B slice exactly where its second code says 1 or 6, a PPS is CAVLC exactly
/// where the bit behind its two numbers is zero, and other NAL units are no slices.
pub proof fn law_slices_declare_their_type(
    payload: Seq<u8>,
    header: u8,
    first: nat,
    second: nat,
    at: int,
    end: int,
)
    requires
        exp_golomb(unescaped(payload, 0), 0) == Some((first, at)),
        exp_golomb(unescaped(payload, 0), at) == Some((second, end)),
    ensures
        declares_b_slice(payload) <==> second == 1 || second == 6,
        is_b_slice_unit(seq![header] + payload) <==> (header % 32 == 1 || header % 32 == 5) && (
        second == 1 || second == 6),
        payload.len() > 0 ==> (declares_cavlc(seq![header] + payload) <==> end < 8 * unescaped(
            payload,
            0,
        ).len() && !bit_at(unescaped(payload, 0), end)),
        nal_type(seq![header] + payload) == header % 32,
{
    let nal = seq![header] + payload;
    assert(nal.skip(1) =~= payload);
    assert(header & 0x1f == header % 32) by (bit_vector);
}

/// A buffer holds a B slice exactly where one of the NAL units framed in it is one, and it
/// opens decodable exactly where these begin with SPS, PPS and IDR.
pub proof fn law_buffers_are_judged_by_their_units(nals: Seq<Seq<u8>>)
    requires
        forall|k: int| 0 <= k < nals.len() ==> is_emulation_free(#[trigger] nals[k]),
    ensures
        holds_b_slice(nal_units(framed(nals))) <==> exists|k: int|
            0 <= k < nals.len() && is_b_slice_unit(#[trigger] nals[k]),
        opens_decodable(nal_types(nal_units(framed(nals)))) <==> nals.len() >= 3 && nals[0][0] % 32
            == 7 && nals[1][0] % 32 == 8 && nals[2][0] % 32 == 5,
        nal_types(nal_units(framed(nals))).len() == nals.len(),
        forall|k: int|
            0 <= k < nals.len() ==> #[trigger] nal_types(nal_units(framed(nals)))[k] == nals[k][0]
                % 32,
{
    law_framing_round_trip(nals);
    assert forall|b: u8| #[trigger] (b & 0x1f) == b % 32 by {
        assert(b & 0x1f == b % 32) by (bit_vector);
    }
}

/// Three bytes `0 0 1` begin a NAL unit as well as four do.
pub proof fn law_short_start_codes_count(nal: Seq<u8>)
    requires
        is_emulation_free(nal),
    ensures
        nal_units(seq![0u8, 0u8, 1u8] + nal) == seq![nal],
        nal_units(seq![0u8, 0u8, 0u8, 1u8] + nal) == seq![nal],
{
    let data = seq![0u8, 0u8, 1u8] + nal;
    let end = data.len() as int;
    assert(start_code_len(data, 0) == 3);
    assert forall|i: int| 3 <= i < end - 2 implies !#[trigger] zeros_at(data, i) by {
        assert(!zeros_at(nal, i - 3));
        assert(data[i] == nal[i - 3]);
        assert(data[i + 1] == nal[i - 3 + 1]);
        assert(data[i + 2] == nal[i - 3 + 2]);
    }
    assert(data[end - 1] == nal.last());
    lemma_scan_skips_unit(data, 3, end);
    assert(start_codes_from(data, end) =~= Seq::<(int, int)>::empty());
    let starts = start_codes_from(data, 0);
    assert(starts =~= seq![(0int, 3int)]);
    reveal_with_fuel(payloads, 2);
    assert(starts.skip(1) =~= Seq::<(int, int)>::empty());
    assert(data.subrange(3, end) =~= nal);
    assert(nal_units(data) =~= seq![nal]);
    law_framing_round_trip(seq![nal]);
    law_frames_stand_in_a_row(Seq::empty(), nal);
    assert(Seq::<Seq<u8>>::empty().push(nal) =~= seq![nal]);
    assert(framed(seq![nal]) =~= seq![0u8, 0u8, 0u8, 1u8] + nal);
}

} // verus!
