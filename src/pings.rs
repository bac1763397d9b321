use std::collections::HashMap;

use vstd::prelude::*;

use crate::error::Error;
use crate::frame::{frame_fits, spec_frame_size, spec_header_size, Info};
use crate::qw::{spec_command, Command};
use crate::num::le_u16_at;
use crate::qw::Message;
use crate::reader::{Cursor, UpdatePing};

verus! {

broadcast use vstd::std_specs::hash::group_hash_axioms;

/// Frames with at least one ping sample after which sampling stops.
pub const MAX_SAMPLE_FRAMES: usize = 8;

/// Tag byte of a ping update.
pub const UPDATE_PING_TAG: u8 = 36;

/// The body of the frame at `index`.
pub open spec fn frame_body(data: Seq<u8>, index: int) -> Seq<u8> {
    data.subrange(index + spec_header_size(data[index + 1]), index + spec_frame_size(data, index))
}

/// The ping updates at the start of a frame body, from `pos` on: each is a
/// tag, a slot, a little-endian ping and the three bytes of the packet-loss
/// record that follows it.
pub open spec fn ping_samples(body: Seq<u8>, pos: int) -> Seq<UpdatePing>
    decreases body.len() + 7 - pos,
{
    if 0 <= pos && pos + 5 <= body.len() && body[pos] == UPDATE_PING_TAG {
        seq![UpdatePing { player_number: body[pos + 1], ping: le_u16_at(body, pos + 2) as u16 }]
            + ping_samples(body, pos + 7)
    } else {
        Seq::empty()
    }
}

/// The samples a scan collects from the frame at `index` on, when `count`
/// frames have contributed samples before it.
pub open spec fn sampled(data: Seq<u8>, index: int, count: int) -> Seq<UpdatePing>
    decreases data.len() - index,
{
    if frame_fits(data, index) {
        let s = ping_samples(frame_body(data, index), 0);
        let c = if s.len() > 0 {
            count + 1
        } else {
            count
        };
        if c >= MAX_SAMPLE_FRAMES {
            s
        } else {
            s + sampled(data, index + spec_frame_size(data, index), c)
        }
    } else {
        Seq::empty()
    }
}

/// Number of frames that contribute samples to such a scan.
pub open spec fn contributing_frames(data: Seq<u8>, index: int, count: int) -> int
    decreases data.len() - index,
{
    if frame_fits(data, index) {
        let s = ping_samples(frame_body(data, index), 0);
        let c = if s.len() > 0 {
            count + 1
        } else {
            count
        };
        if c >= MAX_SAMPLE_FRAMES {
            c - count
        } else {
            (c - count) + contributing_frames(data, index + spec_frame_size(data, index), c)
        }
    } else {
        0
    }
}

/// Sum of the pings sampled for `slot`.
pub open spec fn slot_sum(s: Seq<UpdatePing>, slot: u8) -> int
    decreases s.len(),
{
    if s.len() == 0 {
        0
    } else {
        slot_sum(s.drop_last(), slot) + if s.last().player_number == slot {
            s.last().ping as int
        } else {
            0
        }
    }
}

/// Number of pings sampled for `slot`.
pub open spec fn slot_count(s: Seq<UpdatePing>, slot: u8) -> int
    decreases s.len(),
{
    if s.len() == 0 {
        0
    } else {
        slot_count(s.drop_last(), slot) + if s.last().player_number == slot {
            1int
        } else {
            0
        }
    }
}

/// Mean ping per slot of a scan, rounded down.
pub open spec fn spec_pings(data: Seq<u8>) -> Map<u8, u32> {
    let s = sampled(data, 0, 0);
    Map::new(
        |slot: u8| slot_count(s, slot) > 0,
        |slot: u8| (slot_sum(s, slot) / slot_count(s, slot)) as u32,
    )
}

/// A scan that has seen `count` contributing frames meets at most
/// `8 - count` more: sampling stops after the eighth.
pub proof fn lemma_sampling_stops(data: Seq<u8>, index: int, count: int)
    requires
        0 <= count < MAX_SAMPLE_FRAMES,
    ensures
        0 <= contributing_frames(data, index, count) <= MAX_SAMPLE_FRAMES - count,
    decreases data.len() - index,
{
    if frame_fits(data, index) {
        let s = ping_samples(frame_body(data, index), 0);
        let c = if s.len() > 0 {
            count + 1
        } else {
            count
        };
        if c < MAX_SAMPLE_FRAMES {
            lemma_sampling_stops(data, index + spec_frame_size(data, index), c);
        }
    }
}

/// Scanning one buffer twice gives the same ping map: the map is a function
/// of the bytes alone.
pub proof fn lemma_pings_repeatable(data: Seq<u8>, first: Map<u8, u32>, second: Map<u8, u32>)
    requires
        first == spec_pings(data),
        second == spec_pings(data),
    ensures
        first == second,
{
}

/// Where the scan from the frame at `index` stops reading: the end of the
/// frame that makes the eighth contribution, or the first position where no
/// frame fits.
pub open spec fn sampling_end(data: Seq<u8>, index: int, count: int) -> int
    decreases data.len() - index,
{
    if frame_fits(data, index) {
        let s = ping_samples(frame_body(data, index), 0);
        let c = if s.len() > 0 {
            count + 1
        } else {
            count
        };
        if c >= MAX_SAMPLE_FRAMES {
            index + spec_frame_size(data, index)
        } else {
            sampling_end(data, index + spec_frame_size(data, index), c)
        }
    } else {
        index
    }
}

proof fn lemma_sampling_end_after(data: Seq<u8>, index: int, count: int)
    ensures
        sampling_end(data, index, count) >= index,
        frame_fits(data, index) ==> sampling_end(data, index, count) >= index + spec_frame_size(
            data,
            index,
        ),
    decreases data.len() - index,
{
    if frame_fits(data, index) {
        let s = ping_samples(frame_body(data, index), 0);
        let c = if s.len() > 0 {
            count + 1
        } else {
            count
        };
        if c < MAX_SAMPLE_FRAMES {
            lemma_sampling_end_after(data, index + spec_frame_size(data, index), c);
        }
    }
}

/// When the eighth contributing frame is met, the samples depend only on the
/// bytes before the end of that frame.
pub proof fn lemma_sampling_prefix(data: Seq<u8>, other: Seq<u8>, index: int, count: int)
    requires
        0 <= index,
        0 <= count < MAX_SAMPLE_FRAMES,
        contributing_frames(data, index, count) == MAX_SAMPLE_FRAMES - count,
        sampling_end(data, index, count) <= data.len(),
        sampling_end(data, index, count) <= other.len(),
        other.subrange(0, sampling_end(data, index, count)) == data.subrange(
            0,
            sampling_end(data, index, count),
        ),
    ensures
        sampled(other, index, count) == sampled(data, index, count),
    decreases data.len() - index,
{
    let e = sampling_end(data, index, count);
    lemma_sampling_end_after(data, index, count);
    assert forall|k: int| 0 <= k < e implies other[k] == data[k] by {
        assert(other.subrange(0, e)[k] == data.subrange(0, e)[k]);
    }
    assert(frame_fits(data, index));
    let tag = data[index + 1];
    assert(other[index + 1] == tag);
    let h = spec_header_size(tag);
    if spec_command(tag) == Command::Read {
        let p = index + h - 4;
        assert(other[p] == data[p] && other[p + 1] == data[p + 1] && other[p + 2] == data[p + 2]
            && other[p + 3] == data[p + 3]);
    }
    assert(spec_frame_size(other, index) == spec_frame_size(data, index));
    assert(frame_fits(other, index));
    let size = spec_frame_size(data, index);
    assert(frame_body(other, index) =~= frame_body(data, index));
    let s = ping_samples(frame_body(data, index), 0);
    let c = if s.len() > 0 {
        count + 1
    } else {
        count
    };
    if c < MAX_SAMPLE_FRAMES {
        lemma_sampling_prefix(data, other, index + size, c);
    }
}

/// Ping sampling stops right after the eighth frame that contributes
/// samples: bytes after that frame do not change the ping map.
pub proof fn lemma_pings_ignore_rest(data: Seq<u8>, other: Seq<u8>)
    requires
        contributing_frames(data, 0, 0) == MAX_SAMPLE_FRAMES,
        sampling_end(data, 0, 0) <= data.len(),
        sampling_end(data, 0, 0) <= other.len(),
        other.subrange(0, sampling_end(data, 0, 0)) == data.subrange(0, sampling_end(data, 0, 0)),
    ensures
        spec_pings(other) == spec_pings(data),
{
    lemma_sampling_prefix(data, other, 0, 0);
    assert(spec_pings(other) =~= spec_pings(data));
}

proof fn lemma_samples_len(body: Seq<u8>, pos: int)
    requires
        0 <= pos,
    ensures
        ping_samples(body, pos).len() <= if pos <= body.len() {
            body.len() - pos
        } else {
            0
        },
    decreases body.len() + 7 - pos,
{
    if 0 <= pos && pos + 5 <= body.len() && body[pos] == UPDATE_PING_TAG {
        lemma_samples_len(body, pos + 7);
    }
}

proof fn lemma_slot_bounds(s: Seq<UpdatePing>, slot: u8)
    ensures
        0 <= slot_count(s, slot) <= s.len(),
        0 <= slot_sum(s, slot) <= 65535 * slot_count(s, slot),
    decreases s.len(),
{
    if s.len() > 0 {
        lemma_slot_bounds(s.drop_last(), slot);
    }
}

/// The ping updates at the start of a frame body.
pub fn frame_pings(body: &[u8]) -> (r: Vec<UpdatePing>)
    ensures
        r@ == ping_samples(body@, 0),
{
    let len = body.len();
    let mut cursor = Cursor::new(body);
    let mut samples: Vec<UpdatePing> = Vec::new();
    loop
        invariant
            len == body@.len(),
            cursor.data@ == body@,
            ping_samples(body@, 0) == samples@ + ping_samples(body@, cursor.position as int),
        decreases len + 1 - cursor.position,
    {
        let pos = cursor.position;
        match cursor.read_message_type() {
            Ok(Message::UpdatePing) => {},
            _ => {
                assert(samples@ + ping_samples(body@, pos as int) =~= samples@);
                return samples;
            },
        }
        match cursor.read_update_ping() {
            Ok(u) => {
                let ghost before = samples@;
                samples.push(u);
                // skip the slot and value of the packet-loss record
                if cursor.position > len || len - cursor.position < 2 {
                    assert(ping_samples(body@, pos + 7) =~= Seq::<UpdatePing>::empty());
                    assert(samples@ =~= before + ping_samples(body@, pos as int));
                    return samples;
                }
                let next = cursor.position + 2;
                cursor.set_position(next);
                assert(samples@ + ping_samples(body@, next as int) =~= before + ping_samples(
                    body@,
                    pos as int,
                ));
            },
            Err(_) => {
                assert(samples@ + ping_samples(body@, pos as int) =~= samples@);
                return samples;
            },
        }
    }
}

/// Mean ping per player slot, rounded down, over the samples of the first
/// frames that carry ping updates; `PingsNotFound` where no frame does.
pub fn pings(data: &[u8]) -> (r: Result<HashMap<u8, u32>, Error>)
    ensures
        match r {
            Ok(m) => sampled(data@, 0, 0).len() > 0 && m@ == spec_pings(data@),
            Err(e) => sampled(data@, 0, 0).len() == 0 && e == Error::PingsNotFound,
        },
{
    let len = data.len();
    let mut sums: Vec<u128> = Vec::new();
    let mut counts: Vec<u64> = Vec::new();
    let mut p: usize = 0;
    while p < 256
        invariant
            p <= 256,
            sums@.len() == p,
            counts@.len() == p,
            forall|q: int| 0 <= q < p ==> sums@[q] == 0 && counts@[q] == 0,
        decreases 256 - p,
    {
        sums.push(0);
        counts.push(0);
        p = p + 1;
    }
    let ghost mut seen: Seq<UpdatePing> = Seq::empty();
    let mut total: usize = 0;
    let mut index: usize = 0;
    let mut count: usize = 0;
    loop
        invariant_except_break
            count < MAX_SAMPLE_FRAMES,
            sampled(data@, 0, 0) == seen + sampled(data@, index as int, count as int),
            seen.len() <= index,
        invariant
            len == data@.len(),
            index <= len,
            total == seen.len(),
            sums@.len() == 256,
            counts@.len() == 256,
            forall|q: int|
                0 <= q < 256 ==> sums@[q] == slot_sum(seen, q as u8) && counts@[q] == slot_count(
                    seen,
                    q as u8,
                ),
        ensures
            sampled(data@, 0, 0) == seen,
        decreases len - index,
    {
        let info = match Info::from_data_and_index(data, index) {
            Ok(info) => info,
            Err(_) => {
                assert(seen + sampled(data@, index as int, count as int) =~= seen);
                break;
            },
        };
        let body = &data[info.body_range.start..info.body_range.end];
        assert(body@ == frame_body(data@, index as int));
        let samples = frame_pings(body);
        proof {
            lemma_samples_len(body@, 0);
        }
        let n = samples.len();
        let mut k: usize = 0;
        let ghost seen0 = seen;
        while k < n
            invariant
                n == samples@.len(),
                k <= n,
                sums@.len() == 256,
                counts@.len() == 256,
                seen == seen0 + samples@.subrange(0, k as int),
                total == seen.len(),
                seen0.len() <= index,
                n <= info.size,
                index + info.size <= len,
                len == data@.len(),
                forall|q: int|
                    0 <= q < 256 ==> sums@[q] == slot_sum(seen, q as u8) && counts@[q]
                        == slot_count(seen, q as u8),
            decreases n - k,
        {
            let u = samples[k];
            let slot = u.player_number as usize;
            proof {
                lemma_slot_bounds(seen, u.player_number);
                let c = slot_count(seen, u.player_number);
                assert(c < 0x1_0000_0000_0000_0000);
                assert(65535 * c <= 65535 * 0x1_0000_0000_0000_0000) by (nonlinear_arith)
                    requires
                        c < 0x1_0000_0000_0000_0000,
                ;
            }
            let s = sums[slot] + u.ping as u128;
            let c = counts[slot] + 1;
            sums.set(slot, s);
            counts.set(slot, c);
            proof {
                let old_seen = seen;
                seen = seen.push(u);
                assert(seen.drop_last() == old_seen);
                assert(seen =~= seen0 + samples@.subrange(0, k + 1));
            }
            total = total + 1;
            k = k + 1;
        }
        assert(samples@.subrange(0, n as int) =~= samples@);
        if n > 0 {
            count = count + 1;
        }
        if count >= MAX_SAMPLE_FRAMES {
            break;
        }
        index = index + info.size;
    }
    if total == 0 {
        return Err(Error::PingsNotFound);
    }
    let mut m: HashMap<u8, u32> = HashMap::new();
    let mut q: usize = 0;
    while q < 256
        invariant
            q <= 256,
            sums@.len() == 256,
            counts@.len() == 256,
            sampled(data@, 0, 0) == seen,
            forall|t: int|
                0 <= t < 256 ==> sums@[t] == slot_sum(seen, t as u8) && counts@[t] == slot_count(
                    seen,
                    t as u8,
                ),
            m@ == spec_pings(data@).restrict(Set::new(|t: u8| t < q)),
        decreases 256 - q,
    {
        if counts[q] > 0 {
            proof {
                lemma_slot_bounds(seen, q as u8);
            }
            let sum = sums[q];
            let cnt = counts[q] as u128;
            proof {
                let ss = slot_sum(seen, q as u8);
                let cc = slot_count(seen, q as u8);
                assert(ss / cc <= 65535) by (nonlinear_arith)
                    requires
                        0 <= ss <= 65535 * cc,
                        cc > 0,
                ;
            }
            let mean = (sum / cnt) as u32;
            m.insert(q as u8, mean);
        }
        q = q + 1;
        assert(m@ =~= spec_pings(data@).restrict(Set::new(|t: u8| t < q)));
    }
    assert(m@ =~= spec_pings(data@));
    Ok(m)
}

} // verus!
