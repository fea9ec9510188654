//! Video packetizer.
//!
//! An access unit is parsed into NAL units, each NAL unit is split into
//! fragments bounded by the transport budget, and each fragment is framed as
//! a datagram carrying the 90 kHz timestamp, a per-frame sequence number and
//! a last-fragment marker.  A failed fragment send raises the needs-IDR flag,
//! which the next send consumes by reporting `NeedIdr`.

use vstd::prelude::*;

use crate::packets::{be16_bytes, be32_bytes};

verus! {

/// The video clock rate in ticks per second.
pub const VIDEO_CLOCK_RATE: u64 = 90_000;

/// The outbound transport budget per packet.
pub const RTP_OUTBOUND_MTU: usize = 1200;

/// Bytes reserved out of the budget for per-packet overhead.
pub const FRAGMENT_OVERHEAD: usize = 12;

/// Largest fragment payload the packetizer emits.
pub const MAX_FRAGMENT_PAYLOAD: usize = 1188;

/// Length of the datagram header: timestamp, sequence number, last marker.
pub const DATAGRAM_HEADER_LEN: usize = 7;

/// Supported-format mask bit for H.264.
pub const FORMAT_H264: u32 = 0x0001;

/// Supported-format mask bit for H.265.
pub const FORMAT_H265: u32 = 0x0100;

/// Supported-format mask bit for AV1.
pub const FORMAT_AV1: u32 = 0x1000;

/// A negotiated video codec.
#[derive(Clone, Copy, Debug, PartialEq, Eq, Structural)]
pub enum VideoFormat {
    H264,
    H265,
    Av1,
}

/// What a decode-unit submission reports to the caller.
#[derive(Clone, Copy, Debug, PartialEq, Eq, Structural)]
pub enum DecodeResult {
    /// The unit was handed to the transport.
    Sent,
    /// The caller must request a keyframe from the upstream.
    NeedIdr,
}

/// The supported-format mask bit of a codec.
pub open spec fn spec_format_bit(f: VideoFormat) -> u32 {
    match f {
        VideoFormat::H264 => FORMAT_H264,
        VideoFormat::H265 => FORMAT_H265,
        VideoFormat::Av1 => FORMAT_AV1,
    }
}

/// Whether video setup succeeds: the format must be enabled in the
/// supported-format mask, and a packetizer must exist for it (H.264 or
/// H.265; AV1 has none).
pub open spec fn spec_video_setup_ok(supported_mask: u32, f: VideoFormat) -> bool {
    (supported_mask & spec_format_bit(f)) != 0 && (f == VideoFormat::H264 || f
        == VideoFormat::H265)
}

/// The sender-side state of the video path.
pub struct VideoSender {
    /// The supported-format mask the session was created with.
    pub supported_formats: u32,
    /// The codec chosen at setup.
    pub codec: Option<VideoFormat>,
    /// Raised when fragments fail to send; consumed by the next submission.
    pub needs_idr: bool,
}

impl VideoSender {
    /// A fresh sender for a session with this supported-format mask.
    pub fn new(supported_formats: u32) -> (r: VideoSender)
        ensures
            r.supported_formats == supported_formats,
            r.codec is None,
            !r.needs_idr,
    {
        VideoSender { supported_formats, codec: None, needs_idr: false }
    }

    /// Set up the codec.  Fails exactly when the format is not in the
    /// supported mask or no packetizer exists for it; in particular a zero
    /// mask fails for every format.
    pub fn setup(&mut self, format: VideoFormat) -> (r: bool)
        ensures
            r == spec_video_setup_ok(old(self).supported_formats, format),
            final(self).supported_formats == old(self).supported_formats,
            final(self).needs_idr == old(self).needs_idr,
            final(self).codec == if r {
                Some(format)
            } else {
                old(self).codec
            },
    {
        let bit = match format {
            VideoFormat::H264 => FORMAT_H264,
            VideoFormat::H265 => FORMAT_H265,
            VideoFormat::Av1 => FORMAT_AV1,
        };
        let enabled = (self.supported_formats & bit) != 0;
        let has_payloader = match format {
            VideoFormat::H264 => true,
            VideoFormat::H265 => true,
            VideoFormat::Av1 => false,
        };
        if enabled && has_payloader {
            self.codec = Some(format);
            true
        } else {
            false
        }
    }

    /// Whether a decode unit can be packetized at all: a codec must have
    /// been set up.  A unit submitted without one is elided — nothing is
    /// sent and the submission reports the unit as handled — since inbound
    /// media is best-effort and the upstream must not be stalled.
    pub fn can_packetize(&self) -> (r: bool)
        ensures
            r == (self.codec is Some),
    {
        self.codec.is_some()
    }

    /// Account for the outcome of one decode unit's fragment sends and
    /// report the result: any failed fragment raises the needs-IDR flag, and
    /// a raised flag is consumed by reporting `NeedIdr`.
    pub fn conclude_unit(&mut self, outcomes: &Vec<bool>) -> (r: DecodeResult)
        ensures
            final(self).supported_formats == old(self).supported_formats,
            final(self).codec == old(self).codec,
            r == (if old(self).needs_idr || count_failures(outcomes@) > 0 {
                DecodeResult::NeedIdr
            } else {
                DecodeResult::Sent
            }),
            !final(self).needs_idr,
    {
        let failed = count_failed(outcomes);
        if failed > 0 {
            self.needs_idr = true;
        }
        if self.needs_idr {
            self.needs_idr = false;
            DecodeResult::NeedIdr
        } else {
            DecodeResult::Sent
        }
    }
}

/// The number of failed sends among the fragment outcomes.
pub open spec fn count_failures(outcomes: Seq<bool>) -> nat
    decreases outcomes.len(),
{
    if outcomes.len() == 0 {
        0
    } else {
        count_failures(outcomes.drop_last()) + if outcomes.last() {
            0nat
        } else {
            1nat
        }
    }
}

/// Count the failed sends among the fragment outcomes.
pub fn count_failed(outcomes: &Vec<bool>) -> (r: usize)
    ensures
        r == count_failures(outcomes@),
        r <= outcomes@.len(),
{
    let mut r: usize = 0;
    let mut i: usize = 0;
    let n = outcomes.len();
    while i < n
        invariant
            n == outcomes@.len(),
            i <= n,
            r == count_failures(outcomes@.take(i as int)),
            r <= i,
        decreases n - i,
    {
        proof {
            assert(outcomes@.take(i as int + 1).drop_last() =~= outcomes@.take(i as int));
            assert(outcomes@.take(i as int + 1).last() == outcomes@[i as int]);
        }
        if !outcomes[i] {
            r = r + 1;
        }
        i = i + 1;
    }
    proof {
        assert(outcomes@.take(n as int) =~= outcomes@);
    }
    r
}

/// The 32-bit wrapping video timestamp of an elapsed tick count.  The sender
/// never resets: the timestamp simply wraps at 2^32.
pub fn video_timestamp(elapsed_ticks: u64) -> (r: u32)
    ensures
        r == elapsed_ticks % 0x1_0000_0000,
{
    (elapsed_ticks % 0x1_0000_0000) as u32
}

/// Elapsed 90 kHz ticks of an elapsed duration in microseconds.
pub fn ticks_of_micros(elapsed_micros: u64) -> (r: u64)
    requires
        elapsed_micros <= u64::MAX / 9,
    ensures
        r == (elapsed_micros * 9) / 100,
{
    (elapsed_micros * 9) / 100
}

/// Law: the timestamp continues across the 2^32 wrap without a reset — a
/// full wrap later, the same timestamp value is emitted and intermediate
/// values keep advancing modulo 2^32.
pub proof fn lemma_timestamp_wraps(elapsed_ticks: u64)
    requires
        elapsed_ticks <= u64::MAX - 0x1_0000_0000,
    ensures
        (elapsed_ticks + 0x1_0000_0000) as u64 % 0x1_0000_0000 == elapsed_ticks % 0x1_0000_0000,
{
    let m: u64 = 0x1_0000_0000;
    assert((elapsed_ticks + m) as u64 % m == elapsed_ticks % m) by (nonlinear_arith)
        requires
            m == 0x1_0000_0000,
            elapsed_ticks <= u64::MAX - 0x1_0000_0000,
    ;
}

/// Law: a zero supported-format mask refuses video setup for every format.
pub proof fn lemma_zero_mask_refuses_video(f: VideoFormat)
    ensures
        !spec_video_setup_ok(0, f),
{
    assert(0u32 & spec_format_bit(f) == 0) by (bit_vector);
}

/// Law: a decode unit of `n` fragments leads to at most `n` emitted packets;
/// and when at least half the fragment sends fail, the submission reports
/// `NeedIdr`.
pub proof fn lemma_fragment_send_bounds(outcomes: Seq<bool>, needs_idr_before: bool)
    ensures
        count_failures(outcomes) <= outcomes.len(),
        outcomes.len() - count_failures(outcomes) <= outcomes.len(),
        outcomes.len() > 0 && 2 * count_failures(outcomes) >= outcomes.len() ==> (
        if needs_idr_before || count_failures(outcomes) > 0 {
            DecodeResult::NeedIdr
        } else {
            DecodeResult::Sent
        }) == DecodeResult::NeedIdr,
    decreases outcomes.len(),
{
    if outcomes.len() > 0 {
        lemma_fragment_send_bounds(outcomes.drop_last(), needs_idr_before);
    }
}

/// There is a three-byte start code at position `i`.
pub open spec fn is_start_code_at(b: Seq<u8>, i: int) -> bool {
    0 <= i && i + 3 <= b.len() && b[i] == 0 && b[i + 1] == 0 && b[i + 2] == 1
}

/// Parse the start-code positions of an access unit: every position at which
/// a three-byte start code begins, in increasing order.
pub fn find_start_codes(frame: &Vec<u8>) -> (r: Vec<usize>)
    ensures
        forall|k: int| 0 <= k < r@.len() ==> is_start_code_at(frame@, (#[trigger] r@[k]) as int),
        forall|k: int, l: int| 0 <= k < l < r@.len() ==> r@[k] < r@[l],
        forall|i: int|
            0 <= i && i + 3 <= frame@.len() && is_start_code_at(frame@, i) ==> exists|k: int|
                0 <= k < r@.len() && (#[trigger] r@[k]) as int == i,
{
    let mut r: Vec<usize> = Vec::new();
    let n = frame.len();
    if n < 3 {
        return r;
    }
    let mut i: usize = 0;
    while i <= n - 3
        invariant
            n == frame@.len(),
            n >= 3,
            i <= n - 2,
            forall|k: int| 0 <= k < r@.len() ==> is_start_code_at(frame@, (#[trigger] r@[k]) as int),
            forall|k: int, l: int| 0 <= k < l < r@.len() ==> r@[k] < r@[l],
            forall|k: int| 0 <= k < r@.len() ==> (#[trigger] r@[k]) < i,
            forall|j: int|
                0 <= j < i && is_start_code_at(frame@, j) ==> exists|k: int|
                    0 <= k < r@.len() && (#[trigger] r@[k]) as int == j,
        decreases n - i,
    {
        let ghost old_r = r@;
        let code_here = frame[i] == 0 && frame[i + 1] == 0 && frame[i + 2] == 1;
        if code_here {
            r.push(i);
            proof {
                assert(r@[r@.len() - 1] == i);
                assert forall|k: int, l: int| 0 <= k < l < r@.len() implies r@[k] < r@[l] by {
                    if l == r@.len() - 1 {
                        assert(old_r[k] < i);
                    } else {
                        assert(old_r[k] < old_r[l]);
                    }
                }
            }
        }
        proof {
            assert forall|j: int|
                0 <= j < i + 1 && is_start_code_at(frame@, j) implies exists|k: int|
                    0 <= k < r@.len() && (#[trigger] r@[k]) as int == j by {
                if j == i {
                    assert(code_here);
                    assert(r@[r@.len() - 1] as int == j);
                } else {
                    let k0 = choose|k0: int|
                        0 <= k0 < old_r.len() && (#[trigger] old_r[k0]) as int == j;
                    assert(r@[k0] as int == j);
                }
            }
        }
        i = i + 1;
    }
    proof {
        assert forall|j: int|
            0 <= j && j + 3 <= frame@.len() && is_start_code_at(frame@, j) implies exists|k: int|
                0 <= k < r@.len() && (#[trigger] r@[k]) as int == j by {
            assert(j < i);
        }
    }
    r
}

/// Split one byte range into fragments bounded by `max`: the fragments
/// concatenate back to the range, every fragment is non-empty and within the
/// bound, and their number is the smallest possible.
pub fn fragment_range(data: &Vec<u8>, start: usize, end: usize, max: usize) -> (r: Vec<Vec<u8>>)
    requires
        start <= end <= data@.len(),
        max >= 1,
    ensures
        concat_fragments(r@) == data@.subrange(start as int, end as int),
        forall|k: int| 0 <= k < r@.len() ==> 1 <= (#[trigger] r@[k])@.len() <= max,
        r@.len() == ((end - start) + max - 1) / (max as int),
{
    let mut r: Vec<Vec<u8>> = Vec::new();
    let mut pos: usize = start;
    proof {
        assert(concat_fragments(r@) =~= data@.subrange(start as int, start as int));
    }
    while pos < end
        invariant
            start <= pos <= end <= data@.len(),
            max >= 1,
            concat_fragments(r@) == data@.subrange(start as int, pos as int),
            forall|k: int| 0 <= k < r@.len() ==> 1 <= (#[trigger] r@[k])@.len() <= max,
            pos < end ==> pos - start == r@.len() * (max as int),
            pos == end ==> pos - start <= r@.len() * (max as int),
            pos == end ==> r@.len() == 0 || pos - start > (r@.len() - 1) * (max as int),
            r@.len() == 0 ==> pos == start,
        decreases end - pos,
    {
        let remaining = end - pos;
        let take = if remaining < max {
            remaining
        } else {
            max
        };
        let mut frag: Vec<u8> = Vec::new();
        let mut j: usize = 0;
        while j < take
            invariant
                pos + take <= end,
                end <= data@.len(),
                j <= take,
                frag@ =~= data@.subrange(pos as int, pos as int + j as int),
            decreases take - j,
        {
            frag.push(data[pos + j]);
            proof {
                assert(frag@ =~= data@.subrange(pos as int, pos as int + j as int + 1));
            }
            j = j + 1;
        }
        let ghost old_r = r@;
        let ghost old_pos = pos as int;
        r.push(frag);
        pos = pos + take;
        proof {
            let m = max as int;
            let len0 = old_r.len() as int;
            lemma_concat_push(old_r, data@.subrange(old_pos, old_pos + take as int));
            assert(concat_fragments(r@) =~= data@.subrange(start as int, pos as int));
            assert(old_pos - start == len0 * m);
            assert((len0 + 1) * m == len0 * m + m) by (nonlinear_arith);
            if pos < end {
                assert(take == max);
            } else {
                assert(pos - start > len0 * m);
            }
        }
    }
    proof {
        let m = max as int;
        let len = r@.len() as int;
        let total = end - start;
        if len == 0 {
            assert((total + m - 1) / m == 0) by (nonlinear_arith)
                requires
                    m >= 1,
                    total == 0,
            ;
        } else {
            assert((total + m - 1) / m == len) by (nonlinear_arith)
                requires
                    m >= 1,
                    len >= 1,
                    total <= len * m,
                    total > (len - 1) * m,
            ;
        }
        assert(data@.subrange(start as int, pos as int) == data@.subrange(
            start as int,
            end as int,
        ));
    }
    r
}

/// The concatenation of a list of fragments.
pub open spec fn concat_fragments(frags: Seq<Vec<u8>>) -> Seq<u8>
    decreases frags.len(),
{
    if frags.len() == 0 {
        Seq::empty()
    } else {
        concat_fragments(frags.drop_last()) + frags.last()@
    }
}

/// Concatenation over one appended fragment.
proof fn lemma_concat_push(frags: Seq<Vec<u8>>, added: Seq<u8>)
    ensures
        forall|v: Vec<u8>|
            (#[trigger] v@) == added ==> concat_fragments(frags.push(v)) == concat_fragments(frags)
                + added,
{
    assert forall|v: Vec<u8>| (#[trigger] v@) == added implies concat_fragments(frags.push(v))
        == concat_fragments(frags) + added by {
        assert(frags.push(v).drop_last() =~= frags);
        assert(frags.push(v).last() == v);
    }
}

/// Frame one fragment as a video datagram: big-endian timestamp, big-endian
/// per-frame sequence number, a last-fragment marker byte, then the payload.
pub fn build_datagram(timestamp: u32, sequence: u16, is_last: bool, payload: &Vec<u8>) -> (r: Vec<
    u8,
>)
    requires
        payload@.len() + DATAGRAM_HEADER_LEN <= usize::MAX,
    ensures
        r@ == be32_bytes(timestamp) + be16_bytes(sequence) + seq![
            if is_last {
                1u8
            } else {
                0u8
            },
        ] + payload@,
        r@.len() == DATAGRAM_HEADER_LEN + payload@.len(),
{
    let mut out: Vec<u8> = Vec::new();
    out.push((timestamp >> 24) as u8);
    out.push((timestamp >> 16) as u8);
    out.push((timestamp >> 8) as u8);
    out.push(timestamp as u8);
    out.push((sequence >> 8) as u8);
    out.push(sequence as u8);
    out.push(if is_last { 1 } else { 0 });
    let mut i: usize = 0;
    let n = payload.len();
    while i < n
        invariant
            n == payload@.len(),
            i <= n,
            out@ =~= be32_bytes(timestamp) + be16_bytes(sequence) + seq![
                if is_last {
                    1u8
                } else {
                    0u8
                },
            ] + payload@.take(i as int),
        decreases n - i,
    {
        out.push(payload[i]);
        proof {
            assert(out@ =~= be32_bytes(timestamp) + be16_bytes(sequence) + seq![
                if is_last {
                    1u8
                } else {
                    0u8
                },
            ] + payload@.take(i as int + 1));
        }
        i = i + 1;
    }
    proof {
        assert(payload@.take(n as int) =~= payload@);
        assert(out@ =~= be32_bytes(timestamp) + be16_bytes(sequence) + seq![
            if is_last {
                1u8
            } else {
                0u8
            },
        ] + payload@);
    }
    out
}

/// Frame the next fragment of a decode unit as a datagram, under the
/// per-frame numbering policy: the sequence field counts the datagrams
/// successfully sent so far within this frame, starting at zero and resetting
/// with every frame, and only the unit's final fragment carries the
/// last-fragment marker.
pub fn plan_datagram(
    timestamp: u32,
    sent_so_far: u16,
    fragment_index: usize,
    fragment_count: usize,
    payload: &Vec<u8>,
) -> (r: Vec<u8>)
    requires
        fragment_index < fragment_count,
        payload@.len() + DATAGRAM_HEADER_LEN <= usize::MAX,
    ensures
        r@ == be32_bytes(timestamp) + be16_bytes(sent_so_far) + seq![
            if fragment_index == fragment_count - 1 {
                1u8
            } else {
                0u8
            },
        ] + payload@,
        r@.len() == DATAGRAM_HEADER_LEN + payload@.len(),
{
    build_datagram(timestamp, sent_so_far, fragment_index == fragment_count - 1, payload)
}

} // verus!
