use moonlight_web::audio::{sample_rate_supported, AudioDisposition, AudioPipeline};
use moonlight_web::video::{
    build_datagram, find_start_codes, fragment_range, plan_datagram, ticks_of_micros,
    video_timestamp, DecodeResult, VideoFormat, VideoSender, FORMAT_AV1, FORMAT_H264, FORMAT_H265,
};

#[test]
fn zero_format_mask_fails_video_setup_but_audio_works() {
    let mut video = VideoSender::new(0);
    assert!(!video.setup(VideoFormat::H264));
    assert!(!video.setup(VideoFormat::H265));
    assert!(!video.setup(VideoFormat::Av1));

    // Audio is untouched by the video format mask.
    let mut audio = AudioPipeline::new(4);
    assert_eq!(audio.setup(48_000, true), 0);
}

#[test]
fn video_setup_follows_the_mask() {
    let mut v = VideoSender::new(FORMAT_H264 | FORMAT_H265);
    assert!(v.setup(VideoFormat::H264));
    assert!(v.setup(VideoFormat::H265));
    let mut h265_only = VideoSender::new(FORMAT_H265);
    assert!(!h265_only.setup(VideoFormat::H264));
    // AV1 has no packetizer even when the mask enables it.
    let mut av1 = VideoSender::new(FORMAT_AV1);
    assert!(!av1.setup(VideoFormat::Av1));
}

#[test]
fn failed_fragments_raise_need_idr_once() {
    let mut v = VideoSender::new(FORMAT_H264);
    v.setup(VideoFormat::H264);

    // All fragments sent: no keyframe needed.
    assert_eq!(v.conclude_unit(&vec![true, true, true]), DecodeResult::Sent);
    // Half the fragments failed: the next submission needs a keyframe.
    assert_eq!(v.conclude_unit(&vec![false, true]), DecodeResult::NeedIdr);
    // The flag was consumed by the report.
    assert_eq!(v.conclude_unit(&vec![true]), DecodeResult::Sent);
}

#[test]
fn timestamp_wraps_without_reset() {
    assert_eq!(video_timestamp(90_000), 90_000);
    assert_eq!(video_timestamp(0x1_0000_0000), 0);
    assert_eq!(video_timestamp(0x1_0000_0005), 5);
    // A full wrap later the same timestamp is emitted.
    assert_eq!(video_timestamp(7), video_timestamp(7 + 0x1_0000_0000));
    // 90 kHz ticks from elapsed microseconds.
    assert_eq!(ticks_of_micros(1_000_000), 90_000);
}

#[test]
fn fragments_are_bounded_and_rebuild_the_range() {
    let data: Vec<u8> = vec![1, 2, 3, 4, 5];
    let frags = fragment_range(&data, 0, 5, 2);
    assert_eq!(frags.len(), 3);
    assert_eq!(frags[0], vec![1, 2]);
    assert_eq!(frags[1], vec![3, 4]);
    assert_eq!(frags[2], vec![5]);

    let empty = fragment_range(&data, 2, 2, 2);
    assert_eq!(empty.len(), 0);
}

#[test]
fn datagram_header_layout() {
    let payload = vec![9u8, 8, 7];
    let d = build_datagram(0x01020304, 0x0506, true, &payload);
    assert_eq!(d, vec![1, 2, 3, 4, 5, 6, 1, 9, 8, 7]);
    let d2 = build_datagram(0, 0, false, &payload);
    assert_eq!(d2[6], 0);
    assert_eq!(d2.len(), 10);
}

#[test]
fn start_codes_are_found() {
    let frame = vec![0u8, 0, 1, 0x67, 0xAA, 0, 0, 1, 0x68];
    let codes = find_start_codes(&frame);
    assert_eq!(codes, vec![0, 5]);
    assert!(find_start_codes(&vec![1, 2]).is_empty());
}

#[test]
fn audio_buffers_until_attach_and_drains_in_order() {
    let mut a = AudioPipeline::new(2);
    assert!(matches!(a.submit_sample(vec![1]), AudioDisposition::Buffered));
    assert!(matches!(a.submit_sample(vec![2]), AudioDisposition::Buffered));
    // The buffer is full: the oldest sample is dropped, never the producer.
    match a.submit_sample(vec![3]) {
        AudioDisposition::BufferedDroppingOldest(old) => assert_eq!(old, vec![1]),
        _ => panic!("expected the oldest sample to be dropped"),
    }
    // Attach drains in submission order.
    let drained = a.attach_stream();
    assert_eq!(drained, vec![vec![2], vec![3]]);
    // Later samples write through.
    match a.submit_sample(vec![4]) {
        AudioDisposition::WriteThrough(out) => assert_eq!(out, vec![4]),
        _ => panic!("expected write-through after attach"),
    }
}

#[test]
fn audio_setup_needs_the_writer() {
    let mut a = AudioPipeline::new(4);
    assert_eq!(a.setup(48_000, false), -1);
    assert_eq!(a.setup(48_000, true), 0);
}

#[test]
fn sample_rate_allowlist() {
    assert!(sample_rate_supported(48_000));
    assert!(sample_rate_supported(80_000));
    assert!(sample_rate_supported(12_000));
    assert!(!sample_rate_supported(44_100));
}

#[test]
fn unit_without_codec_is_elided() {
    let mut v = VideoSender::new(FORMAT_H264);
    // Before setup nothing can be packetized: the unit is elided and the
    // empty outcome list still reports the unit handled.
    assert!(!v.can_packetize());
    assert_eq!(v.conclude_unit(&vec![]), DecodeResult::Sent);
    v.setup(VideoFormat::H264);
    assert!(v.can_packetize());
}

#[test]
fn datagram_sequence_counts_sent_and_marks_the_last_fragment() {
    let payload = vec![7u8];
    // Two fragments, one prior send failure: the second fragment still takes
    // the next unsent number, and only the final fragment is marked last.
    let first = plan_datagram(9, 0, 0, 2, &payload);
    assert_eq!(first, vec![0, 0, 0, 9, 0, 0, 0, 7]);
    let second = plan_datagram(9, 1, 1, 2, &payload);
    assert_eq!(second, vec![0, 0, 0, 9, 0, 1, 1, 7]);
    // A single-fragment unit is its own last fragment.
    let only = plan_datagram(9, 0, 0, 1, &payload);
    assert_eq!(only[6], 1);
}

#[test]
fn partial_drain_restores_the_unwritten_tail() {
    let mut a = AudioPipeline::new(4);
    a.submit_sample(vec![1]);
    a.submit_sample(vec![2]);
    a.submit_sample(vec![3]);
    let drained = a.attach_stream();
    assert_eq!(drained.len(), 3);
    // Only the first write reached the stream: the rest go back in order.
    a.restore_unwritten(drained, 1);
    // Samples buffered since the failure stay behind the restored ones.
    let again = a.attach_stream();
    assert_eq!(again, vec![vec![2], vec![3]]);
}
