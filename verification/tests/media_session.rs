use sharectrl::codec::{
    codec_to_u8, copy_nv12, host_encodable, negotiated_codec, pack, set_codec_from_str,
    set_negotiated_codec_from_caps, src_stride, unpack, viewer_decodable, viewer_decode_caps,
    Codec, EncodePump, EncoderConfig, EncoderEvent, Probes, PumpStep, SampleClock,
};
use sharectrl::config::Permission;
use sharectrl::control::{default_visible, is_true, ControlMsg};
use sharectrl::driver::{Driver, DriverAct, DriverEvent};
use sharectrl::injector::Act;
use sharectrl::input::{Button, InputMsg};
use sharectrl::liveness::{Death, LiveAct, Liveness};
use sharectrl::media::{
    fit_within, frame_wait_ms, has_change, CatchUp, EncoderSize, HostLoop, KeyGate, KeyLimiter,
    presents, Pacer, Rates, SizeReport,
};
use sharectrl::session::{
    negotiate, on_signal, set_control, set_video_visible, Gates, Negotiation, SignalRoute,
    WindowAct,
};
use sharectrl::signaling::{IceCandidate, SignalData};
use sharectrl::transport::{
    channel_configs, may_send_bulk, media_ticks, Inbound, Routes, RtcEvent,
};

#[test]
fn negotiation_prefers_av1_then_falls_back() {
    assert_eq!(
        Codec::negotiate(&[Codec::H264, Codec::Av1], &[Codec::Av1, Codec::H264]),
        Codec::Av1
    );
    assert_eq!(
        Codec::negotiate(&[Codec::H264, Codec::Hevc], &[Codec::H264]),
        Codec::H264
    );
    assert_eq!(
        Codec::negotiate(&[Codec::H264], &[Codec::H264]),
        Codec::H264
    );
}

#[test]
fn codec_names_and_numbers() {
    for c in [Codec::H264, Codec::Hevc, Codec::Av1] {
        assert_eq!(Codec::from_caps_str(c.as_caps_str()), Some(c));
        assert_eq!(negotiated_codec(codec_to_u8(c)), c);
    }
    assert_eq!(Codec::from_caps_str("VP9"), None);
    assert_eq!(negotiated_codec(9), Codec::H264);
    assert_eq!(Codec::negotiate(&[Codec::Av1], &[Codec::Hevc]), Codec::H264);
    let none = Probes { av1: false, hevc: false, h264: false };
    assert_eq!(host_encodable(none), vec![Codec::H264]);
    let av1 = Probes { av1: true, ..none };
    assert_eq!(host_encodable(av1), vec![Codec::Av1]);
    assert_eq!(viewer_decodable(av1), vec![Codec::Av1, Codec::H264]);
    assert_eq!(viewer_decode_caps(av1), vec!["AV1", "H264"]);
    let mut n = 0u8;
    let caps = vec!["??".to_string(), "HEVC".to_string()];
    assert_eq!(set_negotiated_codec_from_caps(&mut n, &caps, &[Codec::Hevc]), "HEVC");
    assert_eq!(n, 1);
    set_codec_from_str(&mut n, "AV1");
    assert_eq!(n, 2);
    set_codec_from_str(&mut n, "junk");
    assert_eq!(n, 0);
}

#[test]
fn fit_within_never_upscales() {
    assert_eq!(fit_within((3840, 2160), (1920, 1080)), (1920, 1080));
}

#[test]
fn fit_within_preserves_aspect_and_evenness() {
    let (w, h) = fit_within((1920, 1040), (1920, 1080));
    assert_eq!((w, h), (1848, 1040));
    assert_eq!(w % 2, 0);
    assert_eq!(h % 2, 0);
}

#[test]
fn fit_within_handles_degenerate_input() {
    assert_eq!(fit_within((0, 0), (1920, 1080)), (1920, 1080));
    assert_eq!(fit_within((1280, 720), (0, 0)), (0, 0));
}

#[test]
fn fit_within_exact_sizes() {
    assert_eq!(fit_within((1, 1), (1920, 1080)), (2, 2));
    assert_eq!(fit_within((1280, 4000), (2560, 1440)), (1280, 720));
    assert_eq!(fit_within((4000, 4000), (1367, 769)), (1366, 768));
    assert_eq!(fit_within((u32::MAX, 5), (u32::MAX, u32::MAX)), (4, 4));
    // 1440 * 408 / 2560 is 229.5, but 408 / 2560 is a little less in a double.
    assert_eq!(fit_within((408, 1440), (2560, 1440)), (408, 228));
}

/// Numbers that look random, the same in every run.
fn scattered(state: &mut u64) -> u32 {
    *state = state.wrapping_mul(6_364_136_223_846_793_005).wrapping_add(1_442_695_040_888_963_407);
    (*state >> 33) as u32
}

#[test]
fn sizes_are_those_of_doubles() {
    let by_doubles = |want: (u32, u32), src: (u32, u32)| {
        let s = (want.0 as f64 / src.0 as f64).min(want.1 as f64 / src.1 as f64).min(1.0);
        let w = ((src.0 as f64 * s).round() as u32) & !1;
        let h = ((src.1 as f64 * s).round() as u32) & !1;
        (w.max(2), h.max(2))
    };
    for src in [(1920, 1080), (2560, 1440), (1366, 768), (3440, 1440), (1080, 1920)] {
        for n in 1..src.0 + 10 {
            assert_eq!(fit_within((n, 4000), src), by_doubles((n, 4000), src));
            assert_eq!(fit_within((4000, n), src), by_doubles((4000, n), src));
        }
    }
    let mut state = 1;
    for _ in 0..20_000 {
        let want = (scattered(&mut state).max(1), scattered(&mut state).max(1));
        let src = (scattered(&mut state).max(1), scattered(&mut state).max(1));
        assert_eq!(fit_within(want, src), by_doubles(want, src));
    }
}

#[test]
fn the_link_drains_as_doubles_count() {
    let mut state = 2;
    for round in 0..20_000u32 {
        let link = (scattered(&mut state) >> (round % 12)).max(100_000);
        let secs = match round % 3 {
            0 => 0,
            1 => scattered(&mut state) % 100,
            _ => scattered(&mut state),
        };
        let nanos = scattered(&mut state) % 1_000_000_000;
        let elapsed = std::time::Duration::new(secs as u64, nanos);
        let drained = (link as f64 / 8.0 * elapsed.as_secs_f64()) as i64 as u64;
        let mut p = Pacer { debt_bytes: u64::MAX };
        p.may_capture(link, secs, nanos, false);
        assert_eq!(u64::MAX - p.debt_bytes, drained);
    }
}

#[test]
fn encoders_get_even_sides() {
    let mut s = EncoderSize::new((1367, 769));
    assert_eq!(s.current, (1366, 768));
    // A viewer that has not said calls for nothing else.
    assert_eq!(s.rebuild_for(0), None);
    assert_eq!(s.rebuild_for(pack(0, 700)), None);
    s.rebuilt((682, 384), true);
    assert_eq!(s.rebuild_for(0), Some((1366, 768)));
    assert_eq!(HostLoop::new((1, 3), 1).size.current, (2, 2));
}

#[test]
fn rates_follow_the_estimate() {
    let mut r = Rates::new();
    r.on_estimate(7_500_000);
    assert_eq!((r.bitrate, r.link), (8_000_000, 7_500_000));
    r.on_estimate(5_000_000);
    assert_eq!((r.bitrate, r.link), (5_000_000, 5_000_000));
    r.on_estimate(50_000);
    assert_eq!((r.bitrate, r.link), (2_500_000, 100_000));
    r.on_estimate(u32::MAX);
    assert_eq!((r.bitrate, r.link), (8_000_000, u32::MAX));
}

#[test]
fn nothing_is_decoded_across_a_gap() {
    let mut g = KeyGate::new();
    assert_eq!(g.on_frame(true, true, 0), (true, false));
    assert_eq!(g.on_frame(false, true, 10), (true, false));
    assert_eq!(g.on_frame(false, false, 20), (false, true));
    assert_eq!(g.on_frame(false, true, 30), (false, false));
    assert_eq!(g.on_frame(false, true, 520), (false, true));
    assert_eq!(g.on_frame(true, false, 530), (true, false));
    assert_eq!(g.on_frame(false, true, 540), (true, false));
}

#[test]
fn pacing_spends_frames() {
    let mut p = Pacer::new();
    p.charge(30_000);
    // 800 kbit/s carry 100_000 bytes a second; a quarter of that may be ahead.
    assert!(!p.may_capture(800_000, 0, 0, false));
    assert!(p.may_capture(800_000, 0, 0, true));
    assert!(p.may_capture(800_000, 0, 50_000_000, false));
    assert_eq!(p.debt_bytes, 25_000);
    assert!(p.may_capture(0, 10, 0, false));
    assert_eq!(p.debt_bytes, 0);
    assert_eq!(frame_wait_ms(10), 23);
    assert_eq!(frame_wait_ms(33), 0);
}

#[test]
fn keyframes_are_spaced() {
    let mut k = KeyLimiter::new();
    assert_eq!(k.on_capture(true, 0), (true, false));
    assert_eq!(k.on_capture(false, 0), (false, false));
    k.request();
    assert_eq!(k.on_capture(false, 5), (true, true));
    k.request();
    assert_eq!(k.on_capture(false, 1_004), (false, false));
    assert_eq!(k.on_capture(true, 1_004), (true, false));
    assert_eq!(k.on_capture(false, 1_005), (true, true));
    assert!(has_change(false, 1, 0) && has_change(false, 0, 1));
    assert!(!has_change(true, 1, 1) && !has_change(false, 0, 0));
}

#[test]
fn encoder_follows_the_viewers_size() {
    let mut s = EncoderSize::new((1367, 769));
    assert_eq!(s.current, (1366, 768));
    let view = pack(683, 10_000);
    assert_eq!(s.rebuild_for(view), Some((682, 384)));
    s.rebuilt((682, 384), true);
    assert_eq!(s.rebuild_for(view), None);
    let other = pack(400, 10_000);
    let want = s.rebuild_for(other).unwrap();
    s.rebuilt(want, false);
    assert_eq!(s.rebuild_for(other), None);
    assert_eq!(s.current, (682, 384));
    assert_eq!(unpack(pack(7, 9)), (7, 9));
}

#[test]
fn a_pass_of_the_host() {
    let mut h = HostLoop::new((1920, 1080), 8_000_000);
    let p = h.begin_pass(8_000_000, 8_000_000, 0, false, 0, 0);
    assert_eq!((p.set_bitrate, p.rebuild, p.capture), (None, None, true));
    h.pacer.charge(10_000_000);
    let p = h.begin_pass(5_000_000, 8_000_000, pack(1920, 1040), false, 0, 0);
    assert_eq!((p.set_bitrate, p.rebuild, p.capture), (Some(5_000_000), Some((1848, 1040)), false));
    let p = h.begin_pass(5_000_000, 8_000_000, 0, true, 0, 0);
    assert!(p.capture && h.keys.wanted);
}

#[test]
fn viewers_catch_up() {
    let mut c = CatchUp::new(0);
    assert_eq!(c.on_batch(&[false, true, false, true, false], 1), (3, false));
    assert_eq!(c.on_batch(&[false; 6], 2), (0, false));
    assert_eq!(c.on_batch(&[false; 7], 3), (7, true));
    assert!(c.awaiting_keyframe);
    assert_eq!(c.on_batch(&[false], 1_002), (1, false));
    assert_eq!(c.on_batch(&[false], 1_003), (1, true));
    assert_eq!(c.on_batch(&[true], 1_004), (0, false));
    assert!(!c.awaiting_keyframe);
    for _ in 0..4 {
        assert!(!c.on_decoded(false, 9_000));
    }
    assert!(c.on_decoded(false, 9_000));
    assert!(!c.on_decoded(false, 9_001));
    assert!(!c.on_decoded(true, 20_000));
    assert_eq!(c.undecoded, 0);
}

#[test]
fn window_size_is_reported_once_settled() {
    let mut s = SizeReport::new(0);
    assert_eq!(s.on_size((800, 600), 10), None);
    assert_eq!(s.on_size((800, 600), 609), None);
    assert_eq!(s.on_size((800, 600), 610), Some((800, 600)));
    assert_eq!(s.on_size((800, 600), 5_000), None);
    assert_eq!(s.on_size((319, 600), 5_000), None);
    assert_eq!(s.on_size((319, 600), 9_000), None);
}

#[test]
fn encoder_arithmetic() {
    let d = EncoderConfig::default();
    assert_eq!((d.width, d.height, d.fps_num, d.bitrate_bps), (1920, 1080, 60, 8_000_000));
    let mut clock = SampleClock { frame_index: 3 };
    assert_eq!(clock.next_sample(&d), (499_998, 166_666));
    assert_eq!(clock.frame_index, 4);
    let mut p = EncodePump::new();
    assert_eq!(p.on_event(EncoderEvent::HaveOutput), PumpStep::Drain);
    assert!(!p.after_output(false));
    assert_eq!(p.on_event(EncoderEvent::NeedInput), PumpStep::Feed);
    assert_eq!(p.on_event(EncoderEvent::Other), PumpStep::Wait);
    assert_eq!(p.on_event(EncoderEvent::HaveOutput), PumpStep::Drain);
    assert!(p.after_output(true));
    assert_eq!(p.on_event(EncoderEvent::NeedInput), PumpStep::Stop);
    assert_eq!(src_stride(Some(2048), 1920), 2048);
    assert_eq!(src_stride(Some(100), 1920), 1920);
    assert_eq!(src_stride(None, 1920), 1920);
}

#[test]
fn pictures_are_copied_row_by_row() {
    // Two rows of luma and one of chroma, three bytes wide.
    let src = [1u8, 2, 3, 9, 4, 5, 6, 9, 7, 8, 9, 9];
    let mut dst = [0u8; 15];
    copy_nv12(&src, 4, &mut dst, 5, 3, 2);
    assert_eq!(dst, [1, 2, 3, 0, 0, 4, 5, 6, 0, 0, 7, 8, 9, 0, 0]);
    let mut same = [5u8; 3];
    copy_nv12(&src, 4, &mut same, 1, 3, 2);
    assert_eq!(same, [1, 4, 7]);
    // The last row need not be there beyond what is copied of it.
    let mut short = [0u8; 13];
    copy_nv12(&src[..11], 4, &mut short, 5, 3, 2);
    assert_eq!(short, [1, 2, 3, 0, 0, 4, 5, 6, 0, 0, 7, 8, 9]);
}

#[test]
fn liveness_counts_down() {
    let mut l = Liveness::new(0);
    assert!(l.tick(false, 60_000).is_empty());
    l.on_connected(100_000);
    l.on_ctl_open(100_000);
    assert_eq!(l.tick(false, 101_000), vec![LiveAct::Ping(1)]);
    l.on_alive(101_500);
    l.on_datagram(101_500);
    assert_eq!(l.tick(false, 102_000), vec![]);
    assert_eq!(
        l.tick(false, 104_500),
        vec![LiveAct::Ping(2), LiveAct::HidePicture, LiveAct::Trouble(12)]
    );
    assert_eq!(l.tick(false, 105_000), vec![]);
    assert_eq!(l.tick(false, 105_400), vec![LiveAct::Trouble(11)]);
    l.on_alive(105_500);
    assert_eq!(
        l.tick(false, 105_600),
        vec![LiveAct::ShowPicture, LiveAct::AskKeyframe, LiveAct::Restored]
    );
    l.on_datagram(115_000);
    assert_eq!(
        l.tick(true, 120_501),
        vec![LiveAct::Ping(3), LiveAct::Bye, LiveAct::Dead(Death::NoAnswer)]
    );
    assert_eq!(l.tick(true, 135_001), vec![LiveAct::Dead(Death::NoTraffic)]);
    assert_eq!(Death::NoAnswer.text(), "the peer stopped responding");
}

#[test]
fn connection_events_are_routed() {
    let mut r = Routes::new();
    assert_eq!(r.ctl_channel().unwrap_err().message(), "channel ctl not open");
    assert!(r.cursor_channel().is_err() && r.bulk_channel().is_err());
    assert!(r.on_event(RtcEvent::ChannelData(5, vec![1])).is_none());
    assert!(matches!(
        r.on_event(RtcEvent::ChannelOpen(5, "ctl".to_string())),
        Some(Inbound::ChannelOpen(l)) if l == "ctl"
    ));
    r.on_event(RtcEvent::ChannelOpen(6, "cursor".to_string()));
    r.on_event(RtcEvent::ChannelOpen(7, "bulk".to_string()));
    r.on_event(RtcEvent::ChannelOpen(8, "init".to_string()));
    assert_eq!(r.ctl_channel().ok(), Some(5));
    assert!(matches!(r.on_event(RtcEvent::ChannelData(5, vec![1])), Some(Inbound::Ctl(_))));
    assert!(matches!(r.on_event(RtcEvent::ChannelData(6, vec![1])), Some(Inbound::Cursor(_))));
    assert!(matches!(r.on_event(RtcEvent::ChannelData(7, vec![1])), Some(Inbound::Bulk(_))));
    assert!(r.on_event(RtcEvent::ChannelData(8, vec![1])).is_none());
    assert!(r.on_event(RtcEvent::MediaAdded { video: true, mid: 3 }).is_none());
    assert_eq!(r.video, Some(3));
    let empty = RtcEvent::MediaData { data: vec![], keyframe: true, contiguous: true };
    assert!(r.on_event(empty).is_none());
    assert!(matches!(
        r.on_event(RtcEvent::Estimate(1 << 40)),
        Some(Inbound::BweEstimate(u32::MAX))
    ));
    assert!(matches!(
        r.on_event(RtcEvent::PathState { disconnected: true }),
        Some(Inbound::Disconnected)
    ));
    assert!(r.on_event(RtcEvent::PathState { disconnected: false }).is_none());
    assert_eq!(Routes::created(1, 2, 3, 4).bulk, Some(3));
    let (ctl, cursor, bulk) = channel_configs();
    assert_eq!((ctl.label, cursor.retransmits, bulk.ordered), ("ctl", Some(0), true));
    assert_eq!(media_ticks(2_000_000, 90_000), 180_000);
    assert!(may_send_bulk(true, 262_143) && !may_send_bulk(true, 262_144) && !may_send_bulk(false, 0));
}

#[test]
fn session_gates() {
    assert_eq!(Gates::host(Permission::View, true), Gates { control: false, clipboard: false });
    assert_eq!(Gates::host(Permission::Control, true), Gates { control: true, clipboard: true });
    assert_eq!(Gates::viewer(false), Gates { control: false, clipboard: false });
    let mut none = None;
    set_control(&mut none, true, true);
    assert_eq!(none, None);
    let mut some = Some(Gates::host(Permission::Control, true));
    set_control(&mut some, false, true);
    assert_eq!(some, Some(Gates { control: false, clipboard: false }));
    set_control(&mut some, true, false);
    assert_eq!(some, Some(Gates { control: true, clipboard: false }));
    assert_eq!(set_video_visible(0, true), WindowAct::Nothing);
    assert_eq!(set_video_visible(4, true), WindowAct::Show(4));
    assert_eq!(set_video_visible(4, false), WindowAct::Hide(4));
}

#[test]
fn negotiation_messages_find_their_way() {
    let offer = || SignalData::Offer { sdp: "o".to_string() };
    let answer = || SignalData::Answer { sdp: "a".to_string() };
    let ice = || SignalData::Ice {
        candidate: IceCandidate { candidate: "c".to_string(), sdp_mid: None, sdp_mline_index: None },
    };
    assert!(matches!(on_signal(true, offer()), SignalRoute::Forward(_)));
    assert!(matches!(on_signal(false, offer()), SignalRoute::Answer(s) if s == "o"));
    assert!(matches!(on_signal(false, answer()), SignalRoute::Ignore));
    let mut pending = true;
    assert!(matches!(negotiate(&mut pending, ice()), Negotiation::AddCandidate(c) if c == "c"));
    assert!(matches!(negotiate(&mut pending, answer()), Negotiation::AcceptAnswer(s) if s == "a"));
    assert!(matches!(negotiate(&mut pending, answer()), Negotiation::Ignore));
    assert!(matches!(negotiate(&mut pending, offer()), Negotiation::Ignore));
}

fn key_down(code: &str) -> DriverEvent<i32> {
    DriverEvent::Ctl(None, Some(InputMsg::KeyDown { code: code.to_string() }))
}

#[test]
fn a_host_injects_only_while_controlled() {
    let mut d: Driver<i32> = Driver::new(Some(true), 0);
    let acts = d.on_event(key_down("KeyA"), 1);
    assert!(matches!(acts[0], DriverAct::FollowDesktop));
    assert!(matches!(acts[1], DriverAct::Inject(Act::Key { down: true, .. })));
    d.on_event(
        DriverEvent::Ctl(None, Some(InputMsg::ButtonDown { b: Button::Left, x: 1, y: 2 })),
        1,
    );
    let acts = d.on_event(DriverEvent::Gate(false), 2);
    assert_eq!(acts.len(), 2);
    assert!(matches!(acts[0], DriverAct::Inject(Act::Key { down: false, .. })));
    assert!(d.on_event(key_down("KeyA"), 3).is_empty());
    let clip = DriverEvent::Ctl(Some(ControlMsg::Clipboard { text: "x".to_string() }), None);
    assert!(d.on_event(clip, 3).is_empty());
    assert!(d.on_event(DriverEvent::Gate(true), 4).is_empty());
    let clip = DriverEvent::Ctl(Some(ControlMsg::Clipboard { text: "x".to_string() }), None);
    assert!(matches!(&d.on_event(clip, 5)[0], DriverAct::ApplyClipboard(t) if t == "x"));
    // What the host is told regardless of control.
    let kf = DriverEvent::Ctl(Some(ControlMsg::KeyframeRequest), None);
    assert!(matches!(d.on_event(kf, 5)[0], DriverAct::ForceKeyframe));
    let size = DriverEvent::Ctl(Some(ControlMsg::ViewSize { width: 2, height: 3 }), None);
    assert!(matches!(d.on_event(size, 5)[0], DriverAct::SetViewSize(v) if v == (2 << 32) | 3));
    d.on_event(key_down("KeyB"), 6);
    let acts = d.finish(false);
    assert_eq!(acts.len(), 1);
    assert!(matches!(acts[0], DriverAct::Inject(Act::Key { down: false, .. })));
    assert_eq!(d.paste().len(), 4);
}

#[test]
fn control_messages_wait_for_their_channel() {
    let mut d: Driver<i32> = Driver::new(None, 0);
    assert!(d.on_event(DriverEvent::Outgoing(vec![1]), 1).is_empty());
    assert!(d.on_event(DriverEvent::Outgoing(vec![2]), 1).is_empty());
    assert!(d.on_event(DriverEvent::OutgoingCursor(vec![9]), 1).is_empty());
    let acts = d.on_event(DriverEvent::ChannelOpen("ctl".to_string()), 2);
    assert!(matches!(&acts[0], DriverAct::CtlBytes(b) if *b == vec![1]));
    assert!(matches!(&acts[1], DriverAct::CtlBytes(b) if *b == vec![2]));
    assert!(matches!(&d.on_event(DriverEvent::Outgoing(vec![3]), 3)[0], DriverAct::CtlBytes(b) if *b == vec![3]));
    d.on_event(DriverEvent::ChannelOpen("cursor".to_string()), 2);
    assert!(matches!(&d.on_event(DriverEvent::OutgoingCursor(vec![9]), 3)[0], DriverAct::CursorBytes(_)));
    assert!(!d.bulk_open());
    d.on_event(DriverEvent::ChannelOpen("bulk".to_string()), 2);
    assert!(d.bulk_open());
    assert!(d.on_event(DriverEvent::Connected, 4).is_empty());
    let acts = d.finish(true);
    assert!(matches!(acts[0], DriverAct::Ctl(ControlMsg::Bye)));
    assert!(d.paste().is_empty());
}

#[test]
fn a_viewer_decodes_and_answers() {
    let mut d: Driver<i32> = Driver::new(None, 0);
    let frame = |keyframe, contiguous| DriverEvent::Video { data: vec![1], keyframe, contiguous };
    assert!(matches!(d.on_event(frame(true, true), 0)[0], DriverAct::Decode(_, true)));
    let acts = d.on_event(frame(false, false), 1);
    assert!(matches!(acts[0], DriverAct::RequestKeyframe));
    assert!(matches!(acts[1], DriverAct::Ctl(ControlMsg::KeyframeRequest)));
    assert!(d.on_event(frame(false, true), 2).is_empty());
    let ping = DriverEvent::Ctl(Some(ControlMsg::Ping { seq: 8 }), None);
    assert!(matches!(d.on_event(ping, 3)[0], DriverAct::Ctl(ControlMsg::Pong { seq: 8 })));
    let bye = DriverEvent::Ctl(Some(ControlMsg::Bye), None);
    assert!(matches!(d.on_event(bye, 3)[0], DriverAct::Dead(Death::PeerLeft)));
    let cur = DriverEvent::Cursor(Some(ControlMsg::Cursor { x: 1, y: 2, shape: None, visible: true }));
    assert!(matches!(d.on_event(cur, 3)[0], DriverAct::SetCursor { x: 1, y: 2, visible: true }));
    assert!(d.on_event(DriverEvent::Cursor(None), 3).is_empty());
    assert!(d.on_event(DriverEvent::Estimate(1), 3).is_empty());
    assert!(d.on_event(DriverEvent::KeyframeRequest, 3).is_empty());
    assert!(d.on_event(key_down("KeyA"), 3).is_empty());
    assert!(matches!(d.on_event(DriverEvent::Disconnected, 3)[0], DriverAct::Dead(Death::Dropped)));
    assert!(matches!(d.on_event(DriverEvent::Failed, 3)[0], DriverAct::Dead(Death::TransportError)));
    let mut host: Driver<i32> = Driver::new(Some(false), 0);
    assert!(matches!(host.on_event(DriverEvent::Connected, 1)[0], DriverAct::ForceKeyframe));
    match host.on_event(DriverEvent::Estimate(3_000_000), 1)[0] {
        DriverAct::SetRates(r) => assert_eq!((r.bitrate, r.link), (3_000_000, 3_000_000)),
        ref other => panic!("{other:?}"),
    }
    assert!(default_visible() && is_true(&true) && !is_true(&false));
}

#[test]
fn only_the_newest_frame_is_shown() {
    assert_eq!((0..4).map(|i| presents(i, 4)).collect::<Vec<_>>(), [false, false, false, true]);
    assert!(presents(0, 1));
    assert!(!presents(0, 0));
}

#[test]
fn the_permission_reaches_the_viewer() {
    let perm = || DriverEvent::Ctl(Some(ControlMsg::Perm { value: Permission::View }), None);
    let mut viewer: Driver<i32> = Driver::new(None, 0);
    let acts = viewer.on_event(perm(), 5);
    assert_eq!(acts.len(), 1);
    assert!(matches!(acts[0], DriverAct::SetPermission(Permission::View)));
    // A host does not take it.
    let mut host: Driver<i32> = Driver::new(Some(false), 0);
    assert!(host.on_event(perm(), 5).is_empty());
}
