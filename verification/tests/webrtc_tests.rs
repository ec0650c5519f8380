use strom::pads::MediaType;
use strom::property::{Properties, PropertyValue, StrMap};
use strom::whep::{
    classify_stream, has_profile_field, local_host_addr, normalizes_parser_fields, parse_whep_input_config,
    parser_added_fields, profile_fields, resolve_endpoint_id, retained_fields, select_codec_preferences,
    webrtc_video_caps, whep_input_plan, whep_input_uses_client_src, whep_output_plan, whip_output_uses_client_sink, BlockBuildError, StreamKind,
    WHEPOutputBuilder, WHIPInputBuilder, WhepStreamMode,
};
use strom::whip::{
    incoming_rtp_needs_fakesink, parse_whip_output_config, rtp_fakesink_name,
    whip_input_elements, whip_input_links, WhipInputElement,
    classify_deep_element, pad_medium, whip_server_codecs, whip_server_name, Downstream, KeyframeThrottle,
    PadAction, PadCleanup, PadMedium, PadRouter, RecreateStep, WhipServers, TWCC_FEEDBACK_INTERVAL_NS,
};

fn props(pairs: Vec<(&str, PropertyValue)>) -> Properties {
    let mut m = StrMap::new();
    for (k, v) in pairs {
        m.insert(k.to_string(), v);
    }
    m
}

fn s(v: &str) -> PropertyValue {
    PropertyValue::String(v.to_string())
}

#[test]
fn whep_output_pads_by_mode() {
    let p = WHEPOutputBuilder.get_external_pads(WhepStreamMode::AudioVideo).unwrap();
    assert_eq!(p.inputs.len(), 2);
    assert_eq!(p.inputs[0].name, "audio_in");
    assert_eq!(p.inputs[0].label.as_deref(), Some("A0"));
    assert_eq!(p.inputs[0].internal_element_id, "audioconvert");
    assert_eq!(p.inputs[1].name, "video_in");
    assert_eq!(p.inputs[1].internal_element_id, "video_queue");
    assert_eq!(p.inputs[1].media_type, MediaType::Video);
    assert!(p.outputs.is_empty());
    let p = WHEPOutputBuilder.get_external_pads(WhepStreamMode::Audio).unwrap();
    assert_eq!(p.inputs.len(), 1);
    assert_eq!(p.inputs[0].label, None);
    let p = WHEPOutputBuilder.get_external_pads(WhepStreamMode::Video).unwrap();
    assert_eq!(p.inputs.len(), 1);
    assert_eq!(p.inputs[0].name, "video_in");
    assert_eq!(p.inputs[0].label, None);
}

#[test]
fn whip_input_pads_by_mode() {
    let p = WHIPInputBuilder.get_external_pads(WhepStreamMode::AudioVideo).unwrap();
    assert!(p.inputs.is_empty());
    assert_eq!(p.outputs.len(), 2);
    assert_eq!(p.outputs[0].name, "audio_out");
    assert_eq!(p.outputs[0].internal_element_id, "output_audioresample");
    assert_eq!(p.outputs[1].name, "video_out");
    assert_eq!(p.outputs[1].internal_element_id, "output_videoconvert");
    assert_eq!(WHIPInputBuilder.get_external_pads(WhepStreamMode::Video).unwrap().outputs.len(), 1);
}

#[test]
fn implementation_choices() {
    assert!(whep_input_uses_client_src(&props(vec![("implementation", s("whepclientsrc"))])));
    assert!(!whep_input_uses_client_src(&props(vec![("implementation", s("whepsrc"))])));
    assert!(!whep_input_uses_client_src(&props(vec![])));
    assert!(whip_output_uses_client_sink(&props(vec![("implementation", s("whipclientsink"))])));
    assert!(!whip_output_uses_client_sink(&props(vec![("implementation", PropertyValue::Bool(true))])));
}

#[test]
fn whep_input_config() {
    match parse_whep_input_config(&props(vec![]), 200) {
        Err(BlockBuildError::InvalidProperty(m)) => assert_eq!(m, "whep_endpoint property required"),
        _ => panic!("expected an error"),
    }
    assert!(parse_whep_input_config(&props(vec![("whep_endpoint", s(""))]), 200).is_err());
    let c = parse_whep_input_config(&props(vec![("whep_endpoint", s("http://x/whep"))]), 200).unwrap();
    assert_eq!(c.whep_endpoint, "http://x/whep");
    assert_eq!(c.auth_token, None);
    assert_eq!(c.mixer_latency_ms, 30);
    assert_eq!(c.jitterbuffer_latency_ms, 200);
    let c = parse_whep_input_config(
        &props(vec![
            ("whep_endpoint", s("e")),
            ("auth_token", s("tok")),
            ("mixer_latency_ms", PropertyValue::Int(50)),
            ("jitterbuffer_latency_ms", PropertyValue::Int(80)),
        ]),
        200,
    )
    .unwrap();
    assert_eq!(c.auth_token.as_deref(), Some("tok"));
    assert_eq!(c.mixer_latency_ms, 50);
    assert_eq!(c.jitterbuffer_latency_ms, 80);
}

#[test]
fn endpoint_ids() {
    assert_eq!(resolve_endpoint_id(&props(vec![("endpoint_id", s("  cam-1 "))])), "cam-1");
    let a = resolve_endpoint_id(&props(vec![("endpoint_id", s("   "))]));
    let b = resolve_endpoint_id(&props(vec![]));
    assert_eq!(a.len(), 36);
    assert_eq!(b.len(), 36);
    assert_ne!(a, b);
    assert_eq!(a.matches('-').count(), 4);
    for id in [&a, &b] {
        let c: Vec<char> = id.chars().collect();
        for (i, ch) in c.iter().enumerate() {
            if i == 8 || i == 13 || i == 18 || i == 23 {
                assert_eq!(*ch, '-');
            } else {
                assert!(ch.is_ascii_digit() || ('a'..='f').contains(ch));
            }
        }
        assert_eq!(c[14], '4');
        assert!(['8', '9', 'a', 'b'].contains(&c[19]));
    }
    assert_eq!(local_host_addr(8443), "http://127.0.0.1:8443");
}

#[test]
fn codec_preferences_drop_vp8_and_repeats() {
    let names: Vec<String> = ["video/x-h264", "video/x-vp8", "video/x-h264", "video/x-vp9", "audio/x-opus"]
        .iter()
        .map(|s| s.to_string())
        .collect();
    assert_eq!(select_codec_preferences(&names), vec![0, 3, 4]);
    assert_eq!(select_codec_preferences(&vec![]), Vec::<usize>::new());
}

#[test]
fn field_removal() {
    let fields: Vec<String> = ["media", "profile-level-id", "encoding-name", "profile"]
        .iter()
        .map(|s| s.to_string())
        .collect();
    assert!(has_profile_field(&fields));
    assert_eq!(retained_fields(&fields, &profile_fields()), vec![0, 2]);
    let parsed: Vec<String> = ["width", "chroma-format", "bit-depth-luma"].iter().map(|s| s.to_string()).collect();
    assert!(!has_profile_field(&parsed));
    assert_eq!(retained_fields(&parsed, &parser_added_fields()), vec![0]);
    assert!(normalizes_parser_fields("video/x-h264"));
    assert!(normalizes_parser_fields("video/x-h265"));
    assert!(!normalizes_parser_fields("video/x-vp9"));
}

#[test]
fn webrtc_video_caps_for_encoded_inputs() {
    assert_eq!(webrtc_video_caps("video/x-h264").as_deref(), Some("video/x-h264"));
    assert_eq!(webrtc_video_caps("video/x-av1").as_deref(), Some("video/x-av1"));
    assert_eq!(webrtc_video_caps("video/x-raw"), None);
}

#[test]
fn stream_classification() {
    assert_eq!(classify_stream("application/x-rtp", Some("audio")), StreamKind::Audio);
    assert_eq!(classify_stream("application/x-rtp", Some("video")), StreamKind::Video);
    assert_eq!(classify_stream("application/x-rtp", Some("text")), StreamKind::Unknown);
    assert_eq!(classify_stream("application/x-rtp", None), StreamKind::Unknown);
    assert_eq!(classify_stream("audio/x-raw", None), StreamKind::Audio);
    assert_eq!(classify_stream("video/x-raw", Some("audio")), StreamKind::Video);
    assert_eq!(classify_stream("text/plain", None), StreamKind::Unknown);
}

#[test]
fn whip_server_naming_and_codecs() {
    assert_eq!(whip_server_name("b1", 0), "b1:whipserversrc");
    assert_eq!(whip_server_name("b1", 3), "b1:whipserversrc_g3");
    let (a, v) = whip_server_codecs(WhepStreamMode::AudioVideo);
    assert_eq!(a, vec!["OPUS"]);
    assert_eq!(v, vec!["H264"]);
    let (a, v) = whip_server_codecs(WhepStreamMode::Audio);
    assert_eq!(a, vec!["OPUS"]);
    assert!(v.is_empty());
    assert_eq!(TWCC_FEEDBACK_INTERVAL_NS, 200_000_000);
}

#[test]
fn deep_element_classification() {
    let a = classify_deep_element("webrtcbin0", "webrtcbin", "Filter/Network/WebRTC", false);
    assert!(a.configure_webrtcbin && !a.set_twcc_interval && !a.recover_keyframes);
    let a = classify_deep_element("rtpsession1", "rtpsession", "Filter/Network/RTP", true);
    assert!(!a.configure_webrtcbin && a.set_twcc_interval);
    let a = classify_deep_element("rtpsession1", "rtpsession", "Filter/Network/RTP", false);
    assert!(!a.set_twcc_interval);
    let a = classify_deep_element("avdec_h264-0", "avdec_h264", "Codec/Decoder/Video", false);
    assert!(a.recover_keyframes);
    let a = classify_deep_element("opusdec0", "opusdec", "Codec/Decoder/Audio", false);
    assert!(!a.recover_keyframes);
}

#[test]
fn keyframe_requests_are_throttled() {
    let mut t = KeyframeThrottle::new();
    assert!(!t.on_buffer(false, 5_000));
    assert!(t.on_buffer(true, 5_000));
    assert!(!t.on_buffer(true, 5_500));
    assert!(!t.on_buffer(true, 5_999));
    assert!(t.on_buffer(true, 6_000));
    assert_eq!(t.last_request_ms, 6_000);
    // Time running backwards does not trigger a request.
    assert!(!t.on_buffer(true, 1_000));
}

#[test]
fn pad_routing() {
    assert_eq!(pad_medium("video_0"), PadMedium::Video);
    assert_eq!(pad_medium("audio_1"), PadMedium::Audio);
    assert_eq!(pad_medium("data_0"), PadMedium::Unknown);
    let mut r = PadRouter::new();
    assert_eq!(r.pad_added("audio_0", Downstream::Present, Downstream::Present), PadAction::ConnectAudio);
    assert_eq!(r.pad_added("audio_1", Downstream::Absent, Downstream::Present), PadAction::Discard(PadMedium::Audio));
    assert_eq!(r.pad_added("video_0", Downstream::Present, Downstream::Present), PadAction::ConnectVideo);
    assert_eq!(r.pad_added("video_1", Downstream::Present, Downstream::Present), PadAction::Discard(PadMedium::Video));
    assert_eq!(r.pad_removed("video_0"), PadCleanup::Video);
    assert!(!r.video_connected);
    assert_eq!(r.pad_added("video_2", Downstream::Present, Downstream::Gone), PadAction::Discard(PadMedium::Video));
    assert!(!r.video_connected);
    assert_eq!(r.pad_added("video_3", Downstream::Present, Downstream::Absent), PadAction::Ignore);
    assert!(r.video_connected);
    r.video_setup_failed();
    assert!(!r.video_connected);
    assert_eq!(r.pad_added("misc", Downstream::Present, Downstream::Present), PadAction::Discard(PadMedium::Unknown));
    assert_eq!(r.pad_removed("audio_0"), PadCleanup::Audio);
    assert_eq!(r.pad_removed("misc"), PadCleanup::Nothing);
}

#[test]
fn recreation_bookkeeping() {
    let mut w = WhipServers::new();
    match w.recreate_whipserversrc("ep") {
        Err(m) => assert_eq!(m, "No WhipServerContext for endpoint 'ep'"),
        Ok(_) => panic!("unknown endpoint"),
    }
    w.register_endpoint("ep");
    assert_eq!(w.get_whip_generation("ep"), Some(0));
    assert_eq!(w.get_whip_generation("zz"), None);
    let seen = w.generation_at_session_end("ep").unwrap();
    assert_eq!(w.recreate_whipserversrc("ep"), Ok(RecreateStep::Proceed));
    // A second request while the first runs is skipped.
    assert_eq!(w.recreate_whipserversrc("ep"), Ok(RecreateStep::Skip));
    w.finish_recreation("ep", true);
    assert_eq!(w.get_whip_generation("ep"), Some(1));
    // The session-end recreation scheduled before is now obsolete.
    assert!(!w.recreation_still_due("ep", seen));
    assert!(w.recreation_still_due("ep", 1));
    assert_eq!(w.recreate_whipserversrc("ep"), Ok(RecreateStep::Proceed));
    w.finish_recreation("ep", false);
    assert_eq!(w.get_whip_generation("ep"), Some(1));
    w.shutdown_whip_servers();
    assert_eq!(w.recreate_whipserversrc("ep"), Ok(RecreateStep::Skip));
    assert_eq!(w.generation_at_session_end("ep"), None);
    assert!(!w.recreation_still_due("ep", 1));
}

#[test]
fn replacement_names_are_fresh() {
    let mut w = WhipServers::new();
    assert_eq!(w.replacement_name("w1", "ep"), None);
    w.register_endpoint("ep");
    assert_eq!(whip_server_name("w1", 0), "w1:whipserversrc");
    assert_eq!(w.replacement_name("w1", "ep").as_deref(), Some("w1:whipserversrc_g1"));
    assert_eq!(w.recreate_whipserversrc("ep"), Ok(RecreateStep::Proceed));
    w.finish_recreation("ep", true);
    assert_eq!(w.replacement_name("w1", "ep").as_deref(), Some("w1:whipserversrc_g2"));
    assert_ne!(whip_server_name("w1", 1), whip_server_name("w1", 10));
}

#[test]
fn whip_input_layout_by_mode() {
    let e = whip_input_elements(WhepStreamMode::AudioVideo);
    assert_eq!(e.len(), 6);
    assert_eq!(e[0], WhipInputElement::ServerSrc);
    assert_eq!(e[5], WhipInputElement::OutputVideoConvert);
    assert_eq!(e[1].element_id("w1"), "w1:liveadder");
    assert_eq!(e[4].element_id("w1"), "w1:output_audioresample");
    assert_eq!(whip_input_links(WhepStreamMode::AudioVideo).len(), 3);
    assert_eq!(whip_input_elements(WhepStreamMode::Video), vec![WhipInputElement::ServerSrc, WhipInputElement::OutputVideoConvert]);
    assert!(whip_input_links(WhepStreamMode::Video).is_empty());
    assert_eq!(whip_input_elements(WhepStreamMode::Audio).len(), 5);
}

#[test]
fn whip_output_config() {
    match parse_whip_output_config(&props(vec![])) {
        Err(BlockBuildError::InvalidProperty(m)) => assert_eq!(m, "whip_endpoint property required"),
        _ => panic!("expected an error"),
    }
    let c = parse_whip_output_config(&props(vec![("whip_endpoint", s("")), ("auth_token", s(""))])).ok().unwrap();
    assert_eq!(c.whip_endpoint, "");
    assert_eq!(c.auth_token, None);
    let c = parse_whip_output_config(&props(vec![("whip_endpoint", s("https://x/whip")), ("auth_token", s("t"))]))
        .ok()
        .unwrap();
    assert_eq!(c.whip_endpoint, "https://x/whip");
    assert_eq!(c.auth_token.as_deref(), Some("t"));
}

#[test]
fn incoming_rtp_fakesinks() {
    assert!(incoming_rtp_needs_fakesink(true, false, "rtp_src_0_1234_96"));
    assert!(!incoming_rtp_needs_fakesink(true, true, "rtp_src_0"));
    assert!(!incoming_rtp_needs_fakesink(false, false, "rtp_src_0"));
    assert!(!incoming_rtp_needs_fakesink(true, false, "rtcp_src_0"));
    assert_eq!(rtp_fakesink_name("rtp_src_0"), "whip_fakesink_rtp_src_0");
}

fn link_tuple(l: &strom::plan::ElementLink) -> (String, String, String, String) {
    (l.from_element.clone(), l.from_pad.clone(), l.to_element.clone(), l.to_pad.clone())
}

fn lt(a: &str, ap: &str, b: &str, bp: &str) -> (String, String, String, String) {
    (a.to_string(), ap.to_string(), b.to_string(), bp.to_string())
}

#[test]
fn whep_input_plans() {
    let plan = whep_input_plan("in", &props(vec![]));
    assert_eq!(
        plan.elements,
        vec!["in:whepsrc", "in:liveadder", "in:capsfilter", "in:output_audioconvert", "in:output_audioresample"]
    );
    let links: Vec<_> = plan.links.iter().map(link_tuple).collect();
    assert_eq!(
        links,
        vec![
            lt("in:liveadder", "src", "in:capsfilter", "sink"),
            lt("in:capsfilter", "src", "in:output_audioconvert", "sink"),
            lt("in:output_audioconvert", "src", "in:output_audioresample", "sink"),
        ]
    );
    let plan = whep_input_plan("in", &props(vec![("implementation", s("whepclientsrc"))]));
    assert_eq!(plan.elements[0], "in:whepclientsrc");
    assert_eq!(plan.elements.len(), 5);
}

#[test]
fn whep_output_plans_by_mode() {
    let plan = whep_output_plan("out", WhepStreamMode::AudioVideo);
    assert_eq!(plan.elements, vec!["out:audioconvert", "out:audioresample", "out:video_queue", "out:whepserversink"]);
    let links: Vec<_> = plan.links.iter().map(link_tuple).collect();
    assert_eq!(
        links,
        vec![
            lt("out:audioconvert", "src", "out:audioresample", "sink"),
            lt("out:audioresample", "src", "out:whepserversink", "audio_0"),
            lt("out:video_queue", "src", "out:whepserversink", "video_0"),
        ]
    );
    let plan = whep_output_plan("out", WhepStreamMode::Video);
    assert_eq!(plan.elements, vec!["out:video_queue", "out:whepserversink"]);
    assert_eq!(plan.links.len(), 1);
    let plan = whep_output_plan("out", WhepStreamMode::Audio);
    assert_eq!(plan.elements, vec!["out:audioconvert", "out:audioresample", "out:whepserversink"]);
    assert_eq!(plan.links.len(), 2);
}

#[test]
fn whip_input_setup_registers_generation_zero() {
    let mut w = WhipServers::new();
    let setup = w.setup_whip_input("w1", &props(vec![("endpoint_id", s(" cam "))]), WhepStreamMode::Audio);
    assert_eq!(setup.endpoint_id, "cam");
    assert_eq!(setup.server_name, "w1:whipserversrc");
    assert_eq!(
        setup.elements,
        vec![
            WhipInputElement::ServerSrc,
            WhipInputElement::LiveAdder,
            WhipInputElement::CapsFilter,
            WhipInputElement::OutputAudioConvert,
            WhipInputElement::OutputAudioResample,
        ]
    );
    assert_eq!(w.get_whip_generation("cam"), Some(0));
    let other = w.setup_whip_input("w2", &props(vec![]), WhepStreamMode::Video);
    assert_eq!(other.endpoint_id.len(), 36);
    assert_eq!(w.get_whip_generation(&other.endpoint_id), Some(0));
    assert_eq!(other.elements, vec![WhipInputElement::ServerSrc, WhipInputElement::OutputVideoConvert]);
}

#[test]
fn recreation_resets_pad_bookkeeping() {
    let mut r = PadRouter::new();
    assert_eq!(r.pad_added("audio_0", Downstream::Present, Downstream::Present), PadAction::ConnectAudio);
    r.audio_stream_connected("audio_0");
    r.audio_stream_connected("audio_1");
    assert_eq!(r.pad_added("video_0", Downstream::Present, Downstream::Present), PadAction::ConnectVideo);
    r.video_queue_added();
    assert_eq!(r.pad_removed("audio_1"), PadCleanup::Audio);
    assert!(r.audio_streams.contains_key("audio_0"));
    assert!(!r.audio_streams.contains_key("audio_1"));
    let (had_queue, pads) = r.reset_for_recreation();
    assert!(had_queue);
    assert_eq!(pads, vec!["audio_0".to_string()]);
    assert!(!r.video_connected);
    assert!(!r.video_queue);
    assert_eq!(r.audio_streams.len(), 0);
}
