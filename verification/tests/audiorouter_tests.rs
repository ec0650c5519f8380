use strom::plan::{RawAudioCaps, SettingValue};
use strom::audiorouter::{
    AudioRouterBuilder,
    audiorouter_build, audiorouter_external_pads, audiorouter_plan, audiorouter_settings, build_routing_matrix, slot_name, channel_mask, parse_channel_from_pad_name,
    parse_channels, parse_num_streams, parse_routing_key, parse_routing_matrix, parse_stream_channels,
    plan_deinterleave_pad, unrouted_outputs, RouteDest, RoutingMatrix, MAX_CHANNELS, MAX_STREAMS,
};
use strom::pads::MediaType;
use strom::property::{Properties, PropertyValue, StrMap};

fn props(pairs: Vec<(&str, PropertyValue)>) -> Properties {
    let mut m = StrMap::new();
    for (k, v) in pairs {
        m.insert(k.to_string(), v);
    }
    m
}

fn routing(json: &str) -> RoutingMatrix {
    parse_routing_matrix(&props(vec![("routing_matrix", PropertyValue::String(json.to_string()))]))
}

fn dest(o: usize, c: usize) -> RouteDest {
    RouteDest { output_idx: o, channel_idx: c }
}

#[test]
fn stream_counts_are_clamped() {
    assert_eq!(parse_num_streams(&props(vec![("n", PropertyValue::UInt(5))]), "n", 2), 5);
    assert_eq!(parse_num_streams(&props(vec![("n", PropertyValue::UInt(100))]), "n", 2), MAX_STREAMS);
    assert_eq!(parse_num_streams(&props(vec![("n", PropertyValue::Int(3))]), "n", 2), 3);
    // A signed value that is not positive falls back to the default.
    assert_eq!(parse_num_streams(&props(vec![("n", PropertyValue::Int(-3))]), "n", 2), 2);
    assert_eq!(parse_num_streams(&props(vec![("n", PropertyValue::Int(0))]), "n", 4), 4);
    assert_eq!(parse_num_streams(&props(vec![("n", PropertyValue::UInt(0))]), "n", 4), 1);
    assert_eq!(parse_num_streams(&props(vec![]), "n", 0), 1);
    assert_eq!(parse_channels(&props(vec![("c", PropertyValue::UInt(1000))]), "c", 2), MAX_CHANNELS);
    assert_eq!(parse_channels(&props(vec![("c", PropertyValue::String("6".into()))]), "c", 2), 2);
}

#[test]
fn stream_channels_use_indexed_keys() {
    let p = props(vec![("output_1_channels", PropertyValue::UInt(6))]);
    assert_eq!(parse_stream_channels(&p, "output_", 3), vec![2, 6, 2]);
}

#[test]
fn routing_keys() {
    assert_eq!(parse_routing_key("i0c1", 'i'), Some((0, 1)));
    assert_eq!(parse_routing_key("o12c3", 'o'), Some((12, 3)));
    assert_eq!(parse_routing_key("o12c3", 'i'), None);
    assert_eq!(parse_routing_key("i0", 'i'), None);
    assert_eq!(parse_routing_key("ic1", 'i'), None);
    assert_eq!(parse_routing_key("i0c", 'i'), None);
    assert_eq!(parse_routing_key("", 'i'), None);
    // The round trip of writing and reading a key.
    for (s, c) in [(0usize, 0usize), (7, 63), (10, 100)] {
        assert_eq!(parse_routing_key(&format!("i{}c{}", s, c), 'i'), Some((s, c)));
    }
}

#[test]
fn deinterleave_pad_names() {
    assert_eq!(parse_channel_from_pad_name("src_3"), Some(3));
    assert_eq!(parse_channel_from_pad_name("src_12"), Some(12));
    assert_eq!(parse_channel_from_pad_name("sink_3"), None);
    assert_eq!(parse_channel_from_pad_name("src_"), None);
    assert_eq!(parse_channel_from_pad_name("src_x"), None);
}

#[test]
fn routing_matrix_from_json() {
    let m = routing(r#"{"i0c0": ["o0c0", "o1c0"], "i0c1": ["o0c1"]}"#);
    assert_eq!(m.len(), 2);
    assert_eq!(m.destinations(0, 0).unwrap(), &vec![dest(0, 0), dest(1, 0)]);
    assert_eq!(m.destinations(0, 1).unwrap(), &vec![dest(0, 1)]);
    assert!(m.destinations(1, 0).is_none());
    assert!(m.is_routed(0, 0));
    assert!(!m.is_routed(1, 1));
    assert!(!m.needs_mixer(0, 0));
}

#[test]
fn routing_matrix_rejects_bad_text() {
    assert_eq!(routing("not json").len(), 0);
    assert_eq!(routing("{}").len(), 0);
    assert_eq!(routing("").len(), 0);
    assert_eq!(parse_routing_matrix(&props(vec![])).len(), 0);
    assert_eq!(
        parse_routing_matrix(&props(vec![("routing_matrix", PropertyValue::Int(1))])).len(),
        0
    );
}

#[test]
fn routing_matrix_skips_bad_keys_and_destinations() {
    let m = routing(r#"{"x0c0": ["o0c0"], "i1c0": ["bad", "o1c1"], "i2c0": ["bad"]}"#);
    assert_eq!(m.len(), 1);
    assert_eq!(m.destinations(1, 0).unwrap(), &vec![dest(1, 1)]);
}

#[test]
fn build_matrix_merges_in_order() {
    let entries = vec![
        ("i0c0".to_string(), vec!["o0c0".to_string()]),
        ("i1c0".to_string(), vec!["o0c0".to_string(), "o0c1".to_string()]),
    ];
    let m = build_routing_matrix(&entries);
    assert_eq!(m.len(), 2);
    assert!(m.needs_mixer(0, 0));
    assert!(!m.needs_mixer(0, 1));
    assert_eq!(m.route_count_capped(dest(0, 0)), 2);
    assert_eq!(m.route_count_capped(dest(5, 5)), 0);
}

#[test]
fn unrouted_output_channels_in_order() {
    let m = routing(r#"{"i0c0": ["o0c0", "o1c0"], "i0c1": ["o0c1"]}"#);
    assert_eq!(unrouted_outputs(&m, &vec![2, 2]), vec![(1, 1)]);
    assert_eq!(unrouted_outputs(&m, &vec![3]), vec![(0, 2)]);
    assert_eq!(unrouted_outputs(&RoutingMatrix::new(), &vec![1, 2]), vec![(0, 0), (1, 0), (1, 1)]);
}

#[test]
fn channel_masks() {
    assert_eq!(channel_mask(1), 0x1);
    assert_eq!(channel_mask(2), 0x3);
    assert_eq!(channel_mask(6), 0);
}

#[test]
fn router_pads_follow_counts() {
    let pads = audiorouter_external_pads(&props(vec![]));
    assert_eq!(pads.inputs.len(), 2);
    assert_eq!(pads.outputs.len(), 2);
    assert_eq!(pads.inputs[1].name, "audio_in_1");
    assert_eq!(pads.inputs[1].internal_element_id, "identity_in_1");
    assert_eq!(pads.inputs[1].label.as_deref(), Some("A1"));
    assert_eq!(pads.outputs[0].name, "audio_out_0");
    assert_eq!(pads.outputs[0].internal_element_id, "queue_out_0");
    assert_eq!(pads.outputs[0].internal_pad_name, "src");
    assert_eq!(pads.outputs[0].media_type, MediaType::Audio);
    let pads = audiorouter_external_pads(&props(vec![
        ("num_inputs", PropertyValue::UInt(3)),
        ("num_outputs", PropertyValue::UInt(20)),
    ]));
    assert_eq!(pads.inputs.len(), 3);
    assert_eq!(pads.outputs.len(), 8);
}

#[test]
fn deinterleave_pad_plans() {
    let m = routing(r#"{"i0c0": ["o0c0", "o1c0"], "i1c0": ["o0c0"]}"#);
    let plan = plan_deinterleave_pad(&m, 0, "src_0").expect("routed");
    assert_eq!(plan.channel_idx, 0);
    assert!(plan.use_tee);
    assert_eq!(plan.routes.len(), 2);
    assert_eq!(plan.routes[0].dest, dest(0, 0));
    assert!(plan.routes[0].via_mixer);
    assert_eq!(plan.routes[1].dest, dest(1, 0));
    assert!(!plan.routes[1].via_mixer);
    let plan = plan_deinterleave_pad(&m, 1, "src_0").expect("routed");
    assert!(!plan.use_tee);
    assert!(plan_deinterleave_pad(&m, 0, "src_5").is_none());
    assert!(plan_deinterleave_pad(&m, 0, "bogus").is_none());
}

#[test]
fn router_builder_pads() {
    let p = AudioRouterBuilder
        .get_external_pads(&props(vec![("num_inputs", PropertyValue::Int(4))]))
        .expect("pads");
    assert_eq!(p.inputs.len(), 4);
    assert_eq!(p.outputs.len(), 2);
    assert_eq!(p.inputs[3].name, "audio_in_3");
}

fn link_tuple(l: &strom::plan::ElementLink) -> (String, String, String, String) {
    (l.from_element.clone(), l.from_pad.clone(), l.to_element.clone(), l.to_pad.clone())
}

fn lt(a: &str, ap: &str, b: &str, bp: &str) -> (String, String, String, String) {
    (a.to_string(), ap.to_string(), b.to_string(), bp.to_string())
}

#[test]
fn router_plan_mixers_and_silence() {
    // Input 0 channels 0 and 1 both land on output 0 channel 0 (needs a
    // mixer); output 0 channel 1 and output 1 channel 0 get silence.
    let m = routing(r#"{"i0c0": ["o0c0"], "i0c1": ["o0c0"]}"#);
    let plan = audiorouter_plan("r", &m, &vec![2, 1], 1);
    assert_eq!(
        plan.elements,
        vec![
            "r:audiomixer_o0c0",
            "r:interleave_0",
            "r:capssetter_0",
            "r:queue_out_0",
            "r:interleave_1",
            "r:capssetter_1",
            "r:queue_out_1",
            "r:silence_src",
            "r:silence_tee",
            "r:silence_queue_o0c1",
            "r:silence_queue_o1c0",
            "r:identity_in_0",
            "r:deinterleave_0",
        ]
    );
    let links: Vec<_> = plan.links.iter().map(link_tuple).collect();
    assert_eq!(
        links,
        vec![
            lt("r:interleave_0", "src", "r:capssetter_0", "sink"),
            lt("r:capssetter_0", "src", "r:queue_out_0", "sink"),
            lt("r:audiomixer_o0c0", "src", "r:interleave_0", "sink_0"),
            lt("r:interleave_1", "src", "r:capssetter_1", "sink"),
            lt("r:capssetter_1", "src", "r:queue_out_1", "sink"),
            lt("r:silence_src", "src", "r:silence_tee", "sink"),
            lt("r:silence_tee", "src_%u", "r:silence_queue_o0c1", "sink"),
            lt("r:silence_queue_o0c1", "src", "r:interleave_0", "sink_1"),
            lt("r:silence_tee", "src_%u", "r:silence_queue_o1c0", "sink"),
            lt("r:silence_queue_o1c0", "src", "r:interleave_1", "sink_0"),
            lt("r:identity_in_0", "src", "r:deinterleave_0", "sink"),
        ]
    );
}

#[test]
fn router_plan_single_silent_channel_has_no_tee() {
    let m = routing(r#"{"i0c0": ["o0c0"]}"#);
    let plan = audiorouter_plan("r", &m, &vec![2], 2);
    assert_eq!(
        plan.elements,
        vec![
            "r:interleave_0",
            "r:capssetter_0",
            "r:queue_out_0",
            "r:silence_src",
            "r:silence_queue_o0c1",
            "r:identity_in_0",
            "r:deinterleave_0",
            "r:identity_in_1",
            "r:deinterleave_1",
        ]
    );
    let links: Vec<_> = plan.links.iter().map(link_tuple).collect();
    assert_eq!(links[2], lt("r:silence_src", "src", "r:silence_queue_o0c1", "sink"));
    assert_eq!(links[3], lt("r:silence_queue_o0c1", "src", "r:interleave_0", "sink_1"));
    assert_eq!(links.len(), 6);
    // Fully routed: no silence at all.
    let m = routing(r#"{"i0c0": ["o0c0"]}"#);
    let plan = audiorouter_plan("r", &m, &vec![1], 1);
    assert!(!plan.elements.iter().any(|e| e.contains("silence")));
    assert_eq!(slot_name("audiomixer_o", 3, 12), "audiomixer_o3c12");
}

#[test]
fn router_capssetters_and_build() {
    let st = audiorouter_settings("r", &vec![1, 2, 6]);
    assert_eq!(st.len(), 6);
    let masks: Vec<Option<u64>> = st
        .iter()
        .filter_map(|x| match &x.value {
            SettingValue::Caps(c) => Some(c.channel_mask),
            _ => None,
        })
        .collect();
    assert_eq!(masks, vec![Some(1), Some(3), Some(0)]);
    assert_eq!(st[0].element, "r:capssetter_0");
    assert_eq!(st[0].property, "caps");
    assert_eq!(st[1].property, "join");
    assert!(matches!(st[1].value, SettingValue::Value(PropertyValue::Bool(true))));
    assert!(matches!(
        st[4].value,
        SettingValue::Caps(RawAudioCaps { rate: None, channels: None, channel_mask: Some(0) })
    ));
    let b = audiorouter_build(
        "r",
        &props(vec![
            ("num_inputs", PropertyValue::UInt(1)),
            ("num_outputs", PropertyValue::UInt(1)),
            ("output_0_channels", PropertyValue::UInt(1)),
            ("routing_matrix", PropertyValue::String(r#"{"i0c0": ["o0c0"]}"#.to_string())),
        ]),
    );
    assert_eq!(b.num_inputs, 1);
    assert_eq!(b.output_channels, vec![1]);
    assert_eq!(
        b.plan.elements,
        vec!["r:interleave_0", "r:capssetter_0", "r:queue_out_0", "r:identity_in_0", "r:deinterleave_0"]
    );
    assert_eq!(b.settings.len(), 2);
    assert!(!b.plan.bus_message_handler);
}
