use strom::flows::{
    aes67_sdp_settings, attach_runtime_data, channel_registrations, inter_channel_name, inter_media_type,
    lookup_pair, ptp_action, ptp_registration, set_first_block_property, set_runtime_value, stop_actions,
    with_runtime_status, BlockInstance, Flow, FlowError, FlowProperties, FlowStore, PipelineReport,
    PipelineState, PtpAction, PtpInfo, StartPlan, StopAction, plan_stop,
};
use strom::pads::MediaType;
use strom::property::{Properties, PropertyValue, StrMap};

fn props(pairs: Vec<(&str, PropertyValue)>) -> Properties {
    let mut m = StrMap::new();
    for (k, v) in pairs {
        m.insert(k.to_string(), v);
    }
    m
}

fn block(id: &str, def: &str, p: Vec<(&str, PropertyValue)>) -> BlockInstance {
    BlockInstance {
        id: id.to_string(),
        block_definition_id: def.to_string(),
        properties: props(p),
        runtime_data: None,
    }
}

fn flow(id: &str, blocks: Vec<BlockInstance>) -> Flow {
    Flow {
        id: id.to_string(),
        name: format!("flow {}", id),
        state: None,
        properties: FlowProperties {
            ptp_clock: false,
            ptp_domain: None,
            auto_restart: false,
            started_at: None,
            ptp_info: None,
        },
        blocks,
    }
}

fn float_prop(b: &BlockInstance, key: &str) -> Option<f64> {
    match b.properties.get(key) {
        Some(PropertyValue::Float(bits)) => Some(f64::from_bits(*bits)),
        _ => None,
    }
}

#[test]
fn upsert_reads_back_and_reports_new() {
    let mut s = FlowStore::new();
    assert!(s.upsert_flow(flow("f1", vec![])));
    assert!(!s.upsert_flow(flow("f1", vec![block("b0", "builtin.mixer", vec![])])));
    let f = s.stored_flow("f1").expect("stored");
    assert_eq!(f.blocks.len(), 1);
    assert!(s.contains("f1"));
    assert!(s.stored_flow("f2").is_none());
}

#[test]
fn delete_removes_only_that_flow() {
    let mut s = FlowStore::new();
    s.upsert_flow(flow("a", vec![]));
    s.upsert_flow(flow("b", vec![]));
    assert!(s.delete_flow("a"));
    assert!(!s.delete_flow("a"));
    assert!(!s.contains("a"));
    assert!(s.contains("b"));
}

#[test]
fn pending_saves_are_flushed_once() {
    let mut s = FlowStore::new();
    s.upsert_flow(flow("a", vec![]));
    s.upsert_flow(flow("b", vec![]));
    s.mark_flow_dirty("a");
    s.mark_flow_dirty("a");
    s.mark_flow_dirty("gone");
    let mut saved = s.take_pending_saves();
    saved.sort();
    assert_eq!(saved, vec!["a".to_string()]);
    assert!(s.take_pending_saves().is_empty());
    // A failed write is marked again and retried by the next flush.
    s.mark_flow_dirty("a");
    assert_eq!(s.take_pending_saves(), vec!["a".to_string()]);
}

#[test]
fn reading_a_running_flow_adds_pipeline_state_and_ptp() {
    let mut f = flow("f", vec![]);
    f.properties.ptp_domain = Some(3);
    f.properties.ptp_info = Some(PtpInfo { domain: 9, grandmaster_clock_id: None, restart_needed: false });
    let report = PipelineReport {
        state: PipelineState::Playing,
        ptp_info: Some(PtpInfo { domain: 0, grandmaster_clock_id: Some("gm".into()), restart_needed: false }),
    };
    let r = with_runtime_status(f.duplicate(), Some(&report));
    assert_eq!(r.state, Some(PipelineState::Playing));
    let info = r.properties.ptp_info.unwrap();
    assert_eq!(info.domain, 0);
    assert!(info.restart_needed);
    assert_eq!(info.grandmaster_clock_id.as_deref(), Some("gm"));
    // Not running: no PTP report, state as stored.
    let r = with_runtime_status(f.duplicate(), None);
    assert_eq!(r.state, None);
    assert!(r.properties.ptp_info.is_none());
    // Running without a PTP report keeps the stored one.
    let report = PipelineReport { state: PipelineState::Paused, ptp_info: None };
    let r = with_runtime_status(f, Some(&report));
    assert_eq!(r.properties.ptp_info.unwrap().domain, 9);
}

#[test]
fn unconfigured_domain_counts_as_zero() {
    let f = flow("f", vec![]);
    let report = PipelineReport {
        state: PipelineState::Playing,
        ptp_info: Some(PtpInfo { domain: 0, grandmaster_clock_id: None, restart_needed: true }),
    };
    let r = with_runtime_status(f, Some(&report));
    assert!(!r.properties.ptp_info.unwrap().restart_needed);
}

#[test]
fn get_flows_uses_reports_by_id() {
    let mut s = FlowStore::new();
    s.upsert_flow(flow("a", vec![]));
    s.upsert_flow(flow("b", vec![]));
    let mut reports = StrMap::new();
    reports.insert("b".to_string(), PipelineReport { state: PipelineState::Playing, ptp_info: None });
    let all = s.get_flows(&reports);
    assert_eq!(all.len(), 2);
    for f in &all {
        if f.id == "b" {
            assert_eq!(f.state, Some(PipelineState::Playing));
        } else {
            assert_eq!(f.state, None);
        }
    }
    assert_eq!(s.get_flow("b", None).unwrap().state, None);
    assert!(s.get_flow("zz", None).is_none());
}

#[test]
fn ptp_decisions() {
    let mut p = flow("f", vec![]).properties;
    assert_eq!(ptp_action(&p), PtpAction::Unregister);
    assert_eq!(ptp_registration(&p), None);
    p.ptp_clock = true;
    assert_eq!(ptp_action(&p), PtpAction::Register(0));
    p.ptp_domain = Some(7);
    assert_eq!(ptp_action(&p), PtpAction::Register(7));
    assert_eq!(ptp_registration(&p), Some(7));
}

#[test]
fn load_resets_states() {
    let mut s = FlowStore::new();
    s.upsert_flow(flow("old", vec![]));
    let mut a = flow("a", vec![]);
    a.state = Some(PipelineState::Playing);
    s.load_flows(vec![a, flow("b", vec![])]);
    assert!(!s.contains("old"));
    assert_eq!(s.stored_flow("a").unwrap().state, None);
    assert!(s.contains("b"));
}

#[test]
fn start_plans() {
    let mut s = FlowStore::new();
    s.upsert_flow(flow("f", vec![]));
    match s.plan_start("nope", false) {
        Err(FlowError::InvalidFlow(m)) => assert_eq!(m, "Flow not found: nope"),
        _ => panic!("expected an error"),
    }
    assert!(matches!(s.plan_start("f", true), Ok(StartPlan::AlreadyRunning)));
    match s.plan_start("f", false) {
        Ok(StartPlan::Start(f)) => assert_eq!(f.id, "f"),
        _ => panic!("expected a start"),
    }
}

#[test]
fn start_then_stop() {
    let mut s = FlowStore::new();
    let mut f = flow("f", vec![block("a1", "builtin.aes67_output", vec![]), block("m", "builtin.mixer", vec![])]);
    attach_runtime_data(&mut f, &vec![("a1".into(), "v=0".into())], &vec![], &vec![]);
    s.apply_flow_started(f, PipelineState::Playing, "2024-01-01T00:00:00+00:00".to_string());
    let g = s.stored_flow("f").unwrap();
    assert_eq!(g.state, Some(PipelineState::Playing));
    assert!(g.properties.auto_restart);
    assert_eq!(g.properties.started_at.as_deref(), Some("2024-01-01T00:00:00+00:00"));
    assert_eq!(g.blocks[0].runtime_data.as_ref().unwrap().get("sdp"), Some(&"v=0".to_string()));
    assert!(g.blocks[1].runtime_data.is_none());
    let stopped = s.apply_flow_stopped("f", PipelineState::Null).expect("known flow");
    assert_eq!(stopped.state, Some(PipelineState::Null));
    assert!(!stopped.properties.auto_restart);
    assert!(stopped.properties.started_at.is_none());
    assert!(stopped.blocks.iter().all(|b| b.runtime_data.is_none()));
    assert!(s.apply_flow_stopped("other", PipelineState::Null).is_none());
}

#[test]
fn record_started_stamps_a_time() {
    let mut s = FlowStore::new();
    let t = s.record_flow_started(flow("f", vec![]), PipelineState::Playing);
    assert!(!t.is_empty());
    let c: Vec<char> = t.chars().collect();
    assert!(c.len() >= 25);
    assert_eq!(c[4], '-');
    assert_eq!(c[7], '-');
    assert_eq!(c[10], 'T');
    assert_eq!(c[13], ':');
    assert_eq!(c[16], ':');
    let n = c.len();
    assert!(c[n - 6] == '+' || c[n - 6] == '-');
    assert_eq!(c[n - 3], ':');
    assert_eq!(s.stored_flow("f").unwrap().properties.started_at, Some(t));
}

#[test]
fn runtime_data_for_endpoints() {
    let mut f = flow(
        "f",
        vec![
            block("w", "builtin.whep_output", vec![]),
            block("i", "builtin.whip_input", vec![]),
            block("x", "builtin.whep_output", vec![]),
        ],
    );
    let whep = vec![("w".to_string(), "ep-1".to_string()), ("w".to_string(), "ep-2".to_string())];
    let whip = vec![("i".to_string(), "in-1".to_string())];
    attach_runtime_data(&mut f, &vec![], &whep, &whip);
    assert_eq!(f.blocks[0].runtime_data.as_ref().unwrap().get("whep_endpoint_id"), Some(&"ep-1".to_string()));
    assert_eq!(f.blocks[1].runtime_data.as_ref().unwrap().get("whip_endpoint_id"), Some(&"in-1".to_string()));
    assert!(f.blocks[2].runtime_data.is_none());
    assert_eq!(lookup_pair(&whep, "w"), Some("ep-1".to_string()));
    assert_eq!(lookup_pair(&whep, "q"), None);
}

#[test]
fn runtime_values_extend_existing_data() {
    let mut b = block("b", "builtin.aes67_output", vec![]);
    set_runtime_value(&mut b, "sdp", "one".to_string());
    set_runtime_value(&mut b, "other", "two".to_string());
    set_runtime_value(&mut b, "sdp", "three".to_string());
    let d = b.runtime_data.unwrap();
    assert_eq!(d.len(), 2);
    assert_eq!(d.get("sdp"), Some(&"three".to_string()));
}

#[test]
fn aes67_settings_defaults_and_values() {
    let b = block("a", "builtin.aes67_output", vec![]);
    let s = aes67_sdp_settings(&b, "My Flow");
    assert_eq!(s.sample_rate, None);
    assert_eq!(s.channels, None);
    assert_eq!(s.multicast_host, "239.69.1.1");
    assert_eq!(s.interface, None);
    assert!(!s.ravenna_extensions);
    assert_eq!(s.session_name, "My Flow");
    let b = block(
        "a",
        "builtin.aes67_output",
        vec![
            ("sample_rate", PropertyValue::String("96000".into())),
            ("channels", PropertyValue::Int(8)),
            ("host", PropertyValue::String("239.1.2.3".into())),
            ("interface", PropertyValue::String("".into())),
            ("ravenna_extensions", PropertyValue::Bool(true)),
            ("session_name", PropertyValue::String("   ".into())),
        ],
    );
    let s = aes67_sdp_settings(&b, "Fallback");
    assert_eq!(s.sample_rate, Some(96000));
    assert_eq!(s.channels, Some(8));
    assert_eq!(s.multicast_host, "239.1.2.3");
    assert_eq!(s.interface, None);
    assert!(s.ravenna_extensions);
    assert_eq!(s.session_name, "Fallback");
    let b = block(
        "a",
        "builtin.aes67_output",
        vec![
            ("sample_rate", PropertyValue::String("fast".into())),
            ("interface", PropertyValue::String("eth0".into())),
            ("session_name", PropertyValue::String(" Studio A ".into())),
        ],
    );
    let s = aes67_sdp_settings(&b, "Fallback");
    assert_eq!(s.sample_rate, None);
    assert_eq!(s.interface.as_deref(), Some("eth0"));
    assert_eq!(s.session_name, " Studio A ");
}

#[test]
fn inter_channels() {
    assert_eq!(inter_channel_name("f-1", "b2"), "strom_f-1_b2");
    assert_eq!(inter_media_type(&props(vec![("media_type", PropertyValue::String("video".into()))])), MediaType::Video);
    assert_eq!(inter_media_type(&props(vec![("media_type", PropertyValue::String("audio".into()))])), MediaType::Audio);
    assert_eq!(inter_media_type(&props(vec![("media_type", PropertyValue::String("data".into()))])), MediaType::Generic);
    assert_eq!(inter_media_type(&props(vec![("media_type", PropertyValue::Int(1))])), MediaType::Generic);
    assert_eq!(inter_media_type(&props(vec![])), MediaType::Generic);
}

#[test]
fn channel_registrations_and_stop_actions() {
    let f = flow(
        "F",
        vec![
            block("o1", "builtin.inter_output", vec![("media_type", PropertyValue::String("audio".into()))]),
            block("a1", "builtin.aes67_output", vec![]),
            block("m", "builtin.mixer", vec![]),
            block("o2", "builtin.inter_output", vec![]),
        ],
    );
    let regs = channel_registrations("F", &f);
    assert_eq!(regs.len(), 2);
    assert_eq!(regs[0].channel_name, "strom_F_o1");
    assert_eq!(regs[0].output_name, "o1");
    assert_eq!(regs[0].media_type, MediaType::Audio);
    assert_eq!(regs[1].channel_name, "strom_F_o2");
    assert_eq!(regs[1].media_type, MediaType::Generic);
    let acts = stop_actions("F", &f);
    assert_eq!(acts.len(), 3);
    assert!(matches!(&acts[0], StopAction::UnregisterChannel { channel_name, output_name } if channel_name == "strom_F_o1" && output_name == "o1"));
    assert!(matches!(&acts[1], StopAction::RemoveAnnouncement { block_id } if block_id == "a1"));
    assert!(matches!(&acts[2], StopAction::UnregisterChannel { channel_name, .. } if channel_name == "strom_F_o2"));
}

#[test]
fn transition_writes_alphas_and_marks_dirty() {
    let mut s = FlowStore::new();
    s.upsert_flow(flow("f", vec![block("b0", "builtin.compositor", vec![])]));
    s.sync_transition("f", "b0:mixer", 1, 2);
    let f = s.stored_flow("f").unwrap();
    assert_eq!(float_prop(&f.blocks[0], "input_1_alpha"), Some(0.0));
    assert_eq!(float_prop(&f.blocks[0], "input_2_alpha"), Some(1.0));
    assert_eq!(s.take_pending_saves(), vec!["f".to_string()]);
    // The same input on both sides ends fully visible.
    s.sync_transition("f", "b0", 3, 3);
    let f = s.stored_flow("f").unwrap();
    assert_eq!(float_prop(&f.blocks[0], "input_3_alpha"), Some(1.0));
    // An unknown block changes nothing but still marks the flow.
    s.take_pending_saves();
    s.sync_transition("f", "zz:mixer", 0, 1);
    assert!(s.stored_flow("f").unwrap().blocks[0].properties.get("input_0_alpha").is_none());
    assert_eq!(s.take_pending_saves(), vec!["f".to_string()]);
}

#[test]
fn animation_writes_given_targets() {
    let mut s = FlowStore::new();
    s.upsert_flow(flow("f", vec![block("b0", "builtin.compositor", vec![])]));
    s.sync_animation("f", "b0:mixer", 2, Some(10), None, Some(-640), None);
    let f = s.stored_flow("f").unwrap();
    let p = &f.blocks[0].properties;
    assert!(matches!(p.get("input_2_xpos"), Some(PropertyValue::Int(10))));
    assert!(p.get("input_2_ypos").is_none());
    assert!(matches!(p.get("input_2_width"), Some(PropertyValue::Int(-640))));
    assert!(p.get("input_2_height").is_none());
}

#[test]
fn pad_property_written_for_sink_pads_only() {
    let mut s = FlowStore::new();
    s.upsert_flow(flow("f", vec![block("b0", "builtin.compositor", vec![])]));
    assert!(s.sync_pad_property("f", "b0:mixer", "sink_4", "sizing-policy", PropertyValue::String("keep".into())));
    let f = s.stored_flow("f").unwrap();
    assert!(matches!(f.blocks[0].properties.get("input_4_sizing_policy"), Some(PropertyValue::String(v)) if v == "keep"));
    assert_eq!(s.take_pending_saves(), vec!["f".to_string()]);
    assert!(!s.sync_pad_property("f", "b0:mixer", "src", "xpos", PropertyValue::Int(1)));
    assert!(!s.sync_pad_property("f", "b0:mixer", "sink_x", "xpos", PropertyValue::Int(1)));
    assert!(s.take_pending_saves().is_empty());
}

#[test]
fn only_the_first_block_with_an_id_changes() {
    let mut f = flow("f", vec![block("b", "x", vec![]), block("b", "y", vec![])]);
    set_first_block_property(&mut f, "b", "k".to_string(), PropertyValue::Bool(true));
    assert!(f.blocks[0].properties.contains_key("k"));
    assert!(!f.blocks[1].properties.contains_key("k"));
}

#[test]
fn operations_on_stopped_pipelines_are_refused() {
    assert!(strom::flows::require_running("f", true).is_ok());
    match strom::flows::require_running("f-9", false) {
        Err(FlowError::InvalidFlow(m)) => assert_eq!(m, "Pipeline not running for flow: f-9"),
        Ok(()) => panic!("expected an error"),
    }
}

#[test]
fn reading_twice_changes_nothing_more() {
    let mut f = flow("f", vec![]);
    f.properties.ptp_domain = Some(2);
    let report = PipelineReport {
        state: PipelineState::Playing,
        ptp_info: Some(PtpInfo { domain: 2, grandmaster_clock_id: None, restart_needed: true }),
    };
    let once = with_runtime_status(f, Some(&report));
    let twice = with_runtime_status(once.duplicate(), Some(&report));
    assert_eq!(once.state, twice.state);
    let (a, b) = (once.properties.ptp_info.unwrap(), twice.properties.ptp_info.unwrap());
    assert_eq!((a.domain, a.restart_needed), (b.domain, b.restart_needed));
    assert!(!a.restart_needed);
}

#[test]
fn immediate_answers_of_start_and_stop() {
    assert_eq!(StartPlan::AlreadyRunning.reported_state(), Some(PipelineState::Playing));
    assert_eq!(StartPlan::Start(flow("f", vec![])).reported_state(), None);
    assert_eq!(plan_stop(false), Some(PipelineState::Null));
    assert_eq!(plan_stop(true), None);
}
