use strom::plan::SettingValue;
use strom::builtin::{get_builder, BuiltinBlock};
use strom::effects::{canvas_size, capsfilter_element_id, compositor_element_id, thumbnail_queue_id};
use strom::loudness::{
    interval_ms, interval_ns, loudness_plan, meter_settings, meter_block_id, meter_element_id, meter_message_block,
};
use strom::mpegtssrt::{
    audio_chain_for, get_bool, mpegtssrt_output_plan, mpegtssrt_settings, parse_srt_output_config, parse_track_count, raw_audio_chain_names,
    video_parser_for, AudioChain, MpegTsSrtOutputBuilder, VideoParser, MUX_ALIGNMENT,
};
use strom::pads::MediaType;
use strom::property::{Properties, PropertyValue, StrMap};

fn props(pairs: Vec<(&str, PropertyValue)>) -> Properties {
    let mut m = StrMap::new();
    for (k, v) in pairs {
        m.insert(k.to_string(), v);
    }
    m
}

#[test]
fn builders_by_definition_id() {
    assert_eq!(get_builder("builtin.mixer"), Some(BuiltinBlock::Mixer));
    assert_eq!(get_builder("builtin.audiorouter"), Some(BuiltinBlock::AudioRouter));
    assert_eq!(get_builder("builtin.whep_output"), Some(BuiltinBlock::WHEPOutput));
    assert_eq!(get_builder("builtin.loudness"), Some(BuiltinBlock::Loudness));
    assert_eq!(get_builder("builtin.unknown"), None);
    assert_eq!(get_builder("user.mixer"), None);
}

#[test]
fn srt_output_pads() {
    let p = MpegTsSrtOutputBuilder.get_external_pads(&props(vec![])).unwrap();
    assert_eq!(p.inputs.len(), 2);
    assert_eq!(p.inputs[0].name, "video_in");
    assert_eq!(p.inputs[0].internal_element_id, "video_input");
    assert_eq!(p.inputs[0].media_type, MediaType::Video);
    assert_eq!(p.inputs[1].name, "audio_in_0");
    assert_eq!(p.inputs[1].label.as_deref(), Some("A0"));
    let p = MpegTsSrtOutputBuilder
        .get_external_pads(&props(vec![
            ("num_video_tracks", PropertyValue::UInt(2)),
            ("num_audio_tracks", PropertyValue::Int(3)),
        ]))
        .unwrap();
    assert_eq!(p.inputs.len(), 5);
    assert_eq!(p.inputs[1].name, "video_in_1");
    assert_eq!(p.inputs[1].internal_element_id, "video_input_1");
    assert_eq!(p.inputs[4].name, "audio_in_2");
    assert!(p.outputs.is_empty());
    assert_eq!(parse_track_count(&props(vec![("n", PropertyValue::String("4".into()))]), "n"), 1);
}

#[test]
fn srt_settings() {
    let c = parse_srt_output_config(&props(vec![]), "srt://:5000?mode=listener", 125);
    assert_eq!(c.srt_uri, "srt://:5000?mode=listener");
    assert_eq!(c.latency, 125);
    assert!(!c.wait_for_connection);
    assert!(c.auto_reconnect);
    assert!(c.sync);
    let c = parse_srt_output_config(
        &props(vec![
            ("srt_uri", PropertyValue::String("srt://h:1".into())),
            ("latency", PropertyValue::UInt(300)),
            ("sync", PropertyValue::Bool(false)),
        ]),
        "d",
        125,
    );
    assert_eq!(c.srt_uri, "srt://h:1");
    assert_eq!(c.latency, 300);
    assert!(!c.sync);
    assert!(get_bool(&props(vec![("x", PropertyValue::Bool(true))]), "x", false));
    assert!(get_bool(&props(vec![("x", PropertyValue::Int(1))]), "x", true));
    assert_eq!(MUX_ALIGNMENT, 7);
}

#[test]
fn codec_chains() {
    assert_eq!(video_parser_for("video/x-h264"), Some(VideoParser::H264Parse));
    assert_eq!(video_parser_for("video/x-h265").unwrap().factory(), "h265parse");
    assert_eq!(video_parser_for("video/x-vp8"), None);
    assert_eq!(video_parser_for("video/x-dirac"), Some(VideoParser::DiracParse));
    assert_eq!(VideoParser::DiracParse.factory(), "diracparse");
    assert_eq!(audio_chain_for("audio/x-raw", None), Some(AudioChain::EncodeAac));
    assert_eq!(audio_chain_for("audio/mpeg", Some(1)), Some(AudioChain::Mp3));
    assert_eq!(audio_chain_for("audio/mpeg", None), Some(AudioChain::Aac));
    assert_eq!(audio_chain_for("audio/x-opus", None).unwrap().parser(), Some(("opusparse", "Opus")));
    assert_eq!(AudioChain::EncodeAac.parser(), None);
    assert_eq!(audio_chain_for("audio/x-flac", None), None);
    let (a, b, c, d) = raw_audio_chain_names("srt", 1);
    assert_eq!(a, "srt:audio_convert_1");
    assert_eq!(b, "srt:audio_resample_1");
    assert_eq!(c, "srt:audio_encoder_1");
    assert_eq!(d, "srt:audio_parser_1");
}

#[test]
fn loudness_settings() {
    assert_eq!(interval_ms(&props(vec![])), 100);
    assert_eq!(interval_ms(&props(vec![("interval", PropertyValue::Int(250))])), 250);
    assert_eq!(interval_ms(&props(vec![("interval", PropertyValue::String("500".into()))])), 500);
    assert_eq!(interval_ms(&props(vec![("interval", PropertyValue::String("soon".into()))])), 100);
    assert_eq!(interval_ms(&props(vec![("interval", PropertyValue::UInt(9))])), 100);
    assert_eq!(interval_ns(100), 100_000_000);
    assert_eq!(interval_ns(-1), (-1_000_000i64) as u64);
}

#[test]
fn loudness_meter_names_and_messages() {
    assert_eq!(meter_element_id("b7"), "b7:ebur128level");
    assert_eq!(meter_block_id("b7:ebur128level"), "b7");
    assert_eq!(meter_block_id("b7:other"), "b7:other");
    assert_eq!(meter_message_block("ebur128-level", "b7:ebur128level", "b7:ebur128level").as_deref(), Some("b7"));
    assert_eq!(meter_message_block("ebur128-level", "b8:ebur128level", "b7:ebur128level"), None);
    assert_eq!(meter_message_block("level", "b7:ebur128level", "b7:ebur128level"), None);
}

#[test]
fn effect_targets() {
    assert_eq!(compositor_element_id("comp_1"), "comp_1:mixer");
    assert_eq!(capsfilter_element_id("comp_1"), "comp_1:capsfilter");
    assert_eq!(thumbnail_queue_id("b0", 3), "b0:queue_3");
    assert_eq!(canvas_size(None), (1920, 1080));
    assert_eq!(canvas_size(Some((Some(1280), None))), (1280, 1080));
    assert_eq!(canvas_size(Some((Some(3840), Some(2160)))), (3840, 2160));
}

#[test]
fn mpegts_plan_by_tracks() {
    let plan = mpegtssrt_output_plan(
        "ts",
        &props(vec![("num_video_tracks", PropertyValue::UInt(1)), ("num_audio_tracks", PropertyValue::Int(2))]),
    );
    assert_eq!(
        plan.elements,
        vec!["ts:mpegtsmux", "ts:srtsink", "ts:video_input", "ts:audio_input_0", "ts:audio_input_1"]
    );
    assert_eq!(plan.links.len(), 1);
    assert_eq!(plan.links[0].from_element, "ts:mpegtsmux");
    assert_eq!(plan.links[0].from_pad, "src");
    assert_eq!(plan.links[0].to_element, "ts:srtsink");
    assert_eq!(plan.links[0].to_pad, "sink");
    let plan = mpegtssrt_output_plan("ts", &props(vec![("num_video_tracks", PropertyValue::UInt(0))]));
    assert_eq!(plan.elements, vec!["ts:mpegtsmux", "ts:srtsink", "ts:audio_input_0"]);
}

#[test]
fn mpegts_plan_has_an_element_for_every_pad() {
    let p = props(vec![("num_video_tracks", PropertyValue::UInt(2)), ("num_audio_tracks", PropertyValue::UInt(1))]);
    let plan = mpegtssrt_output_plan("ts", &p);
    assert_eq!(
        plan.elements,
        vec!["ts:mpegtsmux", "ts:srtsink", "ts:video_input_0", "ts:video_input_1", "ts:audio_input_0"]
    );
    assert!(!plan.bus_message_handler);
    let pads = MpegTsSrtOutputBuilder.get_external_pads(&p).unwrap();
    assert_eq!(pads.inputs.len(), 3);
    for pad in &pads.inputs {
        assert!(plan.elements.contains(&format!("ts:{}", pad.internal_element_id)));
    }
}

#[test]
fn mpegts_element_settings() {
    let config = parse_srt_output_config(
        &props(vec![("sync", PropertyValue::Bool(false)), ("latency", PropertyValue::Int(250))]),
        "srt://:5000",
        125,
    );
    let st = mpegtssrt_settings("ts", &config);
    let got: Vec<(String, String, String)> = st
        .iter()
        .map(|x| {
            let v = match &x.value {
                SettingValue::Value(PropertyValue::Int(i)) => i.to_string(),
                SettingValue::Value(PropertyValue::Bool(b)) => b.to_string(),
                SettingValue::Value(PropertyValue::String(s)) => s.clone(),
                _ => String::from("?"),
            };
            (x.element.clone(), x.property.clone(), v)
        })
        .collect();
    let want: Vec<(String, String, String)> = [
        ("ts:mpegtsmux", "alignment", "7"),
        ("ts:srtsink", "uri", "srt://:5000"),
        ("ts:srtsink", "latency", "250"),
        ("ts:srtsink", "wait-for-connection", "false"),
        ("ts:srtsink", "sync", "false"),
        ("ts:srtsink", "qos", "true"),
    ]
    .iter()
    .map(|(a, b, c)| (a.to_string(), b.to_string(), c.to_string()))
    .collect();
    assert_eq!(got, want);
}

#[test]
fn loudness_plan_and_settings() {
    let plan = loudness_plan("l");
    assert_eq!(plan.elements, vec!["l:ebur128level"]);
    assert!(plan.links.is_empty());
    assert!(plan.bus_message_handler);
    let st = meter_settings("l", &props(vec![("interval", PropertyValue::String("500".to_string()))]));
    assert_eq!(st.len(), 2);
    assert_eq!(st[0].element, "l:ebur128level");
    assert_eq!(st[0].property, "interval");
    assert!(matches!(st[0].value, SettingValue::Value(PropertyValue::UInt(500_000_000))));
    assert_eq!(st[1].property, "post-messages");
    assert!(matches!(st[1].value, SettingValue::Value(PropertyValue::Bool(true))));
    let st = meter_settings("l", &props(vec![]));
    assert!(matches!(st[0].value, SettingValue::Value(PropertyValue::UInt(100_000_000))));
}
