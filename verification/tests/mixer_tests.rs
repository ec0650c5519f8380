use strom::mixer::{
    default_aux_pre, dsp_backend_for, mixer_build, read_aux_pre, read_solo_afl, effective_volume, mixer_elements, mixer_graph, mixer_links,
    solo_is_afl, switch_volume, DspBackend, MixerBuilder, MixerElementKind, MixerNode, PadSel,
};
use strom::pads::MediaType;
use strom::property::PropertyValue;

#[test]
fn mixer_pads() {
    let pads = MixerBuilder.get_external_pads(2, 1, 2).expect("pads");
    assert_eq!(pads.inputs.len(), 2);
    assert_eq!(pads.inputs[0].name, "input_1");
    assert_eq!(pads.inputs[0].label.as_deref(), Some("A0"));
    assert_eq!(pads.inputs[1].internal_element_id, "convert_1");
    assert_eq!(pads.inputs[1].internal_pad_name, "sink");
    assert_eq!(pads.outputs.len(), 5);
    assert_eq!(pads.outputs[0].name, "main_out");
    assert_eq!(pads.outputs[0].internal_element_id, "main_out_tee");
    assert_eq!(pads.outputs[0].internal_pad_name, "src_%u");
    assert_eq!(pads.outputs[1].name, "pfl_out");
    assert_eq!(pads.outputs[1].label.as_deref(), Some("PFL"));
    assert_eq!(pads.outputs[2].name, "aux_out_1");
    assert_eq!(pads.outputs[2].label.as_deref(), Some("Aux1"));
    assert_eq!(pads.outputs[2].internal_element_id, "aux0_out_tee");
    assert_eq!(pads.outputs[4].name, "group_out_2");
    assert_eq!(pads.outputs[4].label.as_deref(), Some("Grp2"));
    assert_eq!(pads.outputs[4].internal_element_id, "group1_out_tee");
    assert!(pads.outputs.iter().all(|p| p.media_type == MediaType::Audio));
}

#[test]
fn dsp_backend_choice() {
    assert_eq!(dsp_backend_for("lv2"), DspBackend::Lv2);
    assert_eq!(dsp_backend_for("rust"), DspBackend::Rust);
    assert_eq!(dsp_backend_for("LV2"), DspBackend::Rust);
    assert_eq!(dsp_backend_for("other"), DspBackend::Rust);
    assert_eq!(DspBackend::Lv2.name(), "lv2");
    assert_eq!(DspBackend::Rust.name(), "rust");
}

#[test]
fn solo_and_aux_defaults() {
    assert!(solo_is_afl("afl"));
    assert!(!solo_is_afl("pfl"));
    assert!(!solo_is_afl("AFL"));
    assert!(default_aux_pre(0));
    assert!(default_aux_pre(1));
    assert!(!default_aux_pre(2));
    assert!(!default_aux_pre(3));
}

#[test]
fn volumes() {
    let fader = 0.5f64.to_bits();
    assert_eq!(effective_volume(false, fader), fader);
    assert_eq!(f64::from_bits(effective_volume(true, fader)), 0.0);
    assert_eq!(f64::from_bits(switch_volume(true)), 1.0);
    assert_eq!(f64::from_bits(switch_volume(false)), 0.0);
}

#[test]
fn node_names() {
    assert_eq!(MixerNode::Mixer.name(), "audiomixer");
    assert_eq!(MixerNode::AuxMixer(2).name(), "aux2_mixer");
    assert_eq!(MixerNode::GroupToMainQueue(1).name(), "group1_to_main_queue");
    assert_eq!(MixerNode::PreFaderTee(3).name(), "pre_fader_tee_3");
    assert_eq!(MixerNode::AuxSend(4, 1).name(), "aux_send_4_1");
    assert_eq!(MixerNode::ToGrpVol(2, 1).name(), "to_grp1_vol_2");
    assert_eq!(MixerNode::ToGrpQueue(2, 1).name(), "to_grp1_queue_2");
    assert_eq!(MixerNode::Convert(0).element_id("b3"), "b3:convert_0");
    assert_eq!(MixerNode::MainOutTee.element_id("mix"), "mix:main_out_tee");
}

#[test]
fn node_kinds() {
    assert_eq!(MixerNode::Mixer.kind(), MixerElementKind::AudioMixer);
    assert_eq!(MixerNode::Comp(0).kind(), MixerElementKind::Compressor);
    assert_eq!(MixerNode::AuxSend(0, 0).kind(), MixerElementKind::Volume);
    assert_eq!(MixerNode::RoutingTee(0).kind(), MixerElementKind::Tee);
    assert_eq!(MixerNode::Pan(0).kind().factory(), Some("audiopanorama"));
    assert_eq!(MixerNode::Caps(0).kind().factory(), Some("capsfilter"));
    assert_eq!(MixerNode::Gate(0).kind().factory(), None);
    assert_eq!(MixerNode::MainLimiter.kind().factory(), None);
}

#[test]
fn element_counts_and_order() {
    let e = mixer_elements(0, 0, 0);
    assert_eq!(e.len(), 11);
    assert_eq!(e[0], MixerNode::Mixer);
    assert_eq!(e[7], MixerNode::PflMixer);
    // 11 bus elements, 4 per aux bus, 5 per group, 15 + 2 per aux + 2 + 2 per group per channel.
    let e = mixer_elements(2, 1, 3);
    assert_eq!(e.len(), 11 + 4 + 15 + 2 * (15 + 2 + 2 + 6));
    assert_eq!(e[11], MixerNode::AuxMixer(0));
    assert_eq!(e[15], MixerNode::GroupMixer(0));
    assert_eq!(e[30], MixerNode::Convert(0));
    assert_eq!(e[45], MixerNode::AuxSend(0, 0));
    assert_eq!(e[47], MixerNode::ToMainVol(0));
    assert_eq!(e[49], MixerNode::ToGrpVol(0, 0));
    assert_eq!(e[55], MixerNode::Convert(1));
}

#[test]
fn every_link_joins_created_elements() {
    let pre = vec![vec![true, false, true], vec![false, false, true]];
    let g = mixer_graph(2, 3, 2, true, &pre);
    assert_eq!(g.links.len(), 9 + 3 * 3 + 5 * 2 + 2 * (3 * 3 + 12 + 3 + 3 + 3 * 2));
    for l in &g.links {
        assert!(g.elements.contains(&l.from.node), "{:?}", l.from.node);
        assert!(g.elements.contains(&l.to.node), "{:?}", l.to.node);
    }
    // Element ids are distinct.
    let ids: Vec<String> = g.elements.iter().map(|n| n.element_id("m")).collect();
    let mut sorted = ids.clone();
    sorted.sort();
    sorted.dedup();
    assert_eq!(sorted.len(), ids.len());
}

#[test]
fn sends_and_solo_tap_follow_settings() {
    let pre = vec![vec![true, false]];
    let pfl = mixer_links(1, 2, 0, false, &pre);
    let from_of = |links: &Vec<strom::mixer::MixerLink>, to: MixerNode| {
        links.iter().find(|l| l.to.node == to).map(|l| (l.from.node, l.from.pad))
    };
    assert_eq!(
        from_of(&pfl, MixerNode::AuxSend(0, 0)),
        Some((MixerNode::PreFaderTee(0), PadSel::Request))
    );
    assert_eq!(
        from_of(&pfl, MixerNode::AuxSend(0, 1)),
        Some((MixerNode::PostFaderTee(0), PadSel::Request))
    );
    assert_eq!(
        from_of(&pfl, MixerNode::PflVolume(0)),
        Some((MixerNode::PreFaderTee(0), PadSel::Request))
    );
    let afl = mixer_links(1, 2, 0, true, &pre);
    assert_eq!(
        from_of(&afl, MixerNode::PflVolume(0)),
        Some((MixerNode::PostFaderTee(0), PadSel::Request))
    );
    // Aux queues feed request pads of their bus mixers.
    let l = afl.iter().find(|l| l.from.node == MixerNode::AuxQueue(0, 1)).unwrap();
    assert_eq!(l.to.node, MixerNode::AuxMixer(1));
    assert_eq!(l.to.pad, PadSel::Request);
}

#[test]
fn main_chain_comes_first() {
    let links = mixer_links(0, 0, 0, false, &vec![]);
    assert_eq!(links.len(), 9);
    assert_eq!(links[0].from.node, MixerNode::Mixer);
    assert_eq!(links[0].from.pad, PadSel::Src);
    assert_eq!(links[0].to.node, MixerNode::MainComp);
    assert_eq!(links[0].to.pad, PadSel::Sink);
    assert_eq!(links[5].to.node, MixerNode::MainOutTee);
    assert_eq!(links[8].to.node, MixerNode::PflOutTee);
}

#[test]
fn graph_sizes_follow_the_counts() {
    for (nc, na, ng) in [(1usize, 0usize, 0usize), (3, 2, 1), (4, 4, 4)] {
        let pre = vec![vec![false; na]; nc];
        let g = mixer_graph(nc, na, ng, false, &pre);
        assert_eq!(g.elements.len(), 11 + 4 * na + 5 * ng + nc * (17 + 2 * na + 2 * ng));
        assert_eq!(g.links.len(), 9 + 3 * na + 5 * ng + nc * (18 + 3 * na + 3 * ng));
    }
}

fn mixer_props(pairs: Vec<(&str, strom::property::PropertyValue)>) -> strom::property::Properties {
    let mut m = strom::property::StrMap::new();
    for (k, v) in pairs {
        m.insert(k.to_string(), v);
    }
    m
}

#[test]
fn mixer_reads_solo_mode_and_aux_taps() {
    assert!(!read_solo_afl(&mixer_props(vec![])));
    assert!(read_solo_afl(&mixer_props(vec![("solo_mode", PropertyValue::String("afl".to_string()))])));
    assert!(!read_solo_afl(&mixer_props(vec![("solo_mode", PropertyValue::String("pfl".to_string()))])));
    let p = mixer_props(vec![
        ("ch1_aux1_pre", PropertyValue::Bool(false)),
        ("ch2_aux3_pre", PropertyValue::Bool(true)),
    ]);
    let pre = read_aux_pre(&p, 2, 4);
    assert_eq!(pre, vec![vec![false, true, false, false], vec![true, true, true, false]]);
    let mut p = p;
    p.insert("solo_mode".to_string(), PropertyValue::String("afl".to_string()));
    let b = mixer_build(&p, 2, 4, 1);
    assert!(b.afl);
    assert_eq!(b.aux_pre, pre);
    assert_eq!(b.graph.links, mixer_graph(2, 4, 1, true, &pre).links);
}
