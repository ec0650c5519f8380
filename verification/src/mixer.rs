//! Audio mixer block: its pads, the decisions its settings make, and the
//! graph of elements and links that it builds (channels, aux buses, groups,
//! PFL/AFL bus and main bus).
use vstd::prelude::*;

use crate::pads::{pad_spec, ExternalPad, ExternalPads, MediaType, PadView};
use crate::mpegtssrt::{bool_prop, get_bool};
use crate::property::{PropVal, PropertyValue, Properties, FLOAT_ONE_BITS, FLOAT_ZERO_BITS};
use crate::text::{decimal, double_indexed, indexed, push_decimal, push_str, str_eq, string_of, with_index};

verus! {

/// Builder of the mixer block.
pub struct MixerBuilder;

// ---------------------------------------------------------------------------
// External pads
// ---------------------------------------------------------------------------

/// Input pad `i` (0-based): `input_{i+1}`, labelled `A{i}`, on `convert_{i}`.
pub open spec fn mixer_input_pad(i: nat) -> PadView {
    pad_spec(Some("A"@ + decimal(i)), "input_"@ + decimal(i + 1), MediaType::Audio, "convert_"@ + decimal(i), "sink"@)
}

/// The main stereo output, on the main output tee.
pub open spec fn mixer_main_out_pad() -> PadView {
    pad_spec(Some("Main"@), "main_out"@, MediaType::Audio, "main_out_tee"@, "src_%u"@)
}

/// The PFL output, always present.
pub open spec fn mixer_pfl_out_pad() -> PadView {
    pad_spec(Some("PFL"@), "pfl_out"@, MediaType::Audio, "pfl_out_tee"@, "src_%u"@)
}

/// The output of aux bus `a` (0-based).
pub open spec fn mixer_aux_out_pad(a: nat) -> PadView {
    pad_spec(
        Some("Aux"@ + decimal(a + 1)),
        "aux_out_"@ + decimal(a + 1),
        MediaType::Audio,
        "aux"@ + decimal(a) + "_out_tee"@,
        "src_%u"@,
    )
}

/// The output of group `g` (0-based).
pub open spec fn mixer_group_out_pad(g: nat) -> PadView {
    pad_spec(
        Some("Grp"@ + decimal(g + 1)),
        "group_out_"@ + decimal(g + 1),
        MediaType::Audio,
        "group"@ + decimal(g) + "_out_tee"@,
        "src_%u"@,
    )
}

impl MixerBuilder {
    /// The mixer's pads for the given numbers of channels, aux buses and
    /// groups: one input per channel; then the main output, the PFL output,
    /// one output per aux bus and one per group.
    pub fn get_external_pads(&self, num_channels: usize, num_aux_buses: usize, num_groups: usize) -> (r:
        Option<ExternalPads>)
        requires
            num_channels < usize::MAX,
            num_aux_buses < usize::MAX,
            num_groups < usize::MAX,
        ensures
            r is Some,
            ({
                let p = r->0;
                &&& p.inputs@.len() == num_channels
                &&& forall|i: int| 0 <= i < num_channels ==> #[trigger] p.inputs@[i]@ == mixer_input_pad(i as nat)
                &&& p.outputs@.len() == 2 + num_aux_buses + num_groups
                &&& p.outputs@[0]@ == mixer_main_out_pad()
                &&& p.outputs@[1]@ == mixer_pfl_out_pad()
                &&& forall|a: int| 0 <= a < num_aux_buses ==> #[trigger] p.outputs@[2 + a]@ == mixer_aux_out_pad(a as nat)
                &&& forall|g: int|
                    0 <= g < num_groups ==> #[trigger] p.outputs@[2 + num_aux_buses + g]@ == mixer_group_out_pad(
                        g as nat,
                    )
            }),
    {
        let mut inputs: Vec<ExternalPad> = Vec::new();
        let mut i: usize = 0;
        while i < num_channels
            invariant
                i <= num_channels < usize::MAX,
                inputs@.len() == i,
                forall|k: int| 0 <= k < i ==> #[trigger] inputs@[k]@ == mixer_input_pad(k as nat),
            decreases num_channels - i,
        {
            inputs.push(
                ExternalPad {
                    label: Some(with_index("A", i)),
                    name: with_index("input_", i + 1),
                    media_type: MediaType::Audio,
                    internal_element_id: with_index("convert_", i),
                    internal_pad_name: string_of("sink"),
                },
            );
            i = i + 1;
        }
        let mut outputs: Vec<ExternalPad> = Vec::new();
        outputs.push(
            ExternalPad {
                label: Some(string_of("Main")),
                name: string_of("main_out"),
                media_type: MediaType::Audio,
                internal_element_id: string_of("main_out_tee"),
                internal_pad_name: string_of("src_%u"),
            },
        );
        outputs.push(
            ExternalPad {
                label: Some(string_of("PFL")),
                name: string_of("pfl_out"),
                media_type: MediaType::Audio,
                internal_element_id: string_of("pfl_out_tee"),
                internal_pad_name: string_of("src_%u"),
            },
        );
        let mut a: usize = 0;
        while a < num_aux_buses
            invariant
                a <= num_aux_buses < usize::MAX,
                outputs@.len() == 2 + a,
                outputs@[0]@ == mixer_main_out_pad(),
                outputs@[1]@ == mixer_pfl_out_pad(),
                forall|k: int| 0 <= k < a ==> #[trigger] outputs@[2 + k]@ == mixer_aux_out_pad(k as nat),
            decreases num_aux_buses - a,
        {
            outputs.push(
                ExternalPad {
                    label: Some(with_index("Aux", a + 1)),
                    name: with_index("aux_out_", a + 1),
                    media_type: MediaType::Audio,
                    internal_element_id: indexed("aux", a, "_out_tee"),
                    internal_pad_name: string_of("src_%u"),
                },
            );
            a = a + 1;
        }
        let mut g: usize = 0;
        while g < num_groups
            invariant
                g <= num_groups < usize::MAX,
                outputs@.len() == 2 + num_aux_buses + g,
                outputs@[0]@ == mixer_main_out_pad(),
                outputs@[1]@ == mixer_pfl_out_pad(),
                forall|k: int| 0 <= k < num_aux_buses ==> #[trigger] outputs@[2 + k]@ == mixer_aux_out_pad(k as nat),
                forall|k: int|
                    0 <= k < g ==> #[trigger] outputs@[2 + num_aux_buses + k]@ == mixer_group_out_pad(k as nat),
            decreases num_groups - g,
        {
            outputs.push(
                ExternalPad {
                    label: Some(with_index("Grp", g + 1)),
                    name: with_index("group_out_", g + 1),
                    media_type: MediaType::Audio,
                    internal_element_id: indexed("group", g, "_out_tee"),
                    internal_pad_name: string_of("src_%u"),
                },
            );
            g = g + 1;
        }
        Some(ExternalPads { inputs, outputs })
    }
}

// ---------------------------------------------------------------------------
// Settings decisions
// ---------------------------------------------------------------------------

/// The DSP implementation behind compressors, gates, equalisers and limiters.
#[derive(Clone, Copy, Debug, PartialEq, Eq, Structural)]
pub enum DspBackend {
    Rust,
    Lv2,
}

/// The backend for a requested name: `lv2` selects LV2; `rust`, and any
/// name not recognised, select the built-in Rust DSP.
pub open spec fn dsp_backend_spec(requested: Seq<char>) -> DspBackend {
    if requested == "lv2"@ {
        DspBackend::Lv2
    } else {
        DspBackend::Rust
    }
}

/// Chooses the DSP backend (see [`dsp_backend_spec`]).
pub fn dsp_backend_for(requested: &str) -> (r: DspBackend)
    ensures
        r == dsp_backend_spec(requested@),
{
    if str_eq(requested, "lv2") {
        DspBackend::Lv2
    } else {
        DspBackend::Rust
    }
}

impl DspBackend {
    /// The backend's name.
    pub fn name(&self) -> (r: &'static str)
        ensures
            r@ == (match self {
                DspBackend::Rust => "rust"@,
                DspBackend::Lv2 => "lv2"@,
            }),
    {
        match self {
            DspBackend::Rust => "rust",
            DspBackend::Lv2 => "lv2",
        }
    }
}

/// Whether the solo bus listens after the faders (`afl`) rather than
/// before them (`pfl`, and any other value).
pub fn solo_is_afl(solo_mode: &str) -> (r: bool)
    ensures
        r == (solo_mode@ == "afl"@),
{
    str_eq(solo_mode, "afl")
}

/// Whether the `solo_mode` property (default `pfl`) selects after-fader
/// listening: it is the string `afl`.
pub open spec fn solo_afl_spec(props: Map<Seq<char>, PropVal>) -> bool {
    props.contains_key("solo_mode"@) && props["solo_mode"@] == PropVal::Str("afl"@)
}

/// Reads the solo mode (see [`solo_afl_spec`]).
pub fn read_solo_afl(properties: &Properties) -> (r: bool)
    ensures
        r == solo_afl_spec(properties@),
{
    match properties.get("solo_mode") {
        Some(PropertyValue::String(s)) => solo_is_afl(s.as_str()),
        _ => false,
    }
}

/// The property that says whether channel `c`'s send to aux bus `a` (both
/// 0-based) is taken before the fader: `ch{c+1}_aux{a+1}_pre`.
pub open spec fn aux_pre_key(c: nat, a: nat) -> Seq<char> {
    "ch"@ + decimal(c + 1) + "_aux"@ + decimal(a + 1) + "_pre"@
}

/// Whether channel `c`'s send to aux bus `a` is pre-fader: the boolean
/// property [`aux_pre_key`], by default pre-fader for aux buses 1 and 2.
pub open spec fn aux_pre_spec(props: Map<Seq<char>, PropVal>, c: nat, a: nat) -> bool {
    bool_prop(props, aux_pre_key(c, a), a < 2)
}

/// Reads, for each of `nc` channels and `na` aux buses, whether the send
/// is pre-fader (see [`aux_pre_spec`]).
pub fn read_aux_pre(properties: &Properties, nc: usize, na: usize) -> (r: Vec<Vec<bool>>)
    ensures
        r@.len() == nc,
        forall|c: int| 0 <= c < nc ==> (#[trigger] r@[c])@.len() == na,
        forall|c: int, a: int| 0 <= c < nc && 0 <= a < na ==> #[trigger] r@[c]@[a] == aux_pre_spec(properties@, c as nat, a as nat),
{
    let mut r: Vec<Vec<bool>> = Vec::new();
    let mut c: usize = 0;
    while c < nc
        invariant
            c <= nc,
            r@.len() == c,
            forall|k: int| 0 <= k < c ==> (#[trigger] r@[k])@.len() == na,
            forall|k: int, a: int| 0 <= k < c && 0 <= a < na ==> #[trigger] r@[k]@[a] == aux_pre_spec(properties@, k as nat, a as nat),
        decreases nc - c,
    {
        let mut row: Vec<bool> = Vec::new();
        let mut a: usize = 0;
        while a < na
            invariant
                c < nc,
                a <= na,
                row@.len() == a,
                forall|j: int| 0 <= j < a ==> #[trigger] row@[j] == aux_pre_spec(properties@, c as nat, j as nat),
            decreases na - a,
        {
            let mut key = with_index("ch", c + 1);
            push_str(&mut key, "_aux");
            push_decimal(&mut key, (a + 1) as u64);
            push_str(&mut key, "_pre");
            assert(key@ == aux_pre_key(c as nat, a as nat));
            row.push(get_bool(properties, key.as_str(), a < 2));
            a = a + 1;
        }
        r.push(row);
        c = c + 1;
    }
    r
}

/// A mixer's solo mode and aux send taps as its properties set them, and
/// the graph they give.
pub struct MixerBuild {
    pub afl: bool,
    pub aux_pre: Vec<Vec<bool>>,
    pub graph: MixerGraph,
}

/// Reads the solo mode and the aux send taps of a mixer of `nc` channels,
/// `na` aux buses and `ng` groups from its properties, and gives its
/// elements and links (see [`mixer_graph`]).
pub fn mixer_build(properties: &Properties, nc: usize, na: usize, ng: usize) -> (r: MixerBuild)
    ensures
        r.afl == solo_afl_spec(properties@),
        r.aux_pre@.len() == nc,
        forall|c: int| 0 <= c < nc ==> (#[trigger] r.aux_pre@[c])@.len() == na,
        forall|c: int, a: int|
            0 <= c < nc && 0 <= a < na ==> #[trigger] r.aux_pre@[c]@[a] == aux_pre_spec(properties@, c as nat, a as nat),
        r.graph.elements@ == mixer_elements_spec(nc as nat, na as nat, ng as nat),
        r.graph.links@ == mixer_links_spec(nc as nat, na as nat, ng as nat, r.afl, r.aux_pre@),
{
    let afl = read_solo_afl(properties);
    let aux_pre = read_aux_pre(properties, nc, na);
    let graph = mixer_graph(nc, na, ng, afl, &aux_pre);
    MixerBuild { afl, aux_pre, graph }
}

/// Whether a channel's send to aux bus `aux` (0-based) is taken before the
/// fader when nothing says otherwise: aux buses 1 and 2 are pre-fader,
/// the others post-fader.
pub fn default_aux_pre(aux: usize) -> (r: bool)
    ensures
        r == (aux < 2),
{
    aux < 2
}

/// The volume a fader stage is set to, as `f64` bits: zero when muted,
/// else the fader's value.
pub fn effective_volume(mute: bool, fader_bits: u64) -> (r: u64)
    ensures
        r == (if mute { FLOAT_ZERO_BITS } else { fader_bits }),
{
    if mute {
        FLOAT_ZERO_BITS
    } else {
        fader_bits
    }
}

/// The volume of a routing switch (PFL tap, route to main, route to a
/// group), as `f64` bits: one when on, zero when off.
pub fn switch_volume(on: bool) -> (r: u64)
    ensures
        r == (if on { FLOAT_ONE_BITS } else { FLOAT_ZERO_BITS }),
{
    if on {
        FLOAT_ONE_BITS
    } else {
        FLOAT_ZERO_BITS
    }
}

// ---------------------------------------------------------------------------
// The graph of elements
// ---------------------------------------------------------------------------

/// An element of the mixer block. Indices are 0-based: `c` a channel, `a`
/// an aux bus, `g` a group.
#[derive(Clone, Copy, Debug, PartialEq, Eq, Structural)]
pub enum MixerNode {
    Mixer,
    MainComp,
    MainEq,
    MainLimiter,
    MainVolume,
    MainLevel,
    MainOutTee,
    PflMixer,
    PflMasterVol,
    PflLevel,
    PflOutTee,
    AuxMixer(usize),
    AuxVolume(usize),
    AuxLevel(usize),
    AuxOutTee(usize),
    GroupMixer(usize),
    GroupVolume(usize),
    GroupLevel(usize),
    GroupOutTee(usize),
    GroupToMainQueue(usize),
    Convert(usize),
    Caps(usize),
    Gain(usize),
    Hpf(usize),
    Gate(usize),
    Comp(usize),
    Eq(usize),
    PreFaderTee(usize),
    Pan(usize),
    Volume(usize),
    PostFaderTee(usize),
    Level(usize),
    RoutingTee(usize),
    PflVolume(usize),
    PflQueue(usize),
    AuxSend(usize, usize),
    AuxQueue(usize, usize),
    ToMainVol(usize),
    ToMainQueue(usize),
    ToGrpVol(usize, usize),
    ToGrpQueue(usize, usize),
}

/// The name of an element within the block; its id in the pipeline is
/// `{instance_id}:{name}`.
pub open spec fn node_name_spec(n: MixerNode) -> Seq<char> {
    match n {
        MixerNode::Mixer => "audiomixer"@,
        MixerNode::MainComp => "main_comp"@,
        MixerNode::MainEq => "main_eq"@,
        MixerNode::MainLimiter => "main_limiter"@,
        MixerNode::MainVolume => "main_volume"@,
        MixerNode::MainLevel => "main_level"@,
        MixerNode::MainOutTee => "main_out_tee"@,
        MixerNode::PflMixer => "pfl_mixer"@,
        MixerNode::PflMasterVol => "pfl_master_vol"@,
        MixerNode::PflLevel => "pfl_level"@,
        MixerNode::PflOutTee => "pfl_out_tee"@,
        MixerNode::AuxMixer(a) => "aux"@ + decimal(a as nat) + "_mixer"@,
        MixerNode::AuxVolume(a) => "aux"@ + decimal(a as nat) + "_volume"@,
        MixerNode::AuxLevel(a) => "aux"@ + decimal(a as nat) + "_level"@,
        MixerNode::AuxOutTee(a) => "aux"@ + decimal(a as nat) + "_out_tee"@,
        MixerNode::GroupMixer(g) => "group"@ + decimal(g as nat) + "_mixer"@,
        MixerNode::GroupVolume(g) => "group"@ + decimal(g as nat) + "_volume"@,
        MixerNode::GroupLevel(g) => "group"@ + decimal(g as nat) + "_level"@,
        MixerNode::GroupOutTee(g) => "group"@ + decimal(g as nat) + "_out_tee"@,
        MixerNode::GroupToMainQueue(g) => "group"@ + decimal(g as nat) + "_to_main_queue"@,
        MixerNode::Convert(c) => "convert_"@ + decimal(c as nat),
        MixerNode::Caps(c) => "caps_"@ + decimal(c as nat),
        MixerNode::Gain(c) => "gain_"@ + decimal(c as nat),
        MixerNode::Hpf(c) => "hpf_"@ + decimal(c as nat),
        MixerNode::Gate(c) => "gate_"@ + decimal(c as nat),
        MixerNode::Comp(c) => "comp_"@ + decimal(c as nat),
        MixerNode::Eq(c) => "eq_"@ + decimal(c as nat),
        MixerNode::PreFaderTee(c) => "pre_fader_tee_"@ + decimal(c as nat),
        MixerNode::Pan(c) => "pan_"@ + decimal(c as nat),
        MixerNode::Volume(c) => "volume_"@ + decimal(c as nat),
        MixerNode::PostFaderTee(c) => "post_fader_tee_"@ + decimal(c as nat),
        MixerNode::Level(c) => "level_"@ + decimal(c as nat),
        MixerNode::RoutingTee(c) => "routing_tee_"@ + decimal(c as nat),
        MixerNode::PflVolume(c) => "pfl_volume_"@ + decimal(c as nat),
        MixerNode::PflQueue(c) => "pfl_queue_"@ + decimal(c as nat),
        MixerNode::AuxSend(c, a) => "aux_send_"@ + decimal(c as nat) + "_"@ + decimal(a as nat),
        MixerNode::AuxQueue(c, a) => "aux_queue_"@ + decimal(c as nat) + "_"@ + decimal(a as nat),
        MixerNode::ToMainVol(c) => "to_main_vol_"@ + decimal(c as nat),
        MixerNode::ToMainQueue(c) => "to_main_queue_"@ + decimal(c as nat),
        MixerNode::ToGrpVol(c, g) => "to_grp"@ + decimal(g as nat) + "_vol_"@ + decimal(c as nat),
        MixerNode::ToGrpQueue(c, g) => "to_grp"@ + decimal(g as nat) + "_queue_"@ + decimal(c as nat),
    }
}

/// What kind of element a node is.
#[derive(Clone, Copy, Debug, PartialEq, Eq, Structural)]
pub enum MixerElementKind {
    AudioMixer,
    Compressor,
    Equalizer,
    Limiter,
    HighPass,
    Gate,
    Volume,
    Level,
    Tee,
    Queue,
    AudioConvert,
    CapsFilter,
    Panorama,
}

/// The kind of each node.
pub open spec fn node_kind_spec(n: MixerNode) -> MixerElementKind {
    match n {
        MixerNode::Mixer | MixerNode::PflMixer | MixerNode::AuxMixer(_) | MixerNode::GroupMixer(_) => MixerElementKind::AudioMixer,
        MixerNode::MainComp | MixerNode::Comp(_) => MixerElementKind::Compressor,
        MixerNode::MainEq | MixerNode::Eq(_) => MixerElementKind::Equalizer,
        MixerNode::MainLimiter => MixerElementKind::Limiter,
        MixerNode::Hpf(_) => MixerElementKind::HighPass,
        MixerNode::Gate(_) => MixerElementKind::Gate,
        MixerNode::MainVolume | MixerNode::PflMasterVol | MixerNode::AuxVolume(_) | MixerNode::GroupVolume(_)
        | MixerNode::Gain(_) | MixerNode::Volume(_) | MixerNode::PflVolume(_) | MixerNode::AuxSend(_, _)
        | MixerNode::ToMainVol(_) | MixerNode::ToGrpVol(_, _) => MixerElementKind::Volume,
        MixerNode::MainLevel | MixerNode::PflLevel | MixerNode::AuxLevel(_) | MixerNode::GroupLevel(_)
        | MixerNode::Level(_) => MixerElementKind::Level,
        MixerNode::MainOutTee | MixerNode::PflOutTee | MixerNode::AuxOutTee(_) | MixerNode::GroupOutTee(_)
        | MixerNode::PreFaderTee(_) | MixerNode::PostFaderTee(_) | MixerNode::RoutingTee(_) => MixerElementKind::Tee,
        MixerNode::GroupToMainQueue(_) | MixerNode::PflQueue(_) | MixerNode::AuxQueue(_, _) | MixerNode::ToMainQueue(_)
        | MixerNode::ToGrpQueue(_, _) => MixerElementKind::Queue,
        MixerNode::Convert(_) => MixerElementKind::AudioConvert,
        MixerNode::Caps(_) => MixerElementKind::CapsFilter,
        MixerNode::Pan(_) => MixerElementKind::Panorama,
    }
}

/// Each processing stage is an element of its own kind, in every channel
/// and on the main bus: `hpf_{c}` a high-pass filter, `gate_{c}` a gate,
/// `comp_{c}` a compressor, `eq_{c}` an equalizer, `gain_{c}` and the
/// fader `volume_{c}` volumes, `pan_{c}` a panorama; the main bus has a
/// compressor, an equalizer and a limiter.
pub proof fn law_stage_kinds(c: usize)
    ensures
        node_kind_spec(MixerNode::Hpf(c)) == MixerElementKind::HighPass,
        node_kind_spec(MixerNode::Gate(c)) == MixerElementKind::Gate,
        node_kind_spec(MixerNode::Comp(c)) == MixerElementKind::Compressor,
        node_kind_spec(MixerNode::Eq(c)) == MixerElementKind::Equalizer,
        node_kind_spec(MixerNode::Gain(c)) == MixerElementKind::Volume,
        node_kind_spec(MixerNode::Volume(c)) == MixerElementKind::Volume,
        node_kind_spec(MixerNode::Pan(c)) == MixerElementKind::Panorama,
        node_kind_spec(MixerNode::Convert(c)) == MixerElementKind::AudioConvert,
        node_kind_spec(MixerNode::Caps(c)) == MixerElementKind::CapsFilter,
        node_kind_spec(MixerNode::MainComp) == MixerElementKind::Compressor,
        node_kind_spec(MixerNode::MainEq) == MixerElementKind::Equalizer,
        node_kind_spec(MixerNode::MainLimiter) == MixerElementKind::Limiter,
{
}

/// For each element kind, the nodes of that kind: high-pass filters are
/// the `hpf` stages and noise gates the `gate` stages, compressors and
/// equalizers the channel and main-bus stages of those names, the limiter
/// the main bus's; likewise for mixers, volumes, meters, tees, queues,
/// converters, caps filters and panners.
pub proof fn law_kinds_by_node(n: MixerNode)
    ensures
        node_kind_spec(n) == MixerElementKind::HighPass <==> n is Hpf,
        node_kind_spec(n) == MixerElementKind::Gate <==> n is Gate,
        node_kind_spec(n) == MixerElementKind::Compressor <==> (n is Comp || n == MixerNode::MainComp),
        node_kind_spec(n) == MixerElementKind::Equalizer <==> (n is Eq || n == MixerNode::MainEq),
        node_kind_spec(n) == MixerElementKind::Limiter <==> n == MixerNode::MainLimiter,
        node_kind_spec(n) == MixerElementKind::AudioMixer <==> (n == MixerNode::Mixer || n == MixerNode::PflMixer
            || n is AuxMixer || n is GroupMixer),
        node_kind_spec(n) == MixerElementKind::Volume <==> (n == MixerNode::MainVolume || n == MixerNode::PflMasterVol
            || n is AuxVolume || n is GroupVolume || n is Gain || n is Volume || n is PflVolume || n is AuxSend
            || n is ToMainVol || n is ToGrpVol),
        node_kind_spec(n) == MixerElementKind::Level <==> (n == MixerNode::MainLevel || n == MixerNode::PflLevel
            || n is AuxLevel || n is GroupLevel || n is Level),
        node_kind_spec(n) == MixerElementKind::Tee <==> (n == MixerNode::MainOutTee || n == MixerNode::PflOutTee
            || n is AuxOutTee || n is GroupOutTee || n is PreFaderTee || n is PostFaderTee || n is RoutingTee),
        node_kind_spec(n) == MixerElementKind::Queue <==> (n is GroupToMainQueue || n is PflQueue || n is AuxQueue
            || n is ToMainQueue || n is ToGrpQueue),
        node_kind_spec(n) == MixerElementKind::AudioConvert <==> n is Convert,
        node_kind_spec(n) == MixerElementKind::CapsFilter <==> n is Caps,
        node_kind_spec(n) == MixerElementKind::Panorama <==> n is Pan,
{
}

impl MixerNode {
    /// The element's name within the block (see [`node_name_spec`]).
    pub fn name(&self) -> (r: String)
        ensures
            r@ == node_name_spec(*self),
    {
        match *self {
            MixerNode::Mixer => string_of("audiomixer"),
            MixerNode::MainComp => string_of("main_comp"),
            MixerNode::MainEq => string_of("main_eq"),
            MixerNode::MainLimiter => string_of("main_limiter"),
            MixerNode::MainVolume => string_of("main_volume"),
            MixerNode::MainLevel => string_of("main_level"),
            MixerNode::MainOutTee => string_of("main_out_tee"),
            MixerNode::PflMixer => string_of("pfl_mixer"),
            MixerNode::PflMasterVol => string_of("pfl_master_vol"),
            MixerNode::PflLevel => string_of("pfl_level"),
            MixerNode::PflOutTee => string_of("pfl_out_tee"),
            MixerNode::AuxMixer(a) => indexed("aux", a, "_mixer"),
            MixerNode::AuxVolume(a) => indexed("aux", a, "_volume"),
            MixerNode::AuxLevel(a) => indexed("aux", a, "_level"),
            MixerNode::AuxOutTee(a) => indexed("aux", a, "_out_tee"),
            MixerNode::GroupMixer(g) => indexed("group", g, "_mixer"),
            MixerNode::GroupVolume(g) => indexed("group", g, "_volume"),
            MixerNode::GroupLevel(g) => indexed("group", g, "_level"),
            MixerNode::GroupOutTee(g) => indexed("group", g, "_out_tee"),
            MixerNode::GroupToMainQueue(g) => indexed("group", g, "_to_main_queue"),
            MixerNode::Convert(c) => with_index("convert_", c),
            MixerNode::Caps(c) => with_index("caps_", c),
            MixerNode::Gain(c) => with_index("gain_", c),
            MixerNode::Hpf(c) => with_index("hpf_", c),
            MixerNode::Gate(c) => with_index("gate_", c),
            MixerNode::Comp(c) => with_index("comp_", c),
            MixerNode::Eq(c) => with_index("eq_", c),
            MixerNode::PreFaderTee(c) => with_index("pre_fader_tee_", c),
            MixerNode::Pan(c) => with_index("pan_", c),
            MixerNode::Volume(c) => with_index("volume_", c),
            MixerNode::PostFaderTee(c) => with_index("post_fader_tee_", c),
            MixerNode::Level(c) => with_index("level_", c),
            MixerNode::RoutingTee(c) => with_index("routing_tee_", c),
            MixerNode::PflVolume(c) => with_index("pfl_volume_", c),
            MixerNode::PflQueue(c) => with_index("pfl_queue_", c),
            MixerNode::AuxSend(c, a) => double_indexed("aux_send_", c, "_", a),
            MixerNode::AuxQueue(c, a) => double_indexed("aux_queue_", c, "_", a),
            MixerNode::ToMainVol(c) => with_index("to_main_vol_", c),
            MixerNode::ToMainQueue(c) => with_index("to_main_queue_", c),
            MixerNode::ToGrpVol(c, g) => double_indexed("to_grp", g, "_vol_", c),
            MixerNode::ToGrpQueue(c, g) => double_indexed("to_grp", g, "_queue_", c),
        }
    }

    /// The element's id in the pipeline: `{instance_id}:{name}`.
    pub fn element_id(&self, instance_id: &str) -> (r: String)
        ensures
            r@ == instance_id@ + ":"@ + node_name_spec(*self),
    {
        let name = self.name();
        crate::text::concat3(instance_id, ":", name.as_str())
    }

    /// The element's kind (see [`node_kind_spec`]).
    pub fn kind(&self) -> (r: MixerElementKind)
        ensures
            r == node_kind_spec(*self),
    {
        match *self {
            MixerNode::Mixer | MixerNode::PflMixer | MixerNode::AuxMixer(_) | MixerNode::GroupMixer(_) => MixerElementKind::AudioMixer,
            MixerNode::MainComp | MixerNode::Comp(_) => MixerElementKind::Compressor,
            MixerNode::MainEq | MixerNode::Eq(_) => MixerElementKind::Equalizer,
            MixerNode::MainLimiter => MixerElementKind::Limiter,
            MixerNode::Hpf(_) => MixerElementKind::HighPass,
            MixerNode::Gate(_) => MixerElementKind::Gate,
            MixerNode::MainVolume | MixerNode::PflMasterVol | MixerNode::AuxVolume(_) | MixerNode::GroupVolume(_)
            | MixerNode::Gain(_) | MixerNode::Volume(_) | MixerNode::PflVolume(_) | MixerNode::AuxSend(_, _)
            | MixerNode::ToMainVol(_) | MixerNode::ToGrpVol(_, _) => MixerElementKind::Volume,
            MixerNode::MainLevel | MixerNode::PflLevel | MixerNode::AuxLevel(_) | MixerNode::GroupLevel(_)
            | MixerNode::Level(_) => MixerElementKind::Level,
            MixerNode::MainOutTee | MixerNode::PflOutTee | MixerNode::AuxOutTee(_) | MixerNode::GroupOutTee(_)
            | MixerNode::PreFaderTee(_) | MixerNode::PostFaderTee(_) | MixerNode::RoutingTee(_) => MixerElementKind::Tee,
            MixerNode::GroupToMainQueue(_) | MixerNode::PflQueue(_) | MixerNode::AuxQueue(_, _) | MixerNode::ToMainQueue(_)
            | MixerNode::ToGrpQueue(_, _) => MixerElementKind::Queue,
            MixerNode::Convert(_) => MixerElementKind::AudioConvert,
            MixerNode::Caps(_) => MixerElementKind::CapsFilter,
            MixerNode::Pan(_) => MixerElementKind::Panorama,
        }
    }
}

impl MixerElementKind {
    /// The GStreamer factory of the kinds that are plain elements; the
    /// DSP kinds are made by the selected [`DspBackend`], and have none.
    pub fn factory(&self) -> (r: Option<&'static str>)
        ensures
            r is None <==> (*self == MixerElementKind::Compressor || *self == MixerElementKind::Equalizer
                || *self == MixerElementKind::Limiter || *self == MixerElementKind::HighPass
                || *self == MixerElementKind::Gate),
            *self == MixerElementKind::AudioMixer ==> r == Some("audiomixer"),
            *self == MixerElementKind::Volume ==> r == Some("volume"),
            *self == MixerElementKind::Level ==> r == Some("level"),
            *self == MixerElementKind::Tee ==> r == Some("tee"),
            *self == MixerElementKind::Queue ==> r == Some("queue"),
            *self == MixerElementKind::AudioConvert ==> r == Some("audioconvert"),
            *self == MixerElementKind::CapsFilter ==> r == Some("capsfilter"),
            *self == MixerElementKind::Panorama ==> r == Some("audiopanorama"),
    {
        match self {
            MixerElementKind::AudioMixer => Some("audiomixer"),
            MixerElementKind::Volume => Some("volume"),
            MixerElementKind::Level => Some("level"),
            MixerElementKind::Tee => Some("tee"),
            MixerElementKind::Queue => Some("queue"),
            MixerElementKind::AudioConvert => Some("audioconvert"),
            MixerElementKind::CapsFilter => Some("capsfilter"),
            MixerElementKind::Panorama => Some("audiopanorama"),
            _ => None,
        }
    }
}

// ---------------------------------------------------------------------------
// Elements and links, in the order the block creates them
// ---------------------------------------------------------------------------

/// Which pad of an element a link uses.
#[derive(Clone, Copy, Debug, PartialEq, Eq, Structural)]
pub enum PadSel {
    /// The static `src` pad.
    Src,
    /// The static `sink` pad.
    Sink,
    /// A new request pad (of a tee or a mixer).
    Request,
}

/// One end of a link.
#[derive(Clone, Copy, Debug, PartialEq, Eq, Structural)]
pub struct PadRef {
    pub node: MixerNode,
    pub pad: PadSel,
}

/// A link from one element's pad to another's.
#[derive(Clone, Copy, Debug, PartialEq, Eq, Structural)]
pub struct MixerLink {
    pub from: PadRef,
    pub to: PadRef,
}

/// The `src` pad of `n`.
pub open spec fn src(n: MixerNode) -> PadRef {
    PadRef { node: n, pad: PadSel::Src }
}

/// The `sink` pad of `n`.
pub open spec fn sink(n: MixerNode) -> PadRef {
    PadRef { node: n, pad: PadSel::Sink }
}

/// A request pad of `n`.
pub open spec fn req(n: MixerNode) -> PadRef {
    PadRef { node: n, pad: PadSel::Request }
}

/// The link from `a` to `b`.
pub open spec fn link(a: PadRef, b: PadRef) -> MixerLink {
    MixerLink { from: a, to: b }
}

/// `f(0) + f(1) + ... + f(n - 1)`.
pub open spec fn concat_blocks<T>(n: nat, f: spec_fn(nat) -> Seq<T>) -> Seq<T>
    decreases n,
{
    if n == 0 {
        Seq::empty()
    } else {
        concat_blocks((n - 1) as nat, f) + f((n - 1) as nat)
    }
}

/// The main bus: mixer, compressor, EQ, limiter, master volume, meter and
/// output tee.
pub open spec fn main_elements() -> Seq<MixerNode> {
    seq![
        MixerNode::Mixer,
        MixerNode::MainComp,
        MixerNode::MainEq,
        MixerNode::MainLimiter,
        MixerNode::MainVolume,
        MixerNode::MainLevel,
        MixerNode::MainOutTee,
    ]
}

/// The main bus chain, from the mixer to the output tee.
pub open spec fn main_links() -> Seq<MixerLink> {
    seq![
        link(src(MixerNode::Mixer), sink(MixerNode::MainComp)),
        link(src(MixerNode::MainComp), sink(MixerNode::MainEq)),
        link(src(MixerNode::MainEq), sink(MixerNode::MainLimiter)),
        link(src(MixerNode::MainLimiter), sink(MixerNode::MainVolume)),
        link(src(MixerNode::MainVolume), sink(MixerNode::MainLevel)),
        link(src(MixerNode::MainLevel), sink(MixerNode::MainOutTee)),
    ]
}

/// The solo (PFL/AFL) bus.
pub open spec fn pfl_elements() -> Seq<MixerNode> {
    seq![MixerNode::PflMixer, MixerNode::PflMasterVol, MixerNode::PflLevel, MixerNode::PflOutTee]
}

/// The solo bus chain.
pub open spec fn pfl_links() -> Seq<MixerLink> {
    seq![
        link(src(MixerNode::PflMixer), sink(MixerNode::PflMasterVol)),
        link(src(MixerNode::PflMasterVol), sink(MixerNode::PflLevel)),
        link(src(MixerNode::PflLevel), sink(MixerNode::PflOutTee)),
    ]
}

/// Aux bus `a`.
pub open spec fn aux_bus_elements() -> spec_fn(nat) -> Seq<MixerNode> {
    |a: nat|
        seq![
            MixerNode::AuxMixer(a as usize),
            MixerNode::AuxVolume(a as usize),
            MixerNode::AuxLevel(a as usize),
            MixerNode::AuxOutTee(a as usize),
        ]
}

/// Aux bus `a`'s chain.
pub open spec fn aux_bus_links() -> spec_fn(nat) -> Seq<MixerLink> {
    |a: nat|
        seq![
            link(src(MixerNode::AuxMixer(a as usize)), sink(MixerNode::AuxVolume(a as usize))),
            link(src(MixerNode::AuxVolume(a as usize)), sink(MixerNode::AuxLevel(a as usize))),
            link(src(MixerNode::AuxLevel(a as usize)), sink(MixerNode::AuxOutTee(a as usize))),
        ]
}

/// Group `g`.
pub open spec fn group_elements() -> spec_fn(nat) -> Seq<MixerNode> {
    |g: nat|
        seq![
            MixerNode::GroupMixer(g as usize),
            MixerNode::GroupVolume(g as usize),
            MixerNode::GroupLevel(g as usize),
            MixerNode::GroupOutTee(g as usize),
            MixerNode::GroupToMainQueue(g as usize),
        ]
}

/// Group `g`'s chain, whose tee also feeds the main mixer through a queue.
pub open spec fn group_links() -> spec_fn(nat) -> Seq<MixerLink> {
    |g: nat|
        seq![
            link(src(MixerNode::GroupMixer(g as usize)), sink(MixerNode::GroupVolume(g as usize))),
            link(src(MixerNode::GroupVolume(g as usize)), sink(MixerNode::GroupLevel(g as usize))),
            link(src(MixerNode::GroupLevel(g as usize)), sink(MixerNode::GroupOutTee(g as usize))),
            link(req(MixerNode::GroupOutTee(g as usize)), sink(MixerNode::GroupToMainQueue(g as usize))),
            link(src(MixerNode::GroupToMainQueue(g as usize)), req(MixerNode::Mixer)),
        ]
}

/// The fixed part of channel `c`: its processing chain, its tees, its
/// meter and its solo tap.
pub open spec fn channel_strip(c: usize) -> Seq<MixerNode> {
    seq![
        MixerNode::Convert(c),
        MixerNode::Caps(c),
        MixerNode::Gain(c),
        MixerNode::Hpf(c),
        MixerNode::Gate(c),
        MixerNode::Comp(c),
        MixerNode::Eq(c),
        MixerNode::PreFaderTee(c),
        MixerNode::Pan(c),
        MixerNode::Volume(c),
        MixerNode::PostFaderTee(c),
        MixerNode::Level(c),
        MixerNode::RoutingTee(c),
        MixerNode::PflVolume(c),
        MixerNode::PflQueue(c),
    ]
}

/// Channel `c`'s send to aux bus `a`.
pub open spec fn channel_aux_elements(c: usize) -> spec_fn(nat) -> Seq<MixerNode> {
    |a: nat| seq![MixerNode::AuxSend(c, a as usize), MixerNode::AuxQueue(c, a as usize)]
}

/// Channel `c`'s route to group `g`.
pub open spec fn channel_group_elements(c: usize) -> spec_fn(nat) -> Seq<MixerNode> {
    |g: nat| seq![MixerNode::ToGrpVol(c, g as usize), MixerNode::ToGrpQueue(c, g as usize)]
}

/// All elements of channel `c`.
pub open spec fn channel_elements(c: usize, na: nat, ng: nat) -> Seq<MixerNode> {
    channel_strip(c) + concat_blocks(na, channel_aux_elements(c)) + seq![MixerNode::ToMainVol(c), MixerNode::ToMainQueue(c)]
        + concat_blocks(ng, channel_group_elements(c))
}

/// Channel `c`'s send to aux bus `a`, from the tee before the fader when
/// `pre(a)`, else from the tee after it.
pub open spec fn channel_aux_links(c: usize, pre: spec_fn(nat) -> bool) -> spec_fn(nat) -> Seq<MixerLink> {
    |a: nat|
        seq![
            link(
                req(if pre(a) { MixerNode::PreFaderTee(c) } else { MixerNode::PostFaderTee(c) }),
                sink(MixerNode::AuxSend(c, a as usize)),
            ),
            link(src(MixerNode::AuxSend(c, a as usize)), sink(MixerNode::AuxQueue(c, a as usize))),
            link(src(MixerNode::AuxQueue(c, a as usize)), req(MixerNode::AuxMixer(a as usize))),
        ]
}

/// Channel `c`'s processing chain: convert, caps, gain, high-pass, gate,
/// compressor, EQ, pre-fader tee, pan, fader, post-fader tee, meter,
/// routing tee.
pub open spec fn channel_chain_links(c: usize) -> Seq<MixerLink> {
    seq![
        link(src(MixerNode::Convert(c)), sink(MixerNode::Caps(c))),
        link(src(MixerNode::Caps(c)), sink(MixerNode::Gain(c))),
        link(src(MixerNode::Gain(c)), sink(MixerNode::Hpf(c))),
        link(src(MixerNode::Hpf(c)), sink(MixerNode::Gate(c))),
        link(src(MixerNode::Gate(c)), sink(MixerNode::Comp(c))),
        link(src(MixerNode::Comp(c)), sink(MixerNode::Eq(c))),
        link(src(MixerNode::Eq(c)), sink(MixerNode::PreFaderTee(c))),
        link(req(MixerNode::PreFaderTee(c)), sink(MixerNode::Pan(c))),
        link(src(MixerNode::Pan(c)), sink(MixerNode::Volume(c))),
        link(src(MixerNode::Volume(c)), sink(MixerNode::PostFaderTee(c))),
        link(req(MixerNode::PostFaderTee(c)), sink(MixerNode::Level(c))),
        link(src(MixerNode::Level(c)), sink(MixerNode::RoutingTee(c))),
    ]
}

/// Channel `c`'s solo tap, from after the fader in AFL mode, else from
/// before it; then on to the solo mixer.
pub open spec fn channel_solo_links(c: usize, afl: bool) -> Seq<MixerLink> {
    seq![
        link(req(if afl { MixerNode::PostFaderTee(c) } else { MixerNode::PreFaderTee(c) }), sink(MixerNode::PflVolume(c))),
        link(src(MixerNode::PflVolume(c)), sink(MixerNode::PflQueue(c))),
        link(src(MixerNode::PflQueue(c)), req(MixerNode::PflMixer)),
    ]
}

/// Channel `c`'s route to the main mixer.
pub open spec fn channel_main_links(c: usize) -> Seq<MixerLink> {
    seq![
        link(req(MixerNode::RoutingTee(c)), sink(MixerNode::ToMainVol(c))),
        link(src(MixerNode::ToMainVol(c)), sink(MixerNode::ToMainQueue(c))),
        link(src(MixerNode::ToMainQueue(c)), req(MixerNode::Mixer)),
    ]
}

/// Channel `c`'s route to group `g`.
pub open spec fn channel_group_links(c: usize) -> spec_fn(nat) -> Seq<MixerLink> {
    |g: nat|
        seq![
            link(req(MixerNode::RoutingTee(c)), sink(MixerNode::ToGrpVol(c, g as usize))),
            link(src(MixerNode::ToGrpVol(c, g as usize)), sink(MixerNode::ToGrpQueue(c, g as usize))),
            link(src(MixerNode::ToGrpQueue(c, g as usize)), req(MixerNode::GroupMixer(g as usize))),
        ]
}

/// All links of channel `c`.
pub open spec fn channel_links(c: usize, na: nat, ng: nat, afl: bool, pre: spec_fn(nat) -> bool) -> Seq<MixerLink> {
    concat_blocks(na, channel_aux_links(c, pre)) + channel_chain_links(c) + channel_solo_links(c, afl)
        + channel_main_links(c) + concat_blocks(ng, channel_group_links(c))
}

/// Whether channel `c` sends to aux bus `a` before the fader.
pub open spec fn aux_pre_of(aux_pre: Seq<Vec<bool>>, c: nat) -> spec_fn(nat) -> bool {
    |a: nat| aux_pre[c as int]@[a as int]
}

/// Every element of the block, in the order it creates them: main bus,
/// solo bus, aux buses, groups, channels.
pub open spec fn mixer_elements_spec(nc: nat, na: nat, ng: nat) -> Seq<MixerNode> {
    main_elements() + pfl_elements() + concat_blocks(na, aux_bus_elements()) + concat_blocks(ng, group_elements())
        + concat_blocks(nc, |c: nat| channel_elements(c as usize, na, ng))
}

/// Every internal link of the block, in the order it makes them.
pub open spec fn mixer_links_spec(nc: nat, na: nat, ng: nat, afl: bool, aux_pre: Seq<Vec<bool>>) -> Seq<MixerLink> {
    main_links() + pfl_links() + concat_blocks(na, aux_bus_links()) + concat_blocks(ng, group_links())
        + concat_blocks(nc, |c: nat| channel_links(c as usize, na, ng, afl, aux_pre_of(aux_pre, c)))
}

/// The elements and internal links of a mixer block.
pub struct MixerGraph {
    pub elements: Vec<MixerNode>,
    pub links: Vec<MixerLink>,
}

/// Appends `block` to `v`.
fn push_all<T: Copy>(v: &mut Vec<T>, block: &Vec<T>)
    ensures
        final(v)@ == old(v)@ + block@,
{
    let ghost v0 = v@;
    let mut i: usize = 0;
    while i < block.len()
        invariant
            i <= block@.len(),
            v@ == v0 + block@.subrange(0, i as int),
        decreases block.len() - i,
    {
        v.push(block[i]);
        i = i + 1;
        assert(v@ =~= v0 + block@.subrange(0, i as int));
    }
    assert(block@.subrange(0, block@.len() as int) =~= block@);
}

/// Appends the elements of channel `c`.
fn push_channel_elements(v: &mut Vec<MixerNode>, c: usize, na: usize, ng: usize)
    ensures
        final(v)@ == old(v)@ + channel_elements(c, na as nat, ng as nat),
{
    let ghost v0 = v@;
    let strip = vec![
        MixerNode::Convert(c),
        MixerNode::Caps(c),
        MixerNode::Gain(c),
        MixerNode::Hpf(c),
        MixerNode::Gate(c),
        MixerNode::Comp(c),
        MixerNode::Eq(c),
        MixerNode::PreFaderTee(c),
        MixerNode::Pan(c),
        MixerNode::Volume(c),
        MixerNode::PostFaderTee(c),
        MixerNode::Level(c),
        MixerNode::RoutingTee(c),
        MixerNode::PflVolume(c),
        MixerNode::PflQueue(c),
    ];
    assert(strip@ =~= channel_strip(c));
    push_all(v, &strip);
    let mut a: usize = 0;
    while a < na
        invariant
            a <= na,
            v@ == v0 + channel_strip(c) + concat_blocks(a as nat, channel_aux_elements(c)),
        decreases na - a,
    {
        v.push(MixerNode::AuxSend(c, a));
        v.push(MixerNode::AuxQueue(c, a));
        assert(concat_blocks((a + 1) as nat, channel_aux_elements(c)) == concat_blocks(a as nat, channel_aux_elements(c))
            + channel_aux_elements(c)(a as nat));
        a = a + 1;
        assert(v@ =~= v0 + channel_strip(c) + concat_blocks(a as nat, channel_aux_elements(c)));
    }
    v.push(MixerNode::ToMainVol(c));
    v.push(MixerNode::ToMainQueue(c));
    let ghost v1 = v@;
    assert(v1 =~= v0 + channel_strip(c) + concat_blocks(na as nat, channel_aux_elements(c)) + seq![
        MixerNode::ToMainVol(c),
        MixerNode::ToMainQueue(c),
    ]);
    let mut g: usize = 0;
    while g < ng
        invariant
            g <= ng,
            v@ == v1 + concat_blocks(g as nat, channel_group_elements(c)),
        decreases ng - g,
    {
        v.push(MixerNode::ToGrpVol(c, g));
        v.push(MixerNode::ToGrpQueue(c, g));
        assert(concat_blocks((g + 1) as nat, channel_group_elements(c)) == concat_blocks(g as nat, channel_group_elements(c))
            + channel_group_elements(c)(g as nat));
        g = g + 1;
        assert(v@ =~= v1 + concat_blocks(g as nat, channel_group_elements(c)));
    }
    assert(v@ =~= v0 + channel_elements(c, na as nat, ng as nat));
}

/// The elements of a mixer with `nc` channels, `na` aux buses and `ng`
/// groups, in the order the block creates them.
pub fn mixer_elements(nc: usize, na: usize, ng: usize) -> (r: Vec<MixerNode>)
    ensures
        r@ == mixer_elements_spec(nc as nat, na as nat, ng as nat),
{
    let mut v: Vec<MixerNode> = vec![
        MixerNode::Mixer,
        MixerNode::MainComp,
        MixerNode::MainEq,
        MixerNode::MainLimiter,
        MixerNode::MainVolume,
        MixerNode::MainLevel,
        MixerNode::MainOutTee,
        MixerNode::PflMixer,
        MixerNode::PflMasterVol,
        MixerNode::PflLevel,
        MixerNode::PflOutTee,
    ];
    let ghost v0 = v@;
    assert(v0 =~= main_elements() + pfl_elements());
    let mut a: usize = 0;
    while a < na
        invariant
            a <= na,
            v@ == v0 + concat_blocks(a as nat, aux_bus_elements()),
        decreases na - a,
    {
        v.push(MixerNode::AuxMixer(a));
        v.push(MixerNode::AuxVolume(a));
        v.push(MixerNode::AuxLevel(a));
        v.push(MixerNode::AuxOutTee(a));
        assert(concat_blocks((a + 1) as nat, aux_bus_elements()) == concat_blocks(a as nat, aux_bus_elements())
            + aux_bus_elements()(a as nat));
        a = a + 1;
        assert(v@ =~= v0 + concat_blocks(a as nat, aux_bus_elements()));
    }
    let ghost v1 = v@;
    let mut g: usize = 0;
    while g < ng
        invariant
            g <= ng,
            v@ == v1 + concat_blocks(g as nat, group_elements()),
        decreases ng - g,
    {
        v.push(MixerNode::GroupMixer(g));
        v.push(MixerNode::GroupVolume(g));
        v.push(MixerNode::GroupLevel(g));
        v.push(MixerNode::GroupOutTee(g));
        v.push(MixerNode::GroupToMainQueue(g));
        assert(concat_blocks((g + 1) as nat, group_elements()) == concat_blocks(g as nat, group_elements())
            + group_elements()(g as nat));
        g = g + 1;
        assert(v@ =~= v1 + concat_blocks(g as nat, group_elements()));
    }
    let ghost v2 = v@;
    let ghost f = |c: nat| channel_elements(c as usize, na as nat, ng as nat);
    let mut c: usize = 0;
    while c < nc
        invariant
            c <= nc,
            v@ == v2 + concat_blocks(c as nat, f),
            f == (|c: nat| channel_elements(c as usize, na as nat, ng as nat)),
        decreases nc - c,
    {
        push_channel_elements(&mut v, c, na, ng);
        assert(concat_blocks((c + 1) as nat, f) == concat_blocks(c as nat, f) + f(c as nat));
        c = c + 1;
        assert(v@ =~= v2 + concat_blocks(c as nat, f));
    }
    assert(v@ =~= mixer_elements_spec(nc as nat, na as nat, ng as nat));
    v
}

/// The exec form of a link.
fn mk_link(from: MixerNode, from_pad: PadSel, to: MixerNode, to_pad: PadSel) -> (r: MixerLink)
    ensures
        r == link(PadRef { node: from, pad: from_pad }, PadRef { node: to, pad: to_pad }),
{
    MixerLink { from: PadRef { node: from, pad: from_pad }, to: PadRef { node: to, pad: to_pad } }
}

/// Appends the links of channel `c`.
fn push_channel_links(v: &mut Vec<MixerLink>, c: usize, na: usize, ng: usize, afl: bool, pre: &Vec<bool>)
    requires
        pre@.len() == na,
    ensures
        final(v)@ == old(v)@ + channel_links(c, na as nat, ng as nat, afl, |a: nat| pre@[a as int]),
{
    let ghost v0 = v@;
    let ghost p = |a: nat| pre@[a as int];
    let mut a: usize = 0;
    while a < na
        invariant
            a <= na,
            pre@.len() == na,
            p == (|a: nat| pre@[a as int]),
            v@ == v0 + concat_blocks(a as nat, channel_aux_links(c, p)),
        decreases na - a,
    {
        let from = if pre[a] {
            MixerNode::PreFaderTee(c)
        } else {
            MixerNode::PostFaderTee(c)
        };
        v.push(mk_link(from, PadSel::Request, MixerNode::AuxSend(c, a), PadSel::Sink));
        v.push(mk_link(MixerNode::AuxSend(c, a), PadSel::Src, MixerNode::AuxQueue(c, a), PadSel::Sink));
        v.push(mk_link(MixerNode::AuxQueue(c, a), PadSel::Src, MixerNode::AuxMixer(a), PadSel::Request));
        assert(concat_blocks((a + 1) as nat, channel_aux_links(c, p)) == concat_blocks(a as nat, channel_aux_links(c, p))
            + channel_aux_links(c, p)(a as nat));
        a = a + 1;
        assert(v@ =~= v0 + concat_blocks(a as nat, channel_aux_links(c, p)));
    }
    let fixed = vec![
        mk_link(MixerNode::Convert(c), PadSel::Src, MixerNode::Caps(c), PadSel::Sink),
        mk_link(MixerNode::Caps(c), PadSel::Src, MixerNode::Gain(c), PadSel::Sink),
        mk_link(MixerNode::Gain(c), PadSel::Src, MixerNode::Hpf(c), PadSel::Sink),
        mk_link(MixerNode::Hpf(c), PadSel::Src, MixerNode::Gate(c), PadSel::Sink),
        mk_link(MixerNode::Gate(c), PadSel::Src, MixerNode::Comp(c), PadSel::Sink),
        mk_link(MixerNode::Comp(c), PadSel::Src, MixerNode::Eq(c), PadSel::Sink),
        mk_link(MixerNode::Eq(c), PadSel::Src, MixerNode::PreFaderTee(c), PadSel::Sink),
        mk_link(MixerNode::PreFaderTee(c), PadSel::Request, MixerNode::Pan(c), PadSel::Sink),
        mk_link(MixerNode::Pan(c), PadSel::Src, MixerNode::Volume(c), PadSel::Sink),
        mk_link(MixerNode::Volume(c), PadSel::Src, MixerNode::PostFaderTee(c), PadSel::Sink),
        mk_link(MixerNode::PostFaderTee(c), PadSel::Request, MixerNode::Level(c), PadSel::Sink),
        mk_link(MixerNode::Level(c), PadSel::Src, MixerNode::RoutingTee(c), PadSel::Sink),
        mk_link(
            if afl {
                MixerNode::PostFaderTee(c)
            } else {
                MixerNode::PreFaderTee(c)
            },
            PadSel::Request,
            MixerNode::PflVolume(c),
            PadSel::Sink,
        ),
        mk_link(MixerNode::PflVolume(c), PadSel::Src, MixerNode::PflQueue(c), PadSel::Sink),
        mk_link(MixerNode::PflQueue(c), PadSel::Src, MixerNode::PflMixer, PadSel::Request),
        mk_link(MixerNode::RoutingTee(c), PadSel::Request, MixerNode::ToMainVol(c), PadSel::Sink),
        mk_link(MixerNode::ToMainVol(c), PadSel::Src, MixerNode::ToMainQueue(c), PadSel::Sink),
        mk_link(MixerNode::ToMainQueue(c), PadSel::Src, MixerNode::Mixer, PadSel::Request),
    ];
    assert(fixed@ =~= channel_chain_links(c) + channel_solo_links(c, afl) + channel_main_links(c));
    push_all(v, &fixed);
    let ghost v1 = v@;
    let mut g: usize = 0;
    while g < ng
        invariant
            g <= ng,
            v@ == v1 + concat_blocks(g as nat, channel_group_links(c)),
        decreases ng - g,
    {
        v.push(mk_link(MixerNode::RoutingTee(c), PadSel::Request, MixerNode::ToGrpVol(c, g), PadSel::Sink));
        v.push(mk_link(MixerNode::ToGrpVol(c, g), PadSel::Src, MixerNode::ToGrpQueue(c, g), PadSel::Sink));
        v.push(mk_link(MixerNode::ToGrpQueue(c, g), PadSel::Src, MixerNode::GroupMixer(g), PadSel::Request));
        assert(concat_blocks((g + 1) as nat, channel_group_links(c)) == concat_blocks(g as nat, channel_group_links(c))
            + channel_group_links(c)(g as nat));
        g = g + 1;
        assert(v@ =~= v1 + concat_blocks(g as nat, channel_group_links(c)));
    }
    assert(v@ =~= v0 + channel_links(c, na as nat, ng as nat, afl, p));
}

/// The internal links of a mixer with `nc` channels, `na` aux buses and
/// `ng` groups, in the order the block makes them. The solo bus taps the
/// channels after their faders when `afl`, else before; channel `c` sends
/// to aux bus `a` before its fader when `aux_pre[c][a]`, else after.
pub fn mixer_links(nc: usize, na: usize, ng: usize, afl: bool, aux_pre: &Vec<Vec<bool>>) -> (r: Vec<MixerLink>)
    requires
        aux_pre@.len() == nc,
        forall|c: int| 0 <= c < nc ==> (#[trigger] aux_pre@[c])@.len() == na,
    ensures
        r@ == mixer_links_spec(nc as nat, na as nat, ng as nat, afl, aux_pre@),
{
    let mut v: Vec<MixerLink> = vec![
        mk_link(MixerNode::Mixer, PadSel::Src, MixerNode::MainComp, PadSel::Sink),
        mk_link(MixerNode::MainComp, PadSel::Src, MixerNode::MainEq, PadSel::Sink),
        mk_link(MixerNode::MainEq, PadSel::Src, MixerNode::MainLimiter, PadSel::Sink),
        mk_link(MixerNode::MainLimiter, PadSel::Src, MixerNode::MainVolume, PadSel::Sink),
        mk_link(MixerNode::MainVolume, PadSel::Src, MixerNode::MainLevel, PadSel::Sink),
        mk_link(MixerNode::MainLevel, PadSel::Src, MixerNode::MainOutTee, PadSel::Sink),
        mk_link(MixerNode::PflMixer, PadSel::Src, MixerNode::PflMasterVol, PadSel::Sink),
        mk_link(MixerNode::PflMasterVol, PadSel::Src, MixerNode::PflLevel, PadSel::Sink),
        mk_link(MixerNode::PflLevel, PadSel::Src, MixerNode::PflOutTee, PadSel::Sink),
    ];
    let ghost v0 = v@;
    assert(v0 =~= main_links() + pfl_links());
    let mut a: usize = 0;
    while a < na
        invariant
            a <= na,
            v@ == v0 + concat_blocks(a as nat, aux_bus_links()),
        decreases na - a,
    {
        v.push(mk_link(MixerNode::AuxMixer(a), PadSel::Src, MixerNode::AuxVolume(a), PadSel::Sink));
        v.push(mk_link(MixerNode::AuxVolume(a), PadSel::Src, MixerNode::AuxLevel(a), PadSel::Sink));
        v.push(mk_link(MixerNode::AuxLevel(a), PadSel::Src, MixerNode::AuxOutTee(a), PadSel::Sink));
        assert(concat_blocks((a + 1) as nat, aux_bus_links()) == concat_blocks(a as nat, aux_bus_links())
            + aux_bus_links()(a as nat));
        a = a + 1;
        assert(v@ =~= v0 + concat_blocks(a as nat, aux_bus_links()));
    }
    let ghost v1 = v@;
    let mut g: usize = 0;
    while g < ng
        invariant
            g <= ng,
            v@ == v1 + concat_blocks(g as nat, group_links()),
        decreases ng - g,
    {
        v.push(mk_link(MixerNode::GroupMixer(g), PadSel::Src, MixerNode::GroupVolume(g), PadSel::Sink));
        v.push(mk_link(MixerNode::GroupVolume(g), PadSel::Src, MixerNode::GroupLevel(g), PadSel::Sink));
        v.push(mk_link(MixerNode::GroupLevel(g), PadSel::Src, MixerNode::GroupOutTee(g), PadSel::Sink));
        v.push(mk_link(MixerNode::GroupOutTee(g), PadSel::Request, MixerNode::GroupToMainQueue(g), PadSel::Sink));
        v.push(mk_link(MixerNode::GroupToMainQueue(g), PadSel::Src, MixerNode::Mixer, PadSel::Request));
        assert(concat_blocks((g + 1) as nat, group_links()) == concat_blocks(g as nat, group_links())
            + group_links()(g as nat));
        g = g + 1;
        assert(v@ =~= v1 + concat_blocks(g as nat, group_links()));
    }
    let ghost v2 = v@;
    let ghost f = |c: nat| channel_links(c as usize, na as nat, ng as nat, afl, aux_pre_of(aux_pre@, c));
    let mut c: usize = 0;
    while c < nc
        invariant
            c <= nc,
            aux_pre@.len() == nc,
            forall|k: int| 0 <= k < nc ==> (#[trigger] aux_pre@[k])@.len() == na,
            v@ == v2 + concat_blocks(c as nat, f),
            f == (|c: nat| channel_links(c as usize, na as nat, ng as nat, afl, aux_pre_of(aux_pre@, c))),
        decreases nc - c,
    {
        push_channel_links(&mut v, c, na, ng, afl, &aux_pre[c]);
        assert((|a: nat| aux_pre@[c as int]@[a as int]) == aux_pre_of(aux_pre@, c as nat));
        assert(concat_blocks((c + 1) as nat, f) == concat_blocks(c as nat, f) + f(c as nat));
        c = c + 1;
        assert(v@ =~= v2 + concat_blocks(c as nat, f));
    }
    assert(v@ =~= mixer_links_spec(nc as nat, na as nat, ng as nat, afl, aux_pre@));
    v
}

/// The elements and links of a mixer block (see [`mixer_elements`] and
/// [`mixer_links`]).
pub fn mixer_graph(nc: usize, na: usize, ng: usize, afl: bool, aux_pre: &Vec<Vec<bool>>) -> (r: MixerGraph)
    requires
        aux_pre@.len() == nc,
        forall|c: int| 0 <= c < nc ==> (#[trigger] aux_pre@[c])@.len() == na,
    ensures
        r.elements@ == mixer_elements_spec(nc as nat, na as nat, ng as nat),
        r.links@ == mixer_links_spec(nc as nat, na as nat, ng as nat, afl, aux_pre@),
{
    MixerGraph { elements: mixer_elements(nc, na, ng), links: mixer_links(nc, na, ng, afl, aux_pre) }
}

// ---------------------------------------------------------------------------
// The graph is closed: every link joins two created elements
// ---------------------------------------------------------------------------

/// Whether a node belongs to a mixer with `nc` channels, `na` aux buses and
/// `ng` groups (its indices are in range).
pub open spec fn node_in_mixer(n: MixerNode, nc: nat, na: nat, ng: nat) -> bool {
    match n {
        MixerNode::AuxMixer(a) | MixerNode::AuxVolume(a) | MixerNode::AuxLevel(a) | MixerNode::AuxOutTee(a) => a < na,
        MixerNode::GroupMixer(g) | MixerNode::GroupVolume(g) | MixerNode::GroupLevel(g) | MixerNode::GroupOutTee(g)
        | MixerNode::GroupToMainQueue(g) => g < ng,
        MixerNode::Convert(c) | MixerNode::Caps(c) | MixerNode::Gain(c) | MixerNode::Hpf(c) | MixerNode::Gate(c)
        | MixerNode::Comp(c) | MixerNode::Eq(c) | MixerNode::PreFaderTee(c) | MixerNode::Pan(c) | MixerNode::Volume(c)
        | MixerNode::PostFaderTee(c) | MixerNode::Level(c) | MixerNode::RoutingTee(c) | MixerNode::PflVolume(c)
        | MixerNode::PflQueue(c) | MixerNode::ToMainVol(c) | MixerNode::ToMainQueue(c) => c < nc,
        MixerNode::AuxSend(c, a) | MixerNode::AuxQueue(c, a) => c < nc && a < na,
        MixerNode::ToGrpVol(c, g) | MixerNode::ToGrpQueue(c, g) => c < nc && g < ng,
        _ => true,
    }
}

/// Whether both ends of a link belong to the mixer.
pub open spec fn link_in_mixer(l: MixerLink, nc: nat, na: nat, ng: nat) -> bool {
    node_in_mixer(l.from.node, nc, na, ng) && node_in_mixer(l.to.node, nc, na, ng)
}

/// An element of either part is an element of the concatenation.
proof fn lemma_add_contains<T>(a: Seq<T>, b: Seq<T>, x: T)
    ensures
        a.contains(x) ==> (a + b).contains(x),
        b.contains(x) ==> (a + b).contains(x),
{
    if a.contains(x) {
        let i = choose|i: int| 0 <= i < a.len() && a[i] == x;
        assert((a + b)[i] == x);
    }
    if b.contains(x) {
        let i = choose|i: int| 0 <= i < b.len() && b[i] == x;
        assert((a + b)[a.len() + i] == x);
    }
}

/// An element of one block is an element of the blocks' concatenation.
proof fn lemma_concat_contains<T>(n: nat, f: spec_fn(nat) -> Seq<T>, i: nat, x: T)
    requires
        i < n,
        f(i).contains(x),
    ensures
        concat_blocks(n, f).contains(x),
    decreases n,
{
    let prev = concat_blocks((n - 1) as nat, f);
    lemma_add_contains(prev, f((n - 1) as nat), x);
    if i < n - 1 {
        lemma_concat_contains((n - 1) as nat, f, i, x);
    }
}

/// A property of every item of every block holds of every item of the
/// blocks' concatenation.
proof fn lemma_concat_all<T>(n: nat, f: spec_fn(nat) -> Seq<T>, p: spec_fn(T) -> bool)
    requires
        forall|i: nat, j: int| i < n && 0 <= j < f(i).len() ==> #[trigger] p(f(i)[j]),
    ensures
        forall|k: int| 0 <= k < concat_blocks(n, f).len() ==> #[trigger] p(concat_blocks(n, f)[k]),
    decreases n,
{
    if n > 0 {
        let prev = concat_blocks((n - 1) as nat, f);
        let last = f((n - 1) as nat);
        lemma_concat_all((n - 1) as nat, f, p);
        assert forall|k: int| 0 <= k < concat_blocks(n, f).len() implies #[trigger] p(concat_blocks(n, f)[k]) by {
            if k < prev.len() {
                assert(concat_blocks(n, f)[k] == prev[k]);
            } else {
                assert(concat_blocks(n, f)[k] == last[k - prev.len()]);
                assert(p(f((n - 1) as nat)[k - prev.len()]));
            }
        }
    }
}

/// A property of every item of both parts holds of every item of the
/// concatenation.
proof fn lemma_add_all<T>(a: Seq<T>, b: Seq<T>, p: spec_fn(T) -> bool)
    requires
        forall|k: int| 0 <= k < a.len() ==> #[trigger] p(a[k]),
        forall|k: int| 0 <= k < b.len() ==> #[trigger] p(b[k]),
    ensures
        forall|k: int| 0 <= k < (a + b).len() ==> #[trigger] p((a + b)[k]),
{
    assert forall|k: int| 0 <= k < (a + b).len() implies #[trigger] p((a + b)[k]) by {
        if k < a.len() {
            assert((a + b)[k] == a[k]);
        } else {
            assert((a + b)[k] == b[k - a.len()]);
        }
    }
}

/// Every element of channel `c` that belongs to the mixer is one of the
/// channel's elements.
proof fn lemma_channel_has_node(c: usize, na: nat, ng: nat, n: MixerNode)
    requires
        match n {
            MixerNode::Convert(x) | MixerNode::Caps(x) | MixerNode::Gain(x) | MixerNode::Hpf(x) | MixerNode::Gate(x)
            | MixerNode::Comp(x) | MixerNode::Eq(x) | MixerNode::PreFaderTee(x) | MixerNode::Pan(x) | MixerNode::Volume(x)
            | MixerNode::PostFaderTee(x) | MixerNode::Level(x) | MixerNode::RoutingTee(x) | MixerNode::PflVolume(x)
            | MixerNode::PflQueue(x) | MixerNode::ToMainVol(x) | MixerNode::ToMainQueue(x) => x == c,
            MixerNode::AuxSend(x, a) | MixerNode::AuxQueue(x, a) => x == c && a < na,
            MixerNode::ToGrpVol(x, g) | MixerNode::ToGrpQueue(x, g) => x == c && g < ng,
            _ => false,
        },
    ensures
        channel_elements(c, na, ng).contains(n),
{
    let strip = channel_strip(c);
    let ca = concat_blocks(na, channel_aux_elements(c));
    let tm = seq![MixerNode::ToMainVol(c), MixerNode::ToMainQueue(c)];
    let cg = concat_blocks(ng, channel_group_elements(c));
    lemma_add_contains(strip, ca, n);
    lemma_add_contains(strip + ca, tm, n);
    lemma_add_contains(strip + ca + tm, cg, n);
    match n {
        MixerNode::AuxSend(x, a) => {
            assert(channel_aux_elements(c)(a as nat)[0] == n);
            lemma_concat_contains(na, channel_aux_elements(c), a as nat, n);
        },
        MixerNode::AuxQueue(x, a) => {
            assert(channel_aux_elements(c)(a as nat)[1] == n);
            lemma_concat_contains(na, channel_aux_elements(c), a as nat, n);
        },
        MixerNode::ToGrpVol(x, g) => {
            assert(channel_group_elements(c)(g as nat)[0] == n);
            lemma_concat_contains(ng, channel_group_elements(c), g as nat, n);
        },
        MixerNode::ToGrpQueue(x, g) => {
            assert(channel_group_elements(c)(g as nat)[1] == n);
            lemma_concat_contains(ng, channel_group_elements(c), g as nat, n);
        },
        MixerNode::ToMainVol(x) => {
            assert(tm[0] == n);
        },
        MixerNode::ToMainQueue(x) => {
            assert(tm[1] == n);
        },
        _ => {
            assert(strip[0] == MixerNode::Convert(c));
            assert(strip[1] == MixerNode::Caps(c));
            assert(strip[2] == MixerNode::Gain(c));
            assert(strip[3] == MixerNode::Hpf(c));
            assert(strip[4] == MixerNode::Gate(c));
            assert(strip[5] == MixerNode::Comp(c));
            assert(strip[6] == MixerNode::Eq(c));
            assert(strip[7] == MixerNode::PreFaderTee(c));
            assert(strip[8] == MixerNode::Pan(c));
            assert(strip[9] == MixerNode::Volume(c));
            assert(strip[10] == MixerNode::PostFaderTee(c));
            assert(strip[11] == MixerNode::Level(c));
            assert(strip[12] == MixerNode::RoutingTee(c));
            assert(strip[13] == MixerNode::PflVolume(c));
            assert(strip[14] == MixerNode::PflQueue(c));
        },
    }
}

/// Every node that belongs to the mixer is among the elements it creates.
pub proof fn lemma_node_created(nc: nat, na: nat, ng: nat, n: MixerNode)
    requires
        node_in_mixer(n, nc, na, ng),
    ensures
        mixer_elements_spec(nc, na, ng).contains(n),
{
    let m = main_elements();
    let p = pfl_elements();
    let a = concat_blocks(na, aux_bus_elements());
    let g = concat_blocks(ng, group_elements());
    let fc = |c: nat| channel_elements(c as usize, na, ng);
    let ch = concat_blocks(nc, fc);
    lemma_add_contains(m, p, n);
    lemma_add_contains(m + p, a, n);
    lemma_add_contains(m + p + a, g, n);
    lemma_add_contains(m + p + a + g, ch, n);
    assert(mixer_elements_spec(nc, na, ng) == m + p + a + g + ch);
    match n {
        MixerNode::AuxMixer(x) => {
            assert(aux_bus_elements()(x as nat)[0] == n);
            lemma_concat_contains(na, aux_bus_elements(), x as nat, n);
        },
        MixerNode::AuxVolume(x) => {
            assert(aux_bus_elements()(x as nat)[1] == n);
            lemma_concat_contains(na, aux_bus_elements(), x as nat, n);
        },
        MixerNode::AuxLevel(x) => {
            assert(aux_bus_elements()(x as nat)[2] == n);
            lemma_concat_contains(na, aux_bus_elements(), x as nat, n);
        },
        MixerNode::AuxOutTee(x) => {
            assert(aux_bus_elements()(x as nat)[3] == n);
            lemma_concat_contains(na, aux_bus_elements(), x as nat, n);
        },
        MixerNode::GroupMixer(x) => {
            assert(group_elements()(x as nat)[0] == n);
            lemma_concat_contains(ng, group_elements(), x as nat, n);
        },
        MixerNode::GroupVolume(x) => {
            assert(group_elements()(x as nat)[1] == n);
            lemma_concat_contains(ng, group_elements(), x as nat, n);
        },
        MixerNode::GroupLevel(x) => {
            assert(group_elements()(x as nat)[2] == n);
            lemma_concat_contains(ng, group_elements(), x as nat, n);
        },
        MixerNode::GroupOutTee(x) => {
            assert(group_elements()(x as nat)[3] == n);
            lemma_concat_contains(ng, group_elements(), x as nat, n);
        },
        MixerNode::GroupToMainQueue(x) => {
            assert(group_elements()(x as nat)[4] == n);
            lemma_concat_contains(ng, group_elements(), x as nat, n);
        },
        MixerNode::Convert(c) | MixerNode::Caps(c) | MixerNode::Gain(c) | MixerNode::Hpf(c) | MixerNode::Gate(c)
        | MixerNode::Comp(c) | MixerNode::Eq(c) | MixerNode::PreFaderTee(c) | MixerNode::Pan(c) | MixerNode::Volume(c)
        | MixerNode::PostFaderTee(c) | MixerNode::Level(c) | MixerNode::RoutingTee(c) | MixerNode::PflVolume(c)
        | MixerNode::PflQueue(c) | MixerNode::ToMainVol(c) | MixerNode::ToMainQueue(c) | MixerNode::AuxSend(c, _)
        | MixerNode::AuxQueue(c, _) | MixerNode::ToGrpVol(c, _) | MixerNode::ToGrpQueue(c, _) => {
            lemma_channel_has_node(c, na, ng, n);
            assert(fc(c as nat) == channel_elements(c, na, ng));
            lemma_concat_contains(nc, fc, c as nat, n);
        },
        _ => {
            assert(m[0] == MixerNode::Mixer);
            assert(m[1] == MixerNode::MainComp);
            assert(m[2] == MixerNode::MainEq);
            assert(m[3] == MixerNode::MainLimiter);
            assert(m[4] == MixerNode::MainVolume);
            assert(m[5] == MixerNode::MainLevel);
            assert(m[6] == MixerNode::MainOutTee);
            assert(p[0] == MixerNode::PflMixer);
            assert(p[1] == MixerNode::PflMasterVol);
            assert(p[2] == MixerNode::PflLevel);
            assert(p[3] == MixerNode::PflOutTee);
        },
    }
}

/// Every link of channel `c` joins nodes of the mixer.
proof fn lemma_channel_links_in_mixer(c: usize, nc: nat, na: nat, ng: nat, afl: bool, pre: spec_fn(nat) -> bool)
    requires
        c < nc,
    ensures
        forall|k: int|
            0 <= k < channel_links(c, na, ng, afl, pre).len() ==> #[trigger] link_in_mixer(
                channel_links(c, na, ng, afl, pre)[k],
                nc,
                na,
                ng,
            ),
{
    let p = |l: MixerLink| link_in_mixer(l, nc, na, ng);
    let ca = concat_blocks(na, channel_aux_links(c, pre));
    let chain = channel_chain_links(c);
    let solo = channel_solo_links(c, afl);
    let main = channel_main_links(c);
    let cg = concat_blocks(ng, channel_group_links(c));
    lemma_concat_all(na, channel_aux_links(c, pre), p);
    lemma_concat_all(ng, channel_group_links(c), p);
    assert forall|k: int| 0 <= k < chain.len() implies #[trigger] p(chain[k]) by {}
    assert forall|k: int| 0 <= k < solo.len() implies #[trigger] p(solo[k]) by {}
    assert forall|k: int| 0 <= k < main.len() implies #[trigger] p(main[k]) by {}
    lemma_add_all(ca, chain, p);
    lemma_add_all(ca + chain, solo, p);
    lemma_add_all(ca + chain + solo, main, p);
    lemma_add_all(ca + chain + solo + main, cg, p);
    assert(channel_links(c, na, ng, afl, pre) == ca + chain + solo + main + cg);
    assert forall|k: int| 0 <= k < channel_links(c, na, ng, afl, pre).len() implies #[trigger] link_in_mixer(
        channel_links(c, na, ng, afl, pre)[k],
        nc,
        na,
        ng,
    ) by {
        assert(p((ca + chain + solo + main + cg)[k]));
    }
}

/// Every internal link of the mixer joins two elements that the block
/// creates, whatever the solo mode and the aux send taps.
pub proof fn law_links_join_created_elements(nc: nat, na: nat, ng: nat, afl: bool, aux_pre: Seq<Vec<bool>>)
    ensures
        forall|k: int|
            0 <= k < mixer_links_spec(nc, na, ng, afl, aux_pre).len() ==> {
                let l = #[trigger] mixer_links_spec(nc, na, ng, afl, aux_pre)[k];
                &&& mixer_elements_spec(nc, na, ng).contains(l.from.node)
                &&& mixer_elements_spec(nc, na, ng).contains(l.to.node)
            },
{
    let p = |l: MixerLink| link_in_mixer(l, nc, na, ng);
    let ml = main_links();
    let pl = pfl_links();
    let al = concat_blocks(na, aux_bus_links());
    let gl = concat_blocks(ng, group_links());
    let fc = |c: nat| channel_links(c as usize, na, ng, afl, aux_pre_of(aux_pre, c));
    let cl = concat_blocks(nc, fc);
    assert forall|k: int| 0 <= k < ml.len() implies #[trigger] p(ml[k]) by {}
    assert forall|k: int| 0 <= k < pl.len() implies #[trigger] p(pl[k]) by {}
    lemma_concat_all(na, aux_bus_links(), p);
    lemma_concat_all(ng, group_links(), p);
    assert forall|c: nat, j: int| c < nc && 0 <= j < fc(c).len() implies #[trigger] p(fc(c)[j]) by {
        lemma_channel_links_in_mixer(c as usize, nc, na, ng, afl, aux_pre_of(aux_pre, c));
        assert(fc(c) == channel_links(c as usize, na, ng, afl, aux_pre_of(aux_pre, c)));
    }
    lemma_concat_all(nc, fc, p);
    lemma_add_all(ml, pl, p);
    lemma_add_all(ml + pl, al, p);
    lemma_add_all(ml + pl + al, gl, p);
    lemma_add_all(ml + pl + al + gl, cl, p);
    assert(mixer_links_spec(nc, na, ng, afl, aux_pre) == ml + pl + al + gl + cl);
    assert forall|k: int| 0 <= k < mixer_links_spec(nc, na, ng, afl, aux_pre).len() implies {
        let l = #[trigger] mixer_links_spec(nc, na, ng, afl, aux_pre)[k];
        &&& mixer_elements_spec(nc, na, ng).contains(l.from.node)
        &&& mixer_elements_spec(nc, na, ng).contains(l.to.node)
    } by {
        let l = mixer_links_spec(nc, na, ng, afl, aux_pre)[k];
        assert(p(l));
        lemma_node_created(nc, na, ng, l.from.node);
        lemma_node_created(nc, na, ng, l.to.node);
    }
}

/// Blocks of `k` items each, `n` of them, make `n * k` items.
pub proof fn lemma_concat_blocks_len<T>(n: nat, f: spec_fn(nat) -> Seq<T>, k: nat)
    requires
        forall|i: nat| i < n ==> #[trigger] f(i).len() == k,
    ensures
        concat_blocks(n, f).len() == n * k,
    decreases n,
{
    if n > 0 {
        let m = (n - 1) as nat;
        lemma_concat_blocks_len(m, f, k);
        assert(f(m).len() == k);
        assert(concat_blocks(n, f) == concat_blocks(m, f) + f(m));
        assert(m * k + k == n * k) by (nonlinear_arith)
            requires
                m + 1 == n,
        ;
    } else {
        assert(n * k == 0) by (nonlinear_arith)
            requires
                n == 0,
        ;
    }
}

/// The mixer creates 11 bus elements, 4 per aux bus, 5 per group and, per
/// channel, 17 elements plus 2 per aux bus and 2 per group.
pub proof fn law_mixer_element_count(nc: nat, na: nat, ng: nat)
    ensures
        mixer_elements_spec(nc, na, ng).len() == 11 + 4 * na + 5 * ng + nc * (17 + 2 * na + 2 * ng),
{
    lemma_concat_blocks_len(na, aux_bus_elements(), 4);
    lemma_concat_blocks_len(ng, group_elements(), 5);
    let f = |c: nat| channel_elements(c as usize, na, ng);
    assert forall|c: nat| c < nc implies #[trigger] f(c).len() == 17 + 2 * na + 2 * ng by {
        lemma_concat_blocks_len(na, channel_aux_elements(c as usize), 2);
        lemma_concat_blocks_len(ng, channel_group_elements(c as usize), 2);
    }
    lemma_concat_blocks_len(nc, f, (17 + 2 * na + 2 * ng) as nat);
}

/// The mixer makes 9 bus links, 3 per aux bus, 5 per group and, per
/// channel, 18 links plus 3 per aux bus and 3 per group.
pub proof fn law_mixer_link_count(nc: nat, na: nat, ng: nat, afl: bool, aux_pre: Seq<Vec<bool>>)
    ensures
        mixer_links_spec(nc, na, ng, afl, aux_pre).len() == 9 + 3 * na + 5 * ng + nc * (18 + 3 * na + 3 * ng),
{
    lemma_concat_blocks_len(na, aux_bus_links(), 3);
    lemma_concat_blocks_len(ng, group_links(), 5);
    let f = |c: nat| channel_links(c as usize, na, ng, afl, aux_pre_of(aux_pre, c));
    assert forall|c: nat| c < nc implies #[trigger] f(c).len() == 18 + 3 * na + 3 * ng by {
        lemma_concat_blocks_len(na, channel_aux_links(c as usize, aux_pre_of(aux_pre, c)), 3);
        lemma_concat_blocks_len(ng, channel_group_links(c as usize), 3);
    }
    lemma_concat_blocks_len(nc, f, (18 + 3 * na + 3 * ng) as nat);
}

/// Every pad the mixer exposes sits on an element it creates: input `i` on
/// `convert_{i}`, the main and PFL outputs on their output tees, and each
/// aux bus and group output on its own output tee.
pub proof fn law_pads_on_created_elements(nc: nat, na: nat, ng: nat)
    requires
        nc <= usize::MAX,
        na <= usize::MAX,
        ng <= usize::MAX,
    ensures
        forall|i: nat|
            i < nc ==> mixer_elements_spec(nc, na, ng).contains(MixerNode::Convert(i as usize))
                && node_name_spec(MixerNode::Convert(i as usize)) == (#[trigger] mixer_input_pad(i)).internal_element_id,
        mixer_elements_spec(nc, na, ng).contains(MixerNode::MainOutTee),
        node_name_spec(MixerNode::MainOutTee) == mixer_main_out_pad().internal_element_id,
        mixer_elements_spec(nc, na, ng).contains(MixerNode::PflOutTee),
        node_name_spec(MixerNode::PflOutTee) == mixer_pfl_out_pad().internal_element_id,
        forall|a: nat|
            a < na ==> mixer_elements_spec(nc, na, ng).contains(MixerNode::AuxOutTee(a as usize))
                && node_name_spec(MixerNode::AuxOutTee(a as usize)) == (#[trigger] mixer_aux_out_pad(a)).internal_element_id,
        forall|g: nat|
            g < ng ==> mixer_elements_spec(nc, na, ng).contains(MixerNode::GroupOutTee(g as usize))
                && node_name_spec(MixerNode::GroupOutTee(g as usize)) == (#[trigger] mixer_group_out_pad(g)).internal_element_id,
{
    assert forall|i: nat| i < nc implies mixer_elements_spec(nc, na, ng).contains(MixerNode::Convert(i as usize))
        && node_name_spec(MixerNode::Convert(i as usize)) == (#[trigger] mixer_input_pad(i)).internal_element_id by {
        lemma_node_created(nc, na, ng, MixerNode::Convert(i as usize));
    }
    lemma_node_created(nc, na, ng, MixerNode::MainOutTee);
    lemma_node_created(nc, na, ng, MixerNode::PflOutTee);
    assert forall|a: nat| a < na implies mixer_elements_spec(nc, na, ng).contains(MixerNode::AuxOutTee(a as usize))
        && node_name_spec(MixerNode::AuxOutTee(a as usize)) == (#[trigger] mixer_aux_out_pad(a)).internal_element_id by {
        lemma_node_created(nc, na, ng, MixerNode::AuxOutTee(a as usize));
    }
    assert forall|g: nat| g < ng implies mixer_elements_spec(nc, na, ng).contains(MixerNode::GroupOutTee(g as usize))
        && node_name_spec(MixerNode::GroupOutTee(g as usize)) == (#[trigger] mixer_group_out_pad(g)).internal_element_id by {
        lemma_node_created(nc, na, ng, MixerNode::GroupOutTee(g as usize));
    }
}

} // verus!
