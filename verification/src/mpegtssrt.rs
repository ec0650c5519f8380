//! MPEG-TS over SRT output block: track configuration, pads, SRT settings
//! and the codec decisions taken when a stream's caps become known.
//!
//! Video input, one identity per track: H.264, H.265 and DIRAC get their
//! parser; other codecs are not supported by MPEG-TS here. Audio input: raw audio is
//! encoded to AAC (audioconvert, audioresample, avenc_aac, aacparse); AAC,
//! MP3, AC3, DTS and Opus only get their parser.
use vstd::prelude::*;

use crate::pads::{pad_spec, ExternalPad, ExternalPads, MediaType, PadView};
use crate::plan::{
    element_id_spec, element_setting, ids_view, link_spec, pad_link, push_element, push_link, push_setting, setting_spec,
    settings_view, BlockPlan, BlockPlanView, ElementLink, ElementSetting, SettingVal, SettingValue, SettingView,
};
use crate::property::{PropVal, Properties, PropertyValue};
use crate::text::{decimal, str_eq, string_of, track_element_name, with_index};

verus! {

/// MPEG-TS/SRT Output block builder.
pub struct MpegTsSrtOutputBuilder;

/// A track count read from a property: unsigned or signed integers are
/// converted to `usize` (a negative signed value wraps around), anything
/// else gives the default of 1.
pub open spec fn track_count(props: Map<Seq<char>, PropVal>, key: Seq<char>) -> usize {
    if props.contains_key(key) {
        match props[key] {
            PropVal::UInt(u) => u as usize,
            PropVal::Int(i) => i as usize,
            _ => 1,
        }
    } else {
        1
    }
}

/// Reads a track count (see [`track_count`]).
pub fn parse_track_count(properties: &Properties, key: &str) -> (r: usize)
    ensures
        r == track_count(properties@, key@),
{
    match properties.get(key) {
        Some(PropertyValue::UInt(u)) => *u as usize,
        Some(PropertyValue::Int(i)) => *i as usize,
        _ => 1,
    }
}

/// The pad of video track `i` when there are `n` video tracks.
pub open spec fn video_pad(i: nat, n: nat) -> PadView {
    pad_spec(
        Some("V"@ + decimal(i)),
        if n == 1 { "video_in"@ } else { "video_in_"@ + decimal(i) },
        MediaType::Video,
        if n == 1 { "video_input"@ } else { "video_input_"@ + decimal(i) },
        "sink"@,
    )
}

/// The pad of audio track `i`.
pub open spec fn audio_pad(i: nat) -> PadView {
    pad_spec(
        Some("A"@ + decimal(i)),
        "audio_in_"@ + decimal(i),
        MediaType::Audio,
        "audio_input_"@ + decimal(i),
        "sink"@,
    )
}

impl MpegTsSrtOutputBuilder {
    /// The block's pads: the video inputs, then the audio inputs, as many as
    /// `num_video_tracks` and `num_audio_tracks` say; no outputs.
    pub fn get_external_pads(&self, properties: &Properties) -> (r: Option<ExternalPads>)
        ensures
            r is Some,
            ({
                let p = r->0;
                let nv = track_count(properties@, "num_video_tracks"@);
                let na = track_count(properties@, "num_audio_tracks"@);
                &&& p.outputs@.len() == 0
                &&& p.inputs@.len() == nv + na
                &&& forall|i: int| 0 <= i < nv ==> #[trigger] p.inputs@[i]@ == video_pad(i as nat, nv as nat)
                &&& forall|i: int| 0 <= i < na ==> #[trigger] p.inputs@[nv + i]@ == audio_pad(i as nat)
            }),
    {
        let nv = parse_track_count(properties, "num_video_tracks");
        let na = parse_track_count(properties, "num_audio_tracks");
        let mut inputs: Vec<ExternalPad> = Vec::new();
        let mut i: usize = 0;
        while i < nv
            invariant
                i <= nv,
                inputs@.len() == i,
                forall|j: int| 0 <= j < i ==> #[trigger] inputs@[j]@ == video_pad(j as nat, nv as nat),
            decreases nv - i,
        {
            let name = if nv == 1 {
                string_of("video_in")
            } else {
                with_index("video_in_", i)
            };
            let element = if nv == 1 {
                string_of("video_input")
            } else {
                with_index("video_input_", i)
            };
            inputs.push(
                ExternalPad {
                    label: Some(with_index("V", i)),
                    name,
                    media_type: MediaType::Video,
                    internal_element_id: element,
                    internal_pad_name: string_of("sink"),
                },
            );
            i = i + 1;
        }
        let mut j: usize = 0;
        while j < na
            invariant
                j <= na,
                inputs@.len() == nv as int + j,
                forall|k: int| 0 <= k < nv ==> #[trigger] inputs@[k]@ == video_pad(k as nat, nv as nat),
                forall|k: int| 0 <= k < j ==> #[trigger] inputs@[nv + k]@ == audio_pad(k as nat),
            decreases na - j,
        {
            inputs.push(
                ExternalPad {
                    label: Some(with_index("A", j)),
                    name: with_index("audio_in_", j),
                    media_type: MediaType::Audio,
                    internal_element_id: with_index("audio_input_", j),
                    internal_pad_name: string_of("sink"),
                },
            );
            j = j + 1;
        }
        Some(ExternalPads { inputs, outputs: Vec::new() })
    }
}

// ---------------------------------------------------------------------------
// SRT sink settings
// ---------------------------------------------------------------------------

/// The settings of the SRT sink.
#[derive(Debug, Clone)]
pub struct SrtOutputConfig {
    /// SRT URI.
    pub srt_uri: String,
    /// SRT latency in milliseconds.
    pub latency: i32,
    /// Whether the sink waits for a connection.
    pub wait_for_connection: bool,
    /// Whether the sink reconnects automatically.
    pub auto_reconnect: bool,
    /// Whether the sink synchronises on the clock.
    pub sync: bool,
}

/// A boolean property, or `default`.
pub open spec fn bool_prop(props: Map<Seq<char>, PropVal>, key: Seq<char>, default: bool) -> bool {
    if props.contains_key(key) {
        match props[key] {
            PropVal::Bool(b) => b,
            _ => default,
        }
    } else {
        default
    }
}

/// Reads a boolean property (see [`bool_prop`]).
pub fn get_bool(properties: &Properties, key: &str, default: bool) -> (r: bool)
    ensures
        r == bool_prop(properties@, key@, default),
{
    match properties.get(key) {
        Some(PropertyValue::Bool(b)) => *b,
        _ => default,
    }
}

/// The SRT URI: the `srt_uri` string property, or the default.
pub open spec fn srt_uri_spec(props: Map<Seq<char>, PropVal>, default_uri: Seq<char>) -> Seq<char> {
    if props.contains_key("srt_uri"@) {
        match props["srt_uri"@] {
            PropVal::Str(s) => s,
            _ => default_uri,
        }
    } else {
        default_uri
    }
}

/// The SRT latency: an integer `latency` property converted to `i32`
/// (truncating), or the default.
pub open spec fn srt_latency_spec(props: Map<Seq<char>, PropVal>, default_latency: i32) -> i32 {
    if props.contains_key("latency"@) {
        match props["latency"@] {
            PropVal::UInt(u) => u as i32,
            PropVal::Int(i) => i as i32,
            _ => default_latency,
        }
    } else {
        default_latency
    }
}

/// Reads the SRT sink settings; `wait_for_connection` defaults to false,
/// `auto_reconnect` and `sync` to true.
pub fn parse_srt_output_config(properties: &Properties, default_uri: &str, default_latency: i32) -> (r:
    SrtOutputConfig)
    ensures
        r.srt_uri@ == srt_uri_spec(properties@, default_uri@),
        r.latency == srt_latency_spec(properties@, default_latency),
        r.wait_for_connection == bool_prop(properties@, "wait_for_connection"@, false),
        r.auto_reconnect == bool_prop(properties@, "auto_reconnect"@, true),
        r.sync == bool_prop(properties@, "sync"@, true),
{
    let srt_uri = match properties.get("srt_uri") {
        Some(PropertyValue::String(s)) => s.clone(),
        _ => string_of(default_uri),
    };
    let latency = match properties.get("latency") {
        Some(PropertyValue::UInt(u)) => *u as i32,
        Some(PropertyValue::Int(i)) => *i as i32,
        _ => default_latency,
    };
    SrtOutputConfig {
        srt_uri,
        latency,
        wait_for_connection: get_bool(properties, "wait_for_connection", false),
        auto_reconnect: get_bool(properties, "auto_reconnect", true),
        sync: get_bool(properties, "sync", true),
    }
}

/// MPEG-TS packets per output buffer (7 packets = 1316 bytes, one UDP
/// datagram within a typical MTU).
pub const MUX_ALIGNMENT: i32 = 7;

/// PCR interval of the muxer, in milliseconds.
pub const MUX_PCR_INTERVAL_MS: u32 = 40;

// ---------------------------------------------------------------------------
// Codec decisions
// ---------------------------------------------------------------------------

/// The parser inserted in front of the muxer for a video stream.
#[derive(Debug, Clone, Copy, PartialEq, Eq, Structural)]
pub enum VideoParser {
    H264Parse,
    H265Parse,
    DiracParse,
}

/// The parser for a video caps name, if MPEG-TS carries that codec.
pub open spec fn video_parser_spec(caps_name: Seq<char>) -> Option<VideoParser> {
    if caps_name == "video/x-h264"@ {
        Some(VideoParser::H264Parse)
    } else if caps_name == "video/x-h265"@ {
        Some(VideoParser::H265Parse)
    } else if caps_name == "video/x-dirac"@ {
        Some(VideoParser::DiracParse)
    } else {
        None
    }
}

/// Chooses the video parser for the caps name `caps_name`; `None` for an
/// unsupported codec (the stream stays unlinked).
pub fn video_parser_for(caps_name: &str) -> (r: Option<VideoParser>)
    ensures
        r == video_parser_spec(caps_name@),
{
    if str_eq(caps_name, "video/x-h264") {
        Some(VideoParser::H264Parse)
    } else if str_eq(caps_name, "video/x-h265") {
        Some(VideoParser::H265Parse)
    } else if str_eq(caps_name, "video/x-dirac") {
        Some(VideoParser::DiracParse)
    } else {
        None
    }
}

impl VideoParser {
    /// The element factory name of the parser.
    pub fn factory(&self) -> (r: &'static str)
        ensures
            r@ == (match *self {
                VideoParser::H264Parse => "h264parse"@,
                VideoParser::H265Parse => "h265parse"@,
                VideoParser::DiracParse => "diracparse"@,
            }),
    {
        match self {
            VideoParser::H264Parse => "h264parse",
            VideoParser::H265Parse => "h265parse",
            VideoParser::DiracParse => "diracparse",
        }
    }
}

/// The chain inserted in front of the muxer for an audio stream.
#[derive(Debug, Clone, Copy, PartialEq, Eq, Structural)]
pub enum AudioChain {
    /// Raw audio: audioconvert, audioresample, avenc_aac, aacparse.
    EncodeAac,
    /// MP3: mpegaudioparse.
    Mp3,
    /// AAC: aacparse.
    Aac,
    /// AC3: ac3parse.
    Ac3,
    /// DTS: dcaparse.
    Dts,
    /// Opus: opusparse.
    Opus,
}

/// The chain for an audio caps name; `mpegversion` is the caps'
/// `mpegversion` field when present (4 is assumed otherwise).
pub open spec fn audio_chain_spec(caps_name: Seq<char>, mpegversion: Option<i32>) -> Option<AudioChain> {
    if caps_name == "audio/x-raw"@ {
        Some(AudioChain::EncodeAac)
    } else if caps_name == "audio/mpeg"@ {
        let v = match mpegversion {
            Some(v) => v,
            None => 4,
        };
        if v == 1 { Some(AudioChain::Mp3) } else { Some(AudioChain::Aac) }
    } else if caps_name == "audio/x-ac3"@ {
        Some(AudioChain::Ac3)
    } else if caps_name == "audio/x-dts"@ {
        Some(AudioChain::Dts)
    } else if caps_name == "audio/x-opus"@ {
        Some(AudioChain::Opus)
    } else {
        None
    }
}

/// Each audio format gets the chain of its own codec, whatever the
/// `mpegversion` field says outside MPEG audio: raw audio is encoded to AAC
/// (no parser of its own); AC3 gets `ac3parse`, DTS `dcaparse` and Opus
/// `opusparse`; MPEG audio gets `mpegaudioparse` for version 1 and
/// `aacparse` otherwise (version 4 when the field is missing); any other
/// format gets nothing.
pub proof fn law_audio_chain_per_format(caps_name: Seq<char>, v: Option<i32>)
    ensures
        caps_name == "audio/x-raw"@ ==> audio_chain_spec(caps_name, v) == Some(AudioChain::EncodeAac)
            && audio_parser_spec(AudioChain::EncodeAac) is None,
        caps_name == "audio/x-ac3"@ ==> audio_chain_spec(caps_name, v) == Some(AudioChain::Ac3) && audio_parser_spec(
            AudioChain::Ac3,
        ) == Some(("ac3parse"@, "AC3"@)),
        caps_name == "audio/x-dts"@ ==> audio_chain_spec(caps_name, v) == Some(AudioChain::Dts) && audio_parser_spec(
            AudioChain::Dts,
        ) == Some(("dcaparse"@, "DTS"@)),
        caps_name == "audio/x-opus"@ ==> audio_chain_spec(caps_name, v) == Some(AudioChain::Opus)
            && audio_parser_spec(AudioChain::Opus) == Some(("opusparse"@, "Opus"@)),
        caps_name == "audio/mpeg"@ && v == Some(1i32) ==> audio_chain_spec(caps_name, v) == Some(AudioChain::Mp3)
            && audio_parser_spec(AudioChain::Mp3) == Some(("mpegaudioparse"@, "MP3"@)),
        caps_name == "audio/mpeg"@ && v != Some(1i32) ==> audio_chain_spec(caps_name, v) == Some(AudioChain::Aac)
            && audio_parser_spec(AudioChain::Aac) == Some(("aacparse"@, "AAC"@)),
        caps_name != "audio/x-raw"@ && caps_name != "audio/mpeg"@ && caps_name != "audio/x-ac3"@ && caps_name
            != "audio/x-dts"@ && caps_name != "audio/x-opus"@ ==> audio_chain_spec(caps_name, v) is None,
{
    reveal_strlit("audio/x-raw");
    reveal_strlit("audio/mpeg");
    reveal_strlit("audio/x-ac3");
    reveal_strlit("audio/x-dts");
    reveal_strlit("audio/x-opus");
    let raw = "audio/x-raw"@;
    let mpeg = "audio/mpeg"@;
    let ac3 = "audio/x-ac3"@;
    let dts = "audio/x-dts"@;
    let opus = "audio/x-opus"@;
    assert(raw != mpeg && raw != ac3 && raw != dts && raw != opus) by {
        assert(raw.len() != mpeg.len());
        assert(raw[8] != ac3[8] && raw[8] != dts[8] && raw[8] != opus[8]);
    }
    assert(mpeg != ac3 && mpeg != dts && mpeg != opus) by {
        assert(mpeg.len() != ac3.len() && mpeg.len() != dts.len() && mpeg.len() != opus.len());
    }
    assert(ac3 != dts && ac3 != opus && dts != opus) by {
        assert(ac3[8] != dts[8]);
        assert(ac3.len() != opus.len() && dts.len() != opus.len());
    }
}

/// Chooses the audio chain for a stream; `None` for an unsupported format.
pub fn audio_chain_for(caps_name: &str, mpegversion: Option<i32>) -> (r: Option<AudioChain>)
    ensures
        r == audio_chain_spec(caps_name@, mpegversion),
{
    if str_eq(caps_name, "audio/x-raw") {
        Some(AudioChain::EncodeAac)
    } else if str_eq(caps_name, "audio/mpeg") {
        let v = match mpegversion {
            Some(v) => v,
            None => 4,
        };
        if v == 1 {
            Some(AudioChain::Mp3)
        } else {
            Some(AudioChain::Aac)
        }
    } else if str_eq(caps_name, "audio/x-ac3") {
        Some(AudioChain::Ac3)
    } else if str_eq(caps_name, "audio/x-dts") {
        Some(AudioChain::Dts)
    } else if str_eq(caps_name, "audio/x-opus") {
        Some(AudioChain::Opus)
    } else {
        None
    }
}

/// The parser factory and codec name of an audio chain that only parses.
pub open spec fn audio_parser_spec(c: AudioChain) -> Option<(Seq<char>, Seq<char>)> {
    match c {
        AudioChain::EncodeAac => None,
        AudioChain::Mp3 => Some(("mpegaudioparse"@, "MP3"@)),
        AudioChain::Aac => Some(("aacparse"@, "AAC"@)),
        AudioChain::Ac3 => Some(("ac3parse"@, "AC3"@)),
        AudioChain::Dts => Some(("dcaparse"@, "DTS"@)),
        AudioChain::Opus => Some(("opusparse"@, "Opus"@)),
    }
}

impl AudioChain {
    /// The parser factory and codec name, for a chain that only parses.
    pub fn parser(&self) -> (r: Option<(&'static str, &'static str)>)
        ensures
            match audio_parser_spec(*self) {
                Some((f, c)) => r is Some && ({
                    let (a, b) = r->0;
                    a@ == f && b@ == c
                }),
                None => r is None,
            },
    {
        match self {
            AudioChain::EncodeAac => None,
            AudioChain::Mp3 => Some(("mpegaudioparse", "MP3")),
            AudioChain::Aac => Some(("aacparse", "AAC")),
            AudioChain::Ac3 => Some(("ac3parse", "AC3")),
            AudioChain::Dts => Some(("dcaparse", "DTS")),
            AudioChain::Opus => Some(("opusparse", "Opus")),
        }
    }
}

// ---------------------------------------------------------------------------
// Element names
// ---------------------------------------------------------------------------

/// The names of the elements of the raw-audio chain of a track: converter,
/// resampler, encoder and parser.
pub fn raw_audio_chain_names(instance_id: &str, track: usize) -> (r: (String, String, String, String))
    ensures
        r.0@ == instance_id@ + ":audio_convert_"@ + decimal(track as nat),
        r.1@ == instance_id@ + ":audio_resample_"@ + decimal(track as nat),
        r.2@ == instance_id@ + ":audio_encoder_"@ + decimal(track as nat),
        r.3@ == instance_id@ + ":audio_parser_"@ + decimal(track as nat),
{
    (
        track_element_name(instance_id, ":audio_convert_", track),
        track_element_name(instance_id, ":audio_resample_", track),
        track_element_name(instance_id, ":audio_encoder_", track),
        track_element_name(instance_id, ":audio_parser_", track),
    )
}

/// The element of video input `i` when there are `n` video tracks:
/// `video_input` for a single track, `video_input_{i}` otherwise.
pub open spec fn video_input_suffix(i: nat, n: nat) -> Seq<char> {
    if n == 1 {
        "video_input"@
    } else {
        "video_input_"@ + decimal(i)
    }
}

/// The elements and links of an MPEG-TS/SRT output: the muxer and the SRT
/// sink, linked muxer to sink; one identity per video track (named as its
/// pad names it, see [`video_pad`]); one identity per audio track. The
/// inputs are linked to the muxer once their caps are known. The block
/// has no bus message handler.
pub open spec fn mpegtssrt_plan_spec(instance_id: Seq<char>, video_tracks: nat, audio_tracks: nat) -> BlockPlanView {
    BlockPlanView {
        elements: seq![element_id_spec(instance_id, "mpegtsmux"@), element_id_spec(instance_id, "srtsink"@)]
            + Seq::new(video_tracks, |i: int| element_id_spec(instance_id, video_input_suffix(i as nat, video_tracks)))
            + Seq::new(audio_tracks, |i: int| element_id_spec(instance_id, "audio_input_"@ + decimal(i as nat))),
        links: seq![link_spec(instance_id, "mpegtsmux"@, "src"@, "srtsink"@, "sink"@)],
        bus_message_handler: false,
    }
}

/// Every input pad of the block sits on an element the block creates: the
/// pad of video track `i` and the pad of audio track `j` name elements of
/// the plan.
pub proof fn law_mpegtssrt_pads_on_created_elements(instance_id: Seq<char>, nv: nat, na: nat)
    ensures
        forall|i: nat| #![trigger video_pad(i, nv)]
            i < nv ==> mpegtssrt_plan_spec(instance_id, nv, na).elements.contains(
                element_id_spec(instance_id, video_pad(i, nv).internal_element_id),
            ),
        forall|j: nat| #![trigger audio_pad(j)]
            j < na ==> mpegtssrt_plan_spec(instance_id, nv, na).elements.contains(
                element_id_spec(instance_id, audio_pad(j).internal_element_id),
            ),
{
    let e = mpegtssrt_plan_spec(instance_id, nv, na).elements;
    assert forall|i: nat| #![trigger video_pad(i, nv)] i < nv implies e.contains(
        element_id_spec(instance_id, video_pad(i, nv).internal_element_id),
    ) by {
        assert(e[2 + i as int] == element_id_spec(instance_id, video_input_suffix(i, nv)));
    }
    assert forall|j: nat| #![trigger audio_pad(j)] j < na implies e.contains(
        element_id_spec(instance_id, audio_pad(j).internal_element_id),
    ) by {
        assert(e[2 + nv as int + j as int] == element_id_spec(instance_id, "audio_input_"@ + decimal(j)));
    }
}

/// Plans the elements and links of an MPEG-TS/SRT output block, with the
/// track counts read from `num_video_tracks` and `num_audio_tracks` (see
/// [`track_count`]). Every input pad that [`MpegTsSrtOutputBuilder::get_external_pads`]
/// gives for the same properties sits on an element of the plan.
pub fn mpegtssrt_output_plan(instance_id: &str, properties: &Properties) -> (r: BlockPlan)
    ensures
        r@ == mpegtssrt_plan_spec(
            instance_id@,
            track_count(properties@, "num_video_tracks"@) as nat,
            track_count(properties@, "num_audio_tracks"@) as nat,
        ),
        ({
            let nv = track_count(properties@, "num_video_tracks"@) as nat;
            let na = track_count(properties@, "num_audio_tracks"@) as nat;
            &&& forall|i: nat| #![trigger video_pad(i, nv)]
                i < nv ==> r@.elements.contains(element_id_spec(instance_id@, video_pad(i, nv).internal_element_id))
            &&& forall|j: nat| #![trigger audio_pad(j)]
                j < na ==> r@.elements.contains(element_id_spec(instance_id@, audio_pad(j).internal_element_id))
        }),
{
    proof {
        law_mpegtssrt_pads_on_created_elements(
            instance_id@,
            track_count(properties@, "num_video_tracks"@) as nat,
            track_count(properties@, "num_audio_tracks"@) as nat,
        );
    }
    let video_tracks = parse_track_count(properties, "num_video_tracks");
    let audio_tracks = parse_track_count(properties, "num_audio_tracks");
    let mut elements: Vec<String> = Vec::new();
    let mut links: Vec<ElementLink> = Vec::new();
    push_element(&mut elements, instance_id, "mpegtsmux");
    push_element(&mut elements, instance_id, "srtsink");
    let ghost head = ids_view(elements@);
    let mut v: usize = 0;
    while v < video_tracks
        invariant
            v <= video_tracks,
            ids_view(elements@) =~= head + Seq::new(
                v as nat,
                |k: int| element_id_spec(instance_id@, video_input_suffix(k as nat, video_tracks as nat)),
            ),
        decreases video_tracks - v,
    {
        let suffix = if video_tracks == 1 {
            string_of("video_input")
        } else {
            with_index("video_input_", v)
        };
        push_element(&mut elements, instance_id, suffix.as_str());
        v = v + 1;
        proof {
            assert(ids_view(elements@) =~= head + Seq::new(
                v as nat,
                |k: int| element_id_spec(instance_id@, video_input_suffix(k as nat, video_tracks as nat)),
            ));
        }
    }
    let ghost head2 = ids_view(elements@);
    let mut i: usize = 0;
    while i < audio_tracks
        invariant
            i <= audio_tracks,
            ids_view(elements@) =~= head2 + Seq::new(
                i as nat,
                |k: int| element_id_spec(instance_id@, "audio_input_"@ + decimal(k as nat)),
            ),
        decreases audio_tracks - i,
    {
        let suffix = with_index("audio_input_", i);
        push_element(&mut elements, instance_id, suffix.as_str());
        i = i + 1;
        proof {
            assert(ids_view(elements@) =~= head2 + Seq::new(
                i as nat,
                |k: int| element_id_spec(instance_id@, "audio_input_"@ + decimal(k as nat)),
            ));
        }
    }
    push_link(&mut links, pad_link(instance_id, "mpegtsmux", "src", "srtsink", "sink"));
    let r = BlockPlan { elements, links, bus_message_handler: false };
    assert(r@ =~= mpegtssrt_plan_spec(instance_id@, video_tracks as nat, audio_tracks as nat));
    r
}

/// The properties the block sets on its muxer and sink: the muxer's
/// `alignment` (7); the sink's `uri`, `latency`, `wait-for-connection` and
/// `sync` from the configuration, and `qos` on. (The muxer's
/// `pcr-interval` and `bitrate` and the sink's `auto-reconnect` are set only
/// where the installed element has them, which the builder checks.)
pub open spec fn mpegtssrt_settings_spec(instance_id: Seq<char>, uri: Seq<char>, latency: i32, wait: bool, sync: bool) -> Seq<SettingView> {
    seq![
        setting_spec(instance_id, "mpegtsmux"@, "alignment"@, SettingVal::Value(PropVal::Int(MUX_ALIGNMENT as i64))),
        setting_spec(instance_id, "srtsink"@, "uri"@, SettingVal::Value(PropVal::Str(uri))),
        setting_spec(instance_id, "srtsink"@, "latency"@, SettingVal::Value(PropVal::Int(latency as i64))),
        setting_spec(instance_id, "srtsink"@, "wait-for-connection"@, SettingVal::Value(PropVal::Bool(wait))),
        setting_spec(instance_id, "srtsink"@, "sync"@, SettingVal::Value(PropVal::Bool(sync))),
        setting_spec(instance_id, "srtsink"@, "qos"@, SettingVal::Value(PropVal::Bool(true))),
    ]
}

/// Lists the properties the block sets (see [`mpegtssrt_settings_spec`]).
pub fn mpegtssrt_settings(instance_id: &str, config: &SrtOutputConfig) -> (r: Vec<ElementSetting>)
    ensures
        settings_view(r@) == mpegtssrt_settings_spec(
            instance_id@,
            config.srt_uri@,
            config.latency,
            config.wait_for_connection,
            config.sync,
        ),
{
    let mut r: Vec<ElementSetting> = Vec::new();
    push_setting(
        &mut r,
        element_setting(instance_id, "mpegtsmux", "alignment", SettingValue::Value(PropertyValue::Int(MUX_ALIGNMENT as i64))),
    );
    push_setting(
        &mut r,
        element_setting(instance_id, "srtsink", "uri", SettingValue::Value(PropertyValue::String(config.srt_uri.clone()))),
    );
    push_setting(
        &mut r,
        element_setting(instance_id, "srtsink", "latency", SettingValue::Value(PropertyValue::Int(config.latency as i64))),
    );
    push_setting(
        &mut r,
        element_setting(
            instance_id,
            "srtsink",
            "wait-for-connection",
            SettingValue::Value(PropertyValue::Bool(config.wait_for_connection)),
        ),
    );
    push_setting(&mut r, element_setting(instance_id, "srtsink", "sync", SettingValue::Value(PropertyValue::Bool(config.sync))));
    push_setting(&mut r, element_setting(instance_id, "srtsink", "qos", SettingValue::Value(PropertyValue::Bool(true))));
    assert(settings_view(r@) =~= mpegtssrt_settings_spec(
        instance_id@,
        config.srt_uri@,
        config.latency,
        config.wait_for_connection,
        config.sync,
    ));
    r
}

} // verus!

