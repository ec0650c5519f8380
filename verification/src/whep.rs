//! WHEP and WHIP blocks: stream modes and pads, input configuration,
//! endpoint ids, and the caps decisions taken while WebRTC streams are
//! negotiated.
use vstd::prelude::*;

use crate::pads::{pad_spec, ExternalPad, ExternalPads, MediaType};
use crate::plan::{element_id_spec, link_spec, pad_link, push_element, push_link, BlockPlan, BlockPlanView, ElementLink};
use crate::property::{PropVal, Properties, PropertyValue};
use crate::text::{
    decimal, has_prefix, push_decimal, starts_with, str_eq, string_of, trim, trimmed,
};

verus! {

/// WHEP Input block builder (receives from an external WHEP server).
pub struct WHEPInputBuilder;

/// WHEP Output block builder (hosts a WHEP server).
pub struct WHEPOutputBuilder;

/// WHIP Output block builder (sends to an external WHIP server).
pub struct WHIPOutputBuilder;

/// WHIP Input block builder (hosts a WHIP server).
pub struct WHIPInputBuilder;

/// Which media a WHEP/WHIP endpoint carries.
#[derive(Debug, Clone, Copy, PartialEq, Eq, Structural)]
pub enum WhepStreamMode {
    AudioVideo,
    Audio,
    Video,
}

impl WhepStreamMode {
    /// Whether the mode carries audio.
    pub open spec fn has_audio_spec(self) -> bool {
        self == WhepStreamMode::AudioVideo || self == WhepStreamMode::Audio
    }

    /// Whether the mode carries video.
    pub open spec fn has_video_spec(self) -> bool {
        self == WhepStreamMode::AudioVideo || self == WhepStreamMode::Video
    }

    /// Whether the mode carries audio.
    pub fn has_audio(&self) -> (r: bool)
        ensures
            r == self.has_audio_spec(),
    {
        match self {
            WhepStreamMode::AudioVideo | WhepStreamMode::Audio => true,
            WhepStreamMode::Video => false,
        }
    }

    /// Whether the mode carries video.
    pub fn has_video(&self) -> (r: bool)
        ensures
            r == self.has_video_spec(),
    {
        match self {
            WhepStreamMode::AudioVideo | WhepStreamMode::Video => true,
            WhepStreamMode::Audio => false,
        }
    }
}

/// An error met while building a block.
#[derive(Debug, Clone)]
pub enum BlockBuildError {
    /// An element could not be created.
    ElementCreation(String),
    /// A property is missing or invalid.
    InvalidProperty(String),
    /// The configuration cannot be realised.
    InvalidConfiguration(String),
}

// ---------------------------------------------------------------------------
// Pads
// ---------------------------------------------------------------------------

impl WHEPOutputBuilder {
    /// The WHEP output's input pads for a stream mode: an audio input (label
    /// `A0` only when video is carried too), then a video input (label `V0`
    /// only when audio is carried too); no outputs.
    pub fn get_external_pads(&self, mode: WhepStreamMode) -> (r: Option<ExternalPads>)
        ensures
            r is Some,
            r->0.outputs@.len() == 0,
            r->0.inputs@.len() == (if mode.has_audio_spec() { 1int } else { 0int }) + (if mode.has_video_spec() {
                1int
            } else {
                0int
            }),
            mode.has_audio_spec() ==> r->0.inputs@[0]@ == pad_spec(
                if mode.has_video_spec() { Some("A0"@) } else { None },
                "audio_in"@,
                MediaType::Audio,
                "audioconvert"@,
                "sink"@,
            ),
            mode.has_video_spec() ==> r->0.inputs@[r->0.inputs@.len() - 1]@ == pad_spec(
                if mode.has_audio_spec() { Some("V0"@) } else { None },
                "video_in"@,
                MediaType::Video,
                "video_queue"@,
                "sink"@,
            ),
    {
        let mut inputs: Vec<ExternalPad> = Vec::new();
        if mode.has_audio() {
            inputs.push(
                ExternalPad {
                    label: if mode.has_video() {
                        Some(string_of("A0"))
                    } else {
                        None
                    },
                    name: string_of("audio_in"),
                    media_type: MediaType::Audio,
                    internal_element_id: string_of("audioconvert"),
                    internal_pad_name: string_of("sink"),
                },
            );
        }
        if mode.has_video() {
            inputs.push(
                ExternalPad {
                    label: if mode.has_audio() {
                        Some(string_of("V0"))
                    } else {
                        None
                    },
                    name: string_of("video_in"),
                    media_type: MediaType::Video,
                    internal_element_id: string_of("video_queue"),
                    internal_pad_name: string_of("sink"),
                },
            );
        }
        Some(ExternalPads { inputs, outputs: Vec::new() })
    }
}

impl WHIPInputBuilder {
    /// The WHIP input's output pads for a stream mode: an audio output
    /// (`A0`), then a video output (`V0`); no inputs.
    pub fn get_external_pads(&self, mode: WhepStreamMode) -> (r: Option<ExternalPads>)
        ensures
            r is Some,
            r->0.inputs@.len() == 0,
            r->0.outputs@.len() == (if mode.has_audio_spec() { 1int } else { 0int }) + (if mode.has_video_spec() {
                1int
            } else {
                0int
            }),
            mode.has_audio_spec() ==> r->0.outputs@[0]@ == pad_spec(
                Some("A0"@),
                "audio_out"@,
                MediaType::Audio,
                "output_audioresample"@,
                "src"@,
            ),
            mode.has_video_spec() ==> r->0.outputs@[r->0.outputs@.len() - 1]@ == pad_spec(
                Some("V0"@),
                "video_out"@,
                MediaType::Video,
                "output_videoconvert"@,
                "src"@,
            ),
    {
        let mut outputs: Vec<ExternalPad> = Vec::new();
        if mode.has_audio() {
            outputs.push(
                ExternalPad {
                    label: Some(string_of("A0")),
                    name: string_of("audio_out"),
                    media_type: MediaType::Audio,
                    internal_element_id: string_of("output_audioresample"),
                    internal_pad_name: string_of("src"),
                },
            );
        }
        if mode.has_video() {
            outputs.push(
                ExternalPad {
                    label: Some(string_of("V0")),
                    name: string_of("video_out"),
                    media_type: MediaType::Video,
                    internal_element_id: string_of("output_videoconvert"),
                    internal_pad_name: string_of("src"),
                },
            );
        }
        Some(ExternalPads { inputs: Vec::new(), outputs })
    }
}

// ---------------------------------------------------------------------------
// Configuration
// ---------------------------------------------------------------------------

/// A non-empty string property.
pub open spec fn nonempty_string_prop(props: Map<Seq<char>, PropVal>, key: Seq<char>) -> Option<Seq<char>> {
    if props.contains_key(key) {
        match props[key] {
            PropVal::Str(s) => if s.len() > 0 { Some(s) } else { None },
            _ => None,
        }
    } else {
        None
    }
}

/// Reads a non-empty string property.
pub fn get_nonempty_string(properties: &Properties, key: &str) -> (r: Option<String>)
    ensures
        match nonempty_string_prop(properties@, key@) {
            Some(s) => r is Some && r->0@ == s,
            None => r is None,
        },
{
    match properties.get(key) {
        Some(PropertyValue::String(s)) => if s.unicode_len() == 0 {
            None
        } else {
            Some(s.clone())
        },
        _ => None,
    }
}

/// Whether a string property equals `value`.
pub open spec fn string_prop_is(props: Map<Seq<char>, PropVal>, key: Seq<char>, value: Seq<char>) -> bool {
    props.contains_key(key) && props[key] == PropVal::Str(value)
}

/// Reads whether a string property equals `value`.
pub fn string_prop_equals(properties: &Properties, key: &str, value: &str) -> (r: bool)
    ensures
        r == string_prop_is(properties@, key@, value@),
{
    match properties.get(key) {
        Some(PropertyValue::String(s)) => str_eq(s.as_str(), value),
        _ => false,
    }
}

/// Whether the WHEP input uses `whepclientsrc` rather than the stable
/// `whepsrc`.
pub fn whep_input_uses_client_src(properties: &Properties) -> (r: bool)
    ensures
        r == string_prop_is(properties@, "implementation"@, "whepclientsrc"@),
{
    string_prop_equals(properties, "implementation", "whepclientsrc")
}

/// Whether the WHIP output uses `whipclientsink` rather than the stable
/// `whipsink`.
pub fn whip_output_uses_client_sink(properties: &Properties) -> (r: bool)
    ensures
        r == string_prop_is(properties@, "implementation"@, "whipclientsink"@),
{
    string_prop_equals(properties, "implementation", "whipclientsink")
}

/// The settings of a WHEP input.
#[derive(Debug, Clone)]
pub struct WhepInputConfig {
    /// The WHEP endpoint to receive from.
    pub whep_endpoint: String,
    /// Bearer token, when one is configured.
    pub auth_token: Option<String>,
    /// Latency of the audio mixer, in milliseconds.
    pub mixer_latency_ms: u64,
    /// Latency of the jitter buffer, in milliseconds.
    pub jitterbuffer_latency_ms: u32,
}

/// A signed integer property, or `None`.
pub open spec fn int_prop(props: Map<Seq<char>, PropVal>, key: Seq<char>) -> Option<i64> {
    if props.contains_key(key) {
        match props[key] {
            PropVal::Int(i) => Some(i),
            _ => None,
        }
    } else {
        None
    }
}

/// Reads a signed integer property.
pub fn get_int(properties: &Properties, key: &str) -> (r: Option<i64>)
    ensures
        r == int_prop(properties@, key@),
{
    match properties.get(key) {
        Some(PropertyValue::Int(i)) => Some(*i),
        _ => None,
    }
}

/// Reads a WHEP input's settings: `whep_endpoint` must be a non-empty
/// string; `auth_token` is kept when non-empty; `mixer_latency_ms` (default
/// 30) and `jitterbuffer_latency_ms` (default `default_jitterbuffer_ms`) are
/// integer properties converted (truncating) to their widths.
pub fn parse_whep_input_config(properties: &Properties, default_jitterbuffer_ms: u32) -> (r: Result<
    WhepInputConfig,
    BlockBuildError,
>)
    ensures
        match nonempty_string_prop(properties@, "whep_endpoint"@) {
            None => r matches Err(BlockBuildError::InvalidProperty(m)) && m@
                == "whep_endpoint property required"@,
            Some(ep) => r is Ok && ({
                let c = r->Ok_0;
                &&& c.whep_endpoint@ == ep
                &&& match nonempty_string_prop(properties@, "auth_token"@) {
                    Some(t) => c.auth_token is Some && c.auth_token->0@ == t,
                    None => c.auth_token is None,
                }
                &&& c.mixer_latency_ms == match int_prop(properties@, "mixer_latency_ms"@) {
                    Some(i) => i as u64,
                    None => 30u64,
                }
                &&& c.jitterbuffer_latency_ms == match int_prop(
                    properties@,
                    "jitterbuffer_latency_ms"@,
                ) {
                    Some(i) => i as u32,
                    None => default_jitterbuffer_ms,
                }
            }),
        },
{
    let whep_endpoint = match get_nonempty_string(properties, "whep_endpoint") {
        Some(s) => s,
        None => {
            return Err(
                BlockBuildError::InvalidProperty(string_of("whep_endpoint property required")),
            );
        },
    };
    let auth_token = get_nonempty_string(properties, "auth_token");
    let mixer_latency_ms = match get_int(properties, "mixer_latency_ms") {
        Some(i) => i as u64,
        None => 30,
    };
    let jitterbuffer_latency_ms = match get_int(properties, "jitterbuffer_latency_ms") {
        Some(i) => i as u32,
        None => default_jitterbuffer_ms,
    };
    Ok(WhepInputConfig { whep_endpoint, auth_token, mixer_latency_ms, jitterbuffer_latency_ms })
}

// ---------------------------------------------------------------------------
// Endpoint ids
// ---------------------------------------------------------------------------

/// The configured endpoint id: the `endpoint_id` string property, trimmed,
/// when that is not empty.
pub open spec fn configured_endpoint_id(props: Map<Seq<char>, PropVal>) -> Option<Seq<char>> {
    if props.contains_key("endpoint_id"@) {
        match props["endpoint_id"@] {
            PropVal::Str(s) => if trimmed(s).len() > 0 { Some(trimmed(s)) } else { None },
            _ => None,
        }
    } else {
        None
    }
}

/// Reads the configured endpoint id (see [`configured_endpoint_id`]).
pub fn get_configured_endpoint_id(properties: &Properties) -> (r: Option<String>)
    ensures
        match configured_endpoint_id(properties@) {
            Some(t) => r is Some && r->0@ == t,
            None => r is None,
        },
{
    match properties.get("endpoint_id") {
        Some(PropertyValue::String(s)) => {
            let t = trim(s.as_str());
            if t.unicode_len() == 0 {
                None
            } else {
                Some(t)
            }
        },
        _ => None,
    }
}

/// A lower-case hexadecimal digit: `0`-`9` or `a`-`f`.
pub open spec fn is_lower_hex_digit(c: char) -> bool {
    ('0' <= c && c <= '9') || ('a' <= c && c <= 'f')
}

/// The hyphenated lower-case text of a random (version 4, RFC 4122 variant)
/// UUID: 36 characters, `-` at positions 8, 13, 18 and 23, a lower-case
/// hexadecimal digit everywhere else, the version digit `4` at position 14
/// and one of `8`, `9`, `a`, `b` at position 19.
pub open spec fn is_uuid_v4_text(s: Seq<char>) -> bool {
    &&& s.len() == 36
    &&& forall|i: int|
        0 <= i < 36 ==> if i == 8 || i == 13 || i == 18 || i == 23 {
            #[trigger] s[i] == '-'
        } else {
            is_lower_hex_digit(s[i])
        }
    &&& s[14] == '4'
    &&& (s[19] == '8' || s[19] == '9' || s[19] == 'a' || s[19] == 'b')
}

/// A fresh random UUID (version 4) in its hyphenated text form
/// (`Uuid::new_v4().to_string()`).
///
/// Trusted: `new_v4` masks the version nibble to `4` and the variant bits to
/// `10`, and `to_string` prints the hyphenated lower-case form, so the text
/// has the shape `is_uuid_v4_text` describes. Its other digits come from the
/// random source and nothing is stated of them.
#[verifier::external_body]
fn new_uuid_string() -> (r: String)
    ensures
        is_uuid_v4_text(r@),
{
    uuid::Uuid::new_v4().to_string()
}

/// The endpoint id of a WHEP output or WHIP input: the configured id, or a
/// fresh random UUID (version 4, hyphenated lower-case text) when none is
/// configured.
pub fn resolve_endpoint_id(properties: &Properties) -> (r: String)
    ensures
        match configured_endpoint_id(properties@) {
            Some(t) => r@ == t,
            None => is_uuid_v4_text(r@),
        },
{
    match get_configured_endpoint_id(properties) {
        Some(t) => t,
        None => new_uuid_string(),
    }
}

/// The address a WHEP/WHIP server element listens on: the loopback host at
/// `port`.
pub fn local_host_addr(port: u16) -> (r: String)
    ensures
        r@ == "http://127.0.0.1:"@ + decimal(port as nat),
{
    let mut r = string_of("http://127.0.0.1:");
    push_decimal(&mut r, port as u64);
    r
}

// ---------------------------------------------------------------------------
// Caps decisions
// ---------------------------------------------------------------------------

/// Whether the codec-preference entry at `i` is kept: VP8 entries are
/// dropped, and of several entries of one codec only the first is kept.
pub open spec fn keeps_codec_preference(names: Seq<Seq<char>>, i: int) -> bool {
    names[i] != "video/x-vp8"@ && forall|j: int| 0 <= j < i ==> names[j] != names[i]
}

/// The string views of a list of strings.
pub open spec fn names_of(v: Seq<String>) -> Seq<Seq<char>> {
    v.map_values(|s: String| s@)
}

/// The indices of the codec-preference entries (given by their structure
/// names) that a transceiver keeps, in order.
pub fn select_codec_preferences(names: &Vec<String>) -> (r: Vec<usize>)
    ensures
        forall|k: int| 0 <= k < r@.len() ==> r@[k] < names@.len() && keeps_codec_preference(names_of(names@), r@[k] as int),
        forall|i: int|
            0 <= i < names@.len() && keeps_codec_preference(names_of(names@), i) ==> r@.contains(i as usize),
        forall|a: int, b: int| 0 <= a < b < r@.len() ==> r@[a] < r@[b],
{
    let ghost nv = names_of(names@);
    let mut r: Vec<usize> = Vec::new();
    let mut i: usize = 0;
    while i < names.len()
        invariant
            i <= names@.len(),
            nv == names_of(names@),
            forall|k: int| 0 <= k < r@.len() ==> r@[k] < i && keeps_codec_preference(nv, r@[k] as int),
            forall|x: int| 0 <= x < i && keeps_codec_preference(nv, x) ==> r@.contains(x as usize),
            forall|a: int, b: int| 0 <= a < b < r@.len() ==> r@[a] < r@[b],
        decreases names.len() - i,
    {
        let mut keep = !str_eq(names[i].as_str(), "video/x-vp8");
        let mut j: usize = 0;
        while keep && j < i
            invariant
                i < names@.len(),
                j <= i,
                nv == names_of(names@),
                keep ==> nv[i as int] != "video/x-vp8"@ && forall|x: int| 0 <= x < j ==> nv[x] != nv[i as int],
                !keep ==> !keeps_codec_preference(nv, i as int),
            decreases i - j,
        {
            let same = str_eq(names[j].as_str(), names[i].as_str());
            assert(nv[j as int] == names@[j as int]@ && nv[i as int] == names@[i as int]@);
            if same {
                keep = false;
            }
            j = j + 1;
        }
        let ghost old_r = r@;
        if keep {
            r.push(i);
        }
        assert forall|x: int| 0 <= x < i + 1 && keeps_codec_preference(nv, x) implies r@.contains(x as usize) by {
            if x < i {
                let k = choose|k: int| 0 <= k < old_r.len() && old_r[k] == x as usize;
                assert(r@[k] == x as usize);
            } else {
                assert(keep);
                assert(r@[r@.len() - 1] == i);
            }
        }
        i = i + 1;
    }
    r
}

/// The indices of the fields of a structure (given by their names) that
/// remain once the fields named in `removed` are taken out, in order.
pub fn retained_fields(fields: &Vec<String>, removed: &Vec<&'static str>) -> (r: Vec<usize>)
    ensures
        forall|k: int| 0 <= k < r@.len() ==> r@[k] < fields@.len() && !removed_names(removed@).contains(
            fields@[r@[k] as int]@,
        ),
        forall|i: int|
            0 <= i < fields@.len() && !removed_names(removed@).contains(fields@[i]@) ==> r@.contains(
                i as usize,
            ),
        forall|a: int, b: int| 0 <= a < b < r@.len() ==> r@[a] < r@[b],
{
    let ghost rn = removed_names(removed@);
    let mut r: Vec<usize> = Vec::new();
    let mut i: usize = 0;
    while i < fields.len()
        invariant
            i <= fields@.len(),
            rn == removed_names(removed@),
            forall|k: int| 0 <= k < r@.len() ==> r@[k] < i && !rn.contains(fields@[r@[k] as int]@),
            forall|x: int| 0 <= x < i && !rn.contains(fields@[x]@) ==> r@.contains(x as usize),
            forall|a: int, b: int| 0 <= a < b < r@.len() ==> r@[a] < r@[b],
        decreases fields.len() - i,
    {
        let mut hit = false;
        let mut j: usize = 0;
        while j < removed.len()
            invariant
                i < fields@.len(),
                j <= removed@.len(),
                rn == removed_names(removed@),
                hit == exists|x: int| 0 <= x < j && rn[x] == fields@[i as int]@,
            decreases removed.len() - j,
        {
            let same = str_eq(removed[j], fields[i].as_str());
            assert(rn[j as int] == removed@[j as int]@);
            if same {
                hit = true;
            }
            j = j + 1;
        }
        let ghost old_r = r@;
        if !hit {
            r.push(i);
        }
        assert forall|x: int| 0 <= x < i + 1 && !rn.contains(fields@[x]@) implies r@.contains(x as usize) by {
            if x < i {
                let k = choose|k: int| 0 <= k < old_r.len() && old_r[k] == x as usize;
                assert(r@[k] == x as usize);
            } else {
                if hit {
                    let y = choose|y: int| 0 <= y < removed@.len() && rn[y] == fields@[i as int]@;
                    assert(rn.contains(fields@[i as int]@));
                }
                assert(r@[r@.len() - 1] == i);
            }
        }
        assert forall|k: int| 0 <= k < r@.len() implies r@[k] < i + 1 && !rn.contains(fields@[r@[k] as int]@) by {
            if k == r@.len() - 1 && !hit {
                if rn.contains(fields@[i as int]@) {
                    let y = choose|y: int| 0 <= y < rn.len() && rn[y] == fields@[i as int]@;
                    assert(y < removed@.len());
                }
            }
        }
        i = i + 1;
    }
    r
}

/// The string views of a list of names.
pub open spec fn removed_names(v: Seq<&'static str>) -> Seq<Seq<char>> {
    v.map_values(|s: &'static str| s@)
}

/// The fields that pin an H.264 profile, taken out of codec preferences
/// and of the payloader's capsfilters.
pub fn profile_fields() -> (r: Vec<&'static str>)
    ensures
        removed_names(r@) == seq!["profile-level-id"@, "profile"@],
{
    let mut v: Vec<&'static str> = Vec::new();
    v.push("profile-level-id");
    v.push("profile");
    assert(removed_names(v@) =~= seq!["profile-level-id"@, "profile"@]);
    v
}

/// The fields that a parser adds to H.264/H.265 caps while it parses the
/// stream, taken out before the caps reach the WebRTC sink.
pub fn parser_added_fields() -> (r: Vec<&'static str>)
    ensures
        removed_names(r@) == seq![
            "coded-picture-structure"@,
            "chroma-format"@,
            "bit-depth-luma"@,
            "bit-depth-chroma"@,
        ],
{
    let mut v: Vec<&'static str> = Vec::new();
    v.push("coded-picture-structure");
    v.push("chroma-format");
    v.push("bit-depth-luma");
    v.push("bit-depth-chroma");
    assert(removed_names(v@) =~= seq![
        "coded-picture-structure"@,
        "chroma-format"@,
        "bit-depth-luma"@,
        "bit-depth-chroma"@,
    ]);
    v
}

/// Whether a structure with fields `fields` pins a profile.
pub fn has_profile_field(fields: &Vec<String>) -> (r: bool)
    ensures
        r == exists|i: int|
            0 <= i < fields@.len() && (fields@[i]@ == "profile-level-id"@ || fields@[i]@ == "profile"@),
{
    let mut i: usize = 0;
    while i < fields.len()
        invariant
            i <= fields@.len(),
            forall|x: int|
                0 <= x < i ==> !(fields@[x]@ == "profile-level-id"@ || fields@[x]@ == "profile"@),
        decreases fields.len() - i,
    {
        if str_eq(fields[i].as_str(), "profile-level-id") || str_eq(fields[i].as_str(), "profile") {
            return true;
        }
        i = i + 1;
    }
    false
}

/// Whether caps named `caps_name` get the parser-added fields taken out.
pub fn normalizes_parser_fields(caps_name: &str) -> (r: bool)
    ensures
        r == (caps_name@ == "video/x-h264"@ || caps_name@ == "video/x-h265"@),
{
    str_eq(caps_name, "video/x-h264") || str_eq(caps_name, "video/x-h265")
}

/// The video caps that a WHEP output is restricted to for an input codec:
/// pre-encoded H.264, H.265, VP9 and AV1 keep their codec; raw or unknown
/// video leaves the defaults.
pub open spec fn webrtc_video_caps_spec(codec: Seq<char>) -> Option<Seq<char>> {
    if codec == "video/x-h264"@ || codec == "video/x-h265"@ || codec == "video/x-vp9"@ || codec
        == "video/x-av1"@ {
        Some(codec)
    } else {
        None
    }
}

/// A WHEP output passes a pre-encoded H.264, H.265, VP9 or AV1 stream
/// through under exactly that codec's caps; whatever caps it chooses are
/// the input codec's own; raw video leaves the defaults.
pub proof fn law_webrtc_video_caps(codec: Seq<char>)
    ensures
        codec == "video/x-h264"@ ==> webrtc_video_caps_spec(codec) == Some("video/x-h264"@),
        codec == "video/x-h265"@ ==> webrtc_video_caps_spec(codec) == Some("video/x-h265"@),
        codec == "video/x-vp9"@ ==> webrtc_video_caps_spec(codec) == Some("video/x-vp9"@),
        codec == "video/x-av1"@ ==> webrtc_video_caps_spec(codec) == Some("video/x-av1"@),
        webrtc_video_caps_spec(codec) is Some ==> webrtc_video_caps_spec(codec)->0 == codec,
        codec == "video/x-raw"@ ==> webrtc_video_caps_spec(codec) is None,
{
    reveal_strlit("video/x-h264");
    reveal_strlit("video/x-h265");
    reveal_strlit("video/x-vp9");
    reveal_strlit("video/x-av1");
    reveal_strlit("video/x-raw");
    let raw = "video/x-raw"@;
    assert(raw != "video/x-h264"@ && raw != "video/x-h265"@) by {
        assert(raw.len() != "video/x-h264"@.len());
    }
    assert(raw != "video/x-vp9"@ && raw != "video/x-av1"@) by {
        assert(raw[8] != "video/x-vp9"@[8] && raw[8] != "video/x-av1"@[8]);
    }
}

/// Chooses the video caps of a WHEP output for an input codec.
pub fn webrtc_video_caps(codec: &str) -> (r: Option<String>)
    ensures
        match webrtc_video_caps_spec(codec@) {
            Some(c) => r is Some && r->0@ == c,
            None => r is None,
        },
{
    if str_eq(codec, "video/x-h264") || str_eq(codec, "video/x-h265") || str_eq(
        codec,
        "video/x-vp9",
    ) || str_eq(codec, "video/x-av1") {
        Some(string_of(codec))
    } else {
        None
    }
}

/// What a negotiated WebRTC stream carries.
#[derive(Debug, Clone, Copy, PartialEq, Eq, Structural)]
pub enum StreamKind {
    Audio,
    Video,
    Unknown,
}

/// The kind of a stream from its caps name and, for RTP caps, its `media`
/// field (an absent field counts as empty).
pub open spec fn stream_kind_spec(caps_name: Seq<char>, media: Option<Seq<char>>) -> StreamKind {
    let m = match media {
        Some(m) => m,
        None => Seq::empty(),
    };
    if caps_name == "application/x-rtp"@ {
        if m == "audio"@ {
            StreamKind::Audio
        } else if m == "video"@ {
            StreamKind::Video
        } else {
            StreamKind::Unknown
        }
    } else if has_prefix(caps_name, "audio/"@) {
        StreamKind::Audio
    } else if has_prefix(caps_name, "video/"@) {
        StreamKind::Video
    } else {
        StreamKind::Unknown
    }
}

/// Classifies a stream (audio is decoded into the mixer, video is
/// discarded, anything else is left alone).
pub fn classify_stream(caps_name: &str, media: Option<&str>) -> (r: StreamKind)
    ensures
        r == stream_kind_spec(
            caps_name@,
            match media {
                Some(m) => Some(m@),
                None => None,
            },
        ),
{
    if str_eq(caps_name, "application/x-rtp") {
        match media {
            Some(m) => {
                if str_eq(m, "audio") {
                    StreamKind::Audio
                } else if str_eq(m, "video") {
                    StreamKind::Video
                } else {
                    StreamKind::Unknown
                }
            },
            None => {
                proof {
                    reveal_strlit("audio");
                    reveal_strlit("video");
                    assert("audio"@.len() == 5);
                    assert("video"@.len() == 5);
                }
                StreamKind::Unknown
            },
        }
    } else if starts_with(caps_name, "audio/") {
        StreamKind::Audio
    } else if starts_with(caps_name, "video/") {
        StreamKind::Video
    } else {
        StreamKind::Unknown
    }
}

// ---------------------------------------------------------------------------
// Element plans
// ---------------------------------------------------------------------------

/// The elements and links of a WHEP input: the source (`whepclientsrc` or
/// `whepsrc`), then the audio chain live mixer, caps filter, output
/// converter and output resampler, linked in that order (`src` to `sink`).
/// The source's streams are linked to the mixer as they appear.
pub open spec fn whep_input_plan_spec(instance_id: Seq<char>, use_client: bool) -> BlockPlanView {
    let source: Seq<char> = if use_client {
        "whepclientsrc"@
    } else {
        "whepsrc"@
    };
    BlockPlanView {
        elements: seq![
            element_id_spec(instance_id, source),
            element_id_spec(instance_id, "liveadder"@),
            element_id_spec(instance_id, "capsfilter"@),
            element_id_spec(instance_id, "output_audioconvert"@),
            element_id_spec(instance_id, "output_audioresample"@),
        ],
        links: seq![
            link_spec(instance_id, "liveadder"@, "src"@, "capsfilter"@, "sink"@),
            link_spec(instance_id, "capsfilter"@, "src"@, "output_audioconvert"@, "sink"@),
            link_spec(instance_id, "output_audioconvert"@, "src"@, "output_audioresample"@, "sink"@),
        ],
        bus_message_handler: false,
    }
}

/// Plans the elements and links of a WHEP input block; the source is
/// `whepclientsrc` when the `implementation` property asks for it (see
/// [`whep_input_uses_client_src`]).
pub fn whep_input_plan(instance_id: &str, properties: &Properties) -> (r: BlockPlan)
    ensures
        r@ == whep_input_plan_spec(
            instance_id@,
            string_prop_is(properties@, "implementation"@, "whepclientsrc"@),
        ),
{
    let use_client = whep_input_uses_client_src(properties);
    let mut elements: Vec<String> = Vec::new();
    let mut links: Vec<ElementLink> = Vec::new();
    if use_client {
        push_element(&mut elements, instance_id, "whepclientsrc");
    } else {
        push_element(&mut elements, instance_id, "whepsrc");
    }
    push_element(&mut elements, instance_id, "liveadder");
    push_element(&mut elements, instance_id, "capsfilter");
    push_element(&mut elements, instance_id, "output_audioconvert");
    push_element(&mut elements, instance_id, "output_audioresample");
    push_link(&mut links, pad_link(instance_id, "liveadder", "src", "capsfilter", "sink"));
    push_link(&mut links, pad_link(instance_id, "capsfilter", "src", "output_audioconvert", "sink"));
    push_link(&mut links, pad_link(instance_id, "output_audioconvert", "src", "output_audioresample", "sink"));
    let r = BlockPlan { elements, links, bus_message_handler: false };
    assert(r@ =~= whep_input_plan_spec(instance_id@, use_client));
    r
}

/// The elements and links of a WHEP output for a stream mode: when audio
/// is carried, a converter and a resampler feeding the server's `audio_0`
/// pad; when video is carried, a queue feeding its `video_0` pad; then the
/// `whepserversink` itself.
pub open spec fn whep_output_plan_spec(instance_id: Seq<char>, mode: WhepStreamMode) -> BlockPlanView {
    BlockPlanView {
        elements: (if mode.has_audio_spec() {
            seq![element_id_spec(instance_id, "audioconvert"@), element_id_spec(instance_id, "audioresample"@)]
        } else {
            Seq::empty()
        }) + (if mode.has_video_spec() {
            seq![element_id_spec(instance_id, "video_queue"@)]
        } else {
            Seq::empty()
        }) + seq![element_id_spec(instance_id, "whepserversink"@)],
        links: (if mode.has_audio_spec() {
            seq![
                link_spec(instance_id, "audioconvert"@, "src"@, "audioresample"@, "sink"@),
                link_spec(instance_id, "audioresample"@, "src"@, "whepserversink"@, "audio_0"@),
            ]
        } else {
            Seq::empty()
        }) + (if mode.has_video_spec() {
            seq![link_spec(instance_id, "video_queue"@, "src"@, "whepserversink"@, "video_0"@)]
        } else {
            Seq::empty()
        }),
        bus_message_handler: false,
    }
}

/// Plans the elements and links of a WHEP output block (see
/// [`whep_output_plan_spec`]).
pub fn whep_output_plan(instance_id: &str, mode: WhepStreamMode) -> (r: BlockPlan)
    ensures
        r@ == whep_output_plan_spec(instance_id@, mode),
{
    let mut elements: Vec<String> = Vec::new();
    let mut links: Vec<ElementLink> = Vec::new();
    if mode.has_audio() {
        push_element(&mut elements, instance_id, "audioconvert");
        push_element(&mut elements, instance_id, "audioresample");
        push_link(&mut links, pad_link(instance_id, "audioconvert", "src", "audioresample", "sink"));
        push_link(&mut links, pad_link(instance_id, "audioresample", "src", "whepserversink", "audio_0"));
    }
    if mode.has_video() {
        push_element(&mut elements, instance_id, "video_queue");
        push_link(&mut links, pad_link(instance_id, "video_queue", "src", "whepserversink", "video_0"));
    }
    push_element(&mut elements, instance_id, "whepserversink");
    let r = BlockPlan { elements, links, bus_message_handler: false };
    assert(r@ =~= whep_output_plan_spec(instance_id@, mode));
    r
}

} // verus!

