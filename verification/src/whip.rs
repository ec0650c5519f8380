//! WHIP server endpoints: the decisions around a single-use WHIP server
//! element (its name, its codecs, how it routes the streams a client sends,
//! when it asks for a keyframe) and the bookkeeping that recreates it after
//! each session.
use vstd::prelude::*;

use crate::property::StrMap;
use crate::text::{concat3, decimal, lemma_decimal_digits, has_prefix, has_substring, starts_with, contains_str, str_eq, string_of, element_name, with_index};
use crate::property::{PropVal, PropertyValue, Properties};
use crate::whep::{
    configured_endpoint_id, get_nonempty_string, is_uuid_v4_text, nonempty_string_prop, resolve_endpoint_id, BlockBuildError,
    WhepStreamMode,
};

verus! {

// ---------------------------------------------------------------------------
// The server element
// ---------------------------------------------------------------------------

/// The name of the server element of generation `generation`: the first
/// is `{instance}:whipserversrc`, each later one
/// `{instance}:whipserversrc_g{generation}`.
pub open spec fn whip_server_name_spec(instance_id: Seq<char>, generation: nat) -> Seq<char> {
    if generation == 0 {
        instance_id + ":whipserversrc"@
    } else {
        instance_id + ":whipserversrc_g"@ + decimal(generation)
    }
}

/// Names the server element of a generation.
pub fn whip_server_name(instance_id: &str, generation: usize) -> (r: String)
    ensures
        r@ == whip_server_name_spec(instance_id@, generation as nat),
{
    if generation == 0 {
        element_name(instance_id, ":whipserversrc")
    } else {
        let base = element_name(instance_id, ":whipserversrc_g");
        with_index(base.as_str(), generation)
    }
}

/// Each generation's server element has a name of its own: two different
/// generations never share a name.
pub proof fn law_whip_server_names_distinct(instance_id: Seq<char>, g1: nat, g2: nat)
    requires
        g1 != g2,
    ensures
        whip_server_name_spec(instance_id, g1) != whip_server_name_spec(instance_id, g2),
{
    reveal_strlit(":whipserversrc");
    reveal_strlit(":whipserversrc_g");
    lemma_decimal_digits(g1);
    lemma_decimal_digits(g2);
    let a = whip_server_name_spec(instance_id, g1);
    let b = whip_server_name_spec(instance_id, g2);
    if g1 == 0 || g2 == 0 {
        // The first generation's name is shorter than any later one.
        assert(a.len() != b.len());
    } else if a == b {
        let k: int = instance_id.len() as int + 16;
        assert(a.subrange(k, a.len() as int) =~= decimal(g1));
        assert(b.subrange(k, b.len() as int) =~= decimal(g2));
    }
}

/// The codecs the server accepts: Opus audio and H.264 video, each only
/// when the mode carries that medium.
pub fn whip_server_codecs(mode: WhepStreamMode) -> (r: (Vec<&'static str>, Vec<&'static str>))
    ensures
        r.0@.len() == (if mode.has_audio_spec() { 1int } else { 0int }),
        mode.has_audio_spec() ==> r.0@[0]@ == "OPUS"@,
        r.1@.len() == (if mode.has_video_spec() { 1int } else { 0int }),
        mode.has_video_spec() ==> r.1@[0]@ == "H264"@,
{
    let mut audio: Vec<&'static str> = Vec::new();
    let mut video: Vec<&'static str> = Vec::new();
    if mode.has_audio() {
        audio.push("OPUS");
    }
    if mode.has_video() {
        video.push("H264");
    }
    (audio, video)
}

/// The TWCC feedback interval set on the server's RTP sessions: 200 ms.
pub const TWCC_FEEDBACK_INTERVAL_NS: u64 = 200_000_000;

/// What is done to an element that appears inside the server element.
#[derive(Clone, Copy, Debug, PartialEq, Eq, Structural)]
pub struct DeepElementActions {
    /// A `webrtcbin`: set its ICE transport policy and register it.
    pub configure_webrtcbin: bool,
    /// An RTP session with an internal session: set its TWCC interval.
    pub set_twcc_interval: bool,
    /// A video decoder: request a keyframe when its input breaks.
    pub recover_keyframes: bool,
}

/// Classifies an element added inside the server by its name, its
/// factory's name, its factory's class, and whether it has an internal
/// session.
pub open spec fn deep_element_spec(name: Seq<char>, factory: Seq<char>, klass: Seq<char>, has_internal_session: bool) -> DeepElementActions {
    DeepElementActions {
        configure_webrtcbin: has_prefix(name, "webrtcbin"@),
        set_twcc_interval: factory == "rtpsession"@ && has_internal_session,
        recover_keyframes: has_substring(klass, "Decoder"@) && has_substring(klass, "Video"@),
    }
}

/// Computes [`deep_element_spec`].
pub fn classify_deep_element(name: &str, factory: &str, klass: &str, has_internal_session: bool) -> (r: DeepElementActions)
    ensures
        r == deep_element_spec(name@, factory@, klass@, has_internal_session),
{
    DeepElementActions {
        configure_webrtcbin: starts_with(name, "webrtcbin"),
        set_twcc_interval: str_eq(factory, "rtpsession") && has_internal_session,
        recover_keyframes: contains_str(klass, "Decoder") && contains_str(klass, "Video"),
    }
}

// ---------------------------------------------------------------------------
// Keyframe recovery
// ---------------------------------------------------------------------------

/// The least time between two keyframe requests of one decoder.
pub const KEYFRAME_REQUEST_INTERVAL_MS: u64 = 1000;

/// When a decoder last asked for a keyframe.
pub struct KeyframeThrottle {
    /// The time of the last request, in milliseconds (0 before the first).
    pub last_request_ms: u64,
}

/// Whether a buffer at `now_ms` triggers a keyframe request: it breaks the
/// stream, and at least a second passed since the last request (time that
/// runs backwards counts as none).
pub open spec fn keyframe_due(discont: bool, now_ms: u64, last_ms: u64) -> bool {
    discont && now_ms >= last_ms && now_ms - last_ms >= KEYFRAME_REQUEST_INTERVAL_MS
}

impl KeyframeThrottle {
    /// A decoder that never asked.
    pub fn new() -> (r: KeyframeThrottle)
        ensures
            r.last_request_ms == 0,
    {
        KeyframeThrottle { last_request_ms: 0 }
    }

    /// Decides whether a buffer triggers a keyframe request, and records
    /// the request.
    pub fn on_buffer(&mut self, discont: bool, now_ms: u64) -> (r: bool)
        ensures
            r == keyframe_due(discont, now_ms, old(self).last_request_ms),
            final(self).last_request_ms == (if r { now_ms } else { old(self).last_request_ms }),
    {
        if discont && now_ms.saturating_sub(self.last_request_ms) >= KEYFRAME_REQUEST_INTERVAL_MS {
            self.last_request_ms = now_ms;
            true
        } else {
            false
        }
    }
}

/// After a request at `t`, no buffer before `t + 1000` ms triggers another.
pub proof fn law_keyframe_requests_spaced(t: u64, now: u64, discont: bool)
    requires
        t <= now < t + KEYFRAME_REQUEST_INTERVAL_MS,
    ensures
        !keyframe_due(discont, now, t),
{
}

// ---------------------------------------------------------------------------
// Routing the streams a client sends
// ---------------------------------------------------------------------------

/// The medium of a pad of the server element, from its name.
#[derive(Clone, Copy, Debug, PartialEq, Eq, Structural)]
pub enum PadMedium {
    Audio,
    Video,
    Unknown,
}

/// `audio_…` pads carry audio, `video_…` pads video.
pub open spec fn pad_medium_spec(pad_name: Seq<char>) -> PadMedium {
    if has_prefix(pad_name, "video_"@) {
        PadMedium::Video
    } else if has_prefix(pad_name, "audio_"@) {
        PadMedium::Audio
    } else {
        PadMedium::Unknown
    }
}

/// The medium of a pad (see [`pad_medium_spec`]).
pub fn pad_medium(pad_name: &str) -> (r: PadMedium)
    ensures
        r == pad_medium_spec(pad_name@),
{
    if starts_with(pad_name, "video_") {
        PadMedium::Video
    } else if starts_with(pad_name, "audio_") {
        PadMedium::Audio
    } else {
        PadMedium::Unknown
    }
}

/// What to do with a new pad of the server element.
#[derive(Clone, Copy, Debug, PartialEq, Eq, Structural)]
pub enum PadAction {
    /// Decode the audio into the block's audio mixer.
    ConnectAudio,
    /// Feed the video into the block's video converter.
    ConnectVideo,
    /// Send the stream of this medium to a fake sink.
    Discard(PadMedium),
    /// Leave the pad alone.
    Ignore,
}

/// Where the block's own elements that streams are fed into stand: not
/// configured (the mode lacks the medium), gone, or present.
#[derive(Clone, Copy, Debug, PartialEq, Eq, Structural)]
pub enum Downstream {
    Absent,
    Gone,
    Present,
}

/// The routing of one session's streams: at most one video stream is
/// connected at a time.
pub struct PadRouter {
    /// Whether a video stream is connected.
    pub video_connected: bool,
    /// Whether a video queue feeds the output converter.
    pub video_queue: bool,
    /// The audio pads whose streams feed the live mixer.
    pub audio_streams: StrMap<bool>,
}

/// The action for a new pad, and whether a video stream is connected
/// afterwards.
pub open spec fn pad_added_spec(medium: PadMedium, video_connected: bool, mixer: Downstream, converter: Downstream) -> (PadAction, bool) {
    match medium {
        PadMedium::Audio => (
            if mixer == Downstream::Present {
                PadAction::ConnectAudio
            } else {
                PadAction::Discard(PadMedium::Audio)
            },
            video_connected,
        ),
        PadMedium::Video => if video_connected {
            (PadAction::Discard(PadMedium::Video), true)
        } else {
            match converter {
                Downstream::Present => (PadAction::ConnectVideo, true),
                Downstream::Gone => (PadAction::Discard(PadMedium::Video), false),
                Downstream::Absent => (PadAction::Ignore, true),
            }
        },
        PadMedium::Unknown => (PadAction::Discard(PadMedium::Unknown), video_connected),
    }
}

/// What a removed pad leaves to clean up.
#[derive(Clone, Copy, Debug, PartialEq, Eq, Structural)]
pub enum PadCleanup {
    /// Remove the video queue and unlink the converter.
    Video,
    /// Remove the stream's audio elements and release its mixer pad.
    Audio,
    /// Nothing.
    Nothing,
}

impl PadRouter {
    /// A session with no stream yet.
    pub fn new() -> (r: PadRouter)
        ensures
            !r.video_connected,
            !r.video_queue,
            r.audio_streams@ == Map::<Seq<char>, bool>::empty(),
    {
        PadRouter { video_connected: false, video_queue: false, audio_streams: StrMap::new() }
    }

    /// Decides what to do with a new pad (see [`pad_added_spec`]).
    pub fn pad_added(&mut self, pad_name: &str, mixer: Downstream, converter: Downstream) -> (r: PadAction)
        ensures
            (r, final(self).video_connected) == pad_added_spec(
                pad_medium_spec(pad_name@),
                old(self).video_connected,
                mixer,
                converter,
            ),
            final(self).video_queue == old(self).video_queue,
            final(self).audio_streams@ == old(self).audio_streams@,
    {
        match pad_medium(pad_name) {
            PadMedium::Audio => {
                if mixer == Downstream::Present {
                    PadAction::ConnectAudio
                } else {
                    PadAction::Discard(PadMedium::Audio)
                }
            },
            PadMedium::Video => {
                if self.video_connected {
                    PadAction::Discard(PadMedium::Video)
                } else {
                    self.video_connected = true;
                    match converter {
                        Downstream::Present => PadAction::ConnectVideo,
                        Downstream::Gone => {
                            self.video_connected = false;
                            PadAction::Discard(PadMedium::Video)
                        },
                        Downstream::Absent => PadAction::Ignore,
                    }
                }
            },
            PadMedium::Unknown => PadAction::Discard(PadMedium::Unknown),
        }
    }

    /// Records that connecting a video stream failed: another may connect.
    pub fn video_setup_failed(&mut self)
        ensures
            !final(self).video_connected,
            final(self).video_queue == old(self).video_queue,
            final(self).audio_streams@ == old(self).audio_streams@,
    {
        self.video_connected = false;
    }

    /// Records that a video queue now feeds the output converter.
    pub fn video_queue_added(&mut self)
        ensures
            final(self).video_queue,
            final(self).video_connected == old(self).video_connected,
            final(self).audio_streams@ == old(self).audio_streams@,
    {
        self.video_queue = true;
    }

    /// Records that the stream of audio pad `pad_name` now feeds the mixer.
    pub fn audio_stream_connected(&mut self, pad_name: &str)
        ensures
            final(self).audio_streams@ == old(self).audio_streams@.insert(pad_name@, true),
            final(self).video_connected == old(self).video_connected,
            final(self).video_queue == old(self).video_queue,
    {
        self.audio_streams.insert(string_of(pad_name), true);
    }

    /// Forgets every stream before the server element is replaced: no video
    /// is connected, no video queue and no audio stream remains. Returns
    /// whether a video queue was in place and the audio pads whose elements
    /// are to be removed, each once.
    pub fn reset_for_recreation(&mut self) -> (r: (bool, Vec<String>))
        ensures
            r.0 == old(self).video_queue,
            forall|i: int| 0 <= i < r.1@.len() ==> old(self).audio_streams@.contains_key(#[trigger] r.1@[i]@),
            forall|k: Seq<char>|
                old(self).audio_streams@.contains_key(k) ==> exists|i: int| 0 <= i < r.1@.len() && #[trigger] r.1@[i]@ == k,
            forall|i: int, j: int| 0 <= i < j < r.1@.len() ==> r.1@[i]@ != r.1@[j]@,
            !final(self).video_connected,
            !final(self).video_queue,
            final(self).audio_streams@ == Map::<Seq<char>, bool>::empty(),
    {
        let had_queue = self.video_queue;
        let pads = self.audio_streams.keys();
        let ghost m = self.audio_streams@;
        assert(m == old(self).audio_streams@);
        assert forall|k: Seq<char>| m.contains_key(k) implies exists|i: int|
            0 <= i < pads@.len() && #[trigger] pads@[i]@ == k by {}
        self.video_connected = false;
        self.video_queue = false;
        self.audio_streams = StrMap::new();
        let r = (had_queue, pads);
        assert forall|k: Seq<char>| m.contains_key(k) implies exists|i: int|
            0 <= i < r.1@.len() && #[trigger] r.1@[i]@ == k by {
            let i = choose|i: int| 0 <= i < pads@.len() && #[trigger] pads@[i]@ == k;
            assert(r.1@[i]@ == k);
        }
        r
    }

    /// Decides what a removed pad leaves to clean up; a removed video pad
    /// lets another video stream connect.
    pub fn pad_removed(&mut self, pad_name: &str) -> (r: PadCleanup)
        ensures
            r == (match pad_medium_spec(pad_name@) {
                PadMedium::Video => PadCleanup::Video,
                PadMedium::Audio => PadCleanup::Audio,
                PadMedium::Unknown => PadCleanup::Nothing,
            }),
            final(self).video_connected == (pad_medium_spec(pad_name@) != PadMedium::Video && old(
                self,
            ).video_connected),
            final(self).video_queue == (pad_medium_spec(pad_name@) != PadMedium::Video && old(self).video_queue),
            final(self).audio_streams@ == if pad_medium_spec(pad_name@) == PadMedium::Audio {
                old(self).audio_streams@.remove(pad_name@)
            } else {
                old(self).audio_streams@
            },
    {
        match pad_medium(pad_name) {
            PadMedium::Video => {
                self.video_connected = false;
                self.video_queue = false;
                PadCleanup::Video
            },
            PadMedium::Audio => {
                let _ = self.audio_streams.remove(pad_name);
                PadCleanup::Audio
            },
            PadMedium::Unknown => PadCleanup::Nothing,
        }
    }
}

/// Of two video streams in a row, with the converter present, only the
/// first is connected; the second is discarded.
pub proof fn law_one_video_stream(converter: Downstream, mixer: Downstream)
    requires
        converter == Downstream::Present,
    ensures
        ({
            let (a1, c1) = pad_added_spec(PadMedium::Video, false, mixer, converter);
            let (a2, c2) = pad_added_spec(PadMedium::Video, c1, mixer, converter);
            a1 == PadAction::ConnectVideo && a2 == PadAction::Discard(PadMedium::Video) && c2
        }),
{
}

// ---------------------------------------------------------------------------
// Recreating the server element after each session
// ---------------------------------------------------------------------------

/// The recreation state of one endpoint.
#[derive(Clone, Copy, Debug, PartialEq, Eq, Structural)]
pub struct EndpointState {
    /// How many times the server element was recreated.
    pub generation: usize,
    /// Whether a recreation is under way.
    pub recreating: bool,
}

impl View for EndpointState {
    type V = EndpointState;

    open spec fn view(&self) -> EndpointState {
        *self
    }
}

/// What a request to recreate an endpoint's server element is answered.
#[derive(Debug, PartialEq, Eq)]
pub enum RecreateStep {
    /// Nothing to do: the process shuts down, or a recreation is under way.
    Skip,
    /// Replace the element now; report the end with
    /// [`WhipServers::finish_recreation`].
    Proceed,
}

/// What setting up a WHIP input decided: its endpoint id, the name of its
/// first server element, and its elements.
pub struct WhipInputSetup {
    pub endpoint_id: String,
    pub server_name: String,
    pub elements: Vec<WhipInputElement>,
}

/// The WHIP endpoints of the process and whether it shuts down.
pub struct WhipServers {
    shutdown: bool,
    endpoints: StrMap<EndpointState>,
}

/// The mathematical value of [`WhipServers`].
pub struct WhipServersView {
    pub shutdown: bool,
    pub endpoints: Map<Seq<char>, EndpointState>,
}

impl View for WhipServers {
    type V = WhipServersView;

    closed spec fn view(&self) -> WhipServersView {
        WhipServersView { shutdown: self.shutdown, endpoints: self.endpoints@ }
    }
}

/// The generation after a replacement: one more, wrapping to 0 past the
/// largest `usize`.
pub open spec fn next_generation(g: usize) -> usize {
    if g < usize::MAX {
        (g + 1) as usize
    } else {
        0
    }
}

/// The message for a recreation request of an unknown endpoint.
pub open spec fn no_context_message(endpoint_id: Seq<char>) -> Seq<char> {
    "No WhipServerContext for endpoint '"@ + endpoint_id + "'"@
}

/// The generation of an endpoint as the session-end handler reads it: 0
/// for an unknown endpoint.
pub open spec fn generation_or_zero(s: WhipServersView, endpoint_id: Seq<char>) -> usize {
    if s.endpoints.contains_key(endpoint_id) {
        s.endpoints[endpoint_id].generation
    } else {
        0
    }
}

impl WhipServers {
    /// No endpoints; not shutting down.
    pub fn new() -> (r: WhipServers)
        ensures
            !r@.shutdown,
            r@.endpoints == Map::<Seq<char>, EndpointState>::empty(),
    {
        WhipServers { shutdown: false, endpoints: StrMap::new() }
    }

    /// Registers an endpoint whose first element was just created.
    pub fn register_endpoint(&mut self, endpoint_id: &str)
        ensures
            final(self)@.shutdown == old(self)@.shutdown,
            final(self)@.endpoints == old(self)@.endpoints.insert(
                endpoint_id@,
                EndpointState { generation: 0, recreating: false },
            ),
    {
        self.endpoints.insert(string_of(endpoint_id), EndpointState { generation: 0, recreating: false });
    }

    /// Sets up a WHIP input block in `mode`: its endpoint id is the
    /// configured one or a fresh random UUID; its first server element,
    /// of generation 0, is named `{instance}:whipserversrc`; its elements
    /// are those of the mode; and the endpoint is registered at generation
    /// 0.
    pub fn setup_whip_input(&mut self, instance_id: &str, properties: &Properties, mode: WhepStreamMode) -> (r:
        WhipInputSetup)
        ensures
            match configured_endpoint_id(properties@) {
                Some(t) => r.endpoint_id@ == t,
                None => is_uuid_v4_text(r.endpoint_id@),
            },
            r.server_name@ == whip_server_name_spec(instance_id@, 0),
            r.elements@ == whip_input_elements_spec(mode),
            final(self)@.shutdown == old(self)@.shutdown,
            final(self)@.endpoints == old(self)@.endpoints.insert(
                r.endpoint_id@,
                EndpointState { generation: 0, recreating: false },
            ),
    {
        let endpoint_id = resolve_endpoint_id(properties);
        let server_name = whip_server_name(instance_id, 0);
        let elements = whip_input_elements(mode);
        self.register_endpoint(endpoint_id.as_str());
        WhipInputSetup { endpoint_id, server_name, elements }
    }

    /// Suppresses every later recreation (process shutdown).
    pub fn shutdown_whip_servers(&mut self)
        ensures
            final(self)@.shutdown,
            final(self)@.endpoints == old(self)@.endpoints,
    {
        self.shutdown = true;
    }

    /// The current generation of an endpoint.
    pub fn get_whip_generation(&self, endpoint_id: &str) -> (r: Option<usize>)
        ensures
            r == (if self@.endpoints.contains_key(endpoint_id@) {
                Some(self@.endpoints[endpoint_id@].generation)
            } else {
                None
            }),
    {
        match self.endpoints.get(endpoint_id) {
            Some(e) => Some(e.generation),
            None => None,
        }
    }

    /// The name of the element that replaces an endpoint's server element:
    /// that of the generation the replacement starts, so that each
    /// recreation gives a name not used before. `None` for an unknown
    /// endpoint.
    pub fn replacement_name(&self, instance_id: &str, endpoint_id: &str) -> (r: Option<String>)
        ensures
            match r {
                Some(name) => {
                    &&& self@.endpoints.contains_key(endpoint_id@)
                    &&& name@ == whip_server_name_spec(
                        instance_id@,
                        next_generation(self@.endpoints[endpoint_id@].generation) as nat,
                    )
                    &&& name@ != whip_server_name_spec(
                        instance_id@,
                        self@.endpoints[endpoint_id@].generation as nat,
                    )
                },
                None => !self@.endpoints.contains_key(endpoint_id@),
            },
    {
        match self.endpoints.get(endpoint_id) {
            Some(e) => {
                let g = e.generation;
                let next = if g < usize::MAX {
                    g + 1
                } else {
                    0
                };
                proof {
                    law_whip_server_names_distinct(instance_id@, next as nat, g as nat);
                }
                Some(whip_server_name(instance_id, next))
            },
            None => None,
        }
    }

    /// Answers a request to recreate an endpoint's element: skipped while
    /// shutting down or while a recreation is under way; refused for an
    /// unknown endpoint; else the recreation starts.
    pub fn recreate_whipserversrc(&mut self, endpoint_id: &str) -> (r: Result<RecreateStep, String>)
        ensures
            old(self)@.shutdown ==> r == Ok::<RecreateStep, String>(RecreateStep::Skip) && final(self)@ == old(self)@,
            !old(self)@.shutdown && !old(self)@.endpoints.contains_key(endpoint_id@) ==> (r matches Err(m)
                && m@ == no_context_message(endpoint_id@)) && final(self)@ == old(self)@,
            !old(self)@.shutdown && old(self)@.endpoints.contains_key(endpoint_id@) && old(self)@.endpoints[endpoint_id@].recreating
                ==> r == Ok::<RecreateStep, String>(RecreateStep::Skip) && final(self)@ == old(self)@,
            !old(self)@.shutdown && old(self)@.endpoints.contains_key(endpoint_id@) && !old(self)@.endpoints[endpoint_id@].recreating
                ==> r == Ok::<RecreateStep, String>(RecreateStep::Proceed) && final(self)@.shutdown == old(self)@.shutdown
                && final(self)@.endpoints == old(self)@.endpoints.insert(
                endpoint_id@,
                EndpointState { generation: old(self)@.endpoints[endpoint_id@].generation, recreating: true },
            ),
    {
        if self.shutdown {
            return Ok(RecreateStep::Skip);
        }
        let state = match self.endpoints.get(endpoint_id) {
            Some(e) => *e,
            None => {
                return Err(concat3("No WhipServerContext for endpoint '", endpoint_id, "'"));
            },
        };
        if state.recreating {
            return Ok(RecreateStep::Skip);
        }
        self.endpoints.insert(string_of(endpoint_id), EndpointState { generation: state.generation, recreating: true });
        Ok(RecreateStep::Proceed)
    }

    /// Ends a recreation: it is no longer under way, and where a new
    /// element was put in place the generation moves on (wrapping, as an
    /// atomic counter does).
    pub fn finish_recreation(&mut self, endpoint_id: &str, replaced: bool)
        ensures
            final(self)@.shutdown == old(self)@.shutdown,
            old(self)@.endpoints.contains_key(endpoint_id@) ==> final(self)@.endpoints == old(self)@.endpoints.insert(
                endpoint_id@,
                EndpointState {
                    generation: if replaced {
                        next_generation(old(self)@.endpoints[endpoint_id@].generation)
                    } else {
                        old(self)@.endpoints[endpoint_id@].generation
                    },
                    recreating: false,
                },
            ),
            !old(self)@.endpoints.contains_key(endpoint_id@) ==> final(self)@ == old(self)@,
    {
        match self.endpoints.get(endpoint_id) {
            Some(e) => {
                let g = if replaced {
                    if e.generation < usize::MAX {
                        e.generation + 1
                    } else {
                        0
                    }
                } else {
                    e.generation
                };
                self.endpoints.insert(string_of(endpoint_id), EndpointState { generation: g, recreating: false });
            },
            None => {},
        }
    }

    /// The generation seen when a session ends, to be compared after the
    /// grace delay; `None` while shutting down (no recreation follows).
    pub fn generation_at_session_end(&self, endpoint_id: &str) -> (r: Option<usize>)
        ensures
            r == (if self@.shutdown { None } else { Some(generation_or_zero(self@, endpoint_id@)) }),
    {
        if self.shutdown {
            return None;
        }
        match self.endpoints.get(endpoint_id) {
            Some(e) => Some(e.generation),
            None => Some(0),
        }
    }

    /// Whether the delayed recreation after a session end still runs: not
    /// while shutting down, and not when another recreation happened
    /// meanwhile (the generation moved).
    pub fn recreation_still_due(&self, endpoint_id: &str, generation_at_end: usize) -> (r: bool)
        ensures
            r == (!self@.shutdown && generation_or_zero(self@, endpoint_id@) == generation_at_end),
    {
        if self.shutdown {
            return false;
        }
        let current = match self.endpoints.get(endpoint_id) {
            Some(e) => e.generation,
            None => 0,
        };
        current == generation_at_end
    }
}

/// A recreation that completes makes a pending session-end recreation of
/// the same endpoint obsolete.
pub proof fn law_recreation_supersedes(s: WhipServersView, id: Seq<char>, g: usize)
    requires
        s.endpoints.contains_key(id),
        g == s.endpoints[id].generation,
        g < usize::MAX,
    ensures
        ({
            let t = WhipServersView {
                shutdown: s.shutdown,
                endpoints: s.endpoints.insert(id, EndpointState { generation: (g + 1) as usize, recreating: false }),
            };
            generation_or_zero(t, id) != g
        }),
{
}

// ---------------------------------------------------------------------------
// The WHIP input block's own elements
// ---------------------------------------------------------------------------

/// An element of a WHIP input block that outlives its server elements.
#[derive(Clone, Copy, Debug, PartialEq, Eq, Structural)]
pub enum WhipInputElement {
    /// The server element (first generation).
    ServerSrc,
    /// The live audio mixer that the audio streams feed.
    LiveAdder,
    /// Caps filter fixing 48 kHz stereo.
    CapsFilter,
    /// Output audio converter.
    OutputAudioConvert,
    /// Output audio resampler.
    OutputAudioResample,
    /// Output video converter.
    OutputVideoConvert,
}

/// The elements of a WHIP input block for a mode, in order: the server
/// element, then the audio chain when the mode carries audio, then the video
/// converter when it carries video.
pub open spec fn whip_input_elements_spec(mode: WhepStreamMode) -> Seq<WhipInputElement> {
    seq![WhipInputElement::ServerSrc] + (if mode.has_audio_spec() {
        seq![
            WhipInputElement::LiveAdder,
            WhipInputElement::CapsFilter,
            WhipInputElement::OutputAudioConvert,
            WhipInputElement::OutputAudioResample,
        ]
    } else {
        Seq::empty()
    }) + (if mode.has_video_spec() {
        seq![WhipInputElement::OutputVideoConvert]
    } else {
        Seq::empty()
    })
}

/// Lists the elements of a WHIP input block (see
/// [`whip_input_elements_spec`]).
pub fn whip_input_elements(mode: WhepStreamMode) -> (r: Vec<WhipInputElement>)
    ensures
        r@ == whip_input_elements_spec(mode),
{
    let mut v: Vec<WhipInputElement> = Vec::new();
    v.push(WhipInputElement::ServerSrc);
    if mode.has_audio() {
        v.push(WhipInputElement::LiveAdder);
        v.push(WhipInputElement::CapsFilter);
        v.push(WhipInputElement::OutputAudioConvert);
        v.push(WhipInputElement::OutputAudioResample);
    }
    if mode.has_video() {
        v.push(WhipInputElement::OutputVideoConvert);
    }
    assert(v@ =~= whip_input_elements_spec(mode));
    v
}

/// The static links of a WHIP input block: the audio chain from the mixer
/// through the caps filter and converter to the resampler (`src` to
/// `sink`), when the mode carries audio.
pub fn whip_input_links(mode: WhepStreamMode) -> (r: Vec<(WhipInputElement, WhipInputElement)>)
    ensures
        mode.has_audio_spec() ==> r@ == seq![
            (WhipInputElement::LiveAdder, WhipInputElement::CapsFilter),
            (WhipInputElement::CapsFilter, WhipInputElement::OutputAudioConvert),
            (WhipInputElement::OutputAudioConvert, WhipInputElement::OutputAudioResample),
        ],
        !mode.has_audio_spec() ==> r@.len() == 0,
{
    let mut v: Vec<(WhipInputElement, WhipInputElement)> = Vec::new();
    if mode.has_audio() {
        v.push((WhipInputElement::LiveAdder, WhipInputElement::CapsFilter));
        v.push((WhipInputElement::CapsFilter, WhipInputElement::OutputAudioConvert));
        v.push((WhipInputElement::OutputAudioConvert, WhipInputElement::OutputAudioResample));
        assert(v@ =~= seq![
            (WhipInputElement::LiveAdder, WhipInputElement::CapsFilter),
            (WhipInputElement::CapsFilter, WhipInputElement::OutputAudioConvert),
            (WhipInputElement::OutputAudioConvert, WhipInputElement::OutputAudioResample),
        ]);
    }
    v
}

/// The suffix of each element's id (`{instance}:{suffix}`).
pub open spec fn whip_input_suffix_spec(e: WhipInputElement) -> Seq<char> {
    match e {
        WhipInputElement::ServerSrc => "whipserversrc"@,
        WhipInputElement::LiveAdder => "liveadder"@,
        WhipInputElement::CapsFilter => "capsfilter"@,
        WhipInputElement::OutputAudioConvert => "output_audioconvert"@,
        WhipInputElement::OutputAudioResample => "output_audioresample"@,
        WhipInputElement::OutputVideoConvert => "output_videoconvert"@,
    }
}

impl WhipInputElement {
    /// The element's id in a block: `{instance}:{suffix}`.
    pub fn element_id(&self, instance_id: &str) -> (r: String)
        ensures
            r@ == instance_id@ + ":"@ + whip_input_suffix_spec(*self),
    {
        let suffix = match self {
            WhipInputElement::ServerSrc => "whipserversrc",
            WhipInputElement::LiveAdder => "liveadder",
            WhipInputElement::CapsFilter => "capsfilter",
            WhipInputElement::OutputAudioConvert => "output_audioconvert",
            WhipInputElement::OutputAudioResample => "output_audioresample",
            WhipInputElement::OutputVideoConvert => "output_videoconvert",
        };
        concat3(instance_id, ":", suffix)
    }
}

/// Every pad a WHIP input exposes sits on an element it creates: the audio
/// output on the output resampler, the video output on the output video
/// converter.
pub proof fn law_whip_pads_on_created_elements(mode: WhepStreamMode)
    ensures
        mode.has_audio_spec() ==> whip_input_elements_spec(mode).contains(WhipInputElement::OutputAudioResample)
            && whip_input_suffix_spec(WhipInputElement::OutputAudioResample) == "output_audioresample"@,
        mode.has_video_spec() ==> whip_input_elements_spec(mode).contains(WhipInputElement::OutputVideoConvert)
            && whip_input_suffix_spec(WhipInputElement::OutputVideoConvert) == "output_videoconvert"@,
{
    let e = whip_input_elements_spec(mode);
    if mode.has_audio_spec() {
        assert(e[4] == WhipInputElement::OutputAudioResample);
    }
    if mode.has_video_spec() {
        assert(e[e.len() - 1] == WhipInputElement::OutputVideoConvert);
    }
}

// ---------------------------------------------------------------------------
// The WHIP output block
// ---------------------------------------------------------------------------

/// The settings of a WHIP output.
pub struct WhipOutputConfig {
    /// The WHIP endpoint to send to.
    pub whip_endpoint: String,
    /// Bearer token, when one is configured.
    pub auth_token: Option<String>,
}

/// A string property, empty or not.
pub open spec fn string_prop(props: Map<Seq<char>, PropVal>, key: Seq<char>) -> Option<Seq<char>> {
    if props.contains_key(key) {
        match props[key] {
            PropVal::Str(s) => Some(s),
            _ => None,
        }
    } else {
        None
    }
}

/// Reads a WHIP output's settings: `whip_endpoint` must be a string (an
/// empty one is taken as it is); `auth_token` is kept when non-empty.
pub fn parse_whip_output_config(properties: &Properties) -> (r: Result<WhipOutputConfig, BlockBuildError>)
    ensures
        match string_prop(properties@, "whip_endpoint"@) {
            None => (r matches Err(BlockBuildError::InvalidProperty(m)) && m@ == "whip_endpoint property required"@),
            Some(ep) => r is Ok && r->Ok_0.whip_endpoint@ == ep && match nonempty_string_prop(
                properties@,
                "auth_token"@,
            ) {
                Some(t) => r->Ok_0.auth_token is Some && r->Ok_0.auth_token->0@ == t,
                None => r->Ok_0.auth_token is None,
            },
        },
{
    let whip_endpoint = match properties.get("whip_endpoint") {
        Some(PropertyValue::String(s)) => s.clone(),
        _ => {
            return Err(BlockBuildError::InvalidProperty(string_of("whip_endpoint property required")));
        },
    };
    let auth_token = get_nonempty_string(properties, "auth_token");
    Ok(WhipOutputConfig { whip_endpoint, auth_token })
}

/// Whether an RTP pad that appears in a WHIP output's receive bin is sent
/// to a fake sink: an unlinked source pad whose name contains `rtp_src`
/// (incoming RTCP feedback that nothing consumes).
pub open spec fn needs_fakesink_spec(is_src: bool, is_linked: bool, pad_name: Seq<char>) -> bool {
    is_src && !is_linked && has_substring(pad_name, "rtp_src"@)
}

/// Decides [`needs_fakesink_spec`].
pub fn incoming_rtp_needs_fakesink(is_src: bool, is_linked: bool, pad_name: &str) -> (r: bool)
    ensures
        r == needs_fakesink_spec(is_src, is_linked, pad_name@),
{
    is_src && !is_linked && contains_str(pad_name, "rtp_src")
}

/// The name of the fake sink for a pad: `whip_fakesink_{pad}`.
pub fn rtp_fakesink_name(pad_name: &str) -> (r: String)
    ensures
        r@ == "whip_fakesink_"@ + pad_name@,
{
    crate::text::concat2("whip_fakesink_", pad_name)
}

} // verus!
