//! The registry of built-in block kinds.
use vstd::prelude::*;

use crate::text::str_eq;

verus! {

/// A built-in block kind, one per block builder.
#[derive(Debug, Clone, Copy, PartialEq, Eq, Structural)]
pub enum BuiltinBlock {
    AES67Input,
    AES67Output,
    AudioFormat,
    AudioRouter,
    Compositor,
    DeckLinkVideoInput,
    DeckLinkAudioInput,
    DeckLinkVideoOutput,
    DeckLinkAudioOutput,
    InterOutput,
    InterInput,
    Latency,
    Loudness,
    MediaPlayer,
    Meter,
    Mixer,
    MpegTsSrtOutput,
    MpegTsSrtInput,
    NDIInput,
    NDIOutput,
    Spectrum,
    VideoEnc,
    VideoFormat,
    WHIPOutput,
    WHIPInput,
    WHEPInput,
    WHEPOutput,
}

/// The builder for a built-in block definition id.
pub open spec fn builder_for(id: Seq<char>) -> Option<BuiltinBlock> {
    if id == "builtin.aes67_input"@ {
        Some(BuiltinBlock::AES67Input)
    } else if id == "builtin.aes67_output"@ {
        Some(BuiltinBlock::AES67Output)
    } else if id == "builtin.audioformat"@ {
        Some(BuiltinBlock::AudioFormat)
    } else if id == "builtin.audiorouter"@ {
        Some(BuiltinBlock::AudioRouter)
    } else if id == "builtin.compositor"@ {
        Some(BuiltinBlock::Compositor)
    } else if id == "builtin.decklink_video_input"@ {
        Some(BuiltinBlock::DeckLinkVideoInput)
    } else if id == "builtin.decklink_audio_input"@ {
        Some(BuiltinBlock::DeckLinkAudioInput)
    } else if id == "builtin.decklink_video_output"@ {
        Some(BuiltinBlock::DeckLinkVideoOutput)
    } else if id == "builtin.decklink_audio_output"@ {
        Some(BuiltinBlock::DeckLinkAudioOutput)
    } else if id == "builtin.inter_output"@ {
        Some(BuiltinBlock::InterOutput)
    } else if id == "builtin.inter_input"@ {
        Some(BuiltinBlock::InterInput)
    } else if id == "builtin.latency"@ {
        Some(BuiltinBlock::Latency)
    } else if id == "builtin.loudness"@ {
        Some(BuiltinBlock::Loudness)
    } else if id == "builtin.media_player"@ {
        Some(BuiltinBlock::MediaPlayer)
    } else if id == "builtin.meter"@ {
        Some(BuiltinBlock::Meter)
    } else if id == "builtin.mixer"@ {
        Some(BuiltinBlock::Mixer)
    } else if id == "builtin.mpegtssrt_output"@ {
        Some(BuiltinBlock::MpegTsSrtOutput)
    } else if id == "builtin.mpegtssrt_input"@ {
        Some(BuiltinBlock::MpegTsSrtInput)
    } else if id == "builtin.ndi_input"@ {
        Some(BuiltinBlock::NDIInput)
    } else if id == "builtin.ndi_output"@ {
        Some(BuiltinBlock::NDIOutput)
    } else if id == "builtin.spectrum"@ {
        Some(BuiltinBlock::Spectrum)
    } else if id == "builtin.videoenc"@ {
        Some(BuiltinBlock::VideoEnc)
    } else if id == "builtin.videoformat"@ {
        Some(BuiltinBlock::VideoFormat)
    } else if id == "builtin.whip_output"@ {
        Some(BuiltinBlock::WHIPOutput)
    } else if id == "builtin.whip_input"@ {
        Some(BuiltinBlock::WHIPInput)
    } else if id == "builtin.whep_input"@ {
        Some(BuiltinBlock::WHEPInput)
    } else if id == "builtin.whep_output"@ {
        Some(BuiltinBlock::WHEPOutput)
    } else {
        None
    }
}

/// Get the builder for a built-in block by its definition ID; `None` for an
/// id that names no built-in block.
pub fn get_builder(block_definition_id: &str) -> (r: Option<BuiltinBlock>)
    ensures
        r == builder_for(block_definition_id@),
{
    if str_eq(block_definition_id, "builtin.aes67_input") {
        Some(BuiltinBlock::AES67Input)
    } else if str_eq(block_definition_id, "builtin.aes67_output") {
        Some(BuiltinBlock::AES67Output)
    } else if str_eq(block_definition_id, "builtin.audioformat") {
        Some(BuiltinBlock::AudioFormat)
    } else if str_eq(block_definition_id, "builtin.audiorouter") {
        Some(BuiltinBlock::AudioRouter)
    } else if str_eq(block_definition_id, "builtin.compositor") {
        Some(BuiltinBlock::Compositor)
    } else if str_eq(block_definition_id, "builtin.decklink_video_input") {
        Some(BuiltinBlock::DeckLinkVideoInput)
    } else if str_eq(block_definition_id, "builtin.decklink_audio_input") {
        Some(BuiltinBlock::DeckLinkAudioInput)
    } else if str_eq(block_definition_id, "builtin.decklink_video_output") {
        Some(BuiltinBlock::DeckLinkVideoOutput)
    } else if str_eq(block_definition_id, "builtin.decklink_audio_output") {
        Some(BuiltinBlock::DeckLinkAudioOutput)
    } else if str_eq(block_definition_id, "builtin.inter_output") {
        Some(BuiltinBlock::InterOutput)
    } else if str_eq(block_definition_id, "builtin.inter_input") {
        Some(BuiltinBlock::InterInput)
    } else if str_eq(block_definition_id, "builtin.latency") {
        Some(BuiltinBlock::Latency)
    } else if str_eq(block_definition_id, "builtin.loudness") {
        Some(BuiltinBlock::Loudness)
    } else if str_eq(block_definition_id, "builtin.media_player") {
        Some(BuiltinBlock::MediaPlayer)
    } else if str_eq(block_definition_id, "builtin.meter") {
        Some(BuiltinBlock::Meter)
    } else if str_eq(block_definition_id, "builtin.mixer") {
        Some(BuiltinBlock::Mixer)
    } else if str_eq(block_definition_id, "builtin.mpegtssrt_output") {
        Some(BuiltinBlock::MpegTsSrtOutput)
    } else if str_eq(block_definition_id, "builtin.mpegtssrt_input") {
        Some(BuiltinBlock::MpegTsSrtInput)
    } else if str_eq(block_definition_id, "builtin.ndi_input") {
        Some(BuiltinBlock::NDIInput)
    } else if str_eq(block_definition_id, "builtin.ndi_output") {
        Some(BuiltinBlock::NDIOutput)
    } else if str_eq(block_definition_id, "builtin.spectrum") {
        Some(BuiltinBlock::Spectrum)
    } else if str_eq(block_definition_id, "builtin.videoenc") {
        Some(BuiltinBlock::VideoEnc)
    } else if str_eq(block_definition_id, "builtin.videoformat") {
        Some(BuiltinBlock::VideoFormat)
    } else if str_eq(block_definition_id, "builtin.whip_output") {
        Some(BuiltinBlock::WHIPOutput)
    } else if str_eq(block_definition_id, "builtin.whip_input") {
        Some(BuiltinBlock::WHIPInput)
    } else if str_eq(block_definition_id, "builtin.whep_input") {
        Some(BuiltinBlock::WHEPInput)
    } else if str_eq(block_definition_id, "builtin.whep_output") {
        Some(BuiltinBlock::WHEPOutput)
    } else {
        None
    }
}

} // verus!
