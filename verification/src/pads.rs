//! External pads: the connection points that a block exposes to a flow.
use vstd::prelude::*;

verus! {

/// The kind of media that flows through a pad or a shared channel.
#[derive(Clone, Copy, Debug, PartialEq, Eq, Structural)]
pub enum MediaType {
    Video,
    Audio,
    Generic,
}

/// A pad of a block, mapped onto a pad of one of its internal elements.
#[derive(Clone, Debug)]
pub struct ExternalPad {
    /// Short label shown in the editor.
    pub label: Option<String>,
    /// Name of the pad on the block.
    pub name: String,
    /// Media that the pad carries.
    pub media_type: MediaType,
    /// Internal element that provides the pad.
    pub internal_element_id: String,
    /// Pad name on that element.
    pub internal_pad_name: String,
}

/// The mathematical value of an [`ExternalPad`].
pub struct PadView {
    pub label: Option<Seq<char>>,
    pub name: Seq<char>,
    pub media_type: MediaType,
    pub internal_element_id: Seq<char>,
    pub internal_pad_name: Seq<char>,
}

impl View for ExternalPad {
    type V = PadView;

    open spec fn view(&self) -> PadView {
        PadView {
            label: match self.label {
                Some(l) => Some(l@),
                None => None,
            },
            name: self.name@,
            media_type: self.media_type,
            internal_element_id: self.internal_element_id@,
            internal_pad_name: self.internal_pad_name@,
        }
    }
}

/// The input and output pads of a block.
#[derive(Clone, Debug)]
pub struct ExternalPads {
    pub inputs: Vec<ExternalPad>,
    pub outputs: Vec<ExternalPad>,
}

/// The pad view with the given parts.
pub open spec fn pad_spec(
    label: Option<Seq<char>>,
    name: Seq<char>,
    media_type: MediaType,
    element: Seq<char>,
    pad: Seq<char>,
) -> PadView {
    PadView {
        label,
        name,
        media_type,
        internal_element_id: element,
        internal_pad_name: pad,
    }
}

} // verus!
