//! Live effects on running compositor and meter blocks: which element of a
//! block each effect acts on, and the canvas a transition is computed for.
use vstd::prelude::*;

use crate::text::{decimal, element_name};

verus! {

/// The canvas width assumed when the compositor's caps do not give one.
pub const DEFAULT_CANVAS_WIDTH: i32 = 1920;

/// The canvas height assumed when the compositor's caps do not give one.
pub const DEFAULT_CANVAS_HEIGHT: i32 = 1080;

/// The compositor element of a block: `{block}:mixer`.
pub fn compositor_element_id(block_instance_id: &str) -> (r: String)
    ensures
        r@ == block_instance_id@ + ":mixer"@,
{
    element_name(block_instance_id, ":mixer")
}

/// The caps filter behind a block's compositor: `{block}:capsfilter`.
pub fn capsfilter_element_id(block_instance_id: &str) -> (r: String)
    ensures
        r@ == block_instance_id@ + ":capsfilter"@,
{
    element_name(block_instance_id, ":capsfilter")
}

/// The queue feeding compositor input `input` of a block, where its
/// thumbnails are taken: `{block}:queue_{input}`.
pub fn thumbnail_queue_id(block_id: &str, input: usize) -> (r: String)
    ensures
        r@ == block_id@ + ":queue_"@ + decimal(input as nat),
{
    let prefix = element_name(block_id, ":queue_");
    crate::text::with_index(prefix.as_str(), input)
}

/// The canvas a transition is computed for, from what the compositor's
/// caps filter shows: `None` when there is no caps filter, no caps or no
/// structure in them; else the structure's `width` and `height` fields,
/// each where it has one. What is missing is 1920 by 1080.
pub open spec fn canvas_size_spec(caps: Option<(Option<i32>, Option<i32>)>) -> (i32, i32) {
    match caps {
        Some((w, h)) => (
            match w {
                Some(w) => w,
                None => DEFAULT_CANVAS_WIDTH,
            },
            match h {
                Some(h) => h,
                None => DEFAULT_CANVAS_HEIGHT,
            },
        ),
        None => (DEFAULT_CANVAS_WIDTH, DEFAULT_CANVAS_HEIGHT),
    }
}

/// Computes [`canvas_size_spec`].
pub fn canvas_size(caps: Option<(Option<i32>, Option<i32>)>) -> (r: (i32, i32))
    ensures
        r == canvas_size_spec(caps),
{
    match caps {
        Some((w, h)) => (
            match w {
                Some(w) => w,
                None => DEFAULT_CANVAS_WIDTH,
            },
            match h {
                Some(h) => h,
                None => DEFAULT_CANVAS_HEIGHT,
            },
        ),
        None => (DEFAULT_CANVAS_WIDTH, DEFAULT_CANVAS_HEIGHT),
    }
}

} // verus!
