//! Media-domain values: the kind of a track or of a packet read from one.

use vstd::prelude::*;

verus! {

/// The kind of a media track or of a packet read from one: audio or video.
/// Fan-out is filtered by kind; audio packets are never written to video
/// tracks and conversely.
#[derive(Clone, Copy, PartialEq, Eq, Structural, Debug)]
pub enum MediaKind {
    Audio,
    Video,
}

} // verus!
