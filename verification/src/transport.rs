//! The boundary to the real-time transport stack.
//!
//! The relay's registry holds handles of the transport library: the outbound
//! track written to for each consumer, and the producing session that
//! keyframe requests are addressed to. Both are opaque here; the library
//! carries them through and never looks inside. The one call made from
//! verified code is the synthesis of a new outbound track.

use vstd::prelude::*;

verus! {

/// An outbound track handle of the transport stack, opaque to the relay.
#[verifier::external_type_specification]
#[verifier::external_body]
pub struct ExTrackLocalStaticRTP(
    webrtc::track::track_local::track_local_static_rtp::TrackLocalStaticRTP,
);

/// A transport session handle, opaque to the relay; used only as the address
/// of best-effort keyframe requests.
#[verifier::external_type_specification]
#[verifier::external_body]
pub struct ExRTCPeerConnection(webrtc::peer_connection::RTCPeerConnection);

/// Relies on `TrackLocalStaticRTP::new`: builds a fresh outbound track whose
/// codec capability carries the given MIME type, with the given track and
/// stream identifiers, and stores nothing else. The handle is opaque to the
/// relay, so nothing further is claimed of it.
#[verifier::external_body]
pub(crate) fn new_local_track(
    mime: &str,
    track_id: &str,
    stream_id: &str,
) -> std::sync::Arc<webrtc::track::track_local::track_local_static_rtp::TrackLocalStaticRTP> {
    std::sync::Arc::new(
        webrtc::track::track_local::track_local_static_rtp::TrackLocalStaticRTP::new(
            webrtc::rtp_transceiver::rtp_codec::RTCRtpCodecCapability {
                mime_type: mime.to_owned(),
                ..Default::default()
            },
            track_id.to_owned(),
            stream_id.to_owned(),
        ),
    )
}

} // verus!
