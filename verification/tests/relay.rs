use std::sync::Arc;

use sfu_relay::handshake::{
    handshake_step, is_terminal, next_action, HandshakeAction, HandshakeState, StepOutcome,
};
use sfu_relay::media::MediaKind;
use sfu_relay::router::{keyframe_request, SFURouter};

#[test]
fn new_router_is_empty() {
    let r = SFURouter::new();
    assert_eq!(r.consumer_count(), 0);
    assert!(!r.producer_bound());
    assert!(r.fanout_targets(MediaKind::Video).is_empty());
    assert!(r.fanout_targets(MediaKind::Audio).is_empty());
}

#[test]
fn add_then_remove_leaves_no_entry() {
    let mut r = SFURouter::new();
    let _ = r.add_consumer("alice".to_owned());
    assert!(r.has_consumer(&"alice".to_owned()));
    r.remove_consumer("alice".to_owned());
    assert!(!r.has_consumer(&"alice".to_owned()));
    assert_eq!(r.consumer_count(), 0);
    assert!(r.fanout_targets(MediaKind::Video).is_empty());
}

#[test]
fn repeated_remove_is_a_no_op() {
    let mut r = SFURouter::new();
    let _ = r.add_consumer("alice".to_owned());
    r.remove_consumer("alice".to_owned());
    r.remove_consumer("alice".to_owned());
    assert_eq!(r.consumer_count(), 0);
}

#[test]
fn remove_absent_is_a_no_op() {
    let mut r = SFURouter::new();
    let _ = r.add_consumer("alice".to_owned());
    r.remove_consumer("bob".to_owned());
    assert_eq!(r.consumer_count(), 1);
    assert!(r.has_consumer(&"alice".to_owned()));
}

#[test]
fn adding_twice_keeps_one_entry() {
    let mut r = SFURouter::new();
    let (t1, _) = r.add_consumer("alice".to_owned());
    let (t2, _) = r.add_consumer("alice".to_owned());
    assert_eq!(r.consumer_count(), 1);
    let v = r.fanout_targets(MediaKind::Video);
    assert_eq!(v.len(), 1);
    assert!(Arc::ptr_eq(&v[0], &t2));
    assert!(!Arc::ptr_eq(&v[0], &t1));
}

#[test]
fn reregistration_leaves_others_in_place() {
    let mut r = SFURouter::new();
    let (ta, _) = r.add_consumer("alice".to_owned());
    let (tb, _) = r.add_consumer("bob".to_owned());
    let (ta2, _) = r.add_consumer("alice".to_owned());
    assert_eq!(r.consumer_count(), 2);
    let v = r.fanout_targets(MediaKind::Video);
    assert_eq!(v.len(), 2);
    assert!(Arc::ptr_eq(&v[0], &ta2));
    assert!(!Arc::ptr_eq(&v[0], &ta));
    assert!(Arc::ptr_eq(&v[1], &tb));
}

#[test]
fn fanout_targets_every_video_consumer_in_order() {
    let mut r = SFURouter::new();
    let (t1, _) = r.add_consumer("alice".to_owned());
    let (t2, _) = r.add_consumer("bob".to_owned());
    let v = r.fanout_targets(MediaKind::Video);
    assert_eq!(v.len(), 2);
    assert!(Arc::ptr_eq(&v[0], &t1));
    assert!(Arc::ptr_eq(&v[1], &t2));
}

#[test]
fn fanout_routes_nothing_to_the_other_kind() {
    let mut r = SFURouter::new();
    let _ = r.add_consumer("alice".to_owned());
    let _ = r.add_consumer("bob".to_owned());
    assert!(r.fanout_targets(MediaKind::Audio).is_empty());
}

#[test]
fn fanout_passes_leave_the_registry_untouched() {
    // A per-consumer write failure is the writer's to log and skip: the
    // registry offers the same targets on the next pass, whatever became of
    // the previous one.
    let mut r = SFURouter::new();
    let (t1, _) = r.add_consumer("alice".to_owned());
    let (t2, _) = r.add_consumer("bob".to_owned());
    let first = r.fanout_targets(MediaKind::Video);
    let second = r.fanout_targets(MediaKind::Video);
    assert_eq!(first.len(), 2);
    assert_eq!(second.len(), 2);
    assert!(Arc::ptr_eq(&second[0], &t1));
    assert!(Arc::ptr_eq(&second[1], &t2));
    assert_eq!(r.consumer_count(), 2);
    assert!(r.has_consumer(&"alice".to_owned()));
    assert!(r.has_consumer(&"bob".to_owned()));
}

#[test]
fn no_keyframe_request_without_producer() {
    let mut r = SFURouter::new();
    let (_, kf) = r.add_consumer("alice".to_owned());
    assert!(kf.is_none());
    assert_eq!(r.consumer_count(), 1);
}

#[test]
fn keyframe_request_addresses_the_bound_producer() {
    let rt = tokio::runtime::Builder::new_multi_thread()
        .worker_threads(1)
        .enable_all()
        .build()
        .unwrap();
    let pc = rt.block_on(async {
        let mut m = webrtc::api::media_engine::MediaEngine::default();
        m.register_default_codecs().unwrap();
        let api = webrtc::api::APIBuilder::new().with_media_engine(m).build();
        let pc = api
            .new_peer_connection(
                webrtc::peer_connection::configuration::RTCConfiguration::default(),
            )
            .await
            .unwrap();
        Arc::new(pc)
    });
    let mut r = SFURouter::new();
    let _ = r.add_producer(pc.clone());
    assert!(r.producer_bound());
    let (_, kf) = r.add_consumer("alice".to_owned());
    let target = kf.expect("a producer is bound, so one keyframe request is owed");
    assert!(Arc::ptr_eq(&target, &pc));
    // Binding a producer touches no consumer entry.
    assert_eq!(r.consumer_count(), 1);
}

#[test]
fn replacing_the_producer_advances_the_generation() {
    let rt = tokio::runtime::Builder::new_multi_thread()
        .worker_threads(1)
        .enable_all()
        .build()
        .unwrap();
    let pc = rt.block_on(async {
        let mut m = webrtc::api::media_engine::MediaEngine::default();
        m.register_default_codecs().unwrap();
        let api = webrtc::api::APIBuilder::new().with_media_engine(m).build();
        let pc = api
            .new_peer_connection(
                webrtc::peer_connection::configuration::RTCConfiguration::default(),
            )
            .await
            .unwrap();
        Arc::new(pc)
    });
    let mut r = SFURouter::new();
    assert_eq!(r.current_generation(), 0);
    let g1 = r.add_producer(pc.clone());
    assert_eq!(g1, 1);
    assert!(r.is_current_producer(g1));
    let g2 = r.add_producer(pc.clone());
    assert_eq!(g2, 2);
    // The forwarding work of the replaced binding sees itself as stale.
    assert!(!r.is_current_producer(g1));
    assert!(r.is_current_producer(g2));
    // Replacing the producer touches no consumer entry.
    assert_eq!(r.consumer_count(), 0);
}

#[test]
fn keyframe_request_is_addressed_to_all_streams() {
    let req = keyframe_request();
    assert_eq!(req.sender_ssrc, 0);
    assert_eq!(req.media_ssrc, 0);
}

#[test]
fn handshake_runs_the_steps_in_order() {
    let expected = [
        (HandshakeState::CreatingSession, HandshakeAction::CreateSession),
        (HandshakeState::RegisteringHandler, HandshakeAction::RegisterTrackHandler),
        (HandshakeState::ProvisioningConsumer, HandshakeAction::ProvisionConsumer),
        (HandshakeState::ApplyingRemote, HandshakeAction::ApplyRemoteOffer),
        (HandshakeState::CreatingAnswer, HandshakeAction::CreateAnswer),
        (HandshakeState::Gathering, HandshakeAction::AwaitGathering),
        (HandshakeState::ApplyingLocal, HandshakeAction::ApplyLocalAnswer),
        (HandshakeState::ReadingDescription, HandshakeAction::ReadLocalDescription),
    ];
    let mut s = HandshakeState::CreatingSession;
    for (state, action) in expected {
        assert_eq!(s, state);
        assert!(!is_terminal(s));
        assert_eq!(next_action(s), action);
        s = handshake_step(s, StepOutcome::Success);
    }
    assert_eq!(s, HandshakeState::Complete);
    assert!(is_terminal(s));
    assert_eq!(next_action(s), HandshakeAction::ReportAnswer);
}

#[test]
fn handshake_completes_only_after_gathering() {
    // Walking every prefix of the successful run: the answer is never owed
    // before the gathering wait has reported success.
    let mut s = HandshakeState::CreatingSession;
    let mut gathered = false;
    while !is_terminal(s) {
        assert!(s != HandshakeState::Complete);
        if s == HandshakeState::Gathering {
            gathered = true;
        }
        if !gathered {
            assert!(next_action(s) != HandshakeAction::ReportAnswer);
        }
        s = handshake_step(s, StepOutcome::Success);
    }
    assert!(gathered);
    assert_eq!(s, HandshakeState::Complete);
}

#[test]
fn invalid_offer_fails_the_handshake_for_good() {
    let mut s = HandshakeState::CreatingSession;
    s = handshake_step(s, StepOutcome::Success); // session created
    s = handshake_step(s, StepOutcome::Success); // handler registered
    s = handshake_step(s, StepOutcome::Success); // consumer provisioned
    assert_eq!(s, HandshakeState::ApplyingRemote);
    s = handshake_step(s, StepOutcome::Failure); // the offer does not parse
    assert_eq!(s, HandshakeState::Failed);
    assert_eq!(next_action(s), HandshakeAction::ReportError);
    // Terminal: whatever is reported afterwards changes nothing.
    s = handshake_step(s, StepOutcome::Success);
    assert_eq!(s, HandshakeState::Failed);
    s = handshake_step(s, StepOutcome::Failure);
    assert_eq!(s, HandshakeState::Failed);
}

#[test]
fn any_step_failure_is_terminal() {
    for failing_step in 0..8usize {
        let mut s = HandshakeState::CreatingSession;
        for _ in 0..failing_step {
            s = handshake_step(s, StepOutcome::Success);
        }
        assert!(!is_terminal(s));
        s = handshake_step(s, StepOutcome::Failure);
        assert_eq!(s, HandshakeState::Failed);
        assert_eq!(next_action(s), HandshakeAction::ReportError);
    }
}
