use cosmic_matrix::verification::{
    bootstrap_first_attempt, bootstrap_retry_result, classify_cross_signing, supervisor_step,
    uia_user, BootstrapAttempt, BootstrapDecision, BootstrapOutcome, CrossSigningKeyFlags,
    CrossSigningStatus, RequestStreamEvent, SasStartOutcome, SasStreamEvent, SupervisorEvent,
    SupervisorState, VerificationController, VerificationPhase, VerificationStateUpdate,
};

fn seven_emoji() -> Vec<(String, String)> {
    (0..7)
        .map(|i| (format!("e{}", i), format!("emoji {}", i)))
        .collect()
}

#[test]
fn accepting_incoming_request_walks_to_emoji_display() {
    // Accepting an incoming request for flow "abc" from "@bob:example.org",
    // then the peer completing key exchange with seven emoji pairs.
    let mut c = VerificationController::default();
    c.on_incoming_request("abc".to_string(), "@bob:example.org".to_string());
    let pending = c.take_pending().expect("pending request");
    assert_eq!(pending.flow_id, "abc");
    assert_eq!(pending.sender, "@bob:example.org");
    c.on_request_created(pending.flow_id, pending.sender);
    {
        let info = c.active.as_ref().expect("active session");
        assert_eq!(info.flow_id, "abc");
        assert_eq!(info.other_user_id, "@bob:example.org");
        assert!(matches!(info.phase, VerificationPhase::WaitingForAccept));
    }

    // The supervisor reads the request stream until the peer is ready.
    let step = supervisor_step(
        SupervisorState::AwaitingReady,
        SupervisorEvent::Request(RequestStreamEvent::Ready),
    );
    assert!(matches!(step.state, SupervisorState::StartingSas));
    assert!(step.start_sas);
    c.on_state_update(step.emit.expect("accepted update"));
    assert!(matches!(
        c.active.as_ref().expect("active").phase,
        VerificationPhase::SasStarted
    ));

    let step = supervisor_step(
        step.state,
        SupervisorEvent::SasStart(SasStartOutcome::Started),
    );
    assert!(matches!(step.state, SupervisorState::SasActive));
    assert!(step.emit.is_none());

    let step = supervisor_step(
        step.state,
        SupervisorEvent::Sas(SasStreamEvent::KeysExchanged(Some(seven_emoji()))),
    );
    assert!(matches!(step.state, SupervisorState::SasActive));
    c.on_state_update(step.emit.expect("emoji update"));
    match &c.active.as_ref().expect("active").phase {
        VerificationPhase::ShowingEmoji(pairs) => {
            assert_eq!(pairs.len(), 7);
            assert_eq!(pairs[0].0, "e0");
        }
        other => panic!("expected the emoji display, got {:?}", other),
    }
}

#[test]
fn idle_controller_ignores_stream_updates() {
    let mut c = VerificationController::default();
    c.on_state_update(VerificationStateUpdate::Accepted);
    c.on_state_update(VerificationStateUpdate::Done);
    assert!(c.active.is_none());
}

#[test]
fn second_incoming_request_overwrites_the_pending_slot() {
    let mut c = VerificationController::default();
    c.on_incoming_request("one".to_string(), "@a:x".to_string());
    c.on_incoming_request("two".to_string(), "@b:x".to_string());
    let pending = c.pending_incoming.as_ref().expect("pending");
    assert_eq!(pending.flow_id, "two");
    assert_eq!(pending.sender, "@b:x");
    c.on_ignore();
    assert!(c.pending_incoming.is_none());
}

#[test]
fn cancellation_update_reaches_cancelled_from_any_live_phase() {
    for prime in [
        None,
        Some(VerificationStateUpdate::Accepted),
        Some(VerificationStateUpdate::EmojiReady(seven_emoji())),
    ] {
        let mut c = VerificationController::default();
        c.on_request_created("f".to_string(), "@a:x".to_string());
        if let Some(update) = prime {
            c.on_state_update(update);
        }
        c.on_state_update(VerificationStateUpdate::Cancelled("m.user".to_string()));
        match &c.active.as_ref().expect("active").phase {
            VerificationPhase::Cancelled(reason) => assert_eq!(reason, "m.user"),
            other => panic!("expected cancelled, got {:?}", other),
        }
    }
}

#[test]
fn terminal_phases_have_no_outgoing_transitions() {
    let mut c = VerificationController::default();
    c.on_request_created("f".to_string(), "@a:x".to_string());
    c.on_state_update(VerificationStateUpdate::Done);
    c.on_state_update(VerificationStateUpdate::Cancelled("late".to_string()));
    c.on_state_update(VerificationStateUpdate::Accepted);
    assert!(matches!(
        c.active.as_ref().expect("active").phase,
        VerificationPhase::Done
    ));

    let mut c = VerificationController::default();
    c.on_request_created("f".to_string(), "@a:x".to_string());
    c.on_state_update(VerificationStateUpdate::Cancelled("first".to_string()));
    c.on_state_update(VerificationStateUpdate::Done);
    match &c.active.as_ref().expect("active").phase {
        VerificationPhase::Cancelled(reason) => assert_eq!(reason, "first"),
        other => panic!("expected cancelled, got {:?}", other),
    }
}

#[test]
fn confirm_only_acts_on_the_emoji_display() {
    let mut c = VerificationController::default();
    c.on_request_created("f".to_string(), "@a:x".to_string());
    assert!(c.on_confirm().is_none());
    c.on_state_update(VerificationStateUpdate::Accepted);
    c.on_state_update(VerificationStateUpdate::EmojiReady(seven_emoji()));
    let flow = c.on_confirm().expect("flow id");
    assert_eq!(flow, "f");
    assert!(matches!(
        c.active.as_ref().expect("active").phase,
        VerificationPhase::Confirming
    ));
}

#[test]
fn user_cancel_clears_the_session_immediately() {
    let mut c = VerificationController::default();
    c.on_request_created("f".to_string(), "@a:x".to_string());
    let flow = c.on_cancel().expect("flow id");
    assert_eq!(flow, "f");
    assert!(c.active.is_none());
    assert!(c.on_cancel().is_none());
}

#[test]
fn mismatch_reports_the_flow_without_clearing() {
    let mut c = VerificationController::default();
    c.on_request_created("f".to_string(), "@a:x".to_string());
    assert_eq!(c.on_mismatch().as_deref(), Some("f"));
    assert!(c.active.is_some());
}

#[test]
fn peer_driven_start_returns_to_the_request_stream() {
    let step = supervisor_step(
        SupervisorState::StartingSas,
        SupervisorEvent::SasStart(SasStartOutcome::PeerDriven),
    );
    assert!(matches!(step.state, SupervisorState::AwaitingReady));
    assert!(step.emit.is_none());

    // The later transition hands the sub-session over directly.
    let step = supervisor_step(
        SupervisorState::AwaitingReady,
        SupervisorEvent::Request(RequestStreamEvent::TransitionedSas),
    );
    assert!(matches!(step.state, SupervisorState::SasActive));
    assert!(matches!(step.emit, Some(VerificationStateUpdate::Accepted)));
}

#[test]
fn failed_start_cancels_the_flow() {
    let step = supervisor_step(
        SupervisorState::StartingSas,
        SupervisorEvent::SasStart(SasStartOutcome::Failed("boom".to_string())),
    );
    assert!(matches!(step.state, SupervisorState::Finished));
    match step.emit {
        Some(VerificationStateUpdate::Cancelled(reason)) => assert_eq!(reason, "boom"),
        other => panic!("expected cancellation, got {:?}", other),
    }
}

#[test]
fn key_exchange_without_emoji_emits_nothing() {
    let step = supervisor_step(
        SupervisorState::SasActive,
        SupervisorEvent::Sas(SasStreamEvent::KeysExchanged(None)),
    );
    assert!(matches!(step.state, SupervisorState::SasActive));
    assert!(step.emit.is_none());
    assert!(!step.start_sas);
}

#[test]
fn finished_supervisor_absorbs_everything() {
    let step = supervisor_step(
        SupervisorState::Finished,
        SupervisorEvent::Sas(SasStreamEvent::Done),
    );
    assert!(matches!(step.state, SupervisorState::Finished));
    assert!(step.emit.is_none());
}

#[test]
fn sas_done_and_cancelled_are_forwarded_and_terminal() {
    let step = supervisor_step(
        SupervisorState::SasActive,
        SupervisorEvent::Sas(SasStreamEvent::Done),
    );
    assert!(matches!(step.state, SupervisorState::Finished));
    assert!(matches!(step.emit, Some(VerificationStateUpdate::Done)));

    let step = supervisor_step(
        SupervisorState::SasActive,
        SupervisorEvent::Sas(SasStreamEvent::Cancelled("m.mismatch".to_string())),
    );
    assert!(matches!(step.state, SupervisorState::Finished));
    match step.emit {
        Some(VerificationStateUpdate::Cancelled(reason)) => assert_eq!(reason, "m.mismatch"),
        other => panic!("expected cancellation, got {:?}", other),
    }
}

#[test]
fn bootstrap_without_password_fails_instead_of_retrying() {
    // The server demands interactive auth and no password is in memory.
    let decision = bootstrap_first_attempt(
        BootstrapAttempt::UiaaRequired {
            session: Some("sess".to_string()),
            message: "uiaa".to_string(),
        },
        "@alice:example.org",
        None,
    );
    match decision {
        BootstrapDecision::Done(BootstrapOutcome::Failed(reason)) => {
            assert_eq!(reason, "UIA required but no password in memory");
        }
        other => panic!("expected a terminal failure, got {:?}", other),
    }
}

#[test]
fn bootstrap_with_password_retries_exactly_once() {
    let decision = bootstrap_first_attempt(
        BootstrapAttempt::UiaaRequired {
            session: Some("sess".to_string()),
            message: "uiaa".to_string(),
        },
        "@alice:example.org",
        Some("hunter2".to_string()),
    );
    match decision {
        BootstrapDecision::Retry(auth) => {
            assert_eq!(auth.user, "alice");
            assert_eq!(auth.password, "hunter2");
            assert_eq!(auth.session.as_deref(), Some("sess"));
        }
        other => panic!("expected a retry, got {:?}", other),
    }
    // A second interactive-auth challenge on the retry is terminal.
    let outcome = bootstrap_retry_result(BootstrapAttempt::UiaaRequired {
        session: None,
        message: "still required".to_string(),
    });
    match outcome {
        BootstrapOutcome::Failed(reason) => assert_eq!(reason, "still required"),
        other => panic!("expected failure, got {:?}", other),
    }
}

#[test]
fn bootstrap_success_and_plain_errors_are_terminal() {
    assert!(matches!(
        bootstrap_first_attempt(BootstrapAttempt::Success, "@a:x", None),
        BootstrapDecision::Done(BootstrapOutcome::Bootstrapped)
    ));
    match bootstrap_first_attempt(BootstrapAttempt::Error("offline".to_string()), "@a:x", None) {
        BootstrapDecision::Done(BootstrapOutcome::Failed(reason)) => assert_eq!(reason, "offline"),
        other => panic!("expected failure, got {:?}", other),
    }
    assert!(matches!(
        bootstrap_retry_result(BootstrapAttempt::Success),
        BootstrapOutcome::Bootstrapped
    ));
}

#[test]
fn uia_user_falls_back_to_the_whole_id() {
    assert_eq!(uia_user("@alice:example.org"), "alice");
    // Without a leading `@` the whole id is used unchanged.
    assert_eq!(uia_user("alice:example.org"), "alice:example.org");
    assert_eq!(uia_user("@alice"), "alice");
    assert_eq!(uia_user(""), "");
}

#[test]
fn cross_signing_classification_covers_all_cases() {
    assert_eq!(classify_cross_signing(None), CrossSigningStatus::Unknown);
    assert_eq!(
        classify_cross_signing(Some(CrossSigningKeyFlags {
            has_master: true,
            has_self_signing: true,
            has_user_signing: true,
        })),
        CrossSigningStatus::Verified
    );
    assert_eq!(
        classify_cross_signing(Some(CrossSigningKeyFlags {
            has_master: true,
            has_self_signing: false,
            has_user_signing: true,
        })),
        CrossSigningStatus::Unverified
    );
}

#[test]
fn logout_resets_the_verification_slot() {
    let mut c = VerificationController::default();
    c.on_request_created("f".to_string(), "@a:x".to_string());
    c.on_incoming_request("g".to_string(), "@b:x".to_string());
    c.on_status_fetched(CrossSigningStatus::Verified);
    c.reset();
    assert!(c.active.is_none());
    assert!(c.pending_incoming.is_none());
    assert_eq!(c.cross_signing_status, CrossSigningStatus::Unknown);
}
