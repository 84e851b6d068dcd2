use ola::orchestrate::{
    FeedbackSession, HistoryEntry, RecursionContext, auto_feedback_text, child_args,
    current_wave, recursion_wave_env_name, run_auto_session,
};

#[test]
fn three_waves_spawn_exactly_three_invocations() {
    // The wave environment is unset, so the first invocation runs at wave
    // zero; each invocation spawns the next only while the next wave
    // number is below the cap.
    let max = 3u8;
    let mut invocations = 0u32;
    let mut context = RecursionContext::new(current_wave(None), max);
    loop {
        invocations += 1;
        if !context.should_spawn() {
            break;
        }
        context = context.child();
    }
    assert_eq!(invocations, 3);
    assert_eq!(context.wave, 2);
    assert!(!context.should_spawn());
}

#[test]
fn wave_env_round_trip() {
    assert_eq!(recursion_wave_env_name(), "OLA_RECURSION_WAVE");
    assert_eq!(current_wave(None), 0);
    assert_eq!(current_wave(Some("2")), 2);
    assert_eq!(current_wave(Some("+7")), 7);
    assert_eq!(current_wave(Some("abc")), 0);
    assert_eq!(current_wave(Some("999")), 0);
    assert_eq!(current_wave(Some("")), 0);

    let context = RecursionContext::new(0, 3);
    assert_eq!(context.child_env_value(), "1");
}

#[test]
fn child_arguments_reserialize_the_flags() {
    let args = child_args(Some("goal text"), "text", "careful", true, false, true, false, 3,
        Some(2));
    assert_eq!(
        args,
        vec![
            "prompt", "--goals", "goal text", "--format", "text", "--warnings", "careful",
            "--clipboard", "--pipe", "--recursion", "3", "--iterations", "2",
        ]
        .into_iter()
        .map(|s| s.to_string())
        .collect::<Vec<String>>()
    );

    let args = child_args(None, "text", "", false, false, false, false, 2, None);
    assert_eq!(
        args,
        vec!["prompt", "--format", "text", "--recursion", "2"]
            .into_iter()
            .map(|s| s.to_string())
            .collect::<Vec<String>>()
    );
}

#[test]
fn two_auto_rounds_leave_two_responses_and_one_marker() {
    let responses = vec!["first reply".to_string(), "second reply".to_string()];
    let session = run_auto_session(&responses, 2);
    assert_eq!(session.history.len(), 3);
    match &session.history[0] {
        HistoryEntry::Response { index, text } => {
            assert_eq!(*index, 1);
            assert_eq!(text, "first reply");
        },
        _ => panic!("expected a response first"),
    }
    match &session.history[1] {
        HistoryEntry::Feedback { index, text } => {
            assert_eq!(*index, 1);
            assert_eq!(text, "please improve");
        },
        _ => panic!("expected the auto feedback marker between the rounds"),
    }
    match &session.history[2] {
        HistoryEntry::Response { index, text } => {
            assert_eq!(*index, 2);
            assert_eq!(text, "second reply");
        },
        _ => panic!("expected a response last"),
    }
    let responses_count = session
        .history
        .iter()
        .filter(|e| matches!(e, HistoryEntry::Response { .. }))
        .count();
    let feedback_count = session
        .history
        .iter()
        .filter(|e| matches!(e, HistoryEntry::Feedback { .. }))
        .count();
    assert_eq!(responses_count, 2);
    assert_eq!(feedback_count, 1);
}

#[test]
fn session_prompts_embed_the_history() {
    let mut session = FeedbackSession::new(3);
    assert!(!session.done());
    session.record_response("draft one".to_string());
    session.record_feedback(auto_feedback_text());
    let prompt = session.next_prompt("base goals");
    assert_eq!(prompt, "base goals\n\nResponse 1:\ndraft one\n\nFEEDBACK: please improve");
    session.record_response("draft two".to_string());
    session.record_feedback("make it shorter".to_string());
    session.record_response("final".to_string());
    assert!(session.done());
    assert_eq!(session.history.len(), 5);
}
