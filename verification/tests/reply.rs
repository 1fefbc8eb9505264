use lensup::reply::{
    analysis_from_reply, analysis_of_reply, next_summary_step, replied, start_summary, trimmed,
    Attempt, Step, SummaryState, SUMMARY_ATTEMPTS,
};

const GOOD: &str = r#"{"choices":[{"message":{"content":"  bug修复\n修复崩溃  "}}]}"#;

#[test]
fn analysis_of_reply_takes_the_message_content() {
    assert_eq!(analysis_of_reply(GOOD), "bug修复\n修复崩溃");
    // Anything else is taken whole, trimmed.
    assert_eq!(analysis_of_reply("  not json \n"), "not json");
    assert_eq!(analysis_of_reply(r#"{"choices":[]}"#), r#"{"choices":[]}"#);
    assert_eq!(
        analysis_of_reply(r#"{"choices":[{"message":{"content":7}}]}"#),
        r#"{"choices":[{"message":{"content":7}}]}"#
    );
}

#[test]
fn analysis_from_reply_prefers_content() {
    assert_eq!(analysis_from_reply(" raw ", Some(" c ")), "c");
    assert_eq!(analysis_from_reply(" raw ", None), "raw");
    assert_eq!(trimmed("\t x y \n"), "x y");
}

#[test]
fn replied_finds_the_content() {
    match replied(GOOD.to_string()) {
        Attempt::Replied { text, content } => {
            assert_eq!(text, GOOD);
            assert_eq!(content.as_deref(), Some("  bug修复\n修复崩溃  "));
        }
        Attempt::Failed => panic!("expected a reply"),
    }
    match replied("oops".to_string()) {
        Attempt::Replied { content, .. } => assert_eq!(content, None),
        Attempt::Failed => panic!("expected a reply"),
    }
}

#[test]
fn summary_step_accepts_a_good_reply() {
    let s = start_summary();
    assert_eq!((s.attempts, s.unreachable), (0, false));
    let (next, step) = next_summary_step(&s, &replied(GOOD.to_string()));
    assert_eq!(next.attempts, 1);
    match step {
        Step::Done(t) => assert_eq!(t, "bug修复\n修复崩溃"),
        _ => panic!("expected a summary"),
    }
}

#[test]
fn summary_step_retries_rejections_and_failures() {
    let s = start_summary();
    let rejected = replied(r#"{"error":"ModelAccountTpmRateLimitExceeded"}"#.to_string());
    let (next, step) = next_summary_step(&s, &rejected);
    assert!(matches!(step, Step::Retry));
    assert!(!next.unreachable);
    let (next, step) = next_summary_step(&next, &Attempt::Failed);
    assert!(matches!(step, Step::Retry));
    assert_eq!(next.attempts, 2);
    assert!(next.unreachable);
    // A reply whose text mentions "error" is rejected even with content.
    let with_error = replied(r#"{"choices":[{"message":{"content":"an error"}}]}"#.to_string());
    let (_, step) = next_summary_step(&start_summary(), &with_error);
    assert!(matches!(step, Step::Retry));
}

#[test]
fn summary_step_gives_up_after_the_last_attempt() {
    assert_eq!(SUMMARY_ATTEMPTS, 50);
    let last = SummaryState { attempts: SUMMARY_ATTEMPTS - 1, unreachable: false };
    let (next, step) = next_summary_step(&last, &replied("{}".to_string()));
    assert_eq!(next.attempts, SUMMARY_ATTEMPTS);
    assert!(matches!(step, Step::GiveUp { unreachable: false }));
    let (_, step) = next_summary_step(&last, &Attempt::Failed);
    assert!(matches!(step, Step::GiveUp { unreachable: true }));
    // Even the last attempt may still succeed.
    let (_, step) = next_summary_step(&last, &replied(GOOD.to_string()));
    assert!(matches!(step, Step::Done(_)));
    // Fifty failed attempts in a row end in giving up, and not before.
    let mut s = start_summary();
    let mut steps = 0;
    loop {
        let (next, step) = next_summary_step(&s, &Attempt::Failed);
        steps += 1;
        s = next;
        match step {
            Step::Retry => continue,
            Step::GiveUp { unreachable } => {
                assert!(unreachable);
                break;
            }
            Step::Done(_) => panic!("no summary expected"),
        }
    }
    assert_eq!(steps, 50);
}

#[test]
fn request_text_puts_a_blank_line_after_the_prompt() {
    assert_eq!(lensup::reply::request_text("P", "以下：\n", "B"), "P\n\n以下：\nB");
    assert_eq!(lensup::reply::request_text("P", "", "detail"), "P\n\ndetail");
}
