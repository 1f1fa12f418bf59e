use llgtrt::config::SchedulerConfig;
use llgtrt::executor::{Admission, Scheduler};
use llgtrt::health::{
    has_first_choice_text, inspect_body, judge_shape, live_check, model_check,
    model_check_request, model_check_unanswered, ready_check, surface_status, BodyShape,
    ProbeReply,
};
use llgtrt::request::{RejectReason, RequestParams};

#[test]
fn ready_check_answers_with_an_empty_success() {
    let reply = ready_check();
    assert_eq!(reply.status(), 200);
    assert_eq!(reply.message(), Some(""));
}

#[test]
fn model_check_accepts_a_completion_with_text() {
    let body = br#"{"choices":[{"text":"Hello","index":0}]}"#.to_vec();
    let reply = model_check(200, body);
    assert!(matches!(reply, ProbeReply::Complete));
    assert_eq!(reply.status(), 200);
    assert_eq!(reply.message(), Some("Check complete"));
}

#[test]
fn model_check_fails_a_completion_without_text() {
    for body in [
        &br#"{"choices":[]}"#[..],
        &br#"{"choices":[{"text":5}]}"#[..],
        &br#"{"choices":{"text":"x"}}"#[..],
        &br#"{"object":"text_completion"}"#[..],
        &br#"[]"#[..],
        &br#"["Hello"]"#[..],
        &br#""Hello""#[..],
        &br#"{"text":"Hello"}"#[..],
        &br#"{"choices":["Hello"]}"#[..],
    ] {
        let reply = model_check(200, body.to_vec());
        assert!(matches!(reply, ProbeReply::Failed));
        assert_eq!(reply.status(), 500);
        assert_eq!(reply.message(), Some("Check failed"));
    }
}

#[test]
fn model_check_fails_a_body_that_is_no_json() {
    let reply = model_check(200, b"not json".to_vec());
    assert!(matches!(reply, ProbeReply::Failed));
    assert_eq!(inspect_body(b"not json"), BodyShape::Malformed);
    assert_eq!(inspect_body(b""), BodyShape::Malformed);
}

#[test]
fn model_check_hands_on_a_server_error_with_its_body() {
    let reply = model_check(503, b"busy".to_vec());
    match &reply {
        ProbeReply::Forwarded { status, body } => {
            assert_eq!(*status, 503);
            assert_eq!(body.as_slice(), b"busy");
        }
        other => panic!("unexpected reply {:?}", other),
    }
    assert_eq!(reply.status(), 503);
    assert_eq!(reply.message(), None);
}

#[test]
fn inspect_body_reads_only_the_first_choice() {
    let second_only = br#"{"choices":[{"index":0},{"text":"late"}]}"#;
    assert_eq!(inspect_body(second_only), BodyShape::TextMissing);
    let first = br#"{"choices":[{"text":""},{"index":1}]}"#;
    assert_eq!(inspect_body(first), BodyShape::TextPresent);
}

#[test]
fn judge_shape_passes_only_a_body_with_text() {
    assert_eq!(judge_shape(BodyShape::TextPresent), ProbeReply::Complete);
    assert_eq!(judge_shape(BodyShape::TextMissing), ProbeReply::Failed);
    assert_eq!(judge_shape(BodyShape::Malformed), ProbeReply::Failed);
}

#[test]
fn has_first_choice_text_wants_a_string() {
    let with: serde_json::Value = serde_json::from_str(r#"{"choices":[{"text":"ok"}]}"#).unwrap();
    let null: serde_json::Value = serde_json::from_str(r#"{"choices":[{"text":null}]}"#).unwrap();
    let list: serde_json::Value = serde_json::from_str(r#"{"choices":[{"text":["ok"]}]}"#).unwrap();
    assert!(has_first_choice_text(&with));
    assert!(!has_first_choice_text(&null));
    assert!(!has_first_choice_text(&list));
    assert!(!has_first_choice_text(&serde_json::Value::Null));
}

#[test]
fn live_check_reports_whether_a_request_fits() {
    let config = SchedulerConfig {
        max_queue_depth: 1,
        max_concurrent: 1,
        default_priority: 5,
        priority_bound: 10,
        request_timeout: 100,
        cancel_grace: 10,
        stream_buffer: 4,
    };
    let mut s = Scheduler::new(config);
    let reply = live_check(&s);
    assert_eq!(reply, ProbeReply::Complete);
    assert_eq!(reply.status(), 200);
    assert_eq!(reply.message(), Some("Check complete"));
    assert_eq!(s.try_admit(model_check_request().params, 0), Admission::Admitted(0));
    let reply = live_check(&s);
    assert_eq!(reply, ProbeReply::Failed);
    assert_eq!(reply.status(), 500);
    assert_eq!(reply.message(), Some("Check failed"));
}

#[test]
fn model_check_request_is_tiny_and_urgent() {
    let request = model_check_request();
    assert_eq!(request.model, "model");
    assert_eq!(request.prompt, "Hi");
    assert_eq!(request.params.priority, Some(10));
    assert_eq!(request.params.max_tokens, 2);
    assert!(!request.params.streaming);
    assert!(request.params.grammar.is_none());
}

#[test]
fn model_check_reports_a_client_error_as_a_server_error() {
    for status in [0u16, 100, 201, 204, 301, 400, 404, 429, 499, 600, u16::MAX] {
        let reply = model_check(status, b"no".to_vec());
        assert_eq!(reply, ProbeReply::Forwarded { status: 500, body: b"no".to_vec() });
        assert_eq!(reply.status(), 500);
    }
}

#[test]
fn model_check_keeps_a_server_error_status() {
    for status in [500u16, 502, 503, 599] {
        let reply = model_check(status, b"down".to_vec());
        assert_eq!(reply, ProbeReply::Forwarded { status, body: b"down".to_vec() });
        assert_eq!(reply.status(), status);
    }
}

#[test]
fn model_check_is_a_success_only_with_status_ok_and_text() {
    let good = br#"{"choices":[{"text":"Hello"}]}"#;
    for status in 0..=700u16 {
        let reply = model_check(status, good.to_vec());
        if status == 200 {
            assert_eq!(reply, ProbeReply::Complete);
        } else {
            assert!((500..=599).contains(&reply.status()));
        }
    }
}

#[test]
fn surface_status_maps_into_the_server_errors() {
    assert_eq!(surface_status(404), 500);
    assert_eq!(surface_status(499), 500);
    assert_eq!(surface_status(500), 500);
    assert_eq!(surface_status(503), 503);
    assert_eq!(surface_status(599), 599);
    assert_eq!(surface_status(600), 500);
    assert_eq!(surface_status(200), 500);
}

#[test]
fn model_check_unanswered_is_a_server_error() {
    let reply = model_check_unanswered();
    assert_eq!(reply, ProbeReply::Failed);
    assert_eq!(reply.status(), 500);
    assert_eq!(reply.message(), Some("Check failed"));
}

#[test]
fn probe_request_is_rejected_at_capacity_and_the_probe_fails() {
    let config = SchedulerConfig {
        max_queue_depth: 2,
        max_concurrent: 1,
        default_priority: 5,
        priority_bound: 10,
        request_timeout: 100,
        cancel_grace: 10,
        stream_buffer: 4,
    };
    let mut s = Scheduler::new(config);
    for _ in 0..2 {
        let pending =
            RequestParams { priority: Some(1), streaming: false, max_tokens: 8, grammar: None };
        assert!(matches!(s.try_admit(pending, 0), Admission::Admitted(_)));
    }
    assert_eq!(
        s.try_admit(model_check_request().params, 0),
        Admission::Rejected(RejectReason::AtCapacity)
    );
    assert_eq!(s.queued_ids(), vec![0, 1]);
    assert_eq!(s.state(2), None);
    assert!(s.dispatch().map(|d| d.request_id) == Some(0));
    // whatever status the route gives the rejection, the probe reports a server error
    for status in [429u16, 503] {
        let reply = model_check(status, b"busy".to_vec());
        assert!((500..=599).contains(&reply.status()));
    }
    assert_eq!(live_check(&s), ProbeReply::Failed);
}
