use codex_runtime::history::{ContentItem, ResponseItem};
use codex_runtime::queued_followups::{maybe_record, QueueState, QueuedFollowupAwareness};

fn is_notice(text: &String) -> bool {
    let (start, end) = QueuedFollowupAwareness::type_markers();
    text.starts_with(start) && text.ends_with(end)
}

fn message(role: &str, text: &str) -> ResponseItem {
    ResponseItem::Message {
        role: role.to_string(),
        content: vec![ContentItem::InputText {
            text: text.to_string(),
        }],
        details: String::new(),
    }
}

fn notice_of(count: u32) -> String {
    let notice = QueuedFollowupAwareness::new(count);
    let (start, end) = notice.markers();
    format!("{start}{}{end}", notice.body())
}

fn state(count: u32, reported: Option<(&str, u32)>) -> QueueState {
    QueueState {
        queued_followup_count: count,
        queued_followup_last_reported: reported.map(|(window, n)| (window.to_string(), n)),
    }
}

#[test]
fn a_notice_tells_the_number_and_nothing_else() {
    let notice = QueuedFollowupAwareness::new(2);
    assert!(notice.body().starts_with("The user has 2 queued follow-up messages. This supersedes"));
    assert_eq!(
        QueuedFollowupAwareness::new(0).body(),
        "The user has 0 queued follow-up messages. This clears any earlier queue notice; do not assume another user iteration is pending. Continue the current task normally."
    );
    assert_eq!(notice.role(), "developer");
    assert_eq!(notice.content_kind(), "queued_followup.awareness");
    assert_eq!(
        notice.markers(),
        ("<queued_followup_awareness>", "</queued_followup_awareness>")
    );
}

#[test]
fn a_number_is_told_once_in_a_window() {
    let mut state = state(2, None);
    let told = maybe_record(&mut state, &Vec::new(), "w1", is_notice);
    assert_eq!(told, Some(QueuedFollowupAwareness::new(2)));
    assert_eq!(maybe_record(&mut state, &Vec::new(), "w1", is_notice), None);
    assert_eq!(
        maybe_record(&mut state, &Vec::new(), "w2", is_notice),
        Some(QueuedFollowupAwareness::new(2))
    );
    state.queued_followup_count = 0;
    assert_eq!(
        maybe_record(&mut state, &Vec::new(), "w2", is_notice),
        Some(QueuedFollowupAwareness::new(0))
    );
    assert_eq!(state.queued_followup_last_reported, Some(("w2".to_string(), 0)));
}

#[test]
fn a_session_without_notices_stays_unchanged() {
    let mut quiet = state(0, None);
    let history = vec![message("user", &notice_of(3)), message("developer", "hello")];
    assert_eq!(maybe_record(&mut quiet, &history, "w1", is_notice), None);
    assert_eq!(quiet.queued_followup_last_reported, Some(("w1".to_string(), 0)));
}

#[test]
fn zero_clears_a_notice_that_was_kept() {
    let mut resumed = state(0, None);
    let history = vec![message("developer", &notice_of(3))];
    assert_eq!(
        maybe_record(&mut resumed, &history, "w1", is_notice),
        Some(QueuedFollowupAwareness::new(0))
    );
}

#[test]
fn zero_is_told_after_a_report_of_some_whatever_the_texts() {
    let mut told = state(0, Some(("w1", 2)));
    assert_eq!(
        maybe_record(&mut told, &Vec::new(), "w1", |_: &String| false),
        Some(QueuedFollowupAwareness::new(0))
    );
    let mut quiet = state(0, Some(("w1", 0)));
    assert_eq!(maybe_record(&mut quiet, &Vec::new(), "w2", |_: &String| true), None);
}
