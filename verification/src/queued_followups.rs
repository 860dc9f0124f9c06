//! Awareness of messages that the user has queued behind the current turn. A notice tells their
//! number and nothing of what they say.

use crate::history::{ContentItem, ContentModel, ItemModel, ResponseItem};
use crate::text::{decimal, push_decimal, same_text};
use vstd::prelude::*;

verus! {

/// A notice of how many messages are queued.
#[derive(Debug, Clone, Copy, PartialEq, Eq, Structural)]
pub struct QueuedFollowupAwareness {
    pub count: u32,
}

/// The text of a notice, without its markers.
pub open spec fn notice_body(count: nat) -> Seq<char> {
    if count == 0 {
        "The user has 0 queued follow-up messages. This clears any earlier queue notice; do not assume another user iteration is pending. Continue the current task normally."@
    } else {
        "The user has "@ + decimal(count)
            + " queued follow-up messages. This supersedes earlier queue counts. Their contents are withheld until the next normal turn. Finish the meaningful current work, report remaining checks and yield when practical. Defer optional exhaustive tests to the next iteration; required correctness and safety checks still apply."@
    }
}

impl QueuedFollowupAwareness {
    /// A notice of `count` queued messages.
    pub fn new(count: u32) -> (notice: Self)
        ensures
            notice.count == count,
    {
        QueuedFollowupAwareness { count }
    }

    /// What kind of content a notice is.
    pub fn content_kind(&self) -> (kind: &'static str)
        ensures
            kind@ == "queued_followup.awareness"@,
    {
        "queued_followup.awareness"
    }

    /// Who a notice speaks as.
    pub fn role(&self) -> (role: &'static str)
        ensures
            role@ == "developer"@,
    {
        "developer"
    }

    /// What stands before and behind the text of a notice.
    pub fn markers(&self) -> (markers: (&'static str, &'static str))
        ensures
            markers.0@ == "<queued_followup_awareness>"@,
            markers.1@ == "</queued_followup_awareness>"@,
    {
        Self::type_markers()
    }

    /// What stands before and behind the text of every notice.
    pub fn type_markers() -> (markers: (&'static str, &'static str))
        ensures
            markers.0@ == "<queued_followup_awareness>"@,
            markers.1@ == "</queued_followup_awareness>"@,
    {
        ("<queued_followup_awareness>", "</queued_followup_awareness>")
    }

    /// The text of the notice, without its markers.
    pub fn body(&self) -> (text: String)
        ensures
            text@ == notice_body(self.count as nat),
    {
        if self.count == 0 {
            return "The user has 0 queued follow-up messages. This clears any earlier queue notice; do not assume another user iteration is pending. Continue the current task normally.".to_owned();
        }
        let mut text = "The user has ".to_owned();
        push_decimal(&mut text, self.count as u64);
        text.append(
            " queued follow-up messages. This supersedes earlier queue counts. Their contents are withheld until the next normal turn. Finish the meaningful current work, report remaining checks and yield when practical. Defer optional exhaustive tests to the next iteration; required correctness and safety checks still apply.",
        );
        text
    }
}

/// What a session knows of queued messages.
#[derive(Debug, PartialEq, Eq)]
pub struct QueueState {
    pub queued_followup_count: u32,
    /// The window and the number of the last report.
    pub queued_followup_last_reported: Option<(String, u32)>,
}

/// Whether `matches_text` tells the texts that meet `is_notice` from the others.
pub open spec fn tells<F: Fn(&String) -> bool>(
    matches_text: F,
    is_notice: spec_fn(Seq<char>) -> bool,
) -> bool {
    forall|text: &String, found: bool| #[trigger]
        call_ensures(matches_text, (text,), found) ==> found == is_notice(text@)
}

/// Whether an item is a message of the developer with a notice among its texts.
pub open spec fn holds_notice(item: ItemModel, is_notice: spec_fn(Seq<char>) -> bool) -> bool {
    item matches ItemModel::Message { role, content, .. } && role == "developer"@ && exists|i: int|
        0 <= i < content.len() && (#[trigger] content[i] matches ContentModel::InputText { text }
            && is_notice(text))
}

/// Whether a conversation holds a notice.
pub open spec fn has_notice(history: Seq<ItemModel>, is_notice: spec_fn(Seq<char>) -> bool) -> bool {
    exists|i: int| 0 <= i < history.len() && holds_notice(#[trigger] history[i], is_notice)
}

/// Whether the session reported this number in this window last.
pub open spec fn is_reported(state: QueueState, window_id: Seq<char>) -> bool {
    state.queued_followup_last_reported matches Some((window, count)) && window@ == window_id
        && count == state.queued_followup_count
}

/// Whether the last report was of some messages.
pub open spec fn reported_some(state: QueueState) -> bool {
    state.queued_followup_last_reported matches Some((_, count)) && count > 0
}

/// Whether the number of queued messages is to be told: where there are some, or where a notice of
/// some may still stand.
pub open spec fn needs_notice(
    state: QueueState,
    history: Seq<ItemModel>,
    is_notice: spec_fn(Seq<char>) -> bool,
) -> bool {
    ||| state.queued_followup_count > 0
    ||| reported_some(state)
    ||| has_notice(history, is_notice)
}

/// The condition that any text meets.
pub open spec fn any_text() -> spec_fn(Seq<char>) -> bool {
    |text: Seq<char>| true
}

fn finds_in_message<F: Fn(&String) -> bool>(content: &Vec<ContentItem>, matches_text: &F) -> (found:
    bool)
    requires
        forall|text: &String| call_requires(*matches_text, (text,)),
    ensures
        found ==> exists|i: int|
            0 <= i < content@.len() && #[trigger] content.deep_view()[i] is InputText,
        forall|is_notice: spec_fn(Seq<char>) -> bool| #[trigger]
            tells(*matches_text, is_notice) ==> found == exists|i: int|
                0 <= i < content@.len() && (#[trigger] content.deep_view()[i] matches
                    ContentModel::InputText { text } && is_notice(text)),
{
    let ghost parts = content.deep_view();
    let mut i: usize = 0;
    while i < content.len()
        invariant
            i <= content@.len(),
            parts == content.deep_view(),
            forall|text: &String| call_requires(*matches_text, (text,)),
            forall|is_notice: spec_fn(Seq<char>) -> bool, j: int|
                #![trigger tells(*matches_text, is_notice), parts[j]]
                tells(*matches_text, is_notice) && 0 <= j < i ==> !(
                parts[j] matches ContentModel::InputText { text } && is_notice(text)),
        decreases content@.len() - i,
    {
        if let ContentItem::InputText { text } = &content[i] {
            if matches_text(text) {
                proof {
                    assert(content.deep_view()[i as int] is InputText);
                    assert forall|is_notice: spec_fn(Seq<char>) -> bool| #[trigger]
                        tells(*matches_text, is_notice) implies exists|k: int|
                        0 <= k < content@.len() && (#[trigger] content.deep_view()[k] matches
                            ContentModel::InputText { text } && is_notice(text)) by {
                        assert(call_ensures(*matches_text, (text,), true));
                        assert(content.deep_view()[i as int] == (ContentModel::InputText {
                            text: text@,
                        }));
                    }
                }
                return true;
            }
            proof {
                assert(call_ensures(*matches_text, (text,), false));
            }
        }
        i = i + 1;
    }
    false
}

fn finds_notice<F: Fn(&String) -> bool>(history: &Vec<ResponseItem>, matches_text: &F) -> (found:
    bool)
    requires
        forall|text: &String| call_requires(*matches_text, (text,)),
    ensures
        found ==> has_notice(history.deep_view(), any_text()),
        forall|is_notice: spec_fn(Seq<char>) -> bool| #[trigger]
            tells(*matches_text, is_notice) ==> found == has_notice(history.deep_view(), is_notice),
{
    let ghost items = history.deep_view();
    let mut i: usize = 0;
    while i < history.len()
        invariant
            i <= history@.len(),
            items == history.deep_view(),
            forall|text: &String| call_requires(*matches_text, (text,)),
            forall|is_notice: spec_fn(Seq<char>) -> bool, j: int|
                #![trigger tells(*matches_text, is_notice), items[j]]
                tells(*matches_text, is_notice) && 0 <= j < i ==> !holds_notice(
                    items[j],
                    is_notice,
                ),
        decreases history@.len() - i,
    {
        if let ResponseItem::Message { role, content, .. } = &history[i] {
            if same_text(role.as_str(), "developer") && finds_in_message(content, matches_text) {
                proof {
                    assert(holds_notice(items[i as int], any_text()));
                    assert forall|is_notice: spec_fn(Seq<char>) -> bool| #[trigger]
                        tells(*matches_text, is_notice) implies has_notice(
                        history.deep_view(),
                        is_notice,
                    ) by {
                        assert(holds_notice(items[i as int], is_notice));
                    }
                }
                return true;
            }
        }
        i = i + 1;
    }
    false
}

/// Says whether the number of queued messages is to be told at the next boundary of a window, and
/// notes that it was. Changes in between count once. A number that was told in this window is not
/// told again; zero is told where a notice of some messages may still stand, and else nothing is.
/// `matches_text` tells a notice from another text.
pub fn maybe_record<F: Fn(&String) -> bool>(
    state: &mut QueueState,
    history: &Vec<ResponseItem>,
    window_id: &str,
    matches_text: F,
) -> (notice: Option<QueuedFollowupAwareness>)
    requires
        forall|text: &String| call_requires(matches_text, (text,)),
    ensures
        final(state).queued_followup_count == old(state).queued_followup_count,
        is_reported(*final(state), window_id@),
        is_reported(*old(state), window_id@) ==> notice is None && *final(state) == *old(state),
        !is_reported(*old(state), window_id@) ==> forall|is_notice: spec_fn(Seq<char>) -> bool|
            #[trigger] tells(matches_text, is_notice) ==> (notice is Some <==> needs_notice(
                *old(state),
                history.deep_view(),
                is_notice,
            )),
        !is_reported(*old(state), window_id@) && (old(state).queued_followup_count > 0
            || reported_some(*old(state))) ==> notice is Some,
        notice is Some ==> needs_notice(*old(state), history.deep_view(), any_text()),
        notice matches Some(told) ==> told.count == old(state).queued_followup_count,
{
    let count: u32 = state.queued_followup_count;
    let mut told_some = false;
    if let Some((window, previous)) = &state.queued_followup_last_reported {
        if same_text(window.as_str(), window_id) && *previous == count {
            return None;
        }
        told_some = *previous > 0;
    }
    let needed = count > 0 || told_some || finds_notice(history, &matches_text);
    state.queued_followup_last_reported = Some((window_id.to_owned(), count));
    if needed {
        Some(QueuedFollowupAwareness::new(count))
    } else {
        None
    }
}

/// A notice counts wherever it stands: in any message of the developer, at any place among its texts.
pub proof fn lemma_notice_is_found_anywhere(
    before: Seq<ItemModel>,
    item: ItemModel,
    after: Seq<ItemModel>,
    first: Seq<ContentModel>,
    text: Seq<char>,
    rest: Seq<ContentModel>,
    is_notice: spec_fn(Seq<char>) -> bool,
)
    requires
        item matches ItemModel::Message { role, content, .. } && role == "developer"@ && content
            == first + seq![ContentModel::InputText { text }] + rest,
        is_notice(text),
    ensures
        has_notice(before + seq![item] + after, is_notice),
{
    let content = first + seq![ContentModel::InputText { text }] + rest;
    assert(content[first.len() as int] == ContentModel::InputText { text });
    assert(holds_notice(item, is_notice));
    let history = before + seq![item] + after;
    assert(history[before.len() as int] == item);
}

/// Nothing that is no message of the developer holds a notice, and a message holds none where each of
/// its parts is another text or no input text.
pub proof fn lemma_what_holds_no_notice(item: ItemModel, is_notice: spec_fn(Seq<char>) -> bool)
    ensures
        item !is Message ==> !holds_notice(item, is_notice),
        (item matches ItemModel::Message { role, .. } ==> role != "developer"@) ==> !holds_notice(
            item,
            is_notice,
        ),
        (item matches ItemModel::Message { content, .. } ==> forall|i: int|
            0 <= i < content.len() ==> (#[trigger] content[i] matches ContentModel::InputText {
                text,
            } ==> !is_notice(text))) ==> !holds_notice(item, is_notice),
{
}

/// Once the number was told in a window, it is told again only when the window or the number is
/// another.
pub proof fn lemma_reported_means_same_window_and_number(
    state: QueueState,
    window: String,
    count: u32,
    window_id: Seq<char>,
)
    ensures
        state.queued_followup_last_reported is None ==> !is_reported(state, window_id)
            && !reported_some(state),
        state.queued_followup_last_reported == Some((window, count)) ==> (is_reported(
            state,
            window_id,
        ) <==> window@ == window_id && count == state.queued_followup_count),
        state.queued_followup_last_reported == Some((window, count)) ==> (reported_some(state)
            <==> count > 0),
{
}

/// Zero messages are not told to a conversation that was told of none and holds no notice; any other
/// number is told, and zero is told where a notice of some may stand.
pub proof fn lemma_when_the_number_matters(
    state: QueueState,
    history: Seq<ItemModel>,
    is_notice: spec_fn(Seq<char>) -> bool,
)
    ensures
        state.queued_followup_count > 0 ==> needs_notice(state, history, is_notice),
        reported_some(state) ==> needs_notice(state, history, is_notice),
        has_notice(history, is_notice) ==> needs_notice(state, history, is_notice),
        state.queued_followup_count == 0 && !reported_some(state) && (forall|i: int|
            0 <= i < history.len() ==> !holds_notice(#[trigger] history[i], is_notice))
            ==> !needs_notice(state, history, is_notice),
{
}

/// A notice tells the number of messages: zero has a text of its own, and two other numbers differ in
/// the number alone.
pub proof fn lemma_notice_tells_the_number(count: nat)
    ensures
        count > 0 ==> notice_body(count) == "The user has "@ + decimal(count)
            + " queued follow-up messages. This supersedes earlier queue counts. Their contents are withheld until the next normal turn. Finish the meaningful current work, report remaining checks and yield when practical. Defer optional exhaustive tests to the next iteration; required correctness and safety checks still apply."@,
        notice_body(0)
            == "The user has 0 queued follow-up messages. This clears any earlier queue notice; do not assume another user iteration is pending. Continue the current task normally."@,
{
}

/// A function tells notices apart where it always says of a text whether the text is one.
pub proof fn lemma_what_tells_notices<F: Fn(&String) -> bool>(
    matches_text: F,
    is_notice: spec_fn(Seq<char>) -> bool,
)
    requires
        forall|text: &String, found: bool| #[trigger]
            call_ensures(matches_text, (text,), found) ==> (found <==> is_notice(text@)),
    ensures
        tells(matches_text, is_notice),
{
}

} // verus!
