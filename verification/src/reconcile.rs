//! The membership reconciler: from one incoming event, decide whether a user
//! record is upserted, removed or left alone.
//!
//! Joins and leaves reported by the platform are authoritative and applied
//! directly. A mention, or an operator's add/remove command, names a user the
//! system has not independently observed, so it acts only on a live status
//! lookup: present standings add, gone standings remove, an ambiguous
//! standing does nothing. Every write path runs through the chat eligibility
//! gate.

use vstd::prelude::*;
use crate::store::{Storage, StorageView};
use crate::types::{eligible_chat, is_eligible, Chat, ChatView, MemberStatus, MemberView, User};

verus! {

/// What a corroborated signal tells the reconciler to do.
#[derive(Clone, Copy, Debug, PartialEq, Eq, Structural)]
pub enum MembershipAction {
    Add,
    Remove,
    Ignore,
}

/// The decision table over a live status: owner, administrator and plain
/// member count as present; left and banned as gone; restricted is
/// ambiguous, neither confirmed in nor out.
pub open spec fn spec_status_action(status: MemberStatus) -> MembershipAction {
    match status {
        MemberStatus::Owner => MembershipAction::Add,
        MemberStatus::Administrator => MembershipAction::Add,
        MemberStatus::Member => MembershipAction::Add,
        MemberStatus::Left => MembershipAction::Remove,
        MemberStatus::Banned => MembershipAction::Remove,
        MemberStatus::Restricted => MembershipAction::Ignore,
    }
}

/// What to do with a membership, given a user's live standing.
pub fn status_action(status: &MemberStatus) -> (a: MembershipAction)
    ensures
        a == spec_status_action(*status),
{
    match status {
        MemberStatus::Owner => MembershipAction::Add,
        MemberStatus::Administrator => MembershipAction::Add,
        MemberStatus::Member => MembershipAction::Add,
        MemberStatus::Left => MembershipAction::Remove,
        MemberStatus::Banned => MembershipAction::Remove,
        MemberStatus::Restricted => MembershipAction::Ignore,
    }
}

/// One event about one user's relationship to one chat.
pub enum ChatEvent {
    /// The platform reported the user added to the chat.
    Joined { user: User },
    /// The platform reported the user removed from the chat.
    Left { user_id: String },
    /// The user was mentioned in a message; the status comes from the live
    /// lookup made to corroborate the mention.
    Mention { user: User, status: MemberStatus },
}

/// The mathematical content of a chat event.
pub ghost enum ChatEventView {
    Joined { user: MemberView },
    Left { user_id: Seq<char> },
    Mention { user: MemberView, status: MemberStatus },
}

impl View for ChatEvent {
    type V = ChatEventView;

    open spec fn view(&self) -> ChatEventView {
        match self {
            ChatEvent::Joined { user } => ChatEventView::Joined { user: user@ },
            ChatEvent::Left { user_id } => ChatEventView::Left { user_id: user_id@ },
            ChatEvent::Mention { user, status } => ChatEventView::Mention {
                user: user@,
                status: *status,
            },
        }
    }
}

impl DeepView for ChatEvent {
    type V = ChatEventView;

    open spec fn deep_view(&self) -> ChatEventView {
        self.view()
    }
}

/// The store after a corroborated signal: add means the full member write
/// (behind the eligibility gate), remove means deleting the membership,
/// ambiguity leaves the store alone.
pub open spec fn spec_apply_status(
    v: StorageView,
    chat: ChatView,
    user: MemberView,
    status: MemberStatus,
) -> StorageView {
    match spec_status_action(status) {
        MembershipAction::Add => v.spec_new_member(chat, user),
        MembershipAction::Remove => v.spec_remove_membership(chat.id, user.user_id),
        MembershipAction::Ignore => v,
    }
}

/// The store after one event.
pub open spec fn spec_apply_event(v: StorageView, chat: ChatView, e: ChatEventView) -> StorageView {
    match e {
        ChatEventView::Joined { user } => v.spec_new_member(chat, user),
        ChatEventView::Left { user_id } => v.spec_remove_membership(chat.id, user_id),
        ChatEventView::Mention { user, status } => spec_apply_status(v, chat, user, status),
    }
}

/// Applies one event to the roster.
pub fn handle_event(storage: &mut Storage, chat: &Chat, event: &ChatEvent)
    requires
        old(storage)@.wf(),
    ensures
        final(storage)@.wf(),
        final(storage)@ == spec_apply_event(old(storage)@, chat@, event@),
{
    match event {
        ChatEvent::Joined { user } => {
            storage.new_member(chat, user);
        },
        ChatEvent::Left { user_id } => {
            storage.remove_membership(chat.id, user_id);
        },
        ChatEvent::Mention { user, status } => {
            match status_action(status) {
                MembershipAction::Add => {
                    storage.new_member(chat, user);
                },
                MembershipAction::Remove => {
                    storage.remove_membership(chat.id, &user.id);
                },
                MembershipAction::Ignore => {},
            }
        },
    }
}

/// The store after an operator's membership check: nothing at all for an
/// ineligible chat, else as the corroborated signal says.
pub open spec fn spec_check_member(
    v: StorageView,
    chat: ChatView,
    user: MemberView,
    status: MemberStatus,
) -> StorageView {
    if !is_eligible(chat.kind) {
        v
    } else {
        spec_apply_status(v, chat, user, status)
    }
}

/// An operator's membership check: gates on the chat first, then applies the
/// corroborated signal; says whether the user currently counts as in the
/// chat.
pub fn check_member(storage: &mut Storage, chat: &Chat, user: &User, status: &MemberStatus) -> (in_chat:
    bool)
    requires
        old(storage)@.wf(),
    ensures
        final(storage)@.wf(),
        final(storage)@ == spec_check_member(old(storage)@, chat@, user@, *status),
        in_chat == (is_eligible(chat@.kind) && spec_status_action(*status) is Add),
{
    if !eligible_chat(chat) {
        return false;
    }
    match status_action(status) {
        MembershipAction::Add => {
            storage.new_member(chat, user);
            true
        },
        MembershipAction::Remove => {
            storage.remove_membership(chat.id, &user.id);
            false
        },
        MembershipAction::Ignore => false,
    }
}

/// The store after a whole sequence of events, oldest first.
pub open spec fn spec_apply_events(
    v: StorageView,
    events: Seq<(ChatView, ChatEventView)>,
) -> StorageView
    decreases events.len(),
{
    if events.len() == 0 {
        v
    } else {
        spec_apply_event(
            spec_apply_events(v, events.drop_last()),
            events.last().0,
            events.last().1,
        )
    }
}

/// Whether the membership relation has no row at all for the chat.
pub open spec fn no_memberships_for(v: StorageView, chat_id: int) -> bool {
    forall|i: int| 0 <= i < v.members.len() ==> (#[trigger] v.members[i]).chat_id != chat_id
}

/// One event never gives a chat its first membership row unless the event
/// presents that chat as eligible.
proof fn lemma_event_keeps_chat_empty(
    v: StorageView,
    chat: ChatView,
    e: ChatEventView,
    chat_id: int,
)
    requires
        no_memberships_for(v, chat_id),
        chat.id == chat_id ==> !is_eligible(chat.kind),
    ensures
        no_memberships_for(spec_apply_event(v, chat, e), chat_id),
{
    let w = spec_apply_event(v, chat, e);
    match e {
        ChatEventView::Joined { user } => {
            lemma_new_member_keeps_chat_empty(v, chat, user, chat_id);
        },
        ChatEventView::Left { user_id } => {
            lemma_remove_keeps_chat_empty(v, chat.id, user_id, chat_id);
        },
        ChatEventView::Mention { user, status } => {
            match spec_status_action(status) {
                MembershipAction::Add => {
                    lemma_new_member_keeps_chat_empty(v, chat, user, chat_id);
                },
                MembershipAction::Remove => {
                    lemma_remove_keeps_chat_empty(v, chat.id, user.user_id, chat_id);
                },
                MembershipAction::Ignore => {},
            }
        },
    }
}

proof fn lemma_new_member_keeps_chat_empty(
    v: StorageView,
    chat: ChatView,
    user: MemberView,
    chat_id: int,
)
    requires
        no_memberships_for(v, chat_id),
        chat.id == chat_id ==> !is_eligible(chat.kind),
    ensures
        no_memberships_for(v.spec_new_member(chat, user), chat_id),
{
    let w = v.spec_new_member(chat, user);
    if is_eligible(chat.kind) {
        assert(chat.id != chat_id);
        let mid = v.spec_upsert_user(user).spec_upsert_chat(crate::store::chat_row_of(chat));
        assert(mid.members == v.members);
        assert forall|i: int|
            0 <= i < w.members.len() implies (#[trigger] w.members[i]).chat_id != chat_id by {
            if i < mid.members.len() {
                assert(w.members[i] == mid.members[i]);
            }
        }
    }
}

proof fn lemma_remove_keeps_chat_empty(
    v: StorageView,
    at_chat: int,
    user_id: Seq<char>,
    chat_id: int,
)
    requires
        no_memberships_for(v, chat_id),
    ensures
        no_memberships_for(v.spec_remove_membership(at_chat, user_id), chat_id),
{
    let w = v.spec_remove_membership(at_chat, user_id);
    if v.has_membership(at_chat, user_id) {
        let i = v.membership_at(at_chat, user_id);
        assert(0 <= i < v.members.len() && v.members[i] == (crate::store::MembershipView {
            chat_id: at_chat,
            user_id,
        }));
        v.members.remove_ensures(i);
        assert forall|k: int|
            0 <= k < w.members.len() implies (#[trigger] w.members[k]).chat_id != chat_id by {
            let orig = if k < i {
                k
            } else {
                k + 1
            };
            assert(w.members[k] == v.members[orig]);
        }
    }
}

/// A chat that no event ever presents as eligible never gains a membership
/// row, whatever else the event stream does: its member list stays empty.
pub proof fn lemma_ineligible_chat_stays_empty(
    v: StorageView,
    events: Seq<(ChatView, ChatEventView)>,
    chat_id: int,
)
    requires
        no_memberships_for(v, chat_id),
        forall|i: int|
            0 <= i < events.len() && (#[trigger] events[i].0).id == chat_id ==> !is_eligible(
                events[i].0.kind,
            ),
    ensures
        no_memberships_for(spec_apply_events(v, events), chat_id),
        spec_apply_events(v, events).spec_members_of(chat_id) =~= Seq::<MemberView>::empty(),
    decreases events.len(),
{
    if events.len() == 0 {
        lemma_empty_members_of(v, chat_id);
    } else {
        let head = events.drop_last();
        assert(forall|i: int|
            0 <= i < head.len() && (#[trigger] head[i].0).id == chat_id ==> !is_eligible(
                head[i].0.kind,
            )) by {
            assert(forall|i: int| 0 <= i < head.len() ==> head[i] == #[trigger] events[i]);
        }
        lemma_ineligible_chat_stays_empty(v, head, chat_id);
        let mid = spec_apply_events(v, head);
        assert(events[events.len() - 1] == events.last());
        lemma_event_keeps_chat_empty(mid, events.last().0, events.last().1, chat_id);
        lemma_empty_members_of(spec_apply_events(v, events), chat_id);
    }
}

/// Without a membership row for the chat, its member list is empty.
proof fn lemma_empty_members_of(v: StorageView, chat_id: int)
    requires
        no_memberships_for(v, chat_id),
    ensures
        v.spec_members_of(chat_id) =~= Seq::<MemberView>::empty(),
{
    let p = crate::store::member_pred(v.members, chat_id);
    assert forall|i: int| 0 <= i < v.users.len() implies !p(#[trigger] v.users[i]) by {
        if crate::store::members_contain(v.members, chat_id, v.users[i].user_id) {
            let j = choose|j: int|
                0 <= j < v.members.len() && #[trigger] v.members[j]
                    == (crate::store::MembershipView { chat_id, user_id: v.users[i].user_id });
            assert(v.members[j].chat_id == chat_id);
        }
    }
    v.users.lemma_all_neg_filter_empty(p);
}

} // verus!
