//! The roster store: one table of users, one of chats, one of memberships.
//!
//! The store is the single source of truth for membership queries. A
//! membership row may exist only while both its user row and its chat row
//! exist, a (chat, user) pair appears at most once, and the chat table is
//! kept ordered by chat id.

use vstd::prelude::*;
use crate::types::{clone_opt_string, eligible_chat, is_eligible, Chat, ChatView, Member,
    MemberView, MemberV01, User};

verus! {

/// A stored chat row.
pub struct ChatRow {
    pub chat_id: i64,
    pub title: Option<String>,
    pub username: Option<String>,
}

/// A stored membership row: the composite identity (chat, user).
pub struct MembershipRow {
    pub chat_id: i64,
    pub user_id: String,
}

/// The mathematical content of a chat row.
pub ghost struct ChatRowView {
    pub chat_id: int,
    pub title: Option<Seq<char>>,
    pub username: Option<Seq<char>>,
}

/// The mathematical content of a membership row.
pub ghost struct MembershipView {
    pub chat_id: int,
    pub user_id: Seq<char>,
}

/// One line of the per-chat member counts: the display title, or the chat
/// id rendered as text where no title is stored.
pub ghost struct ChatCountView {
    pub chat_id: int,
    pub title: Seq<char>,
    pub count: int,
}

/// The mathematical content of the whole store.
pub ghost struct StorageView {
    pub users: Seq<MemberView>,
    pub chats: Seq<ChatRowView>,
    pub members: Seq<MembershipView>,
}

impl View for ChatRow {
    type V = ChatRowView;

    open spec fn view(&self) -> ChatRowView {
        ChatRowView {
            chat_id: self.chat_id as int,
            title: crate::types::opt_view(self.title),
            username: crate::types::opt_view(self.username),
        }
    }
}

impl DeepView for ChatRow {
    type V = ChatRowView;

    open spec fn deep_view(&self) -> ChatRowView {
        self.view()
    }
}

impl View for MembershipRow {
    type V = MembershipView;

    open spec fn view(&self) -> MembershipView {
        MembershipView { chat_id: self.chat_id as int, user_id: self.user_id@ }
    }
}

impl DeepView for MembershipRow {
    type V = MembershipView;

    open spec fn deep_view(&self) -> MembershipView {
        self.view()
    }
}

/// The stored row a chat's metadata is kept as.
pub open spec fn chat_row_of(chat: ChatView) -> ChatRowView {
    ChatRowView { chat_id: chat.id, title: chat.title, username: chat.username }
}

/// Whether a membership table holds the (chat, user) pair.
pub open spec fn members_contain(ms: Seq<MembershipView>, chat_id: int, user_id: Seq<char>) -> bool {
    exists|i: int|
        0 <= i < ms.len() && #[trigger] ms[i] == (MembershipView { chat_id, user_id })
}

/// Who of a user table counts as a member of the chat: rows backed by the
/// membership table, bots left out.
pub open spec fn member_pred(ms: Seq<MembershipView>, chat_id: int) -> spec_fn(MemberView) -> bool {
    |m: MemberView| members_contain(ms, chat_id, m.user_id) && !m.is_bot
}

impl StorageView {
    pub open spec fn has_user(self, user_id: Seq<char>) -> bool {
        exists|i: int| 0 <= i < self.users.len() && #[trigger] self.users[i].user_id == user_id
    }

    /// The row index of a user id; meaningful only under `has_user` and `wf`.
    pub open spec fn user_at(self, user_id: Seq<char>) -> int {
        choose|i: int| 0 <= i < self.users.len() && #[trigger] self.users[i].user_id == user_id
    }

    pub open spec fn has_chat(self, chat_id: int) -> bool {
        exists|i: int| 0 <= i < self.chats.len() && #[trigger] self.chats[i].chat_id == chat_id
    }

    /// The row index of a chat id; meaningful only under `has_chat` and `wf`.
    pub open spec fn chat_at(self, chat_id: int) -> int {
        choose|i: int| 0 <= i < self.chats.len() && #[trigger] self.chats[i].chat_id == chat_id
    }

    /// Whether the (chat, user) relation currently holds.
    pub open spec fn has_membership(self, chat_id: int, user_id: Seq<char>) -> bool {
        members_contain(self.members, chat_id, user_id)
    }

    /// The row index of a membership pair; meaningful only under
    /// `has_membership` and `wf`.
    pub open spec fn membership_at(self, chat_id: int, user_id: Seq<char>) -> int {
        choose|i: int|
            0 <= i < self.members.len() && #[trigger] self.members[i] == (MembershipView {
                chat_id,
                user_id,
            })
    }

    /// Well-formedness: user ids unique, chats strictly ordered by id,
    /// membership pairs unique, and every membership backed by a user row
    /// and a chat row.
    pub open spec fn wf(self) -> bool {
        &&& forall|i: int, j: int|
            0 <= i < j < self.users.len() ==> #[trigger] self.users[i].user_id
                != #[trigger] self.users[j].user_id
        &&& forall|i: int, j: int|
            0 <= i < j < self.chats.len() ==> #[trigger] self.chats[i].chat_id
                < #[trigger] self.chats[j].chat_id
        &&& forall|i: int, j: int|
            0 <= i < j < self.members.len() ==> #[trigger] self.members[i]
                != #[trigger] self.members[j]
        &&& forall|i: int|
            0 <= i < self.members.len() ==> self.has_user(#[trigger] self.members[i].user_id)
                && self.has_chat(self.members[i].chat_id)
    }

    /// Writing a user row: refresh in place where the id exists, append
    /// otherwise.
    pub open spec fn spec_upsert_user(self, m: MemberView) -> StorageView {
        if self.has_user(m.user_id) {
            StorageView { users: self.users.update(self.user_at(m.user_id), m), ..self }
        } else {
            StorageView { users: self.users.push(m), ..self }
        }
    }

    /// Writing a chat row: refresh in place where the id exists, insert at
    /// the ordered position otherwise.
    pub open spec fn spec_upsert_chat(self, c: ChatRowView) -> StorageView {
        if self.has_chat(c.chat_id) {
            StorageView { chats: self.chats.update(self.chat_at(c.chat_id), c), ..self }
        } else {
            StorageView {
                chats: self.chats.insert(chat_insert_pos(self.chats, c.chat_id), c),
                ..self
            }
        }
    }

    /// Insert-if-absent on the membership relation.
    pub open spec fn spec_add_membership(self, chat_id: int, user_id: Seq<char>) -> StorageView {
        if self.has_membership(chat_id, user_id) {
            self
        } else {
            StorageView { members: self.members.push(MembershipView { chat_id, user_id }), ..self }
        }
    }

    /// Delete-if-present on the membership relation.
    pub open spec fn spec_remove_membership(self, chat_id: int, user_id: Seq<char>) -> StorageView {
        if self.has_membership(chat_id, user_id) {
            StorageView { members: self.members.remove(self.membership_at(chat_id, user_id)), ..self }
        } else {
            self
        }
    }

    /// The users with an active membership in the chat, bots excluded, in
    /// store order.
    pub open spec fn spec_members_of(self, chat_id: int) -> Seq<MemberView> {
        self.users.filter(member_pred(self.members, chat_id))
    }

    /// Which chats hold at least one non-bot member.
    pub open spec fn chat_listed_pred(self) -> spec_fn(ChatRowView) -> bool {
        |c: ChatRowView| self.spec_members_of(c.chat_id).len() > 0
    }

    /// A chat row turned into its count line.
    pub open spec fn chat_count_fn(self) -> spec_fn(ChatRowView) -> ChatCountView {
        |c: ChatRowView|
            ChatCountView {
                chat_id: c.chat_id,
                title: match c.title {
                    Some(t) => t,
                    None => crate::text::dec_str_signed(c.chat_id),
                },
                count: self.spec_members_of(c.chat_id).len() as int,
            }
    }

    /// For every chat holding at least one non-bot member, its id, stored
    /// title and member count, ordered by chat id.
    pub open spec fn spec_chats_with_counts(self) -> Seq<ChatCountView> {
        self.chats.filter(self.chat_listed_pred()).map_values(self.chat_count_fn())
    }

    /// One member event's writes: nothing for an ineligible chat; else the
    /// user row, the chat row, then the membership, in that order.
    pub open spec fn spec_new_member(self, chat: ChatView, user: MemberView) -> StorageView {
        if !is_eligible(chat.kind) {
            self
        } else {
            self.spec_upsert_user(user).spec_upsert_chat(chat_row_of(chat)).spec_add_membership(
                chat.id,
                user.user_id,
            )
        }
    }
}

/// Where a chat id belongs in a chat table ordered by id: the index of its
/// first entry that is not below the id.
pub open spec fn chat_insert_pos(chats: Seq<ChatRowView>, chat_id: int) -> int
    decreases chats.len(),
{
    if chats.len() == 0 {
        0
    } else if chats[0].chat_id >= chat_id {
        0
    } else {
        1 + chat_insert_pos(chats.drop_first(), chat_id)
    }
}

proof fn lemma_chat_insert_pos_at(chats: Seq<ChatRowView>, chat_id: int, i: int)
    requires
        0 <= i <= chats.len(),
        forall|j: int| 0 <= j < i ==> #[trigger] chats[j].chat_id < chat_id,
        i < chats.len() ==> chats[i].chat_id >= chat_id,
    ensures
        chat_insert_pos(chats, chat_id) == i,
    decreases i,
{
    if chats.len() == 0 {
    } else if i == 0 {
    } else {
        assert(chats[0].chat_id < chat_id);
        let rest = chats.drop_first();
        assert(forall|j: int| 0 <= j < i - 1 ==> #[trigger] rest[j].chat_id < chat_id) by {
            assert(forall|j: int| 0 <= j < i - 1 ==> rest[j] == #[trigger] chats[j + 1]);
        }
        assert(i - 1 < rest.len() ==> rest[i - 1].chat_id >= chat_id);
        lemma_chat_insert_pos_at(rest, chat_id, i - 1);
    }
}

/// One step of walking a sequence against a filter.
pub proof fn lemma_filter_take_step<A>(s: Seq<A>, p: spec_fn(A) -> bool, i: int)
    requires
        0 <= i < s.len(),
    ensures
        s.take(i + 1).filter(p) == if p(s[i]) {
            s.take(i).filter(p).push(s[i])
        } else {
            s.take(i).filter(p)
        },
{
    assert(s.take(i + 1) =~= s.take(i).push(s[i]));
    s.take(i).lemma_filter_push(s[i], p);
}

/// The roster store.
pub struct Storage {
    users: Vec<Member>,
    chats: Vec<ChatRow>,
    members: Vec<MembershipRow>,
}

impl View for Storage {
    type V = StorageView;

    closed spec fn view(&self) -> StorageView {
        StorageView {
            users: self.users.deep_view(),
            chats: self.chats.deep_view(),
            members: self.members.deep_view(),
        }
    }
}

impl Storage {
    /// An empty roster.
    pub fn new() -> (r: Storage)
        ensures
            r@.wf(),
            r@.users.len() == 0,
            r@.chats.len() == 0,
            r@.members.len() == 0,
    {
        Storage { users: Vec::new(), chats: Vec::new(), members: Vec::new() }
    }

    /// The row index holding the user id, if any.
    fn find_user_index(&self, user_id: &String) -> (r: Option<usize>)
        requires
            self@.wf(),
        ensures
            match r {
                Some(i) => i < self@.users.len() && self@.users[i as int].user_id == user_id@
                    && self@.has_user(user_id@) && self@.user_at(user_id@) == i,
                None => !self@.has_user(user_id@),
            },
    {
        let mut i: usize = 0;
        while i < self.users.len()
            invariant
                self@.wf(),
                i <= self@.users.len(),
                forall|j: int| 0 <= j < i ==> #[trigger] self@.users[j].user_id != user_id@,
            decreases self@.users.len() - i,
        {
            if self.users[i].user_id == *user_id {
                proof {
                    assert(self@.users[i as int].user_id == user_id@);
                    let w = self@.user_at(user_id@);
                    assert(0 <= w < self@.users.len() && self@.users[w].user_id == user_id@);
                    assert(w == i);
                }
                return Some(i);
            }
            i = i + 1;
        }
        proof {
            assert(!self@.has_user(user_id@));
        }
        None
    }

    /// Whether the (chat, user) relation currently holds.
    pub fn contains_membership(&self, chat_id: i64, user_id: &String) -> (r: bool)
        ensures
            r == self@.has_membership(chat_id as int, user_id@),
    {
        let mut i: usize = 0;
        while i < self.members.len()
            invariant
                i <= self@.members.len(),
                forall|j: int|
                    0 <= j < i ==> #[trigger] self@.members[j] != (MembershipView {
                        chat_id: chat_id as int,
                        user_id: user_id@,
                    }),
            decreases self@.members.len() - i,
        {
            if self.members[i].chat_id == chat_id && self.members[i].user_id == *user_id {
                proof {
                    assert(self@.members[i as int] == MembershipView {
                        chat_id: chat_id as int,
                        user_id: user_id@,
                    });
                }
                return true;
            }
            i = i + 1;
        }
        false
    }

    /// Writes or refreshes the user's row; identity decides the row, every
    /// other attribute is overwritten (last write wins).
    pub fn upsert_user(&mut self, user: &User)
        requires
            old(self)@.wf(),
        ensures
            final(self)@.wf(),
            final(self)@ == old(self)@.spec_upsert_user(user@),
            final(self)@.has_user(user@.user_id),
    {
        let m = user.to_member();
        match self.find_user_index(&user.id) {
            Some(i) => {
                self.users[i] = m;
                proof {
                    let pre = old(self)@;
                    assert(self@.users =~= pre.users.update(pre.user_at(user@.user_id), user@));
                    assert(self@.chats =~= pre.chats);
                    assert(self@.members =~= pre.members);
                    assert(self@ == pre.spec_upsert_user(user@));
                    assert(self@.users[pre.user_at(user@.user_id)].user_id == user@.user_id);
                    assert(self@.has_user(user@.user_id));
                    lemma_update_same_id_wf(pre, pre.user_at(user@.user_id), user@);
                }
            },
            None => {
                self.users.push(m);
                proof {
                    let pre = old(self)@;
                    assert(self@.users =~= pre.users.push(user@));
                    assert(self@.chats =~= pre.chats);
                    assert(self@.members =~= pre.members);
                    assert(self@ == pre.spec_upsert_user(user@));
                    assert(self@.users[pre.users.len() as int].user_id == user@.user_id);
                    assert(self@.has_user(user@.user_id));
                    lemma_push_user_wf(pre, user@);
                }
            },
        }
    }

    /// Writes or refreshes the chat's row; the chat table stays ordered by
    /// chat id.
    pub fn upsert_chat(&mut self, chat: &Chat)
        requires
            old(self)@.wf(),
        ensures
            final(self)@.wf(),
            final(self)@ == old(self)@.spec_upsert_chat(chat_row_of(chat@)),
            final(self)@.has_chat(chat@.id),
    {
        let row = ChatRow {
            chat_id: chat.id,
            title: clone_opt_string(&chat.title),
            username: clone_opt_string(&chat.username),
        };
        let mut i: usize = 0;
        while i < self.chats.len() && self.chats[i].chat_id < chat.id
            invariant
                self@.wf(),
                i <= self@.chats.len(),
                forall|j: int| 0 <= j < i ==> #[trigger] self@.chats[j].chat_id < chat.id as int,
            decreases self@.chats.len() - i,
        {
            i = i + 1;
        }
        proof {
            lemma_chat_insert_pos_at(self@.chats, chat.id as int, i as int);
        }
        if i < self.chats.len() && self.chats[i].chat_id == chat.id {
            self.chats[i] = row;
            proof {
                let pre = old(self)@;
                assert(pre.chats[i as int].chat_id == chat.id as int);
                let w = pre.chat_at(chat.id as int);
                assert(0 <= w < pre.chats.len() && pre.chats[w].chat_id == chat.id as int);
                assert(w == i) by {
                    if w < i as int {
                        assert(pre.chats[w].chat_id < pre.chats[i as int].chat_id);
                    } else if w > i as int {
                        assert(pre.chats[i as int].chat_id < pre.chats[w].chat_id);
                    }
                }
                assert(self@.chats =~= pre.chats.update(w, chat_row_of(chat@)));
                assert(self@.users =~= pre.users);
                assert(self@.members =~= pre.members);
                assert(self@ == pre.spec_upsert_chat(chat_row_of(chat@)));
                assert(self@.chats[w].chat_id == chat@.id);
                assert(self@.has_chat(chat@.id));
                lemma_update_same_chat_wf(pre, w, chat_row_of(chat@));
            }
        } else {
            self.chats.insert(i, row);
            proof {
                let pre = old(self)@;
                assert(forall|j: int|
                    i <= j < pre.chats.len() ==> #[trigger] pre.chats[j].chat_id > chat.id as int)
                    by {
                    assert(forall|j: int|
                        i < j < pre.chats.len() ==> pre.chats[i as int].chat_id
                            < #[trigger] pre.chats[j].chat_id);
                }
                assert(!pre.has_chat(chat.id as int));
                assert(self@.chats =~= pre.chats.insert(i as int, chat_row_of(chat@)));
                assert(self@.users =~= pre.users);
                assert(self@.members =~= pre.members);
                assert(self@ == pre.spec_upsert_chat(chat_row_of(chat@)));
                pre.chats.insert_ensures(i as int, chat_row_of(chat@));
                assert(self@.chats[i as int].chat_id == chat@.id);
                assert(self@.has_chat(chat@.id));
                lemma_insert_chat_wf(pre, i as int, chat_row_of(chat@));
            }
        }
    }

    /// Insert-if-absent; says whether a new relation was actually created.
    /// Both referenced rows must already exist.
    pub fn add_membership(&mut self, chat_id: i64, user_id: &String) -> (created: bool)
        requires
            old(self)@.wf(),
            old(self)@.has_user(user_id@),
            old(self)@.has_chat(chat_id as int),
        ensures
            final(self)@.wf(),
            final(self)@ == old(self)@.spec_add_membership(chat_id as int, user_id@),
            created == !old(self)@.has_membership(chat_id as int, user_id@),
    {
        if self.contains_membership(chat_id, user_id) {
            return false;
        }
        let ghost pre = self@;
        self.members.push(MembershipRow { chat_id, user_id: user_id.clone() });
        proof {
            assert(self@.members =~= pre.members.push(
                MembershipView { chat_id: chat_id as int, user_id: user_id@ },
            ));
            assert(self@.users =~= pre.users);
            assert(self@.chats =~= pre.chats);
            assert(self@ == pre.spec_add_membership(chat_id as int, user_id@));
            lemma_push_membership_wf(pre, MembershipView { chat_id: chat_id as int, user_id: user_id@ });
        }
        true
    }

    /// Delete-if-present; says whether a relation was actually removed.
    pub fn remove_membership(&mut self, chat_id: i64, user_id: &String) -> (removed: bool)
        requires
            old(self)@.wf(),
        ensures
            final(self)@.wf(),
            final(self)@ == old(self)@.spec_remove_membership(chat_id as int, user_id@),
            removed == old(self)@.has_membership(chat_id as int, user_id@),
    {
        let ghost pair = MembershipView { chat_id: chat_id as int, user_id: user_id@ };
        let mut i: usize = 0;
        while i < self.members.len()
            invariant
                self@ == old(self)@,
                self@.wf(),
                i <= self@.members.len(),
                forall|j: int| 0 <= j < i ==> #[trigger] self@.members[j] != pair,
                pair == (MembershipView { chat_id: chat_id as int, user_id: user_id@ }),
            decreases self@.members.len() - i,
        {
            if self.members[i].chat_id == chat_id && self.members[i].user_id == *user_id {
                let ghost pre = self@;
                proof {
                    assert(pre.members[i as int] == pair);
                    let w = pre.membership_at(chat_id as int, user_id@);
                    assert(0 <= w < pre.members.len() && pre.members[w] == pair);
                    assert(w == i);
                }
                self.members.remove(i);
                proof {
                    assert(self@.members =~= pre.members.remove(i as int));
                    assert(self@.users =~= pre.users);
                    assert(self@.chats =~= pre.chats);
                    assert(self@ == pre.spec_remove_membership(chat_id as int, user_id@));
                    lemma_remove_membership_wf(pre, i as int);
                }
                return true;
            }
            i = i + 1;
        }
        proof {
            assert(!self@.has_membership(chat_id as int, user_id@));
        }
        false
    }

    /// The members of the chat, bots excluded, in store order.
    pub fn members_of(&self, chat_id: i64) -> (r: Vec<Member>)
        ensures
            r.deep_view() == self@.spec_members_of(chat_id as int),
    {
        let ghost p = member_pred(self@.members, chat_id as int);
        let mut r: Vec<Member> = Vec::new();
        let mut i: usize = 0;
        while i < self.users.len()
            invariant
                i <= self@.users.len(),
                p == member_pred(self@.members, chat_id as int),
                r.deep_view() == self@.users.take(i as int).filter(p),
            decreases self@.users.len() - i,
        {
            proof {
                lemma_filter_take_step(self@.users, p, i as int);
            }
            let m = &self.users[i];
            if !m.is_bot && self.contains_membership(chat_id, &m.user_id) {
                r.push(m.clone());
                proof {
                    assert(r.deep_view() =~= self@.users.take(i + 1).filter(p));
                }
            } else {
                proof {
                    assert(!p(self@.users[i as int]));
                    assert(r.deep_view() =~= self@.users.take(i + 1).filter(p));
                }
            }
            i = i + 1;
        }
        proof {
            assert(self@.users.take(self@.users.len() as int) =~= self@.users);
        }
        r
    }

    /// How many non-bot members the chat has, counted without materializing
    /// the member rows.
    pub fn member_count(&self, chat_id: i64) -> (r: u64)
        ensures
            r == self@.spec_members_of(chat_id as int).len(),
    {
        let ghost p = member_pred(self@.members, chat_id as int);
        let mut count: usize = 0;
        let mut i: usize = 0;
        while i < self.users.len()
            invariant
                i <= self@.users.len(),
                p == member_pred(self@.members, chat_id as int),
                count == self@.users.take(i as int).filter(p).len(),
                count <= i,
            decreases self@.users.len() - i,
        {
            proof {
                lemma_filter_take_step(self@.users, p, i as int);
            }
            let m = &self.users[i];
            if !m.is_bot && self.contains_membership(chat_id, &m.user_id) {
                count = count + 1;
            } else {
                proof {
                    assert(!p(self@.users[i as int]));
                }
            }
            i = i + 1;
        }
        proof {
            assert(self@.users.take(self@.users.len() as int) =~= self@.users);
        }
        count as u64
    }

    /// For every chat holding at least one non-bot member: its id, its
    /// display title (or the id as text where none is stored) and the
    /// member count, ordered by chat id ascending.
    pub fn chats_with_counts(&self) -> (r: Vec<(i64, String, u64)>)
        ensures
            ({
                let rows = self@.spec_chats_with_counts();
                &&& r@.len() == rows.len()
                &&& forall|k: int|
                    0 <= k < rows.len() ==> #[trigger] r@[k].0 as int == rows[k].chat_id
                        && r@[k].1@ == rows[k].title && r@[k].2 as int == rows[k].count
            }),
    {
        let ghost p = self@.chat_listed_pred();
        let ghost f = self@.chat_count_fn();
        let mut r: Vec<(i64, String, u64)> = Vec::new();
        let mut i: usize = 0;
        while i < self.chats.len()
            invariant
                i <= self@.chats.len(),
                p == self@.chat_listed_pred(),
                f == self@.chat_count_fn(),
                ({
                    let rows = self@.chats.take(i as int).filter(p).map_values(f);
                    &&& r@.len() == rows.len()
                    &&& forall|k: int|
                        0 <= k < rows.len() ==> #[trigger] r@[k].0 as int == rows[k].chat_id
                            && r@[k].1@ == rows[k].title && r@[k].2 as int == rows[k].count
                }),
            decreases self@.chats.len() - i,
    {
            proof {
                lemma_filter_take_step(self@.chats, p, i as int);
            }
            let ghost rows_pre = self@.chats.take(i as int).filter(p).map_values(f);
            let c = &self.chats[i];
            let count = self.member_count(c.chat_id);
            if count > 0 {
                let title = match &c.title {
                    Some(t) => t.clone(),
                    None => crate::text::i64_to_string(c.chat_id),
                };
                r.push((c.chat_id, title, count));
                proof {
                    assert(p(self@.chats[i as int]));
                    assert(self@.chats.take(i + 1).filter(p).map_values(f) =~= rows_pre.push(
                        f(self@.chats[i as int]),
                    ));
                }
            } else {
                proof {
                    assert(!p(self@.chats[i as int]));
                }
            }
            i = i + 1;
        }
        proof {
            assert(self@.chats.take(self@.chats.len() as int) =~= self@.chats);
        }
        r
    }

    /// One member event's writes: the eligibility gate, then user row, chat
    /// row and membership. Says whether a new membership was created.
    pub fn new_member(&mut self, chat: &Chat, user: &User) -> (added: bool)
        requires
            old(self)@.wf(),
        ensures
            final(self)@.wf(),
            final(self)@ == old(self)@.spec_new_member(chat@, user@),
            added == (is_eligible(chat@.kind) && !old(self)@.has_membership(
                chat@.id,
                user@.user_id,
            )),
    {
        if !eligible_chat(chat) {
            return false;
        }
        self.upsert_user(user);
        self.upsert_chat(chat);
        let created = self.add_membership(chat.id, &user.id);
        created
    }

    /// Legacy rows of the deprecated single-table layout, as membership
    /// facts: the target chat id and the user snapshot of each row.
    pub fn legacy_import(rows: &Vec<MemberV01>) -> (facts: Vec<(i64, User)>)
        ensures
            facts@.len() == rows@.len(),
            forall|i: int|
                0 <= i < rows@.len() ==> #[trigger] facts@[i].0 == rows@[i].chat_id && facts@[i].1@
                    == rows.deep_view()[i].member,
    {
        let mut facts: Vec<(i64, User)> = Vec::new();
        let mut i: usize = 0;
        while i < rows.len()
            invariant
                i <= rows@.len(),
                facts@.len() == i,
                forall|k: int|
                    0 <= k < i ==> #[trigger] facts@[k].0 == rows@[k].chat_id && facts@[k].1@
                        == rows.deep_view()[k].member,
            decreases rows@.len() - i,
        {
            let ghost facts_pre = facts@;
            let row = &rows[i];
            facts.push((row.chat_id, row.to_user()));
            proof {
                assert(rows.deep_view()[i as int] == rows@[i as int].deep_view());
                assert(facts@[i as int].0 == rows@[i as int].chat_id && facts@[i as int].1@
                    == rows.deep_view()[i as int].member);
                assert(forall|k: int| 0 <= k < i ==> #[trigger] facts@[k] == facts_pre[k]);
            }
            i = i + 1;
        }
        facts
    }
}

/// The membership relation after any number of insertions of one pair.
pub open spec fn spec_add_membership_n(
    v: StorageView,
    chat_id: int,
    user_id: Seq<char>,
    n: nat,
) -> StorageView
    decreases n,
{
    if n == 0 {
        v
    } else {
        spec_add_membership_n(v, chat_id, user_id, (n - 1) as nat).spec_add_membership(
            chat_id,
            user_id,
        )
    }
}

/// Inserting a membership whose rows exist keeps the store well formed; the
/// user and chat tables do not move.
proof fn lemma_add_membership_wf(v: StorageView, chat_id: int, user_id: Seq<char>)
    requires
        v.wf(),
        v.has_user(user_id),
        v.has_chat(chat_id),
    ensures
        v.spec_add_membership(chat_id, user_id).wf(),
{
    if !v.has_membership(chat_id, user_id) {
        lemma_push_membership_wf(v, MembershipView { chat_id, user_id });
    }
}

/// Removing a membership clears the pair: under well-formedness the relation
/// holds at most once, so one deletion is enough.
proof fn lemma_remove_clears(v: StorageView, chat_id: int, user_id: Seq<char>)
    requires
        v.wf(),
    ensures
        !v.spec_remove_membership(chat_id, user_id).has_membership(chat_id, user_id),
{
    let pair = MembershipView { chat_id, user_id };
    if v.has_membership(chat_id, user_id) {
        let i = v.membership_at(chat_id, user_id);
        assert(0 <= i < v.members.len() && v.members[i] == pair);
        let w = v.spec_remove_membership(chat_id, user_id);
        v.members.remove_ensures(i);
        assert forall|j: int| 0 <= j < w.members.len() implies #[trigger] w.members[j] != pair by {
            let orig = if j < i {
                j
            } else {
                j + 1
            };
            assert(w.members[j] == v.members[orig]);
            if v.members[orig] == pair {
                assert(v.members[i] == v.members[orig] && i != orig);
            }
        }
    }
}

/// Inserting the same membership more than once changes nothing after the
/// first time: the write is idempotent.
pub proof fn lemma_add_membership_idempotent(
    v: StorageView,
    chat_id: int,
    user_id: Seq<char>,
    n: nat,
)
    requires
        n >= 1,
    ensures
        spec_add_membership_n(v, chat_id, user_id, n) == v.spec_add_membership(chat_id, user_id),
    decreases n,
{
    if n == 1 {
        assert(spec_add_membership_n(v, chat_id, user_id, 0) == v);
    } else {
        lemma_add_membership_idempotent(v, chat_id, user_id, (n - 1) as nat);
        let w = v.spec_add_membership(chat_id, user_id);
        if v.has_membership(chat_id, user_id) {
            assert(w == v);
        } else {
            assert(w.members[v.members.len() as int] == (MembershipView { chat_id, user_id }));
        }
        assert(w.has_membership(chat_id, user_id));
        assert(w.spec_add_membership(chat_id, user_id) == w);
        assert(spec_add_membership_n(v, chat_id, user_id, n) == spec_add_membership_n(
            v,
            chat_id,
            user_id,
            (n - 1) as nat,
        ).spec_add_membership(chat_id, user_id));
    }
}

/// However many times a membership was inserted, one removal of the pair
/// leaves the chat's member list without that user.
pub proof fn lemma_add_remove_excludes(v: StorageView, chat_id: int, user_id: Seq<char>, n: nat)
    requires
        v.wf(),
        v.has_user(user_id),
        v.has_chat(chat_id),
    ensures
        ({
            let w = spec_add_membership_n(v, chat_id, user_id, n).spec_remove_membership(
                chat_id,
                user_id,
            );
            &&& w.wf()
            &&& !w.has_membership(chat_id, user_id)
            &&& forall|k: int|
                0 <= k < w.spec_members_of(chat_id).len() ==> (#[trigger] w.spec_members_of(
                    chat_id,
                )[k]).user_id != user_id
        }),
{
    let a = spec_add_membership_n(v, chat_id, user_id, n);
    if n == 0 {
        assert(a == v);
    } else {
        lemma_add_membership_idempotent(v, chat_id, user_id, n);
        lemma_add_membership_wf(v, chat_id, user_id);
    }
    let w = a.spec_remove_membership(chat_id, user_id);
    if a.has_membership(chat_id, user_id) {
        lemma_remove_membership_wf(a, a.membership_at(chat_id, user_id));
    }
    lemma_remove_clears(a, chat_id, user_id);
    assert forall|k: int|
        0 <= k < w.spec_members_of(chat_id).len() implies (#[trigger] w.spec_members_of(chat_id)[k]).user_id
        != user_id by {
        w.users.lemma_filter_pred(member_pred(w.members, chat_id), k);
        assert(member_pred(w.members, chat_id)(w.spec_members_of(chat_id)[k]));
    }
}

/// The only rows of a user table that carry the given identity.
pub open spec fn rows_with_id(users: Seq<MemberView>, user_id: Seq<char>) -> Seq<MemberView> {
    users.filter(id_pred(user_id))
}

/// Whether a row carries the given identity.
pub open spec fn id_pred(user_id: Seq<char>) -> spec_fn(MemberView) -> bool {
    |m: MemberView| m.user_id == user_id
}

/// In a table whose only row with the id stands at one index, the rows with
/// that id are exactly that row.
proof fn lemma_filter_single_index(s: Seq<MemberView>, user_id: Seq<char>, i: int)
    requires
        0 <= i < s.len(),
        s[i].user_id == user_id,
        forall|j: int| 0 <= j < s.len() && j != i ==> (#[trigger] s[j]).user_id != user_id,
    ensures
        rows_with_id(s, user_id) =~= seq![s[i]],
    decreases s.len(),
{
    let p = id_pred(user_id);
    let head = s.drop_last();
    assert(s =~= head.push(s[s.len() - 1]));
    head.lemma_filter_push(s[s.len() - 1], p);
    if i == s.len() - 1 {
        assert forall|j: int| 0 <= j < head.len() implies !p(#[trigger] head[j]) by {
            assert(head[j] == s[j]);
        }
        head.lemma_all_neg_filter_empty(p);
        assert(rows_with_id(s, user_id) =~= Seq::<MemberView>::empty().push(s[i]));
    } else {
        assert(!p(s[s.len() - 1]));
        assert forall|j: int| 0 <= j < head.len() && j != i implies (#[trigger] head[j]).user_id
            != user_id by {
            assert(head[j] == s[j]);
        }
        lemma_filter_single_index(head, user_id, i);
    }
}

/// Writing the same identity twice leaves exactly one row for it, and that
/// row holds the second write's attributes: the last write wins.
pub proof fn lemma_upsert_user_last_write_wins(v: StorageView, a: MemberView, b: MemberView)
    requires
        v.wf(),
        a.user_id == b.user_id,
    ensures
        ({
            let w = v.spec_upsert_user(a).spec_upsert_user(b);
            &&& w.wf()
            &&& rows_with_id(w.users, b.user_id) =~= seq![b]
        }),
{
    let v1 = v.spec_upsert_user(a);
    if v.has_user(a.user_id) {
        let i = v.user_at(a.user_id);
        assert(0 <= i < v.users.len() && v.users[i].user_id == a.user_id);
        lemma_update_same_id_wf(v, i, a);
        assert(v1.users[i] == a);
        assert(v1.has_user(b.user_id));
        let i2 = v1.user_at(b.user_id);
        assert(v1.users[i2].user_id == b.user_id);
        assert forall|j: int| 0 <= j < v1.users.len() && j != i implies (#[trigger] v1.users[j]).user_id
            != b.user_id by {
            assert(v1.users[j] == v.users[j]);
        }
        assert(i2 == i);
        let w = v1.spec_upsert_user(b);
        lemma_update_same_id_wf(v1, i, b);
        assert(w.users[i] == b);
        assert(forall|j: int|
            0 <= j < w.users.len() && j != i ==> #[trigger] w.users[j] == v1.users[j]);
        lemma_filter_single_index(w.users, b.user_id, i);
    } else {
        let i = v.users.len() as int;
        lemma_push_user_wf(v, a);
        assert(v1.users[i] == a);
        assert(v1.has_user(b.user_id));
        let i2 = v1.user_at(b.user_id);
        assert(v1.users[i2].user_id == b.user_id);
        assert forall|j: int| 0 <= j < v1.users.len() && j != i implies (#[trigger] v1.users[j]).user_id
            != b.user_id by {
            assert(v1.users[j] == v.users[j]);
        }
        assert(i2 == i);
        let w = v1.spec_upsert_user(b);
        lemma_update_same_id_wf(v1, i, b);
        assert(w.users[i] == b);
        assert(forall|j: int|
            0 <= j < w.users.len() && j != i ==> #[trigger] w.users[j] == v1.users[j]);
        lemma_filter_single_index(w.users, b.user_id, i);
    }
}

/// Refreshing a user row in place keeps the store well formed.
proof fn lemma_update_same_id_wf(v: StorageView, i: int, m: MemberView)
    requires
        v.wf(),
        0 <= i < v.users.len(),
        v.users[i].user_id == m.user_id,
    ensures
        (StorageView { users: v.users.update(i, m), ..v }).wf(),
{
    let w = StorageView { users: v.users.update(i, m), ..v };
    assert(forall|k: int|
        0 <= k < w.users.len() ==> (#[trigger] w.users[k]).user_id == v.users[k].user_id);
    assert forall|k: int|
        0 <= k < w.members.len() implies w.has_user(#[trigger] w.members[k].user_id) && w.has_chat(
        w.members[k].chat_id,
    ) by {
        assert(v.has_user(v.members[k].user_id));
        let ju = choose|j: int|
            0 <= j < v.users.len() && #[trigger] v.users[j].user_id == v.members[k].user_id;
        assert(w.users[ju].user_id == w.members[k].user_id);
        assert(v.has_chat(v.members[k].chat_id));
        let jc = choose|j: int|
            0 <= j < v.chats.len() && #[trigger] v.chats[j].chat_id == v.members[k].chat_id;
        assert(w.chats[jc].chat_id == w.members[k].chat_id);
    }
}

/// Appending a user row with a fresh id keeps the store well formed.
proof fn lemma_push_user_wf(v: StorageView, m: MemberView)
    requires
        v.wf(),
        !v.has_user(m.user_id),
    ensures
        (StorageView { users: v.users.push(m), ..v }).wf(),
{
    let w = StorageView { users: v.users.push(m), ..v };
    assert(forall|k: int| 0 <= k < v.users.len() ==> w.users[k] == #[trigger] v.users[k]);
    assert(w.users[v.users.len() as int] == m);
    assert forall|k: int|
        0 <= k < w.members.len() implies w.has_user(#[trigger] w.members[k].user_id) && w.has_chat(
        w.members[k].chat_id,
    ) by {
        assert(v.has_user(v.members[k].user_id));
        let ju = choose|j: int|
            0 <= j < v.users.len() && #[trigger] v.users[j].user_id == v.members[k].user_id;
        assert(w.users[ju].user_id == w.members[k].user_id);
        assert(v.has_chat(v.members[k].chat_id));
        let jc = choose|j: int|
            0 <= j < v.chats.len() && #[trigger] v.chats[j].chat_id == v.members[k].chat_id;
        assert(w.chats[jc].chat_id == w.members[k].chat_id);
    }
}

/// Refreshing a chat row in place keeps the store well formed.
proof fn lemma_update_same_chat_wf(v: StorageView, i: int, c: ChatRowView)
    requires
        v.wf(),
        0 <= i < v.chats.len(),
        v.chats[i].chat_id == c.chat_id,
    ensures
        (StorageView { chats: v.chats.update(i, c), ..v }).wf(),
{
    let w = StorageView { chats: v.chats.update(i, c), ..v };
    assert(forall|k: int|
        0 <= k < w.chats.len() ==> (#[trigger] w.chats[k]).chat_id == v.chats[k].chat_id);
    assert forall|k: int|
        0 <= k < w.members.len() implies w.has_user(#[trigger] w.members[k].user_id) && w.has_chat(
        w.members[k].chat_id,
    ) by {
        assert(v.has_user(v.members[k].user_id));
        let ju = choose|j: int|
            0 <= j < v.users.len() && #[trigger] v.users[j].user_id == v.members[k].user_id;
        assert(w.users[ju].user_id == w.members[k].user_id);
        assert(v.has_chat(v.members[k].chat_id));
        let jc = choose|j: int|
            0 <= j < v.chats.len() && #[trigger] v.chats[j].chat_id == v.members[k].chat_id;
        assert(w.chats[jc].chat_id == w.members[k].chat_id);
    }
}

/// Inserting a chat row at its ordered position keeps the store well formed.
proof fn lemma_insert_chat_wf(v: StorageView, i: int, c: ChatRowView)
    requires
        v.wf(),
        0 <= i <= v.chats.len(),
        forall|j: int| 0 <= j < i ==> #[trigger] v.chats[j].chat_id < c.chat_id,
        forall|j: int| i <= j < v.chats.len() ==> #[trigger] v.chats[j].chat_id > c.chat_id,
    ensures
        (StorageView { chats: v.chats.insert(i, c), ..v }).wf(),
{
    let w = StorageView { chats: v.chats.insert(i, c), ..v };
    v.chats.insert_ensures(i, c);
    assert(forall|k: int| 0 <= k < i ==> w.chats[k] == #[trigger] v.chats[k]);
    assert(w.chats[i] == c);
    assert(forall|k: int| i < k < w.chats.len() ==> #[trigger] w.chats[k] == v.chats[k - 1]);
    assert forall|a: int, b: int|
        0 <= a < b < w.chats.len() implies #[trigger] w.chats[a].chat_id
        < #[trigger] w.chats[b].chat_id by {
        if a < i && b < i {
        } else if a < i && b == i {
        } else if a == i {
            assert(w.chats[b] == v.chats[b - 1]);
        } else if a < i && b > i {
            assert(w.chats[b] == v.chats[b - 1]);
            if a < b - 1 {
            } else {
                assert(a == b - 1 && a >= i);
            }
        }
    }
    assert forall|k: int|
        0 <= k < w.members.len() implies w.has_user(#[trigger] w.members[k].user_id) && w.has_chat(
        w.members[k].chat_id,
    ) by {
        assert(v.has_user(v.members[k].user_id));
        assert(v.has_chat(v.members[k].chat_id));
        let jc = choose|j: int|
            0 <= j < v.chats.len() && #[trigger] v.chats[j].chat_id == v.members[k].chat_id;
        if jc < i {
            assert(w.chats[jc].chat_id == w.members[k].chat_id);
        } else {
            assert(w.chats[jc + 1].chat_id == w.members[k].chat_id);
        }
    }
}

/// Appending a membership pair that is absent keeps the store well formed,
/// provided both referenced rows exist.
proof fn lemma_push_membership_wf(v: StorageView, p: MembershipView)
    requires
        v.wf(),
        !members_contain(v.members, p.chat_id, p.user_id),
        v.has_user(p.user_id),
        v.has_chat(p.chat_id),
    ensures
        (StorageView { members: v.members.push(p), ..v }).wf(),
{
    let w = StorageView { members: v.members.push(p), ..v };
    assert(forall|k: int| 0 <= k < v.members.len() ==> w.members[k] == #[trigger] v.members[k]);
    assert(w.members[v.members.len() as int] == p);
    assert forall|a: int, b: int|
        0 <= a < b < w.members.len() implies #[trigger] w.members[a] != #[trigger] w.members[b] by {
        if b == v.members.len() {
            assert(w.members[a] == v.members[a]);
            if w.members[a] == p {
                assert(members_contain(v.members, p.chat_id, p.user_id));
            }
        }
    }
    assert forall|k: int|
        0 <= k < w.members.len() implies w.has_user(#[trigger] w.members[k].user_id) && w.has_chat(
        w.members[k].chat_id,
    ) by {
        if k < v.members.len() {
            assert(v.has_user(v.members[k].user_id));
            assert(v.has_chat(v.members[k].chat_id));
        } else {
            assert(w.members[k] == p);
        }
    }
}

/// Removing one membership row keeps the store well formed.
proof fn lemma_remove_membership_wf(v: StorageView, i: int)
    requires
        v.wf(),
        0 <= i < v.members.len(),
    ensures
        (StorageView { members: v.members.remove(i), ..v }).wf(),
{
    let w = StorageView { members: v.members.remove(i), ..v };
    v.members.remove_ensures(i);
    assert(forall|k: int| 0 <= k < i ==> w.members[k] == #[trigger] v.members[k]);
    assert(forall|k: int| i <= k < w.members.len() ==> #[trigger] w.members[k] == v.members[k + 1]);
    assert forall|a: int, b: int|
        0 <= a < b < w.members.len() implies #[trigger] w.members[a] != #[trigger] w.members[b] by {
        let oa = if a < i { a } else { a + 1 };
        let ob = if b < i { b } else { b + 1 };
        assert(w.members[a] == v.members[oa]);
        assert(w.members[b] == v.members[ob]);
    }
    assert forall|k: int|
        0 <= k < w.members.len() implies w.has_user(#[trigger] w.members[k].user_id) && w.has_chat(
        w.members[k].chat_id,
    ) by {
        let orig = if k < i {
            k
        } else {
            k + 1
        };
        assert(v.has_user(v.members[orig].user_id));
        assert(v.has_chat(v.members[orig].chat_id));
    }
}

} // verus!
