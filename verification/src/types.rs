//! The data the roster works on: platform users, chats and their kinds, the
//! stored member rows, rows of the deprecated single-table layout, and the
//! standing a live status lookup can report.

use vstd::prelude::*;
use vstd::string::StringExecFns;

verus! {

/// A user as the platform reports it. The identity key is the
/// platform-assigned numeric id, kept as an opaque string so that values
/// beyond native integer ranges survive.
pub struct User {
    pub id: String,
    pub is_bot: bool,
    pub username: Option<String>,
    pub first_name: String,
    pub last_name: Option<String>,
    pub language_code: Option<String>,
    pub is_premium: bool,
    pub added_to_attachment_menu: bool,
}

/// A stored member row: the same attributes under the stored column names.
pub struct Member {
    pub user_id: String,
    pub is_bot: bool,
    pub username: Option<String>,
    pub first_name: String,
    pub last_name: Option<String>,
    pub language: Option<String>,
    pub is_premium: bool,
    pub added_to_attachment_menu: bool,
}

/// A row of the deprecated single-table layout: chat id, user id and a
/// denormalized user snapshot.
pub struct MemberV01 {
    pub chat_id: i64,
    pub user_id: String,
    pub is_bot: bool,
    pub username: Option<String>,
    pub first_name: String,
    pub last_name: Option<String>,
    pub language: Option<String>,
    pub is_premium: bool,
    pub added_to_attachment_menu: bool,
}

/// What kind of chat an event comes from.
#[derive(Clone, Copy, Debug, PartialEq, Eq, Structural)]
pub enum ChatKind {
    Group,
    Supergroup,
    Channel,
    Private,
}

/// A chat as the platform reports it.
pub struct Chat {
    pub id: i64,
    pub kind: ChatKind,
    pub title: Option<String>,
    pub username: Option<String>,
}

/// A user's current standing in a chat, as a live status lookup reports it.
#[derive(Clone, Copy, Debug, PartialEq, Eq, Structural)]
pub enum MemberStatus {
    Owner,
    Administrator,
    Member,
    Left,
    Banned,
    Restricted,
}

/// The mathematical content of a user record or a stored member row.
pub ghost struct MemberView {
    pub user_id: Seq<char>,
    pub is_bot: bool,
    pub username: Option<Seq<char>>,
    pub first_name: Seq<char>,
    pub last_name: Option<Seq<char>>,
    pub language: Option<Seq<char>>,
    pub is_premium: bool,
    pub added_to_attachment_menu: bool,
}

/// The mathematical content of a chat.
pub ghost struct ChatView {
    pub id: int,
    pub kind: ChatKind,
    pub title: Option<Seq<char>>,
    pub username: Option<Seq<char>>,
}

/// The mathematical content of a row of the deprecated layout.
pub ghost struct LegacyMemberView {
    pub chat_id: int,
    pub member: MemberView,
}

pub open spec fn opt_view(o: Option<String>) -> Option<Seq<char>> {
    match o {
        Some(s) => Some(s@),
        None => None,
    }
}

impl View for User {
    type V = MemberView;

    open spec fn view(&self) -> MemberView {
        MemberView {
            user_id: self.id@,
            is_bot: self.is_bot,
            username: opt_view(self.username),
            first_name: self.first_name@,
            last_name: opt_view(self.last_name),
            language: opt_view(self.language_code),
            is_premium: self.is_premium,
            added_to_attachment_menu: self.added_to_attachment_menu,
        }
    }
}

impl DeepView for User {
    type V = MemberView;

    open spec fn deep_view(&self) -> MemberView {
        self.view()
    }
}

impl View for Member {
    type V = MemberView;

    open spec fn view(&self) -> MemberView {
        MemberView {
            user_id: self.user_id@,
            is_bot: self.is_bot,
            username: opt_view(self.username),
            first_name: self.first_name@,
            last_name: opt_view(self.last_name),
            language: opt_view(self.language),
            is_premium: self.is_premium,
            added_to_attachment_menu: self.added_to_attachment_menu,
        }
    }
}

impl DeepView for Member {
    type V = MemberView;

    open spec fn deep_view(&self) -> MemberView {
        self.view()
    }
}

impl View for Chat {
    type V = ChatView;

    open spec fn view(&self) -> ChatView {
        ChatView {
            id: self.id as int,
            kind: self.kind,
            title: opt_view(self.title),
            username: opt_view(self.username),
        }
    }
}

impl DeepView for Chat {
    type V = ChatView;

    open spec fn deep_view(&self) -> ChatView {
        self.view()
    }
}

impl View for MemberV01 {
    type V = LegacyMemberView;

    open spec fn view(&self) -> LegacyMemberView {
        LegacyMemberView {
            chat_id: self.chat_id as int,
            member: MemberView {
                user_id: self.user_id@,
                is_bot: self.is_bot,
                username: opt_view(self.username),
                first_name: self.first_name@,
                last_name: opt_view(self.last_name),
                language: opt_view(self.language),
                is_premium: self.is_premium,
                added_to_attachment_menu: self.added_to_attachment_menu,
            },
        }
    }
}

impl DeepView for MemberV01 {
    type V = LegacyMemberView;

    open spec fn deep_view(&self) -> LegacyMemberView {
        self.view()
    }
}

/// Only a public group-like chat — an ordinary group or a supergroup, not a
/// channel, not a private chat — may hold membership records.
pub open spec fn is_eligible(kind: ChatKind) -> bool {
    kind is Group || kind is Supergroup
}

/// The one eligibility gate every write path goes through.
pub fn eligible_chat(chat: &Chat) -> (r: bool)
    ensures
        r == is_eligible(chat@.kind),
{
    matches!(chat.kind, ChatKind::Group | ChatKind::Supergroup)
}

/// A user's display name: the first name, and the last name after a space
/// where one is known.
pub open spec fn spec_full_name(m: MemberView) -> Seq<char> {
    match m.last_name {
        Some(last) => m.first_name + " "@ + last,
        None => m.first_name,
    }
}

impl Member {
    /// The display name of this member row.
    pub fn full_name(&self) -> (r: String)
        ensures
            r@ == spec_full_name(self@),
    {
        match &self.last_name {
            Some(last) => {
                let mut r = self.first_name.clone();
                r.append(" ");
                r.append(last.as_str());
                r
            },
            None => self.first_name.clone(),
        }
    }
}

impl User {
    /// The display name of this user.
    pub fn full_name(&self) -> (r: String)
        ensures
            r@ == spec_full_name(self@),
    {
        match &self.last_name {
            Some(last) => {
                let mut r = self.first_name.clone();
                r.append(" ");
                r.append(last.as_str());
                r
            },
            None => self.first_name.clone(),
        }
    }

    /// The stored row for this user.
    pub fn to_member(&self) -> (r: Member)
        ensures
            r@ == self@,
    {
        Member {
            user_id: self.id.clone(),
            is_bot: self.is_bot,
            username: self.username.clone(),
            first_name: self.first_name.clone(),
            last_name: self.last_name.clone(),
            language: self.language_code.clone(),
            is_premium: self.is_premium,
            added_to_attachment_menu: self.added_to_attachment_menu,
        }
    }
}

/// An exact copy of an optional string.
pub fn clone_opt_string(o: &Option<String>) -> (r: Option<String>)
    ensures
        r == *o,
{
    match o {
        Some(s) => Some(s.clone()),
        None => None,
    }
}

impl Clone for Member {
    /// An exact copy of the row.
    fn clone(&self) -> (r: Self)
        ensures
            r == *self,
    {
        Member {
            user_id: self.user_id.clone(),
            is_bot: self.is_bot,
            username: clone_opt_string(&self.username),
            first_name: self.first_name.clone(),
            last_name: clone_opt_string(&self.last_name),
            language: clone_opt_string(&self.language),
            is_premium: self.is_premium,
            added_to_attachment_menu: self.added_to_attachment_menu,
        }
    }
}

impl MemberV01 {
    /// The user snapshot this legacy row denormalizes.
    pub fn to_user(&self) -> (u: User)
        ensures
            u@ == self@.member,
    {
        User {
            id: self.user_id.clone(),
            is_bot: self.is_bot,
            username: clone_opt_string(&self.username),
            first_name: self.first_name.clone(),
            last_name: clone_opt_string(&self.last_name),
            language_code: clone_opt_string(&self.language),
            is_premium: self.is_premium,
            added_to_attachment_menu: self.added_to_attachment_menu,
        }
    }
}

impl From<Member> for User {
    fn from(value: Member) -> Self {
        User {
            id: value.user_id,
            is_bot: value.is_bot,
            username: value.username,
            first_name: value.first_name,
            last_name: value.last_name,
            language_code: value.language,
            is_premium: value.is_premium,
            added_to_attachment_menu: value.added_to_attachment_menu,
        }
    }
}

impl vstd::std_specs::convert::FromSpecImpl<Member> for User {
    open spec fn obeys_from_spec() -> bool {
        true
    }

    open spec fn from_spec(value: Member) -> User {
        User {
            id: value.user_id,
            is_bot: value.is_bot,
            username: value.username,
            first_name: value.first_name,
            last_name: value.last_name,
            language_code: value.language,
            is_premium: value.is_premium,
            added_to_attachment_menu: value.added_to_attachment_menu,
        }
    }
}

impl From<MemberV01> for User {
    fn from(value: MemberV01) -> Self {
        User {
            id: value.user_id,
            is_bot: value.is_bot,
            username: value.username,
            first_name: value.first_name,
            last_name: value.last_name,
            language_code: value.language,
            is_premium: value.is_premium,
            added_to_attachment_menu: value.added_to_attachment_menu,
        }
    }
}

impl vstd::std_specs::convert::FromSpecImpl<MemberV01> for User {
    open spec fn obeys_from_spec() -> bool {
        true
    }

    open spec fn from_spec(value: MemberV01) -> User {
        User {
            id: value.user_id,
            is_bot: value.is_bot,
            username: value.username,
            first_name: value.first_name,
            last_name: value.last_name,
            language_code: value.language,
            is_premium: value.is_premium,
            added_to_attachment_menu: value.added_to_attachment_menu,
        }
    }
}

} // verus!
