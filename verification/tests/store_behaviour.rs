//! Behaviour of the roster store and the reconciler on concrete scenarios.

use tgpingbot::reconcile::{check_member, handle_event, status_action, ChatEvent, MembershipAction};
use tgpingbot::store::Storage;
use tgpingbot::types::{Chat, ChatKind, MemberStatus, MemberV01, User};

fn user(id: &str, first: &str, username: Option<&str>, is_bot: bool) -> User {
    User {
        id: id.to_string(),
        is_bot,
        username: username.map(|s| s.to_string()),
        first_name: first.to_string(),
        last_name: None,
        language_code: None,
        is_premium: false,
        added_to_attachment_menu: false,
    }
}

fn group_chat(id: i64, title: &str) -> Chat {
    Chat { id, kind: ChatKind::Supergroup, title: Some(title.to_string()), username: None }
}

#[test]
fn add_then_remove_excludes_user_even_after_repeats() {
    let mut s = Storage::new();
    let chat = group_chat(1, "c");
    let u = user("7", "Ann", None, false);
    assert!(s.new_member(&chat, &u));
    assert!(!s.new_member(&chat, &u));
    assert!(!s.add_membership(1, &"7".to_string()));
    assert!(s.remove_membership(1, &"7".to_string()));
    assert!(s.members_of(1).is_empty());
    assert!(!s.remove_membership(1, &"7".to_string()));
    assert_eq!(s.member_count(1), 0);
}

#[test]
fn ineligible_chats_never_gain_members() {
    let mut s = Storage::new();
    let channel = Chat { id: 5, kind: ChatKind::Channel, title: None, username: None };
    let private = Chat { id: 6, kind: ChatKind::Private, title: None, username: None };
    let u = user("9", "Eve", None, false);
    assert!(!s.new_member(&channel, &u));
    handle_event(&mut s, &private, &ChatEvent::Joined { user: user("10", "Al", None, false) });
    handle_event(&mut s, &channel, &ChatEvent::Mention {
        user: user("11", "Jo", None, false),
        status: MemberStatus::Member,
    });
    assert!(s.members_of(5).is_empty());
    assert!(s.members_of(6).is_empty());
    assert_eq!(s.member_count(5), 0);
    assert_eq!(s.member_count(6), 0);
}

#[test]
fn upsert_same_user_twice_keeps_second_last_name() {
    let mut s = Storage::new();
    let chat = group_chat(3, "t");
    let mut u = user("42", "Kim", None, false);
    u.last_name = Some("First".to_string());
    s.new_member(&chat, &u);
    u.last_name = Some("Second".to_string());
    s.new_member(&chat, &u);
    let rows = s.members_of(3);
    assert_eq!(rows.len(), 1);
    assert_eq!(rows[0].last_name.as_deref(), Some("Second"));
    assert_eq!(rows[0].full_name(), "Kim Second");
}

#[test]
fn left_status_removes_membership_and_count_drops_by_one() {
    let mut s = Storage::new();
    let chat = group_chat(100, "main");
    let a = user("1", "Ann", None, false);
    let b = user("2", "Bob", None, false);
    s.new_member(&chat, &a);
    s.new_member(&chat, &b);
    assert_eq!(s.member_count(100), 2);
    let _ = b;
    handle_event(&mut s, &chat, &ChatEvent::Mention {
        user: user("2", "Bob", None, false),
        status: MemberStatus::Left,
    });
    assert_eq!(s.member_count(100), 1);
    let rows = s.members_of(100);
    assert_eq!(rows.len(), 1);
    assert_eq!(rows[0].user_id, "1");
}

#[test]
fn restricted_status_is_a_no_op() {
    let mut s = Storage::new();
    let chat = group_chat(8, "g");
    let u = user("70", "Pat", None, false);
    let in_chat = check_member(&mut s, &chat, &u, &MemberStatus::Restricted);
    assert!(!in_chat);
    assert_eq!(s.member_count(8), 0);
    assert!(matches!(status_action(&MemberStatus::Restricted), MembershipAction::Ignore));
}

#[test]
fn check_member_adds_owner_and_removes_banned() {
    let mut s = Storage::new();
    let chat = group_chat(9, "g");
    let u = user("71", "Lee", None, false);
    assert!(check_member(&mut s, &chat, &u, &MemberStatus::Owner));
    assert_eq!(s.member_count(9), 1);
    assert!(!check_member(&mut s, &chat, &u, &MemberStatus::Banned));
    assert_eq!(s.member_count(9), 0);
}

#[test]
fn check_member_skips_ineligible_chat_entirely() {
    let mut s = Storage::new();
    let channel = Chat { id: 12, kind: ChatKind::Channel, title: None, username: None };
    let u = user("80", "Max", None, false);
    assert!(!check_member(&mut s, &channel, &u, &MemberStatus::Member));
    assert_eq!(s.member_count(12), 0);
}

#[test]
fn bots_are_not_counted_or_listed() {
    let mut s = Storage::new();
    let chat = group_chat(4, "g");
    s.new_member(&chat, &user("20", "Robo", None, true));
    s.new_member(&chat, &user("21", "Hum", None, false));
    assert_eq!(s.member_count(4), 1);
    let rows = s.members_of(4);
    assert_eq!(rows.len(), 1);
    assert_eq!(rows[0].user_id, "21");
}

#[test]
fn chats_with_counts_ordered_by_chat_id_and_skips_empty() {
    let mut s = Storage::new();
    let c_high = Chat { id: 50, kind: ChatKind::Supergroup, title: None, username: None };
    let c_low = group_chat(-7, "low");
    let c_empty = group_chat(10, "empty");
    s.new_member(&c_high, &user("1", "A", None, false));
    s.new_member(&c_low, &user("2", "B", None, false));
    s.new_member(&c_low, &user("3", "C", None, false));
    s.upsert_chat(&c_empty);
    let rows = s.chats_with_counts();
    assert_eq!(rows.len(), 2);
    assert_eq!(rows[0].0, -7);
    assert_eq!(rows[0].1, "low");
    assert_eq!(rows[0].2, 2);
    assert_eq!(rows[1].0, 50);
    assert_eq!(rows[1].1, "50");
    assert_eq!(rows[1].2, 1);
}

#[test]
fn legacy_import_exposes_rows_as_facts() {
    let rows = vec![MemberV01 {
        chat_id: -100,
        user_id: "55".to_string(),
        is_bot: false,
        username: Some("old".to_string()),
        first_name: "Old".to_string(),
        last_name: Some("Row".to_string()),
        language: None,
        is_premium: false,
        added_to_attachment_menu: false,
    }];
    let facts = Storage::legacy_import(&rows);
    assert_eq!(facts.len(), 1);
    assert_eq!(facts[0].0, -100);
    assert_eq!(facts[0].1.id, "55");
    assert_eq!(facts[0].1.full_name(), "Old Row");
    let from_user: User = User::from(rows.into_iter().next().unwrap());
    assert_eq!(from_user.id, "55");
}
