//! The broadcast paginator on concrete member lists.

use tgpingbot::paginate::{batch_mentions, mention_of, ping_messages};
use tgpingbot::types::{Member, User};

fn member(id: &str, first: &str, username: Option<&str>) -> Member {
    Member {
        user_id: id.to_string(),
        is_bot: false,
        username: username.map(|s| s.to_string()),
        first_name: first.to_string(),
        last_name: None,
        language: None,
        is_premium: false,
        added_to_attachment_menu: false,
    }
}

fn invoker(id: &str, first: &str, username: Option<&str>) -> User {
    User {
        id: id.to_string(),
        is_bot: false,
        username: username.map(|s| s.to_string()),
        first_name: first.to_string(),
        last_name: None,
        language_code: None,
        is_premium: false,
        added_to_attachment_menu: false,
    }
}

#[test]
fn ping_excludes_self_and_links_member_without_username() {
    let members = vec![member("1", "Alice", Some("alice")), member("2", "Bob", None)];
    let inv = invoker("1", "Alice", Some("alice"));
    let msgs = ping_messages(&members, Some(&inv));
    assert_eq!(msgs.len(), 1);
    assert_eq!(msgs[0], "@alice \u{432}\u{44b}\u{437}\u{44b}\u{432}\u{430}\u{435}\u{442}\\!\n\n [Bob](tg://user?id=2)");
}

#[test]
fn ping_with_nobody_left_says_so() {
    let members = vec![member("1", "Alice", Some("alice"))];
    let inv = invoker("1", "Alice", Some("alice"));
    let msgs = ping_messages(&members, Some(&inv));
    assert_eq!(msgs, vec!["\u{422}\u{443}\u{442} \u{43d}\u{435}\u{442} \u{43d}\u{438}\u{43a}\u{43e}\u{433}\u{43e}, \u{43a}\u{440}\u{43e}\u{43c}\u{435} \u{43d}\u{430}\u{441}".to_string()]);
    let none_at_all = ping_messages(&Vec::new(), None);
    assert_eq!(none_at_all, vec!["\u{422}\u{443}\u{442} \u{43d}\u{435}\u{442} \u{43d}\u{438}\u{43a}\u{43e}\u{433}\u{43e}, \u{43a}\u{440}\u{43e}\u{43c}\u{435} \u{43d}\u{430}\u{441}".to_string()]);
}

#[test]
fn exactly_forty_members_fit_one_batch() {
    let members: Vec<Member> = (0..40).map(|i| member(&i.to_string(), "U", None)).collect();
    let batches = batch_mentions(&members, None);
    assert_eq!(batches.len(), 1);
    assert_eq!(batches[0].len(), 40);
}

#[test]
fn forty_one_members_need_two_batches_in_order() {
    let members: Vec<Member> = (0..41).map(|i| member(&i.to_string(), "U", None)).collect();
    let batches = batch_mentions(&members, None);
    assert_eq!(batches.len(), 2);
    assert_eq!(batches[0].len(), 40);
    assert_eq!(batches[1].len(), 1);
    let flat: Vec<String> = batches.iter().flatten().map(|m| m.user_id.clone()).collect();
    let expect: Vec<String> = (0..41).map(|i| i.to_string()).collect();
    assert_eq!(flat, expect);
}

#[test]
fn invoker_is_removed_from_the_flattened_batches() {
    let members: Vec<Member> = (0..90).map(|i| member(&i.to_string(), "U", None)).collect();
    let inv_id = "45".to_string();
    let batches = batch_mentions(&members, Some(&inv_id));
    let flat: Vec<String> = batches.iter().flatten().map(|m| m.user_id.clone()).collect();
    assert_eq!(flat.len(), 89);
    assert!(!flat.contains(&inv_id));
    assert_eq!(batches.len(), 3);
    assert_eq!(batches[0].len(), 40);
    assert_eq!(batches[1].len(), 40);
    assert_eq!(batches[2].len(), 9);
}

#[test]
fn mentions_escape_reserved_characters() {
    let with_username = member("3", "X", Some("a_b.c"));
    assert_eq!(mention_of(&with_username), "@a\\_b\\.c");
    let mut with_parens = member("4", "Bob (admin)", None);
    with_parens.last_name = Some("Z.".to_string());
    assert_eq!(
        mention_of(&with_parens),
        "[Bob \\(admin\\) Z\\.](tg://user?id=4)"
    );
}

#[test]
fn escape_matches_the_real_escaper() {
    let raw = "_*[]()~`>#+-=|{}.!\\ plain";
    let m = member("9", raw, None);
    let rendered = mention_of(&m);
    let expected = format!(
        "[{}](tg://user?id=9)",
        teloxide::utils::markdown::escape(raw)
    );
    assert_eq!(rendered, expected);
}
