//! Command recognition, authorization and response rendering.

use tgpingbot::commands::{
    add_user_response, admin_help_response, count_response, counts_response, id_response,
    invalid_chat_id_response, invalid_user_id_response, migrate_done_response,
    migrate_unknown_response, migration_supported, parse_add_user_args, parse_admin_command,
    parse_public_command, public_help_response, route_message, AddUserArgs, Command, Route,
    UnauthorizedCommand, DESC_ADM, DESC_PUB, GIT,
};
use tgpingbot::store::Storage;
use tgpingbot::text::{parse_i64, parse_u64};

#[test]
fn admin_commands_parse_with_arguments() {
    match parse_admin_command("/add_user 123 456", "mybot") {
        Some(Command::AddUser(a, b)) => {
            assert_eq!(a, "123");
            assert_eq!(b, "456");
        },
        other => panic!("unexpected parse: {:?}", other.is_some()),
    }
    match parse_admin_command("/migrate_from 0.1", "mybot") {
        Some(Command::MigrateFrom(v)) => assert_eq!(v, "0.1"),
        _ => panic!("migrate_from did not parse"),
    }
    match parse_admin_command("/migrate_from", "mybot") {
        Some(Command::MigrateFrom(v)) => assert_eq!(v, ""),
        _ => panic!("bare migrate_from did not parse"),
    }
    assert!(matches!(parse_admin_command("/counts", "mybot"), Some(Command::Counts)));
    assert!(matches!(parse_admin_command("/help", "mybot"), Some(Command::Help)));
}

#[test]
fn add_user_needs_exactly_two_arguments() {
    assert!(parse_admin_command("/add_user 1", "mybot").is_none());
    assert!(parse_admin_command("/add_user", "mybot").is_none());
    assert!(parse_admin_command("/add_user 1 2 3", "mybot").is_none());
}

#[test]
fn bot_name_suffix_is_checked_case_insensitively() {
    assert!(matches!(
        parse_admin_command("/counts@MyBot", "mybot"),
        Some(Command::Counts)
    ));
    assert!(parse_admin_command("/counts@otherbot", "mybot").is_none());
    assert!(matches!(
        parse_public_command("/ping@MYBOT extra words", "mybot"),
        Some(UnauthorizedCommand::Ping)
    ));
    assert!(parse_public_command("/ping@elsewhere", "mybot").is_none());
}

#[test]
fn public_commands_parse_and_ignore_arguments() {
    assert!(matches!(parse_public_command("/id", "b"), Some(UnauthorizedCommand::Id)));
    assert!(matches!(parse_public_command("/ping", "b"), Some(UnauthorizedCommand::Ping)));
    assert!(matches!(parse_public_command("/count now", "b"), Some(UnauthorizedCommand::Count)));
    assert!(matches!(parse_public_command("/help me", "b"), Some(UnauthorizedCommand::Help)));
    assert!(parse_public_command("/unknown", "b").is_none());
    assert!(parse_public_command("hello there", "b").is_none());
}

#[test]
fn restricted_commands_fall_through_outside_the_admin_chat() {
    let r = route_message("/counts", 5, Some(99), "mybot");
    assert!(matches!(r, Route::Message));
    let r = route_message("/counts", 99, Some(99), "mybot");
    assert!(matches!(r, Route::Admin(Command::Counts)));
    let r = route_message("/counts", 5, None, "mybot");
    assert!(matches!(r, Route::Message));
    let r = route_message("/id", 5, Some(99), "mybot");
    assert!(matches!(r, Route::Public(UnauthorizedCommand::Id)));
    let r = route_message("/id", 99, Some(99), "mybot");
    assert!(matches!(r, Route::Public(UnauthorizedCommand::Id)));
}

#[test]
fn non_numeric_chat_id_is_rejected_without_store_writes() {
    let mut s = Storage::new();
    let args = parse_add_user_args("abc", "123");
    assert!(matches!(args, AddUserArgs::BadChatId));
    let reply = match args {
        AddUserArgs::Valid(chat_id, _user_id) => {
            s.add_membership(chat_id, &"123".to_string());
            String::new()
        },
        AddUserArgs::BadChatId => invalid_chat_id_response(),
        AddUserArgs::BadUserId => invalid_user_id_response(),
    };
    assert_eq!(reply, "\u{41d}\u{435}\u{43f}\u{440}\u{430}\u{432}\u{438}\u{43b}\u{44c}\u{43d}\u{44b}\u{439} id \u{447}\u{430}\u{442}\u{430}");
    assert_eq!(s.member_count(0), 0);
    assert!(s.members_of(0).is_empty());
    assert!(s.chats_with_counts().is_empty());
}

#[test]
fn non_numeric_user_id_is_rejected() {
    assert!(matches!(parse_add_user_args("10", "x1"), AddUserArgs::BadUserId));
    assert_eq!(invalid_user_id_response(), "\u{41d}\u{435}\u{43f}\u{440}\u{430}\u{432}\u{438}\u{43b}\u{44c}\u{43d}\u{44b}\u{439} id \u{43f}\u{43e}\u{43b}\u{44c}\u{437}\u{43e}\u{432}\u{430}\u{442}\u{435}\u{43b}\u{44f}");
    assert!(matches!(parse_add_user_args("-100", "12"), AddUserArgs::Valid(-100, 12)));
    assert!(matches!(parse_add_user_args("+7", "+8"), AddUserArgs::Valid(7, 8)));
}

#[test]
fn unknown_migration_version_is_refused_and_store_untouched() {
    let mut s = Storage::new();
    let version = "9.9";
    assert!(!migration_supported(version));
    assert!(migration_supported("0.1"));
    let reply = if migration_supported(version) {
        s.add_membership(1, &"1".to_string());
        String::new()
    } else {
        migrate_unknown_response(version)
    };
    assert_eq!(reply, "\u{41d}\u{435}\u{442} \u{43c}\u{438}\u{433}\u{440}\u{430}\u{446}\u{438}\u{438} \u{441} \u{432}\u{435}\u{440}\u{441}\u{438}\u{438} `9\\.9`");
    assert!(s.chats_with_counts().is_empty());
    assert_eq!(s.member_count(1), 0);
}

#[test]
fn numeric_responses_render_exactly() {
    assert_eq!(id_response(-1001234), "`-1001234`");
    assert_eq!(id_response(0), "`0`");
    assert_eq!(id_response(i64::MIN), format!("`{}`", i64::MIN));
    assert_eq!(count_response(5), "\u{412} \u{44d}\u{442}\u{43e}\u{43c} \u{447}\u{430}\u{442}\u{435} \u{43f}\u{438}\u{43d}\u{433}\u{443}\u{44e} `5` \u{43f}\u{43e}\u{43b}\u{44c}\u{437}\u{43e}\u{432}\u{430}\u{442}\u{435}\u{43b}\u{435}\u{439}");
    assert_eq!(migrate_done_response(3), "\u{423}\u{441}\u{43f}\u{435}\u{448}\u{43d}\u{43e} \u{43c}\u{438}\u{433}\u{440}\u{438}\u{440}\u{43e}\u{432}\u{430}\u{43d}\u{43e} 3 \u{43f}\u{43e}\u{43b}\u{44c}\u{437}\u{43e}\u{432}\u{430}\u{442}\u{435}\u{43b}\u{435}\u{439}");
    assert_eq!(add_user_response(true), "\u{41f}\u{43e}\u{43b}\u{44c}\u{437}\u{43e}\u{432}\u{430}\u{442}\u{435}\u{43b}\u{44c} \u{435}\u{441}\u{442}\u{44c} \u{432} \u{447}\u{430}\u{442}\u{435}");
}

#[test]
fn counts_table_renders_titles_and_id_fallback() {
    let rows: Vec<(i64, String, u64)> = vec![
        (-100400, "Main chat".to_string(), 2),
        (-100500, "-100500".to_string(), 1),
    ];
    let out = counts_response(&rows);
    assert_eq!(out, "\u{42e}\u{437}\u{435}\u{440}\u{43e}\u{432} \u{43f}\u{43e} \u{432}\u{441}\u{435}\u{43c} \u{447}\u{430}\u{442}\u{430}\u{43c}:\n\n`Main chat`: `2`\n\n`\\-100500`: `1`\n\n");
}

#[test]
fn help_texts_match_the_real_escaper() {
    let escape = teloxide::utils::markdown::escape;
    assert_eq!(
        public_help_response(),
        format!("{}\n\n[{}](https://{})", escape(DESC_PUB), escape(GIT), escape(GIT))
    );
    assert_eq!(
        admin_help_response(),
        format!(
            "{}\n\n{}\n\n[{}](https://{})",
            escape(DESC_ADM),
            escape(DESC_PUB),
            escape(GIT),
            escape(GIT)
        )
    );
}

#[test]
fn integer_parsing_matches_std() {
    for s in ["0", "+5", "18446744073709551615", "123abc", "", "-1", " 7", "99999999999999999999"] {
        assert_eq!(parse_u64(s), s.parse::<u64>().ok(), "u64 {:?}", s);
    }
    for s in [
        "0", "+5", "-9223372036854775808", "9223372036854775807", "9223372036854775808",
        "-9223372036854775809", "abc", "", "-", "+", "7.5",
    ] {
        assert_eq!(parse_i64(s), s.parse::<i64>().ok(), "i64 {:?}", s);
    }
}

#[test]
fn counts_line_escapes_reserved_title_characters() {
    let rows: Vec<(i64, String, u64)> = vec![(7, "a.b".to_string(), 4)];
    let out = counts_response(&rows);
    assert!(out.contains("`a\\.b`: `4`"));
}
