//! The command authorizer: recognizes the bot's text commands, gates the
//! restricted set on the configured administrator chat, and renders every
//! user-facing response.
//!
//! A command line is the first word of the message: a slash, the command
//! name, and optionally `@` and a bot name, compared case-insensitively.
//! What follows the first space is the argument text. A restricted command
//! outside the administrator chat is treated exactly like no command at
//! all, so unauthorized chats cannot probe which commands exist.

use vstd::prelude::*;
use vstd::string::StringExecFns;
use crate::text::str_chars;

verus! {

/// Uppercase ASCII mapped to lowercase; anything else unchanged.
pub open spec fn spec_ascii_lower(c: char) -> char {
    if c == 'A' { 'a' } else if c == 'B' { 'b' } else if c == 'C' { 'c' }
    else if c == 'D' { 'd' } else if c == 'E' { 'e' } else if c == 'F' { 'f' }
    else if c == 'G' { 'g' } else if c == 'H' { 'h' } else if c == 'I' { 'i' }
    else if c == 'J' { 'j' } else if c == 'K' { 'k' } else if c == 'L' { 'l' }
    else if c == 'M' { 'm' } else if c == 'N' { 'n' } else if c == 'O' { 'o' }
    else if c == 'P' { 'p' } else if c == 'Q' { 'q' } else if c == 'R' { 'r' }
    else if c == 'S' { 's' } else if c == 'T' { 't' } else if c == 'U' { 'u' }
    else if c == 'V' { 'v' } else if c == 'W' { 'w' } else if c == 'X' { 'x' }
    else if c == 'Y' { 'y' } else if c == 'Z' { 'z' } else { c }
}

fn ascii_lower(c: char) -> (r: char)
    ensures
        r == spec_ascii_lower(c),
{
    match c {
        'A' => 'a', 'B' => 'b', 'C' => 'c', 'D' => 'd', 'E' => 'e', 'F' => 'f',
        'G' => 'g', 'H' => 'h', 'I' => 'i', 'J' => 'j', 'K' => 'k', 'L' => 'l',
        'M' => 'm', 'N' => 'n', 'O' => 'o', 'P' => 'p', 'Q' => 'q', 'R' => 'r',
        'S' => 's', 'T' => 't', 'U' => 'u', 'V' => 'v', 'W' => 'w', 'X' => 'x',
        'Y' => 'y', 'Z' => 'z', _ => c,
    }
}

/// Equality up to ASCII case, as the platform compares bot names.
pub open spec fn eq_ignore_ascii(a: Seq<char>, b: Seq<char>) -> bool {
    a.len() == b.len() && forall|i: int|
        0 <= i < a.len() ==> spec_ascii_lower(#[trigger] a[i]) == spec_ascii_lower(b[i])
}

/// The index of the first occurrence of a character, or the length where
/// there is none.
pub open spec fn first_pos(s: Seq<char>, c: char) -> int
    decreases s.len(),
{
    if s.len() == 0 {
        0
    } else if s[0] == c {
        0
    } else {
        1 + first_pos(s.drop_first(), c)
    }
}

proof fn lemma_first_pos_at(s: Seq<char>, c: char, i: int)
    requires
        0 <= i <= s.len(),
        forall|j: int| 0 <= j < i ==> s[j] != c,
        i < s.len() ==> s[i] == c,
    ensures
        first_pos(s, c) == i,
    decreases i,
{
    if s.len() == 0 {
    } else if i == 0 {
    } else {
        assert(s[0] != c);
        let rest = s.drop_first();
        assert(forall|j: int| 0 <= j < i - 1 ==> rest[j] == #[trigger] s[j + 1]);
        lemma_first_pos_at(rest, c, i - 1);
    }
}

/// The first occurrence of the character between the two positions, or the
/// upper bound where there is none.
fn find_char(v: &Vec<char>, start: usize, end: usize, c: char) -> (p: usize)
    requires
        start <= end <= v@.len(),
    ensures
        start <= p <= end,
        forall|j: int| start <= j < p ==> v@[j] != c,
        p < end ==> v@[p as int] == c,
{
    let mut p: usize = start;
    while p < end
        invariant
            start <= p <= end <= v@.len(),
            forall|j: int| start <= j < p ==> v@[j] != c,
        decreases end - p,
    {
        if v[p] == c {
            return p;
        }
        p = p + 1;
    }
    p
}

/// The string holding the characters between the two positions.
fn string_range(v: &Vec<char>, start: usize, end: usize) -> (r: String)
    requires
        start <= end <= v@.len(),
    ensures
        r@ == v@.subrange(start as int, end as int),
{
    let mut r = String::new();
    let mut j: usize = start;
    while j < end
        invariant
            start <= j <= end <= v@.len(),
            r@ == v@.subrange(start as int, j as int),
        decreases end - j,
    {
        crate::text::push_char(&mut r, v[j]);
        proof {
            assert(v@.subrange(start as int, j + 1) =~= v@.subrange(start as int, j as int).push(
                v@[j as int],
            ));
        }
        j = j + 1;
    }
    r
}

/// Whether the characters between the two positions equal the name, up to
/// ASCII case.
fn eq_range_ignore_case(v: &Vec<char>, start: usize, end: usize, name: &str) -> (r: bool)
    requires
        start <= end <= v@.len(),
    ensures
        r == eq_ignore_ascii(v@.subrange(start as int, end as int), name@),
{
    let ghost sub = v@.subrange(start as int, end as int);
    let nv = str_chars(name);
    if end - start != nv.len() {
        return false;
    }
    let mut j: usize = 0;
    while j < nv.len()
        invariant
            0 <= j <= nv@.len(),
            start <= end <= v@.len(),
            nv@ == name@,
            sub == v@.subrange(start as int, end as int),
            sub.len() == nv@.len(),
            start + nv@.len() == end,
            forall|i: int|
                0 <= i < j ==> spec_ascii_lower(#[trigger] sub[i]) == spec_ascii_lower(name@[i]),
        decreases nv@.len() - j,
    {
        let a = ascii_lower(v[start + j]);
        let b = ascii_lower(nv[j]);
        if a != b {
            proof {
                assert(sub[j as int] == v@[start + j]);
            }
            return false;
        }
        proof {
            assert(sub[j as int] == v@[start + j]);
        }
        j = j + 1;
    }
    true
}

/// A restricted command, accepted only from the administrator chat.
#[derive(Debug)]
pub enum Command {
    /// Manual membership grant or check: a chat id and a user id.
    AddUser(String, String),
    /// One-shot import from the deprecated layout of the named version.
    MigrateFrom(String),
    /// The per-chat member table.
    Counts,
    /// The command listing.
    Help,
}

/// A public command, accepted from any chat.
#[derive(Clone, Copy, Debug, PartialEq, Eq, Structural)]
pub enum UnauthorizedCommand {
    /// Echo the current chat identity.
    Id,
    /// Broadcast a mention of every known member.
    Ping,
    /// How many users a ping would reach.
    Count,
    /// The command listing.
    Help,
}

/// The mathematical content of a restricted command.
pub ghost enum CommandView {
    AddUser(Seq<char>, Seq<char>),
    MigrateFrom(Seq<char>),
    Counts,
    Help,
}

impl View for Command {
    type V = CommandView;

    open spec fn view(&self) -> CommandView {
        match self {
            Command::AddUser(a, b) => CommandView::AddUser(a@, b@),
            Command::MigrateFrom(s) => CommandView::MigrateFrom(s@),
            Command::Counts => CommandView::Counts,
            Command::Help => CommandView::Help,
        }
    }
}

pub open spec fn opt_command_view(o: Option<Command>) -> Option<CommandView> {
    match o {
        Some(c) => Some(c@),
        None => None,
    }
}

/// The command word of a message: from the start to the first `@` or space.
pub open spec fn spec_cmd_of(t: Seq<char>) -> Seq<char> {
    let head = t.take(first_pos(t, ' '));
    head.take(first_pos(head, '@'))
}

/// The argument text of a message: everything after the first space.
pub open spec fn spec_args_of(t: Seq<char>) -> Seq<char> {
    let p = first_pos(t, ' ');
    if p < t.len() {
        t.skip(p + 1)
    } else {
        Seq::<char>::empty()
    }
}

/// Whether the command word addresses this bot: no `@` part, or one whose
/// name matches up to ASCII case.
pub open spec fn spec_bot_ok(t: Seq<char>, bot: Seq<char>) -> bool {
    let head = t.take(first_pos(t, ' '));
    let q = first_pos(head, '@');
    if q < head.len() {
        let rest = head.skip(q + 1);
        eq_ignore_ascii(rest.take(first_pos(rest, '@')), bot)
    } else {
        true
    }
}

/// The two whitespace-separated arguments of a command that takes exactly
/// two; nothing where there are fewer or more.
pub open spec fn spec_two_args(args: Seq<char>) -> Option<(Seq<char>, Seq<char>)> {
    let p1 = first_pos(args, ' ');
    if p1 == args.len() {
        None
    } else {
        let rest = args.skip(p1 + 1);
        if first_pos(rest, ' ') < rest.len() {
            None
        } else {
            Some((args.take(p1), rest))
        }
    }
}

/// How a message parses as a restricted command.
pub open spec fn spec_parse_admin(t: Seq<char>, bot: Seq<char>) -> Option<CommandView> {
    if !spec_bot_ok(t, bot) {
        None
    } else {
        let cmd = spec_cmd_of(t);
        let args = spec_args_of(t);
        if cmd == "/add_user"@ {
            match spec_two_args(args) {
                Some((a, b)) => Some(CommandView::AddUser(a, b)),
                None => None,
            }
        } else if cmd == "/migrate_from"@ {
            Some(CommandView::MigrateFrom(args))
        } else if cmd == "/counts"@ {
            Some(CommandView::Counts)
        } else if cmd == "/help"@ {
            Some(CommandView::Help)
        } else {
            None
        }
    }
}

/// How a message parses as a public command; argument text is ignored, as
/// these commands take none.
pub open spec fn spec_parse_public(t: Seq<char>, bot: Seq<char>) -> Option<UnauthorizedCommand> {
    if !spec_bot_ok(t, bot) {
        None
    } else {
        let cmd = spec_cmd_of(t);
        if cmd == "/id"@ {
            Some(UnauthorizedCommand::Id)
        } else if cmd == "/ping"@ {
            Some(UnauthorizedCommand::Ping)
        } else if cmd == "/count"@ {
            Some(UnauthorizedCommand::Count)
        } else if cmd == "/help"@ {
            Some(UnauthorizedCommand::Help)
        } else {
            None
        }
    }
}

/// Whether a string equals the literal.
fn str_lit_eq(s: &String, lit: &str) -> (r: bool)
    ensures
        r == (s@ == lit@),
{
    let other = String::from_str(lit);
    s.eq(&other)
}

/// The command word and where the argument text starts; nothing where the
/// command word addresses another bot.
fn split_command(v: &Vec<char>, bot_name: &str) -> (r: Option<(String, usize)>)
    ensures
        r is None <==> !spec_bot_ok(v@, bot_name@),
        match r {
            Some((cmd, a)) => cmd@ == spec_cmd_of(v@) && a <= v@.len() && spec_args_of(v@)
                == v@.subrange(a as int, v@.len() as int),
            None => true,
        },
{
    let n = v.len();
    let p = find_char(v, 0, n, ' ');
    proof {
        lemma_first_pos_at(v@, ' ', p as int);
        assert(v@.take(p as int) =~= v@.subrange(0, p as int));
    }
    let ghost head = v@.take(p as int);
    let q = find_char(v, 0, p, '@');
    proof {
        assert(forall|j: int| 0 <= j < q ==> head[j] == #[trigger] v@[j]);
        assert(q < p ==> head[q as int] == v@[q as int]);
        lemma_first_pos_at(head, '@', q as int);
    }
    if q < p {
        let r2 = find_char(v, q + 1, p, '@');
        let ghost rest = head.skip(q + 1);
        proof {
            assert(forall|j: int|
                0 <= j < rest.len() ==> rest[j] == #[trigger] v@[j + q + 1]);
            lemma_first_pos_at(rest, '@', r2 - (q + 1));
            assert(rest.take(r2 - (q + 1)) =~= v@.subrange(q + 1, r2 as int));
        }
        let okname = eq_range_ignore_case(v, q + 1, r2, bot_name);
        if !okname {
            return None;
        }
    }
    let cmd = string_range(v, 0, q);
    proof {
        assert(v@.subrange(0, q as int) =~= spec_cmd_of(v@));
    }
    let args_start = if p < n {
        p + 1
    } else {
        n
    };
    proof {
        if p < n {
            assert(v@.skip(p + 1) =~= v@.subrange(p + 1, n as int));
        } else {
            assert(Seq::<char>::empty() =~= v@.subrange(n as int, n as int));
        }
    }
    Some((cmd, args_start))
}

/// Parses a message as a restricted command.
pub fn parse_admin_command(text: &str, bot_name: &str) -> (r: Option<Command>)
    ensures
        opt_command_view(r) == spec_parse_admin(text@, bot_name@),
{
    let v = str_chars(text);
    let n = v.len();
    match split_command(&v, bot_name) {
        None => None,
        Some((cmd, args_start)) => {
            let ghost args = spec_args_of(v@);
            if str_lit_eq(&cmd, "/add_user") {
                let s1 = find_char(&v, args_start, n, ' ');
                proof {
                    assert(forall|j: int|
                        0 <= j < args.len() ==> args[j] == #[trigger] v@[j + args_start]);
                    lemma_first_pos_at(args, ' ', s1 - args_start);
                }
                if s1 == n {
                    proof {
                        assert(first_pos(args, ' ') == args.len());
                    }
                    return None;
                }
                let s2 = find_char(&v, s1 + 1, n, ' ');
                let ghost rest = args.skip(s1 - args_start + 1);
                proof {
                    assert(forall|j: int|
                        0 <= j < rest.len() ==> rest[j] == #[trigger] v@[j + s1 + 1]);
                    lemma_first_pos_at(rest, ' ', s2 - (s1 + 1));
                }
                if s2 < n {
                    return None;
                }
                let a = string_range(&v, args_start, s1);
                let b = string_range(&v, s1 + 1, n);
                proof {
                    assert(a@ =~= args.take(s1 - args_start));
                    assert(b@ =~= rest);
                }
                Some(Command::AddUser(a, b))
            } else if str_lit_eq(&cmd, "/migrate_from") {
                let s = string_range(&v, args_start, n);
                Some(Command::MigrateFrom(s))
            } else if str_lit_eq(&cmd, "/counts") {
                Some(Command::Counts)
            } else if str_lit_eq(&cmd, "/help") {
                Some(Command::Help)
            } else {
                None
            }
        },
    }
}

/// Parses a message as a public command.
pub fn parse_public_command(text: &str, bot_name: &str) -> (r: Option<UnauthorizedCommand>)
    ensures
        r == spec_parse_public(text@, bot_name@),
{
    let v = str_chars(text);
    match split_command(&v, bot_name) {
        None => None,
        Some((cmd, _args_start)) => {
            if str_lit_eq(&cmd, "/id") {
                Some(UnauthorizedCommand::Id)
            } else if str_lit_eq(&cmd, "/ping") {
                Some(UnauthorizedCommand::Ping)
            } else if str_lit_eq(&cmd, "/count") {
                Some(UnauthorizedCommand::Count)
            } else if str_lit_eq(&cmd, "/help") {
                Some(UnauthorizedCommand::Help)
            } else {
                None
            }
        },
    }
}

/// Whether a chat is the configured administrator chat; only there are
/// restricted commands accepted.
pub fn authorized_chat(chat_id: i64, admin_id: Option<i64>) -> (r: bool)
    ensures
        r == (admin_id == Some(chat_id)),
{
    match admin_id {
        Some(a) => a == chat_id,
        None => false,
    }
}

/// Where a message goes: to a restricted handler, a public handler, or
/// plain message handling.
pub enum Route {
    Admin(Command),
    Public(UnauthorizedCommand),
    Message,
}

/// The mathematical content of a route.
pub ghost enum RouteView {
    Admin(CommandView),
    Public(UnauthorizedCommand),
    Message,
}

impl View for Route {
    type V = RouteView;

    open spec fn view(&self) -> RouteView {
        match self {
            Route::Admin(c) => RouteView::Admin(c@),
            Route::Public(c) => RouteView::Public(*c),
            Route::Message => RouteView::Message,
        }
    }
}

/// The dispatch rule: a restricted command parsed in the administrator chat
/// wins; else a public command; else the message is handled as an ordinary
/// message. A restricted command outside the administrator chat falls
/// through exactly like unrecognized text.
pub open spec fn spec_route(
    t: Seq<char>,
    chat_id: int,
    admin_id: Option<int>,
    bot: Seq<char>,
) -> RouteView {
    if admin_id == Some(chat_id) && spec_parse_admin(t, bot) is Some {
        RouteView::Admin(spec_parse_admin(t, bot)->Some_0)
    } else if spec_parse_public(t, bot) is Some {
        RouteView::Public(spec_parse_public(t, bot)->Some_0)
    } else {
        RouteView::Message
    }
}

pub open spec fn opt_i64_view(o: Option<i64>) -> Option<int> {
    match o {
        Some(a) => Some(a as int),
        None => None,
    }
}

/// Routes one message.
pub fn route_message(text: &str, chat_id: i64, admin_id: Option<i64>, bot_name: &str) -> (r: Route)
    ensures
        r@ == spec_route(text@, chat_id as int, opt_i64_view(admin_id), bot_name@),
{
    if authorized_chat(chat_id, admin_id) {
        match parse_admin_command(text, bot_name) {
            Some(c) => {
                return Route::Admin(c);
            },
            None => {},
        }
    }
    match parse_public_command(text, bot_name) {
        Some(c) => Route::Public(c),
        None => Route::Message,
    }
}


/// The project link shown in the command listings.
pub const GIT: &'static str = "github.com/lattenwald/tgpingerbot";

/// The public command descriptions, as the command listing shows them.
pub const DESC_PUB: &'static str = "\u{41e}\u{431}\u{449}\u{438}\u{435} \u{43a}\u{43e}\u{43c}\u{430}\u{43d}\u{434}\u{44b}:\n\n/id \u{2014} id \u{442}\u{435}\u{43a}\u{443}\u{449}\u{435}\u{433}\u{43e} \u{447}\u{430}\u{442}\u{430}\n/ping \u{2014} \u{43f}\u{438}\u{43d}\u{433}\u{430}\u{43d}\u{443}\u{442}\u{44c} \u{432}\u{441}\u{435}\u{445}\n/count \u{2014} \u{441}\u{43a}\u{43e}\u{43b}\u{44c}\u{43a}\u{43e} \u{442}\u{443}\u{442} \u{44e}\u{437}\u{435}\u{440}\u{43e}\u{432}, \u{43a}\u{43e}\u{433}\u{43e} \u{43f}\u{438}\u{43d}\u{433}\u{443}\u{435}\u{43c}\n/help \u{2014} \u{43f}\u{43e}\u{43c}\u{43e}\u{449}\u{44c}";

/// The restricted command descriptions, as the command listing shows them.
pub const DESC_ADM: &'static str = "\u{410}\u{434}\u{43c}\u{438}\u{43d}\u{441}\u{43a}\u{438}\u{435} \u{43a}\u{43e}\u{43c}\u{430}\u{43d}\u{434}\u{44b}:\n\n/add_user \u{2014} \u{434}\u{43e}\u{431}\u{430}\u{432}\u{438}\u{442}\u{44c} \u{43f}\u{43e}\u{43b}\u{44c}\u{437}\u{43e}\u{432}\u{430}\u{442}\u{435}\u{43b}\u{44f}\n/migrate_from \u{2014} \u{43c}\u{438}\u{433}\u{440}\u{430}\u{446}\u{438}\u{44f}\n/counts \u{2014} \u{447}\u{430}\u{442}\u{44b} \u{441} \u{43f}\u{43e}\u{43b}\u{44c}\u{437}\u{43e}\u{432}\u{430}\u{442}\u{435}\u{43b}\u{44f}\u{43c}\u{438}\n/help \u{2014} \u{43f}\u{43e}\u{43c}\u{43e}\u{449}\u{44c}";

pub const BAD_CHAT: &'static str = "\u{41d}\u{435}\u{43f}\u{440}\u{430}\u{432}\u{438}\u{43b}\u{44c}\u{43d}\u{44b}\u{439} id \u{447}\u{430}\u{442}\u{430}";

pub const BAD_USER: &'static str = "\u{41d}\u{435}\u{43f}\u{440}\u{430}\u{432}\u{438}\u{43b}\u{44c}\u{43d}\u{44b}\u{439} id \u{43f}\u{43e}\u{43b}\u{44c}\u{437}\u{43e}\u{432}\u{430}\u{442}\u{435}\u{43b}\u{44f}";

pub const FOUND: &'static str = "\u{41f}\u{43e}\u{43b}\u{44c}\u{437}\u{43e}\u{432}\u{430}\u{442}\u{435}\u{43b}\u{44c} \u{435}\u{441}\u{442}\u{44c} \u{432} \u{447}\u{430}\u{442}\u{435}";

pub const NOT_FOUND: &'static str = "\u{41f}\u{43e}\u{43b}\u{44c}\u{437}\u{43e}\u{432}\u{430}\u{442}\u{435}\u{43b}\u{44c} \u{43d}\u{435} \u{43d}\u{430}\u{439}\u{434}\u{435}\u{43d}";

pub const ERR_PRE: &'static str = "\u{41e}\u{448}\u{438}\u{431}\u{43a}\u{430}\n```\n";

pub const MIG_NONE: &'static str = "\u{41d}\u{435}\u{442} \u{43c}\u{438}\u{433}\u{440}\u{430}\u{446}\u{438}\u{438} \u{441} \u{432}\u{435}\u{440}\u{441}\u{438}\u{438} `";

pub const MIG_DONE: &'static str = "\u{423}\u{441}\u{43f}\u{435}\u{448}\u{43d}\u{43e} \u{43c}\u{438}\u{433}\u{440}\u{438}\u{440}\u{43e}\u{432}\u{430}\u{43d}\u{43e} ";

pub const MIG_DONE_SUF: &'static str = " \u{43f}\u{43e}\u{43b}\u{44c}\u{437}\u{43e}\u{432}\u{430}\u{442}\u{435}\u{43b}\u{435}\u{439}";

pub const COUNTS_HDR: &'static str = "\u{42e}\u{437}\u{435}\u{440}\u{43e}\u{432} \u{43f}\u{43e} \u{432}\u{441}\u{435}\u{43c} \u{447}\u{430}\u{442}\u{430}\u{43c}:\n\n";

pub const COUNT_PRE: &'static str = "\u{412} \u{44d}\u{442}\u{43e}\u{43c} \u{447}\u{430}\u{442}\u{435} \u{43f}\u{438}\u{43d}\u{433}\u{443}\u{44e} `";

pub const COUNT_SUF: &'static str = "` \u{43f}\u{43e}\u{43b}\u{44c}\u{437}\u{43e}\u{432}\u{430}\u{442}\u{435}\u{43b}\u{435}\u{439}";

pub const MIG_ERR_A: &'static str = "\u{41e}\u{448}\u{438}\u{431}\u{43a}\u{430} \u{43f}\u{440}\u{43e}\u{432}\u{435}\u{440}\u{43a}\u{438} `chat\\_id=";

pub const MIG_ERR_B: &'static str = "` `user\\_id=";

/// The arguments of a manual membership grant, validated: both ids must be
/// numeric.
#[derive(Clone, Copy, Debug, PartialEq, Eq, Structural)]
pub enum AddUserArgs {
    Valid(i64, u64),
    BadChatId,
    BadUserId,
}

/// How the two id arguments of the manual grant parse: the chat id is
/// checked first, so a bad chat id wins over a bad user id.
pub open spec fn spec_add_user_args(chat: Seq<char>, user: Seq<char>) -> AddUserArgs {
    match crate::text::spec_parse_i64(chat) {
        None => AddUserArgs::BadChatId,
        Some(c) => match crate::text::spec_parse_u64(user) {
            None => AddUserArgs::BadUserId,
            Some(u) => AddUserArgs::Valid(c, u),
        },
    }
}

/// Validates the id arguments of the manual membership grant.
pub fn parse_add_user_args(chat_id_arg: &str, user_id_arg: &str) -> (r: AddUserArgs)
    ensures
        r == spec_add_user_args(chat_id_arg@, user_id_arg@),
{
    match crate::text::parse_i64(chat_id_arg) {
        None => AddUserArgs::BadChatId,
        Some(c) => match crate::text::parse_u64(user_id_arg) {
            None => AddUserArgs::BadUserId,
            Some(u) => AddUserArgs::Valid(c, u),
        },
    }
}

/// Whether a one-shot import from the named legacy version exists; only
/// version "0.1" ever had the deprecated layout.
pub fn migration_supported(version: &str) -> (r: bool)
    ensures
        r == (version@ == "0.1"@),
{
    let v = str_chars(version);
    let r = v.len() == 3 && v[0] == '0' && v[1] == '.' && v[2] == '1';
    proof {
        reveal_strlit("0.1");
        if r {
            assert(v@ =~= "0.1"@);
        }
        if v@ == "0.1"@ {
            assert(v@.len() == 3);
        }
    }
    r
}

/// The echo of the current chat identity.
pub open spec fn spec_id_response(chat_id: int) -> Seq<char> {
    "`"@ + crate::text::dec_str_signed(chat_id) + "`"@
}

pub fn id_response(chat_id: i64) -> (r: String)
    ensures
        r@ == spec_id_response(chat_id as int),
{
    let mut r = String::from_str("`");
    let d = crate::text::i64_to_string(chat_id);
    r.append(d.as_str());
    r.append("`");
    r
}

/// The member count answer for one chat.
pub open spec fn spec_count_response(count: int) -> Seq<char> {
    COUNT_PRE@ + crate::text::dec_str(count) + COUNT_SUF@
}

pub fn count_response(count: u64) -> (r: String)
    ensures
        r@ == spec_count_response(count as int),
{
    let mut r = String::from_str(COUNT_PRE);
    let d = crate::text::u64_to_string(count);
    r.append(d.as_str());
    r.append(COUNT_SUF);
    r
}

/// The rejection for a non-numeric chat id argument.
pub fn invalid_chat_id_response() -> (r: String)
    ensures
        r@ == BAD_CHAT@,
{
    String::from_str(BAD_CHAT)
}

/// The rejection for a non-numeric user id argument.
pub fn invalid_user_id_response() -> (r: String)
    ensures
        r@ == BAD_USER@,
{
    String::from_str(BAD_USER)
}

/// What the manual membership grant reports back: found in the chat, or
/// not.
pub open spec fn spec_add_user_response(in_chat: bool) -> Seq<char> {
    if in_chat {
        FOUND@
    } else {
        NOT_FOUND@
    }
}

pub fn add_user_response(in_chat: bool) -> (r: String)
    ensures
        r@ == spec_add_user_response(in_chat),
{
    if in_chat {
        String::from_str(FOUND)
    } else {
        String::from_str(NOT_FOUND)
    }
}

/// A failed live check surfaced to the operator, the failure text fenced
/// and escaped.
pub open spec fn spec_check_error_response(err: Seq<char>) -> Seq<char> {
    ERR_PRE@ + crate::paginate::escape_md(err) + "\n```"@
}

pub fn check_error_response(err: &str) -> (r: String)
    ensures
        r@ == spec_check_error_response(err@),
{
    let mut r = String::from_str(ERR_PRE);
    let e = crate::paginate::escape_markdown(err);
    r.append(e.as_str());
    r.append("\n```");
    r
}

/// The rejection for an unknown migration version.
pub open spec fn spec_migrate_unknown_response(version: Seq<char>) -> Seq<char> {
    MIG_NONE@ + crate::paginate::escape_md(version) + "`"@
}

pub fn migrate_unknown_response(version: &str) -> (r: String)
    ensures
        r@ == spec_migrate_unknown_response(version@),
{
    let mut r = String::from_str(MIG_NONE);
    let e = crate::paginate::escape_markdown(version);
    r.append(e.as_str());
    r.append("`");
    r
}

/// The import summary: how many legacy rows were confirmed and migrated.
pub open spec fn spec_migrate_done_response(migrated: int) -> Seq<char> {
    MIG_DONE@ + crate::text::dec_str(migrated) + MIG_DONE_SUF@
}

pub fn migrate_done_response(migrated: u64) -> (r: String)
    ensures
        r@ == spec_migrate_done_response(migrated as int),
{
    let mut r = String::from_str(MIG_DONE);
    let d = crate::text::u64_to_string(migrated);
    r.append(d.as_str());
    r.append(MIG_DONE_SUF);
    r
}

/// A failed live check for one legacy row, naming the row's ids.
pub open spec fn spec_migrate_check_error_response(
    chat_id: int,
    user_id: Seq<char>,
    err: Seq<char>,
) -> Seq<char> {
    MIG_ERR_A@ + crate::text::dec_str_signed(chat_id) + MIG_ERR_B@ + crate::paginate::escape_md(
        user_id,
    ) + "`\n```\n"@ + crate::paginate::escape_md(err) + "\n```"@
}

pub fn migrate_check_error_response(chat_id: i64, user_id: &str, err: &str) -> (r: String)
    ensures
        r@ == spec_migrate_check_error_response(chat_id as int, user_id@, err@),
{
    let mut r = String::from_str(MIG_ERR_A);
    let d = crate::text::i64_to_string(chat_id);
    r.append(d.as_str());
    r.append(MIG_ERR_B);
    let u = crate::paginate::escape_markdown(user_id);
    r.append(u.as_str());
    r.append("`\n```\n");
    let e = crate::paginate::escape_markdown(err);
    r.append(e.as_str());
    r.append("\n```");
    r
}

/// One line of the per-chat member table: the display title escaped, then
/// the count.
pub open spec fn spec_counts_line(row: crate::store::ChatCountView) -> Seq<char> {
    "`"@ + crate::paginate::escape_md(row.title) + "`: `"@ + crate::text::dec_str(row.count)
        + "`\n\n"@
}

pub open spec fn spec_counts_body(rows: Seq<crate::store::ChatCountView>) -> Seq<char>
    decreases rows.len(),
{
    if rows.len() == 0 {
        Seq::<char>::empty()
    } else {
        spec_counts_body(rows.drop_last()) + spec_counts_line(rows.last())
    }
}

/// The whole per-chat member table.
pub open spec fn spec_counts_response(rows: Seq<crate::store::ChatCountView>) -> Seq<char> {
    COUNTS_HDR@ + spec_counts_body(rows)
}

/// The count lines as the store hands them out.
pub open spec fn count_rows_view(rows: Seq<(i64, String, u64)>) -> Seq<
    crate::store::ChatCountView,
> {
    Seq::new(
        rows.len(),
        |i: int|
            crate::store::ChatCountView {
                chat_id: rows[i].0 as int,
                title: rows[i].1@,
                count: rows[i].2 as int,
            },
    )
}

/// Renders the per-chat member table.
pub fn counts_response(rows: &Vec<(i64, String, u64)>) -> (r: String)
    ensures
        r@ == spec_counts_response(count_rows_view(rows@)),
{
    let ghost rv = count_rows_view(rows@);
    let mut r = String::from_str(COUNTS_HDR);
    proof {
        assert(rv.take(0) =~= Seq::<crate::store::ChatCountView>::empty());
        assert(r@ =~= COUNTS_HDR@ + spec_counts_body(rv.take(0)));
    }
    let mut i: usize = 0;
    while i < rows.len()
        invariant
            i <= rows@.len(),
            rv == count_rows_view(rows@),
            rv.len() == rows@.len(),
            r@ == COUNTS_HDR@ + spec_counts_body(rv.take(i as int)),
        decreases rows@.len() - i,
    {
        r.append("`");
        let title = crate::paginate::escape_markdown(rows[i].1.as_str());
        r.append(title.as_str());
        r.append("`: `");
        let d = crate::text::u64_to_string(rows[i].2);
        r.append(d.as_str());
        r.append("`\n\n");
        proof {
            assert(rv.take(i + 1).drop_last() =~= rv.take(i as int));
            assert(rv.take(i + 1).last() == rv[i as int]);
            assert(r@ =~= COUNTS_HDR@ + spec_counts_body(rv.take(i + 1)));
        }
        i = i + 1;
    }
    proof {
        assert(rv.take(rv.len() as int) =~= rv);
    }
    r
}

/// The public command listing, with the project link.
pub open spec fn spec_public_help_response() -> Seq<char> {
    crate::paginate::escape_md(DESC_PUB@) + "\n\n["@ + crate::paginate::escape_md(GIT@)
        + "](https://"@ + crate::paginate::escape_md(GIT@) + ")"@
}

pub fn public_help_response() -> (r: String)
    ensures
        r@ == spec_public_help_response(),
{
    let mut r = crate::paginate::escape_markdown(DESC_PUB);
    r.append("\n\n[");
    let g = crate::paginate::escape_markdown(GIT);
    r.append(g.as_str());
    r.append("](https://");
    r.append(g.as_str());
    r.append(")");
    r
}

/// The administrator command listing: the restricted commands, then the
/// public ones, then the project link.
pub open spec fn spec_admin_help_response() -> Seq<char> {
    crate::paginate::escape_md(DESC_ADM@) + "\n\n"@ + crate::paginate::escape_md(DESC_PUB@)
        + "\n\n["@ + crate::paginate::escape_md(GIT@) + "](https://"@ + crate::paginate::escape_md(
        GIT@,
    ) + ")"@
}

pub fn admin_help_response() -> (r: String)
    ensures
        r@ == spec_admin_help_response(),
{
    let mut r = crate::paginate::escape_markdown(DESC_ADM);
    r.append("\n\n");
    let p = crate::paginate::escape_markdown(DESC_PUB);
    r.append(p.as_str());
    r.append("\n\n[");
    let g = crate::paginate::escape_markdown(GIT);
    r.append(g.as_str());
    r.append("](https://");
    r.append(g.as_str());
    r.append(")");
    r
}

} // verus!
