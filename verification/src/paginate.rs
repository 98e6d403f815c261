//! The broadcast paginator: renders one mention per member and packs the
//! mentions into outgoing messages of at most forty mentions each, keeping
//! encounter order, leaving out bots and the invoking user.

use vstd::prelude::*;
use vstd::string::StringExecFns;
use crate::types::{spec_full_name, Member, MemberView, User};

verus! {

/// The fixed cap on mentions per outgoing message.
pub const MENTION_CAP: usize = 40;

/// The characters the message markup reserves; each is preceded by a
/// backslash when rendered as plain text.
pub open spec fn is_markdown_special(c: char) -> bool {
    c == '\\' || c == '_' || c == '*' || c == '[' || c == ']' || c == '(' || c == ')' || c == '~'
        || c == '`' || c == '>' || c == '#' || c == '+' || c == '-' || c == '=' || c == '|'
        || c == '{' || c == '}' || c == '.' || c == '!'
}

/// A backslash before every reserved character, the rest unchanged.
pub open spec fn escape_md(s: Seq<char>) -> Seq<char>
    decreases s.len(),
{
    if s.len() == 0 {
        s
    } else {
        escape_md(s.drop_last()) + (if is_markdown_special(s.last()) {
            seq!['\\', s.last()]
        } else {
            seq![s.last()]
        })
    }
}

/// Relies on teloxide's `utils::markdown::escape`: it walks the characters
/// in order and puts a backslash before each reserved one.
#[verifier::external_body]
pub(crate) fn escape_markdown(s: &str) -> (r: String)
    ensures
        r@ == escape_md(s@),
{
    teloxide::utils::markdown::escape(s)
}

/// The mention token for one member: the `@` form where a username is
/// known, the clickable name-by-id form otherwise.
pub open spec fn spec_mention(m: MemberView) -> Seq<char> {
    match m.username {
        Some(u) => "@"@ + escape_md(u),
        None => "["@ + escape_md(spec_full_name(m)) + "](tg://user?id="@ + m.user_id + ")"@,
    }
}

/// Renders the mention token for one member.
pub fn mention_of(m: &Member) -> (r: String)
    ensures
        r@ == spec_mention(m@),
{
    match &m.username {
        Some(username) => {
            let mut r = String::from_str("@");
            let e = escape_markdown(username.as_str());
            r.append(e.as_str());
            r
        },
        None => {
            let mut r = String::from_str("[");
            let name = m.full_name();
            let e = escape_markdown(name.as_str());
            r.append(e.as_str());
            r.append("](tg://user?id=");
            r.append(m.user_id.as_str());
            r.append(")");
            r
        },
    }
}

/// Who gets pinged out of a member list: not a bot, and not the invoker.
pub open spec fn ping_pred(invoker_id: Option<Seq<char>>) -> spec_fn(MemberView) -> bool {
    |m: MemberView| !m.is_bot && invoker_id != Some(m.user_id)
}

/// The members actually pinged, in encounter order.
pub open spec fn spec_ping_targets(
    ms: Seq<MemberView>,
    invoker_id: Option<Seq<char>>,
) -> Seq<MemberView> {
    ms.filter(ping_pred(invoker_id))
}

pub open spec fn opt_str_view(o: Option<&String>) -> Option<Seq<char>> {
    match o {
        Some(s) => Some(s@),
        None => None,
    }
}

pub open spec fn opt_user_view(o: Option<&User>) -> Option<MemberView> {
    match o {
        Some(u) => Some(u@),
        None => None,
    }
}

pub open spec fn spec_invoker_id(invoker: Option<MemberView>) -> Option<Seq<char>> {
    match invoker {
        Some(u) => Some(u.user_id),
        None => None,
    }
}

/// How many messages a target list needs under the cap.
pub open spec fn spec_num_batches(n: int) -> int {
    (n + MENTION_CAP - 1) / (MENTION_CAP as int)
}

/// The slice of the target list that goes into the given message.
pub open spec fn spec_batch_at(targets: Seq<MemberView>, i: int) -> Seq<MemberView> {
    let cap = MENTION_CAP as int;
    targets.subrange(
        cap * i,
        if cap * i + cap <= targets.len() {
            cap * i + cap
        } else {
            targets.len() as int
        },
    )
}

/// The whole decomposition of a target list into capped batches.
pub open spec fn spec_batches(targets: Seq<MemberView>) -> Seq<Seq<MemberView>> {
    Seq::new(spec_num_batches(targets.len() as int) as nat, |i: int| spec_batch_at(targets, i))
}

proof fn lemma_batches_flatten_prefix(targets: Seq<MemberView>, j: int)
    requires
        0 <= j <= spec_num_batches(targets.len() as int),
    ensures
        spec_batches(targets).take(j).flatten() =~= targets.take(
            if MENTION_CAP * j <= targets.len() {
                MENTION_CAP * j
            } else {
                targets.len() as int
            },
        ),
    decreases j,
{
    let cap = MENTION_CAP as int;
    let bs = spec_batches(targets);
    if j == 0 {
        assert(bs.take(0) =~= Seq::<Seq<MemberView>>::empty());
        assert(bs.take(0).flatten() =~= Seq::<MemberView>::empty());
    } else {
        lemma_batches_flatten_prefix(targets, j - 1);
        assert(cap * (j - 1) == cap * j - cap);
        assert(cap * (j - 1) < targets.len()) by {
            assert(j - 1 < spec_num_batches(targets.len() as int));
        }
        assert(bs.take(j) =~= bs.take(j - 1).push(bs[j - 1]));
        bs.take(j - 1).lemma_flatten_push(bs[j - 1]);
        assert(bs[j - 1] == spec_batch_at(targets, j - 1));
        let lo = cap * (j - 1);
        let hi = if cap * j <= targets.len() {
            cap * j
        } else {
            targets.len() as int
        };
        assert(bs.take(j).flatten() =~= targets.take(lo) + targets.subrange(lo, hi));
        assert(targets.take(lo) + targets.subrange(lo, hi) =~= targets.take(hi));
    }
}

/// The shape of the batch decomposition: for a target list of length `n`,
/// there are exactly as many batches as the cap requires — none for an
/// empty list — every batch except possibly the last holds exactly the cap,
/// none is empty, and the batches concatenate back to the target list in
/// order.
pub proof fn lemma_batches_shape(targets: Seq<MemberView>)
    ensures
        spec_batches(targets).len() == spec_num_batches(targets.len() as int),
        spec_batches(targets).flatten() =~= targets,
        forall|i: int|
            0 <= i < spec_batches(targets).len() ==> 0 < (#[trigger] spec_batches(targets)[i]).len()
                <= MENTION_CAP,
        forall|i: int|
            0 <= i < spec_batches(targets).len() - 1 ==> (#[trigger] spec_batches(targets)[i]).len()
                == MENTION_CAP,
        targets.len() == 0 ==> spec_batches(targets).len() == 0,
{
    let cap = MENTION_CAP as int;
    let n = targets.len() as int;
    let k = spec_num_batches(n);
    lemma_batches_flatten_prefix(targets, k);
    assert(cap * k >= n) by {
        assert(k == (n + cap - 1) / cap);
    }
    assert(spec_batches(targets).take(k) =~= spec_batches(targets));
    assert(targets.take(n) =~= targets);
    assert forall|i: int|
        0 <= i < k implies 0 < (#[trigger] spec_batches(targets)[i]).len() <= MENTION_CAP by {
        assert(cap * i < n) by {
            assert(i <= k - 1);
            assert(cap * i <= cap * (k - 1));
            assert(cap * (k - 1) < n) by {
                assert(k - 1 < (n + cap - 1) / cap);
            }
        }
    }
    assert forall|i: int|
        0 <= i < k - 1 implies (#[trigger] spec_batches(targets)[i]).len() == MENTION_CAP by {
        assert(cap * i + cap == cap * (i + 1));
        assert(cap * (i + 1) <= cap * (k - 1));
        assert(cap * (k - 1) < n) by {
            assert(k - 1 < (n + cap - 1) / cap);
        }
    }
}

/// The members pinged out of a member list, in encounter order.
fn filter_targets(members: &Vec<Member>, invoker_id: Option<&String>) -> (targets: Vec<Member>)
    ensures
        targets.deep_view() == spec_ping_targets(members.deep_view(), opt_str_view(invoker_id)),
{
    let ghost inv = opt_str_view(invoker_id);
    let ghost p = ping_pred(inv);
    let ghost ms = members.deep_view();
    let mut targets: Vec<Member> = Vec::new();
    let mut i: usize = 0;
    while i < members.len()
        invariant
            i <= ms.len(),
            ms == members.deep_view(),
            inv == opt_str_view(invoker_id),
            p == ping_pred(inv),
            targets.deep_view() == ms.take(i as int).filter(p),
        decreases ms.len() - i,
    {
        proof {
            crate::store::lemma_filter_take_step(ms, p, i as int);
            assert(ms[i as int] == members@[i as int]@);
        }
        let ghost tpre = targets.deep_view();
        let m = &members[i];
        let skip = m.is_bot || (match invoker_id {
            Some(id) => m.user_id == *id,
            None => false,
        });
        if !skip {
            targets.push(m.clone());
            proof {
                assert(p(ms[i as int]));
                assert(targets.deep_view() =~= tpre.push(ms[i as int]));
                assert(targets.deep_view() =~= ms.take(i + 1).filter(p));
            }
        } else {
            proof {
                assert(!p(ms[i as int]));
                assert(targets.deep_view() =~= ms.take(i + 1).filter(p));
            }
        }
        i = i + 1;
    }
    proof {
        assert(ms.take(ms.len() as int) =~= ms);
    }
    targets
}

/// The members between two positions, in order.
fn copy_range(targets: &Vec<Member>, start: usize, end: usize) -> (b: Vec<Member>)
    requires
        start <= end <= targets@.len(),
    ensures
        b.deep_view() == targets.deep_view().subrange(start as int, end as int),
{
    let ghost td = targets.deep_view();
    let mut b: Vec<Member> = Vec::new();
    let mut j: usize = start;
    while j < end
        invariant
            start <= j <= end <= td.len(),
            td == targets.deep_view(),
            b.deep_view() == td.subrange(start as int, j as int),
        decreases end - j,
    {
        proof {
            assert(td[j as int] == targets@[j as int]@);
        }
        let ghost bpre = b.deep_view();
        b.push(targets[j].clone());
        proof {
            assert(b.deep_view() =~= bpre.push(td[j as int]));
            assert(bpre.push(td[j as int]) =~= td.subrange(start as int, j + 1));
        }
        j = j + 1;
    }
    b
}

/// Packs the pinged members into batches of at most the cap, in encounter
/// order: each resulting batch is the corresponding slice of the target
/// list.
pub fn batch_mentions(members: &Vec<Member>, invoker_id: Option<&String>) -> (batches: Vec<
    Vec<Member>,
>)
    ensures
        batches.deep_view() == spec_batches(
            spec_ping_targets(members.deep_view(), opt_str_view(invoker_id)),
        ),
{
    let targets = filter_targets(members, invoker_id);
    let ghost td = targets.deep_view();
    let n = targets.len();
    let mut batches: Vec<Vec<Member>> = Vec::new();
    let mut i: usize = 0;
    while n - i >= MENTION_CAP
        invariant
            i <= n,
            n == td.len(),
            td == targets.deep_view(),
            i == MENTION_CAP * batches@.len(),
            batches.deep_view().len() == batches@.len(),
            forall|k: int|
                0 <= k < batches@.len() ==> #[trigger] batches.deep_view()[k] == spec_batch_at(
                    td,
                    k,
                ),
        decreases n - i,
    {
        let b = copy_range(&targets, i, i + MENTION_CAP);
        let ghost bd_pre = batches.deep_view();
        let ghost bv = b.deep_view();
        batches.push(b);
        proof {
            let k = batches@.len() - 1;
            assert(batches.deep_view() =~= bd_pre.push(bv));
            assert(batches.deep_view()[k] == td.subrange(i as int, i + MENTION_CAP));
            assert(MENTION_CAP * k == i as int);
            assert(batches.deep_view()[k] == spec_batch_at(td, k));
            assert(forall|x: int|
                0 <= x < k ==> #[trigger] batches.deep_view()[x] == spec_batch_at(td, x));
        }
        i = i + MENTION_CAP;
    }
    if i < n {
        let b = copy_range(&targets, i, n);
        let ghost bd_pre = batches.deep_view();
        let ghost bv = b.deep_view();
        batches.push(b);
        proof {
            let k = batches@.len() - 1;
            assert(batches.deep_view() =~= bd_pre.push(bv));
            assert(batches.deep_view()[k] == td.subrange(i as int, n as int));
            assert(MENTION_CAP * k == i as int);
            assert(batches.deep_view()[k] == spec_batch_at(td, k));
            assert(forall|x: int|
                0 <= x < k ==> #[trigger] batches.deep_view()[x] == spec_batch_at(td, x));
        }
    }
    proof {
        let k = batches@.len() as int;
        assert(k == spec_num_batches(td.len() as int)) by {
            let cap = MENTION_CAP as int;
            let n_ = td.len() as int;
            if i < n {
                assert(n_ - (cap * (k - 1)) < cap);
            }
        }
        assert(batches.deep_view() =~= spec_batches(td));
    }
    batches
}

/// The mentions of one batch, each preceded by a space, in order.
pub open spec fn spec_batch_body(b: Seq<MemberView>) -> Seq<char>
    decreases b.len(),
{
    if b.len() == 0 {
        Seq::<char>::empty()
    } else {
        spec_batch_body(b.drop_last()) + " "@ + spec_mention(b.last())
    }
}

/// One outgoing message: the given prefix, then the batch's mentions.
pub fn render_batch(batch: &Vec<Member>, prefix: &str) -> (r: String)
    ensures
        r@ == prefix@ + spec_batch_body(batch.deep_view()),
{
    let ghost bd = batch.deep_view();
    let mut r = String::from_str(prefix);
    proof {
        assert(bd.take(0) =~= Seq::<MemberView>::empty());
        assert(r@ =~= prefix@ + spec_batch_body(bd.take(0)));
    }
    let mut j: usize = 0;
    while j < batch.len()
        invariant
            j <= bd.len(),
            bd == batch.deep_view(),
            r@ == prefix@ + spec_batch_body(bd.take(j as int)),
        decreases bd.len() - j,
    {
        proof {
            assert(bd[j as int] == batch@[j as int]@);
        }
        r.append(" ");
        let token = mention_of(&batch[j]);
        r.append(token.as_str());
        proof {
            assert(bd.take(j + 1).drop_last() =~= bd.take(j as int));
            assert(bd.take(j + 1).last() == bd[j as int]);
            assert(r@ =~= prefix@ + spec_batch_body(bd.take(j + 1)));
        }
        j = j + 1;
    }
    proof {
        assert(bd.take(bd.len() as int) =~= bd);
    }
    r
}

/// What the first message opens with: the invoker's own mention and the
/// call-out, or nothing when no invoker is known.
pub open spec fn spec_ping_header(invoker: Option<MemberView>) -> Seq<char> {
    match invoker {
        Some(u) => spec_mention(u) + " \u{432}\u{44b}\u{437}\u{44b}\u{432}\u{430}\u{435}\u{442}\\!\n\n"@,
        None => Seq::<char>::empty(),
    }
}

/// Renders the first message's opening.
pub fn ping_header(invoker: Option<&User>) -> (r: String)
    ensures
        r@ == spec_ping_header(opt_user_view(invoker)),
{
    match invoker {
        Some(u) => {
            let member = u.to_member();
            let mut r = mention_of(&member);
            r.append(" \u{432}\u{44b}\u{437}\u{44b}\u{432}\u{430}\u{435}\u{442}\\!\n\n");
            r
        },
        None => String::new(),
    }
}

/// The answer when nobody but the invoker and the bots is left to ping.
pub open spec fn spec_nobody_text() -> Seq<char> {
    "\u{422}\u{443}\u{442} \u{43d}\u{435}\u{442} \u{43d}\u{438}\u{43a}\u{43e}\u{433}\u{43e}, \u{43a}\u{440}\u{43e}\u{43c}\u{435} \u{43d}\u{430}\u{441}"@
}

/// The messages a ping sends, in order: one per batch, the first opening
/// with the invoker's call-out; a single fixed answer where nobody is left
/// to ping.
pub open spec fn spec_ping_messages(
    ms: Seq<MemberView>,
    invoker: Option<MemberView>,
) -> Seq<Seq<char>> {
    let targets = spec_ping_targets(ms, spec_invoker_id(invoker));
    if targets.len() == 0 {
        seq![spec_nobody_text()]
    } else {
        Seq::new(
            spec_batches(targets).len(),
            |i: int|
                (if i == 0 {
                    spec_ping_header(invoker)
                } else {
                    Seq::<char>::empty()
                }) + spec_batch_body(spec_batches(targets)[i]),
        )
    }
}

/// Builds the ping broadcast for a member list: batches the eligible
/// members under the cap and renders each batch as one message.
pub fn ping_messages(members: &Vec<Member>, invoker: Option<&User>) -> (msgs: Vec<String>)
    ensures
        msgs.deep_view() == spec_ping_messages(members.deep_view(), opt_user_view(invoker)),
{
    let ghost inv = opt_user_view(invoker);
    let invoker_id: Option<&String> = match invoker {
        Some(u) => Some(&u.id),
        None => None,
    };
    proof {
        assert(opt_str_view(invoker_id) == spec_invoker_id(inv));
    }
    let batches = batch_mentions(members, invoker_id);
    let ghost targets = spec_ping_targets(members.deep_view(), spec_invoker_id(inv));
    if batches.len() == 0 {
        proof {
            lemma_batches_shape(targets);
            assert(targets.len() == 0) by {
                if targets.len() > 0 {
                    assert(spec_num_batches(targets.len() as int) > 0);
                }
            }
        }
        let mut msgs: Vec<String> = Vec::new();
        msgs.push(String::from_str(
            "\u{422}\u{443}\u{442} \u{43d}\u{435}\u{442} \u{43d}\u{438}\u{43a}\u{43e}\u{433}\u{43e}, \u{43a}\u{440}\u{43e}\u{43c}\u{435} \u{43d}\u{430}\u{441}",
        ));
        proof {
            assert(msgs.deep_view() =~= spec_ping_messages(members.deep_view(), inv));
        }
        msgs
    } else {
        proof {
            lemma_batches_shape(targets);
            assert(targets.len() > 0) by {
                if targets.len() == 0 {
                    assert(spec_num_batches(0) == 0);
                }
            }
        }
        let header = ping_header(invoker);
        let ghost expect = spec_ping_messages(members.deep_view(), inv);
        let mut msgs: Vec<String> = Vec::new();
        let mut i: usize = 0;
        while i < batches.len()
            invariant
                i <= batches@.len(),
                inv == opt_user_view(invoker),
                targets == spec_ping_targets(members.deep_view(), spec_invoker_id(inv)),
                targets.len() > 0,
                batches.deep_view() == spec_batches(targets),
                header@ == spec_ping_header(inv),
                expect == spec_ping_messages(members.deep_view(), inv),
                expect.len() == batches@.len(),
                msgs.deep_view() == expect.take(i as int),
            decreases batches@.len() - i,
        {
            let ghost mpre = msgs.deep_view();
            proof {
                assert(batches.deep_view()[i as int] == batches@[i as int].deep_view());
            }
            let rendered = if i == 0 {
                render_batch(&batches[i], header.as_str())
            } else {
                render_batch(&batches[i], "")
            };
            proof {
                if i > 0 {
                    reveal_strlit("");
                    assert(""@ =~= Seq::<char>::empty());
                    assert(rendered@ =~= Seq::<char>::empty() + spec_batch_body(
                        spec_batches(targets)[i as int],
                    ));
                }
                assert(rendered@ == expect[i as int]);
            }
            msgs.push(rendered);
            proof {
                assert(msgs.deep_view() =~= mpre.push(rendered@));
                assert(msgs.deep_view() =~= expect.take(i + 1));
            }
            i = i + 1;
        }
        proof {
            assert(expect.take(expect.len() as int) =~= expect);
        }
        msgs
    }
}

} // verus!
