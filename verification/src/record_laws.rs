//! What a recording backend writes down and answers, for every request.

use crate::agreement;
use crate::backend;
use crate::backend::{Call, Event, Reply};
use crate::command_laws;
use crate::recording;
use crate::recording::Answers;
use crate::template::BuiltinVar;
use crate::text;
use crate::text::Text;
use vstd::prelude::*;

verus! {

// ─── Records ─────────────────────────────────────────────────────────────────

/// What a record says, field by field: the name of the request, all that was asked, and the pane
/// that came back where one is created. Values of built-in variables and pauses are not recorded.
pub open spec fn fields_of(e: Event) -> Option<Seq<Text>> {
    let id = backend::reply_text(e.reply);
    match e.call {
        Call::HasSession { name } => Some(seq!["has-session"@, name]),
        Call::NewSession { name, root, window, env: _ } => Some(
            seq!["new-session"@, name, root, window, id],
        ),
        Call::SplitWindow { pane, flag, pct, root, env: _ } => Some(
            seq![
                "split-window"@,
                pane,
                if flag is Horizontal {
                    "-h"@
                } else {
                    "-v"@
                },
                text::decimal(pct as nat),
                root,
                id,
            ],
        ),
        Call::NewWindow { session, name, root, env: _ } => Some(
            seq!["new-window"@, session, name, root, id],
        ),
        Call::SendKeys { pane, keys } => Some(seq!["send-keys"@, pane, keys]),
        Call::SelectPane { pane } => Some(seq!["select-pane"@, pane]),
        Call::SetPaneTitle { pane, title } => Some(seq!["set-pane-title"@, pane, title]),
        Call::SetOption { session, key, value } => Some(seq!["set-option"@, session, key, value]),
        Call::SetWindowOption { session, window, key, value } => Some(
            seq!["set-window-option"@, session, window, key, value],
        ),
        Call::SelectLayout { session, window, preset } => Some(
            seq!["select-layout"@, session, window, preset],
        ),
        Call::SelectWindow { session, window } => Some(seq!["select-window"@, session, window]),
        Call::AttachOrSwitch { session } => Some(seq!["attach-or-switch"@, session]),
        Call::KillSession { name } => Some(seq!["kill-session"@, name]),
        Call::RenameSession { from, to } => Some(seq!["rename-session"@, from, to]),
        Call::CapturePane { pane } => Some(seq!["capture-pane"@, pane]),
        Call::RunCommand { command } => Some(seq!["run-command"@, command]),
        Call::BuiltinValue { .. } => None,
        Call::Pause => None,
    }
}

/// What is recorded of an environment: nothing of an empty one, else the names and values of all
/// variables, in order.
pub open spec fn recorded_env(env: Seq<(Text, Text)>) -> Text {
    if env.len() == 0 {
        Seq::empty()
    } else {
        ":env:"@ + text::join(Seq::new(env.len(), |k: int| env[k].0 + "="@ + env[k].1), ","@)
    }
}

proof fn lemma_two(a: Text, b: Text)
    ensures
        text::join(seq![a, b], ":"@) == a + ":"@ + b,
{
    assert(seq![a, b].drop_last() =~= seq![a]);
    reveal_with_fuel(text::join, 2);
}

proof fn lemma_one_more(list: Seq<Text>, x: Text)
    requires
        list.len() > 0,
    ensures
        text::join(list.push(x), ":"@) == text::join(list, ":"@) + ":"@ + x,
{
    assert(list.push(x).drop_last() =~= list);
}

proof fn lemma_three(a: Text, b: Text, c: Text)
    ensures
        text::join(seq![a, b, c], ":"@) == a + ":"@ + b + ":"@ + c,
{
    lemma_two(a, b);
    lemma_one_more(seq![a, b], c);
    assert(seq![a, b].push(c) =~= seq![a, b, c]);
}

proof fn lemma_four(a: Text, b: Text, c: Text, d: Text)
    ensures
        text::join(seq![a, b, c, d], ":"@) == a + ":"@ + b + ":"@ + c + ":"@ + d,
{
    lemma_three(a, b, c);
    lemma_one_more(seq![a, b, c], d);
    assert(seq![a, b, c].push(d) =~= seq![a, b, c, d]);
}

proof fn lemma_five(a: Text, b: Text, c: Text, d: Text, e: Text)
    ensures
        text::join(seq![a, b, c, d, e], ":"@) == a + ":"@ + b + ":"@ + c + ":"@ + d + ":"@ + e,
{
    lemma_four(a, b, c, d);
    lemma_one_more(seq![a, b, c, d], e);
    assert(seq![a, b, c, d].push(e) =~= seq![a, b, c, d, e]);
}

proof fn lemma_six(a: Text, b: Text, c: Text, d: Text, e: Text, f: Text)
    ensures
        text::join(seq![a, b, c, d, e, f], ":"@) == a + ":"@ + b + ":"@ + c + ":"@ + d + ":"@ + e
            + ":"@ + f,
{
    lemma_five(a, b, c, d, e);
    lemma_one_more(seq![a, b, c, d, e], f);
    assert(seq![a, b, c, d, e].push(f) =~= seq![a, b, c, d, e, f]);
}

/// The names of requests, with the colon that follows them.
proof fn lemma_verbs()
    ensures
        "has-session:"@ == "has-session"@ + ":"@,
        "new-session:"@ == "new-session"@ + ":"@,
        "split-window:"@ == "split-window"@ + ":"@,
        "new-window:"@ == "new-window"@ + ":"@,
        "send-keys:"@ == "send-keys"@ + ":"@,
        "select-pane:"@ == "select-pane"@ + ":"@,
        "set-pane-title:"@ == "set-pane-title"@ + ":"@,
        "set-option:"@ == "set-option"@ + ":"@,
        "set-window-option:"@ == "set-window-option"@ + ":"@,
        "select-layout:"@ == "select-layout"@ + ":"@,
        "select-window:"@ == "select-window"@ + ":"@,
        "attach-or-switch:"@ == "attach-or-switch"@ + ":"@,
        "kill-session:"@ == "kill-session"@ + ":"@,
        "rename-session:"@ == "rename-session"@ + ":"@,
        "capture-pane:"@ == "capture-pane"@ + ":"@,
        "run-command:"@ == "run-command"@ + ":"@,
{
    reveal_strlit(":");
    assert("has-session:"@ =~= "has-session"@ + ":"@) by {
        reveal_strlit("has-session:");
        reveal_strlit("has-session");
    }
    assert("new-session:"@ =~= "new-session"@ + ":"@) by {
        reveal_strlit("new-session:");
        reveal_strlit("new-session");
    }
    assert("split-window:"@ =~= "split-window"@ + ":"@) by {
        reveal_strlit("split-window:");
        reveal_strlit("split-window");
    }
    assert("new-window:"@ =~= "new-window"@ + ":"@) by {
        reveal_strlit("new-window:");
        reveal_strlit("new-window");
    }
    assert("send-keys:"@ =~= "send-keys"@ + ":"@) by {
        reveal_strlit("send-keys:");
        reveal_strlit("send-keys");
    }
    assert("select-pane:"@ =~= "select-pane"@ + ":"@) by {
        reveal_strlit("select-pane:");
        reveal_strlit("select-pane");
    }
    assert("set-pane-title:"@ =~= "set-pane-title"@ + ":"@) by {
        reveal_strlit("set-pane-title:");
        reveal_strlit("set-pane-title");
    }
    assert("set-option:"@ =~= "set-option"@ + ":"@) by {
        reveal_strlit("set-option:");
        reveal_strlit("set-option");
    }
    assert("set-window-option:"@ =~= "set-window-option"@ + ":"@) by {
        reveal_strlit("set-window-option:");
        reveal_strlit("set-window-option");
    }
    assert("select-layout:"@ =~= "select-layout"@ + ":"@) by {
        reveal_strlit("select-layout:");
        reveal_strlit("select-layout");
    }
    assert("select-window:"@ =~= "select-window"@ + ":"@) by {
        reveal_strlit("select-window:");
        reveal_strlit("select-window");
    }
    assert("attach-or-switch:"@ =~= "attach-or-switch"@ + ":"@) by {
        reveal_strlit("attach-or-switch:");
        reveal_strlit("attach-or-switch");
    }
    assert("kill-session:"@ =~= "kill-session"@ + ":"@) by {
        reveal_strlit("kill-session:");
        reveal_strlit("kill-session");
    }
    assert("rename-session:"@ =~= "rename-session"@ + ":"@) by {
        reveal_strlit("rename-session:");
        reveal_strlit("rename-session");
    }
    assert("capture-pane:"@ =~= "capture-pane"@ + ":"@) by {
        reveal_strlit("capture-pane:");
        reveal_strlit("capture-pane");
    }
    assert("run-command:"@ =~= "run-command"@ + ":"@) by {
        reveal_strlit("run-command:");
        reveal_strlit("run-command");
    }
}

/// The record of a request is its fields with colons between them, and then the environment that it
/// passes to the pane it creates, whichever request it is.
pub proof fn law_record_says_what_was_asked(e: Event)
    ensures
        match fields_of(e) {
            Some(fields) => recording::record_of(e) == Some(
                text::join(fields, ":"@) + recorded_env(command_laws::env_of(e.call)),
            ),
            None => recording::record_of(e) is None,
        },
{
    let id = backend::reply_text(e.reply);
    let env = command_laws::env_of(e.call);
    lemma_verbs();
    assert(env.map_values(|ev: (Text, Text)| recording::env_pair(ev)) =~= Seq::new(
        env.len(),
        |k: int| env[k].0 + "="@ + env[k].1,
    ));
    if let Some(fields) = fields_of(e) {
        let all = text::join(fields, ":"@);
        if !backend::creates_pane(e.call) {
            assert(all + recorded_env(env) =~= all);
        }
        match e.call {
            Call::NewSession { name, root, window, env: _ } => {
                lemma_five("new-session"@, name, root, window, id);
            },
            Call::SplitWindow { pane, flag, pct, root, env: _ } => {
                lemma_six(
                    "split-window"@,
                    pane,
                    if flag is Horizontal {
                        "-h"@
                    } else {
                        "-v"@
                    },
                    text::decimal(pct as nat),
                    root,
                    id,
                );
            },
            Call::NewWindow { session, name, root, env: _ } => {
                lemma_five("new-window"@, session, name, root, id);
            },
            Call::SetWindowOption { session, window, key, value } => {
                lemma_five("set-window-option"@, session, window, key, value);
            },
            Call::SetOption { session, key, value } => {
                lemma_four("set-option"@, session, key, value);
            },
            Call::SelectLayout { session, window, preset } => {
                lemma_four("select-layout"@, session, window, preset);
            },
            _ => {
                if fields.len() == 2 {
                    lemma_two(fields[0], fields[1]);
                    assert(fields =~= seq![fields[0], fields[1]]);
                } else {
                    lemma_three(fields[0], fields[1], fields[2]);
                    assert(fields =~= seq![fields[0], fields[1], fields[2]]);
                }
            },
        }
    }
}

/// The records of two stretches of a history, one after the other.
pub proof fn law_records_are_in_order(a: Seq<Event>, b: Seq<Event>)
    ensures
        recording::records(a + b) == recording::records(a) + recording::records(b),
    decreases b.len(),
{
    if b.len() == 0 {
        assert(a + b =~= a);
        assert(recording::records(a) + Seq::<Text>::empty() =~= recording::records(a));
    } else {
        assert((a + b).drop_last() =~= a + b.drop_last());
        law_records_are_in_order(a, b.drop_last());
        assert(recording::records(a + b) =~= recording::records(a) + recording::records(b));
    }
}

/// Every event adds its record, and nothing else is recorded.
pub proof fn law_every_event_adds_its_record(h: Seq<Event>, e: Event)
    ensures
        recording::records(h.push(e)) == (match recording::record_of(e) {
            Some(record) => recording::records(h).push(record),
            None => recording::records(h),
        }),
        recording::records(Seq::empty()) == Seq::<Text>::empty(),
{
    assert(h.push(e).drop_last() =~= h);
}

// ─── Answers ─────────────────────────────────────────────────────────────────

/// The request at `j` is the last one before `i` that ends or renames a session.
pub open spec fn last_change(next: Seq<Event>, j: int, i: int) -> bool {
    &&& 0 <= j < i
    &&& next[j].call is KillSession || next[j].call is RenameSession
    &&& forall|k: int|
        j < k < i ==> !((#[trigger] next[k]).call is KillSession) && !(
        next[k].call is RenameSession)
}

/// A recording backend answers whether a session exists as it was told, until one is ended, when it
/// answers no, or renamed, when it answers yes.
pub proof fn law_recorded_sessions_exist_until_they_are_ended(a: Answers, next: Seq<Event>, i: int)
    requires
        a.give(next),
        0 <= i < next.len(),
        next[i].call is HasSession,
    ensures
        (forall|k: int|
            0 <= k < i ==> !((#[trigger] next[k]).call is KillSession) && !(
            next[k].call is RenameSession)) ==> next[i].reply == Reply::Answer(a.session_exists),
        forall|j: int| #[trigger]
            last_change(next, j, i) ==> next[i].reply == Reply::Answer(
                next[j].call is RenameSession,
            ),
    decreases next.len(),
{
    if i > 0 {
        let rest = next.skip(1);
        let b = a.after(next[0].call);
        assert(rest[i - 1] == next[i]);
        law_recorded_sessions_exist_until_they_are_ended(b, rest, i - 1);
        assert forall|k: int| 0 <= k < rest.len() implies #[trigger] rest[k] == next[k + 1] by {}
        if forall|k: int|
            0 <= k < i ==> !((#[trigger] next[k]).call is KillSession) && !(
            next[k].call is RenameSession) {
            assert(!(next[0].call is KillSession));
            assert forall|k: int| 0 <= k < i - 1 implies !((
            #[trigger] rest[k]).call is KillSession) && !(rest[k].call is RenameSession) by {
                assert(rest[k] == next[k + 1]);
            }
        }
        assert forall|j: int| #[trigger] last_change(next, j, i) implies next[i].reply
            == Reply::Answer(next[j].call is RenameSession) by {
            if j > 0 {
                assert forall|k: int| j - 1 < k < i - 1 implies !((
                #[trigger] rest[k]).call is KillSession) && !(rest[k].call is RenameSession) by {
                    assert(rest[k] == next[k + 1]);
                }
                assert(rest[j - 1] == next[j]);
                assert(last_change(rest, j - 1, i - 1));
            } else {
                assert forall|k: int| 0 <= k < i - 1 implies !((
                #[trigger] rest[k]).call is KillSession) && !(rest[k].call is RenameSession) by {
                    assert(rest[k] == next[k + 1]);
                }
            }
        }
    }
}

/// A recording backend answers every request with success: a new pane gets the next number, a look
/// at a pane shows the text that it was told, and a built-in variable has the value that it was
/// told.
pub proof fn law_recorded_requests_succeed(a: Answers, next: Seq<Event>, i: int)
    requires
        a.give(next),
        0 <= i < next.len(),
        !(next[i].call is HasSession),
    ensures
        match next[i].call {
            Call::CapturePane { .. } => next[i].reply == Reply::Outcome(Ok(a.capture_output)),
            Call::BuiltinValue { var } => next[i].reply == Reply::Outcome(
                Ok(
                    match var {
                        BuiltinVar::Cwd => a.cwd,
                        BuiltinVar::Date => a.date,
                        BuiltinVar::GitBranch => a.git_branch,
                    },
                ),
            ),
            call => next[i].reply == Reply::Outcome(
                Ok(
                    if backend::creates_pane(call) {
                        "%"@ + text::decimal(
                            a.pane_count + backend::created_panes(next.take(i)).len(),
                        )
                    } else {
                        Seq::empty()
                    },
                ),
            ),
        },
    decreases next.len(),
{
    if i == 0 {
        assert(next.take(0) =~= Seq::<Event>::empty());
    } else {
        let rest = next.skip(1);
        let b = a.after(next[0].call);
        assert(rest[i - 1] == next[i]);
        law_recorded_requests_succeed(b, rest, i - 1);
        agreement::lemma_created_add(next, 0, 1, i);
        agreement::lemma_created_one(next, 0);
        assert(next.subrange(0, i) =~= next.take(i));
        assert(next.subrange(1, i) =~= rest.take(i - 1));
    }
}

} // verus!
