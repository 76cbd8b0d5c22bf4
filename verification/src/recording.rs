//! A backend that records what it is asked instead of doing it.

use crate::backend;
use crate::backend::{Call, Event, Reply, TmuxBackend};
use crate::checks;
use crate::error::Error;
use crate::model;
use crate::model::{EnvVar, TmuxSplitFlag};
use crate::ratio::TmuxPanePercent;
use crate::template::BuiltinVar;
use crate::text;
use crate::text::Text;
use crate::words::{
    PaneCommand, PaneId, PaneTitle, ResolvedTmuxArg, ShellCommand, TmuxLayoutPreset, TmuxName,
    TmuxOptionName, TmuxOptionValue,
};
use vstd::prelude::*;
use vstd::string::*;

verus! {

// ─── What is recorded ────────────────────────────────────────────────────────

/// The name and value of an environment variable.
pub open spec fn env_pair(ev: (Text, Text)) -> Text {
    ev.0 + "="@ + ev.1
}

/// What the environment adds to a record: nothing if it is empty.
pub open spec fn env_suffix(env: Seq<(Text, Text)>) -> Text {
    if env.len() == 0 {
        Seq::empty()
    } else {
        ":env:"@ + text::join(env.map_values(|ev: (Text, Text)| env_pair(ev)), ","@)
    }
}

/// The record of an event. The values of built-in variables and pauses are not recorded.
pub open spec fn record_of(e: Event) -> Option<Text> {
    match e.call {
        Call::HasSession { name } => Some("has-session:"@ + name),
        Call::NewSession { name, root, window, env } => Some(
            "new-session:"@ + name + ":"@ + root + ":"@ + window + ":"@ + backend::reply_text(e.reply)
                + env_suffix(env),
        ),
        Call::SplitWindow { pane, flag, pct, root, env } => Some(
            "split-window:"@ + pane + ":"@ + model::flag_text(flag) + ":"@ + text::decimal(
                pct as nat,
            ) + ":"@ + root + ":"@ + backend::reply_text(e.reply) + env_suffix(env),
        ),
        Call::NewWindow { session, name, root, env } => Some(
            "new-window:"@ + session + ":"@ + name + ":"@ + root + ":"@ + backend::reply_text(e.reply)
                + env_suffix(env),
        ),
        Call::SendKeys { pane, keys } => Some("send-keys:"@ + pane + ":"@ + keys),
        Call::SelectPane { pane } => Some("select-pane:"@ + pane),
        Call::SetPaneTitle { pane, title } => Some("set-pane-title:"@ + pane + ":"@ + title),
        Call::SetOption { session, key, value } => Some(
            "set-option:"@ + session + ":"@ + key + ":"@ + value,
        ),
        Call::SetWindowOption { session, window, key, value } => Some(
            "set-window-option:"@ + session + ":"@ + window + ":"@ + key + ":"@ + value,
        ),
        Call::SelectLayout { session, window, preset } => Some(
            "select-layout:"@ + session + ":"@ + window + ":"@ + preset,
        ),
        Call::SelectWindow { session, window } => Some(
            "select-window:"@ + session + ":"@ + window,
        ),
        Call::AttachOrSwitch { session } => Some("attach-or-switch:"@ + session),
        Call::KillSession { name } => Some("kill-session:"@ + name),
        Call::RenameSession { from, to } => Some("rename-session:"@ + from + ":"@ + to),
        Call::CapturePane { pane } => Some("capture-pane:"@ + pane),
        Call::RunCommand { command } => Some("run-command:"@ + command),
        Call::BuiltinValue { var } => None,
        Call::Pause => None,
    }
}

/// The records of a history.
pub open spec fn records(h: Seq<Event>) -> Seq<Text>
    decreases h.len(),
{
    if h.len() == 0 {
        Seq::empty()
    } else {
        match record_of(h.last()) {
            Some(record) => records(h.drop_last()).push(record),
            None => records(h.drop_last()),
        }
    }
}

/// The id of the `n`-th pane that is handed out.
pub open spec fn nth_pane(n: nat) -> Text {
    "%"@ + text::decimal(n)
}

/// The ids of the first `n` panes that are handed out.
pub open spec fn first_panes(n: nat) -> Seq<Text> {
    Seq::new(n, |k: int| nth_pane(k as nat))
}

// ─── The log ─────────────────────────────────────────────────────────────────

/// The records of a history, kept beside it, and the panes that were handed out.
struct CallLog {
    calls: Vec<String>,
    panes: Vec<PaneId>,
    events: Ghost<Seq<Event>>,
}

impl CallLog {
    /// The log holds the record of every event, and nothing else. No request has failed, and the
    /// panes that were created are numbered in order.
    #[verifier::type_invariant]
    spec fn wf(&self) -> bool {
        &&& text::views(self.calls@) == records(self.events@)
        &&& forall|i: int|
            0 <= i < self.events@.len() ==> backend::succeeds((#[trigger] self.events@[i]).reply)
        &&& backend::created_panes(self.events@) == first_panes(self.panes@.len())
    }

    fn new() -> (r: CallLog)
        ensures
            r.events@ == Seq::<Event>::empty(),
            r.panes@.len() == 0,
    {
        let calls: Vec<String> = Vec::new();
        let panes: Vec<PaneId> = Vec::new();
        assert(text::views(calls@) == records(Seq::empty()));
        assert(backend::created_panes(Seq::empty()) == first_panes(0));
        CallLog { calls, panes, events: Ghost(Seq::empty()) }
    }

    /// Adds an event with the given record, which creates no pane.
    fn add_call(&mut self, record: String, Ghost(e): Ghost<Event>)
        requires
            record_of(e) == Some(record@),
            backend::succeeds(e.reply),
            !backend::creates_pane(e.call),
        ensures
            final(self).events@ == old(self).events@.push(e),
            final(self).panes@.len() == old(self).panes@.len(),
    {
        let mut log = CallLog::new();
        std::mem::swap(&mut log, self);
        proof {
            use_type_invariant(&log);
        }
        let ghost events = log.events@;
        let ghost before = log.calls@;
        let mut calls = log.calls;
        calls.push(record);
        proof {
            assert(text::views(calls@) == text::views(before).push(record@));
            assert(events.push(e).drop_last() == events);
        }
        *self = CallLog { calls, panes: log.panes, events: Ghost(events.push(e)) };
    }

    /// Adds an event with the given record, which creates the next pane.
    fn add_pane(&mut self, record: String, id: PaneId, Ghost(call): Ghost<Call>)
        requires
            record_of(backend::outcome_of(call, Ok(id@))) == Some(record@),
            id@ == nth_pane(old(self).panes@.len()),
            backend::creates_pane(call),
        ensures
            final(self).events@ == old(self).events@.push(backend::outcome_of(call, Ok(id@))),
            final(self).panes@.len() == old(self).panes@.len() + 1,
    {
        let mut log = CallLog::new();
        std::mem::swap(&mut log, self);
        proof {
            use_type_invariant(&log);
        }
        let ghost e = backend::outcome_of(call, Ok(id@));
        let ghost events = log.events@;
        let ghost before = log.calls@;
        let ghost count = log.panes@.len();
        let mut calls = log.calls;
        let mut panes = log.panes;
        calls.push(record);
        panes.push(id);
        proof {
            assert(text::views(calls@) == text::views(before).push(record@));
            assert(events.push(e).drop_last() == events);
            assert(first_panes(count + 1) == first_panes(count).push(nth_pane(count)));
        }
        *self = CallLog { calls, panes, events: Ghost(events.push(e)) };
    }

    /// Adds an event that has no record.
    fn add_silent(&mut self, Ghost(e): Ghost<Event>)
        requires
            record_of(e) is None,
            backend::succeeds(e.reply),
        ensures
            final(self).events@ == old(self).events@.push(e),
            final(self).panes@.len() == old(self).panes@.len(),
    {
        let mut log = CallLog::new();
        std::mem::swap(&mut log, self);
        proof {
            use_type_invariant(&log);
        }
        let ghost events = log.events@;
        proof {
            assert(events.push(e).drop_last() == events);
        }
        *self = CallLog { calls: log.calls, panes: log.panes, events: Ghost(events.push(e)) };
    }
}

// ─── RecordingBackend ────────────────────────────────────────────────────────

/// A backend that records all requests without a tmux. It hands out the panes `%0`, `%1`, `%2`, …
/// and never fails. It looks at nothing of the machine: built-in variables have the values that it
/// was told.
pub struct RecordingBackend {
    log: CallLog,
    /// The answer to the question whether a session exists. Ending a session makes it `false`,
    /// renaming one makes it `true`.
    pub session_exists: bool,
    /// What every pane shows.
    pub capture_output: String,
    /// The value of `{{cwd}}`.
    pub cwd: String,
    /// The value of `{{date}}`.
    pub date: String,
    /// The value of `{{git_branch}}`.
    pub git_branch: String,
}

/// What a recording backend will answer.
pub struct Answers {
    pub pane_count: nat,
    pub session_exists: bool,
    pub capture_output: Text,
    pub cwd: Text,
    pub date: Text,
    pub git_branch: Text,
}

impl View for RecordingBackend {
    type V = Answers;

    closed spec fn view(&self) -> Answers {
        Answers {
            pane_count: self.log.panes@.len(),
            session_exists: self.session_exists,
            capture_output: self.capture_output@,
            cwd: self.cwd@,
            date: self.date@,
            git_branch: self.git_branch@,
        }
    }
}

impl Answers {
    /// The answers when one more pane has been handed out.
    pub open spec fn with_pane(self) -> Answers {
        Answers { pane_count: self.pane_count + 1, ..self }
    }

    /// The reply to a request.
    pub open spec fn reply_to(self, call: Call) -> Reply {
        match call {
            Call::HasSession { name: _ } => Reply::Answer(self.session_exists),
            Call::CapturePane { pane: _ } => Reply::Outcome(Ok(self.capture_output)),
            Call::BuiltinValue { var } => Reply::Outcome(Ok(self.builtin(var))),
            _ => Reply::Outcome(
                Ok(
                    if backend::creates_pane(call) {
                        nth_pane(self.pane_count)
                    } else {
                        Seq::empty()
                    },
                ),
            ),
        }
    }

    /// The answers when a request has been made.
    pub open spec fn after(self, call: Call) -> Answers {
        if backend::creates_pane(call) {
            self.with_pane()
        } else if call is KillSession {
            Answers { session_exists: false, ..self }
        } else if call is RenameSession {
            Answers { session_exists: true, ..self }
        } else {
            self
        }
    }

    /// The answers give the replies of `next`, one after the other.
    pub open spec fn give(self, next: Seq<Event>) -> bool
        decreases next.len(),
    {
        next.len() == 0 || (next[0].reply == self.reply_to(next[0].call) && self.after(
            next[0].call,
        ).give(next.skip(1)))
    }

    /// The value of a built-in variable.
    pub open spec fn builtin(self, var: BuiltinVar) -> Text {
        match var {
            BuiltinVar::Cwd => self.cwd,
            BuiltinVar::Date => self.date,
            BuiltinVar::GitBranch => self.git_branch,
        }
    }
}

/// The answers of a backend that has not been told otherwise.
pub open spec fn no_answers() -> Answers {
    Answers {
        pane_count: 0,
        session_exists: false,
        capture_output: Seq::empty(),
        cwd: Seq::empty(),
        date: Seq::empty(),
        git_branch: Seq::empty(),
    }
}

/// One reply, then the others.
broadcast proof fn lemma_give_first(a: Answers, e: Event, next: Seq<Event>)
    ensures
        #[trigger] a.give(seq![e] + next) <==> e.reply == a.reply_to(e.call) && a.after(e.call).give(
            next,
        ),
{
    assert((seq![e] + next).skip(1) == next);
}

proof fn lemma_nth_pane(n: nat)
    ensures
        checks::valid_pane_id(nth_pane(n)),
{
    reveal_strlit("%");
    text::lemma_decimal_digits(n);
    let s = nth_pane(n);
    assert forall|i: int| 1 <= i < s.len() implies text::is_digit(#[trigger] s[i]) by {
        assert(s[i] == text::decimal(n)[i - 1]);
    }
}

/// What the environment adds to a record.
fn env_suffix_string(env: &[EnvVar]) -> (r: String)
    ensures
        r@ == env_suffix(model::env_views(env@)),
{
    if env.len() == 0 {
        return String::new();
    }
    let ghost texts = model::env_views(env@).map_values(|ev: (Text, Text)| env_pair(ev));
    let mut pairs: Vec<String> = Vec::new();
    for i in 0..env.len()
        invariant
            texts == model::env_views(env@).map_values(|ev: (Text, Text)| env_pair(ev)),
            text::views(pairs@) == texts.take(i as int),
    {
        let ghost before = pairs@;
        pairs.push(env[i].key.as_str().to_owned().concat("=").concat(env[i].value.as_str()));
        assert(text::views(pairs@) == text::views(before).push(texts[i as int]));
        assert(text::views(pairs@) == texts.take(i + 1));
    }
    assert(texts.take(texts.len() as int) == texts);
    ":env:".to_owned().concat(text::join_strings(&pairs, ",").as_str())
}

impl Default for RecordingBackend {
    fn default() -> (r: RecordingBackend)
        ensures
            r.history() == Seq::<Event>::empty(),
            r@ == no_answers(),
    {
        RecordingBackend {
            log: CallLog::new(),
            session_exists: false,
            capture_output: String::new(),
            cwd: String::new(),
            date: String::new(),
            git_branch: String::new(),
        }
    }
}

impl RecordingBackend {
    /// A backend that has recorded nothing.
    pub fn new() -> (r: RecordingBackend)
        ensures
            r.history() == Seq::<Event>::empty(),
            r@ == no_answers(),
    {
        RecordingBackend::default()
    }

    /// The records of all requests so far.
    pub fn calls(&self) -> (r: Vec<String>)
        ensures
            text::views(r@) == records(self.history()),
            forall|i: int|
                0 <= i < self.history().len() ==> backend::succeeds(
                    (#[trigger] self.history()[i]).reply,
                ),
            backend::created_panes(self.history()) == first_panes(self@.pane_count),
    {
        let mut out: Vec<String> = Vec::new();
        for i in 0..self.log.calls.len()
            invariant
                out@ == self.log.calls@.take(i as int),
        {
            out.push(self.log.calls[i].clone());
        }
        proof {
            use_type_invariant(&self.log);
            assert(out@ == self.log.calls@);
        }
        out
    }

    /// The id of the next pane.
    fn next_pane(&self) -> (r: Result<PaneId, Error>)
        ensures
            r matches Ok(id) && id@ == nth_pane(self@.pane_count),
    {
        proof {
            lemma_nth_pane(self.log.panes@.len());
        }
        PaneId::new(
            "%".to_owned().concat(text::decimal_string(self.log.panes.len() as u64).as_str()).as_str(),
        )
    }
}

impl TmuxBackend for RecordingBackend {
    closed spec fn history(&self) -> Seq<Event> {
        self.log.events@
    }

    /// A recording backend knows all its replies.
    open spec fn admits(&self, next: Seq<Event>) -> bool {
        self@.give(next)
    }

    fn has_session(&mut self, name: &TmuxName) -> (r: bool)
        ensures
            r == old(self)@.session_exists,
            final(self)@ == old(self)@,
    {
        broadcast use lemma_give_first;

        let exists: bool = self.session_exists;
        self.log.add_call(
            "has-session:".to_owned().concat(name.as_str()),
            Ghost(Event { call: Call::HasSession { name: name@ }, reply: Reply::Answer(exists) }),
        );
        exists
    }

    fn new_session_with_env(
        &mut self,
        name: &TmuxName,
        root: &ResolvedTmuxArg,
        window_name: &TmuxName,
        env: &[EnvVar],
    ) -> (r: Result<PaneId, Error>)
        ensures
            r matches Ok(id) && id@ == nth_pane(old(self)@.pane_count),
            final(self)@ == old(self)@.with_pane(),
    {
        broadcast use lemma_give_first;

        let id = self.next_pane()?;
        self.log.add_pane(
            "new-session:".to_owned()
                .concat(name.as_str())
                .concat(":")
                .concat(root.as_str())
                .concat(":")
                .concat(window_name.as_str())
                .concat(":")
                .concat(id.as_str())
                .concat(env_suffix_string(env).as_str()),
            id.clone(),
            Ghost(
                Call::NewSession {
                    name: name@,
                    root: root@,
                    window: window_name@,
                    env: model::env_views(env@),
                },
            ),
        );
        Ok(id)
    }

    fn split_window_with_env(
        &mut self,
        pane_id: &PaneId,
        flag: TmuxSplitFlag,
        pct: TmuxPanePercent,
        root: &ResolvedTmuxArg,
        env: &[EnvVar],
    ) -> (r: Result<PaneId, Error>)
        ensures
            r matches Ok(id) && id@ == nth_pane(old(self)@.pane_count),
            final(self)@ == old(self)@.with_pane(),
    {
        broadcast use lemma_give_first;

        let id = self.next_pane()?;
        self.log.add_pane(
            "split-window:".to_owned()
                .concat(pane_id.as_str())
                .concat(":")
                .concat(flag.as_str())
                .concat(":")
                .concat(text::decimal_string(pct.as_u32() as u64).as_str())
                .concat(":")
                .concat(root.as_str())
                .concat(":")
                .concat(id.as_str())
                .concat(env_suffix_string(env).as_str()),
            id.clone(),
            Ghost(
                Call::SplitWindow {
                    pane: pane_id@,
                    flag,
                    pct: pct@,
                    root: root@,
                    env: model::env_views(env@),
                },
            ),
        );
        Ok(id)
    }

    fn new_window_with_env(
        &mut self,
        session: &TmuxName,
        name: &TmuxName,
        root: &ResolvedTmuxArg,
        env: &[EnvVar],
    ) -> (r: Result<PaneId, Error>)
        ensures
            r matches Ok(id) && id@ == nth_pane(old(self)@.pane_count),
            final(self)@ == old(self)@.with_pane(),
    {
        broadcast use lemma_give_first;

        let id = self.next_pane()?;
        self.log.add_pane(
            "new-window:".to_owned()
                .concat(session.as_str())
                .concat(":")
                .concat(name.as_str())
                .concat(":")
                .concat(root.as_str())
                .concat(":")
                .concat(id.as_str())
                .concat(env_suffix_string(env).as_str()),
            id.clone(),
            Ghost(
                Call::NewWindow {
                    session: session@,
                    name: name@,
                    root: root@,
                    env: model::env_views(env@),
                },
            ),
        );
        Ok(id)
    }

    fn send_keys(&mut self, pane_id: &PaneId, keys: &PaneCommand) -> (r: Result<(), Error>)
        ensures
            r is Ok,
            final(self)@ == old(self)@,
    {
        broadcast use lemma_give_first;

        self.log.add_call(
            "send-keys:".to_owned().concat(pane_id.as_str()).concat(":").concat(keys.as_str()),
            Ghost(
                backend::outcome_of(
                    (Call::SendKeys { pane: pane_id@, keys: keys@ }),
                    Ok(Seq::empty()),
                ),
            ),
        );
        Ok(())
    }

    fn select_pane(&mut self, pane_id: &PaneId) -> (r: Result<(), Error>)
        ensures
            r is Ok,
            final(self)@ == old(self)@,
    {
        broadcast use lemma_give_first;

        self.log.add_call(
            "select-pane:".to_owned().concat(pane_id.as_str()),
            Ghost(backend::outcome_of((Call::SelectPane { pane: pane_id@ }), Ok(Seq::empty()))),
        );
        Ok(())
    }

    fn set_pane_title(&mut self, pane_id: &PaneId, title: &PaneTitle) -> (r: Result<(), Error>)
        ensures
            r is Ok,
            final(self)@ == old(self)@,
    {
        broadcast use lemma_give_first;

        self.log.add_call(
            "set-pane-title:".to_owned()
                .concat(pane_id.as_str())
                .concat(":")
                .concat(title.as_str()),
            Ghost(
                backend::outcome_of(
                    (Call::SetPaneTitle { pane: pane_id@, title: title@ }),
                    Ok(Seq::empty()),
                ),
            ),
        );
        Ok(())
    }

    fn set_option(
        &mut self,
        session: &TmuxName,
        key: &TmuxOptionName,
        value: &TmuxOptionValue,
    ) -> (r: Result<(), Error>)
        ensures
            r is Ok,
            final(self)@ == old(self)@,
    {
        broadcast use lemma_give_first;

        self.log.add_call(
            "set-option:".to_owned()
                .concat(session.as_str())
                .concat(":")
                .concat(key.as_str())
                .concat(":")
                .concat(value.as_str()),
            Ghost(
                backend::outcome_of(
                    (Call::SetOption { session: session@, key: key@, value: value@ }),
                    Ok(Seq::empty()),
                ),
            ),
        );
        Ok(())
    }

    fn set_window_option(
        &mut self,
        session: &TmuxName,
        window: &TmuxName,
        key: &TmuxOptionName,
        value: &TmuxOptionValue,
    ) -> (r: Result<(), Error>)
        ensures
            r is Ok,
            final(self)@ == old(self)@,
    {
        broadcast use lemma_give_first;

        self.log.add_call(
            "set-window-option:".to_owned()
                .concat(session.as_str())
                .concat(":")
                .concat(window.as_str())
                .concat(":")
                .concat(key.as_str())
                .concat(":")
                .concat(value.as_str()),
            Ghost(
                backend::outcome_of(
                    (Call::SetWindowOption {
                        session: session@,
                        window: window@,
                        key: key@,
                        value: value@,
                    }),
                    Ok(Seq::empty()),
                ),
            ),
        );
        Ok(())
    }

    fn select_layout(
        &mut self,
        session: &TmuxName,
        window: &TmuxName,
        preset: &TmuxLayoutPreset,
    ) -> (r: Result<(), Error>)
        ensures
            r is Ok,
            final(self)@ == old(self)@,
    {
        broadcast use lemma_give_first;

        self.log.add_call(
            "select-layout:".to_owned()
                .concat(session.as_str())
                .concat(":")
                .concat(window.as_str())
                .concat(":")
                .concat(preset.as_str()),
            Ghost(
                backend::outcome_of(
                    (Call::SelectLayout { session: session@, window: window@, preset: preset@ }),
                    Ok(Seq::empty()),
                ),
            ),
        );
        Ok(())
    }

    fn select_window(&mut self, session: &TmuxName, window: &TmuxName) -> (r: Result<(), Error>)
        ensures
            r is Ok,
            final(self)@ == old(self)@,
    {
        broadcast use lemma_give_first;

        self.log.add_call(
            "select-window:".to_owned()
                .concat(session.as_str())
                .concat(":")
                .concat(window.as_str()),
            Ghost(
                backend::outcome_of(
                    (Call::SelectWindow { session: session@, window: window@ }),
                    Ok(Seq::empty()),
                ),
            ),
        );
        Ok(())
    }

    fn attach_or_switch(&mut self, session: &TmuxName) -> (r: Result<(), Error>)
        ensures
            r is Ok,
            final(self)@ == old(self)@,
    {
        broadcast use lemma_give_first;

        self.log.add_call(
            "attach-or-switch:".to_owned().concat(session.as_str()),
            Ghost(
                backend::outcome_of((Call::AttachOrSwitch { session: session@ }), Ok(Seq::empty())),
            ),
        );
        Ok(())
    }

    fn kill_session(&mut self, name: &TmuxName) -> (r: Result<(), Error>)
        ensures
            r is Ok,
            final(self)@ == (Answers { session_exists: false, ..old(self)@ }),
    {
        broadcast use lemma_give_first;

        self.log.add_call(
            "kill-session:".to_owned().concat(name.as_str()),
            Ghost(backend::outcome_of((Call::KillSession { name: name@ }), Ok(Seq::empty()))),
        );
        self.session_exists = false;
        Ok(())
    }

    fn rename_session(&mut self, from: &TmuxName, to: &TmuxName) -> (r: Result<(), Error>)
        ensures
            r is Ok,
            final(self)@ == (Answers { session_exists: true, ..old(self)@ }),
    {
        broadcast use lemma_give_first;

        self.log.add_call(
            "rename-session:".to_owned().concat(from.as_str()).concat(":").concat(to.as_str()),
            Ghost(
                backend::outcome_of(
                    (Call::RenameSession { from: from@, to: to@ }),
                    Ok(Seq::empty()),
                ),
            ),
        );
        self.session_exists = true;
        Ok(())
    }

    fn capture_pane(&mut self, pane_id: &PaneId) -> (r: Result<String, Error>)
        ensures
            r matches Ok(s) && s@ == old(self)@.capture_output,
            final(self)@ == old(self)@,
    {
        broadcast use lemma_give_first;

        let output = self.capture_output.clone();
        self.log.add_call(
            "capture-pane:".to_owned().concat(pane_id.as_str()),
            Ghost(backend::outcome_of((Call::CapturePane { pane: pane_id@ }), Ok(output@))),
        );
        Ok(output)
    }

    fn run_command(&mut self, cmd: &ShellCommand) -> (r: Result<(), Error>)
        ensures
            r is Ok,
            final(self)@ == old(self)@,
    {
        broadcast use lemma_give_first;

        self.log.add_call(
            "run-command:".to_owned().concat(cmd.as_str()),
            Ghost(backend::outcome_of((Call::RunCommand { command: cmd@ }), Ok(Seq::empty()))),
        );
        Ok(())
    }

    fn builtin_value(&mut self, var: BuiltinVar) -> (r: Result<String, Error>)
        ensures
            r matches Ok(s) && s@ == old(self)@.builtin(var),
            final(self)@ == old(self)@,
    {
        broadcast use lemma_give_first;

        let value = match var {
            BuiltinVar::Cwd => self.cwd.clone(),
            BuiltinVar::Date => self.date.clone(),
            BuiltinVar::GitBranch => self.git_branch.clone(),
        };
        self.log.add_silent(Ghost(backend::outcome_of((Call::BuiltinValue { var }), Ok(value@))));
        Ok(value)
    }

    fn pause(&mut self)
        ensures
            final(self)@ == old(self)@,
    {
        broadcast use lemma_give_first;

        self.log.add_silent(Ghost(backend::outcome_of(Call::Pause, Ok(Seq::empty()))));
    }
}

// ─── A recording backend at two times ────────────────────────────────────────

/// Whatever a recording backend has been asked since `before`, also by an executor: what came back
/// is what `before` answers, one reply after the other.
pub proof fn law_replies_are_the_answers(before: RecordingBackend, after: RecordingBackend)
    requires
        backend::follows(before, after),
    ensures
        before.history().len() <= after.history().len(),
        after.history().take(before.history().len() as int) == before.history(),
        before@.give(after.history().skip(before.history().len() as int)),
{
    reveal(backend::follows);
    let since = after.history().skip(before.history().len() as int);
    assert(after.admits(Seq::empty()));
    assert(since + Seq::<Event>::empty() == since);
}

} // verus!
