//! What the executor asks of tmux and of the machine, and the history of what was asked.

use crate::error::Error;
use crate::model;
use crate::model::{EnvVar, TmuxSplitFlag};
use crate::ratio::TmuxPanePercent;
use crate::template::BuiltinVar;
use crate::text::Text;
use crate::words::{
    PaneCommand, PaneId, PaneTitle, ResolvedTmuxArg, ShellCommand, TmuxLayoutPreset, TmuxName,
    TmuxOptionName, TmuxOptionValue,
};
use vstd::prelude::*;

verus! {

// ─── History ─────────────────────────────────────────────────────────────────

/// One request to a backend, with everything that is handed over.
pub enum Call {
    HasSession { name: Text },
    NewSession { name: Text, root: Text, window: Text, env: Seq<(Text, Text)> },
    SplitWindow { pane: Text, flag: TmuxSplitFlag, pct: int, root: Text, env: Seq<(Text, Text)> },
    NewWindow { session: Text, name: Text, root: Text, env: Seq<(Text, Text)> },
    SendKeys { pane: Text, keys: Text },
    SelectPane { pane: Text },
    SetPaneTitle { pane: Text, title: Text },
    SetOption { session: Text, key: Text, value: Text },
    SetWindowOption { session: Text, window: Text, key: Text, value: Text },
    SelectLayout { session: Text, window: Text, preset: Text },
    SelectWindow { session: Text, window: Text },
    AttachOrSwitch { session: Text },
    KillSession { name: Text },
    RenameSession { from: Text, to: Text },
    CapturePane { pane: Text },
    RunCommand { command: Text },
    BuiltinValue { var: BuiltinVar },
    Pause,
}

/// What came back: a yes or no, or a success with a text (empty where there is nothing to say) or a
/// failure with its messages.
pub enum Reply {
    Answer(bool),
    Outcome(Result<Text, Seq<Text>>),
}

/// A request and what came back.
pub struct Event {
    pub call: Call,
    pub reply: Reply,
}

/// The reply of a request that gives back nothing but success or failure.
pub open spec fn done(r: Result<(), Error>) -> Result<Text, Seq<Text>> {
    match r {
        Ok(_) => Ok(Seq::empty()),
        Err(e) => Err(e@),
    }
}

/// The reply of a request that gives back a pane.
pub open spec fn pane_reply(r: Result<PaneId, Error>) -> Result<Text, Seq<Text>> {
    match r {
        Ok(id) => Ok(id@),
        Err(e) => Err(e@),
    }
}

/// The reply of a request that gives back a text.
pub open spec fn text_reply(r: Result<String, Error>) -> Result<Text, Seq<Text>> {
    match r {
        Ok(s) => Ok(s@),
        Err(e) => Err(e@),
    }
}

/// The event of a request that gives back an outcome.
pub open spec fn outcome_of(call: Call, outcome: Result<Text, Seq<Text>>) -> Event {
    Event { call, reply: Reply::Outcome(outcome) }
}

/// A request that creates a pane.
pub open spec fn creates_pane(call: Call) -> bool {
    call is NewSession || call is SplitWindow || call is NewWindow
}

/// The reply is no failure.
pub open spec fn succeeds(reply: Reply) -> bool {
    reply matches Reply::Outcome(outcome) ==> outcome is Ok
}

/// The text in a reply.
pub open spec fn reply_text(reply: Reply) -> Text {
    match reply {
        Reply::Outcome(Ok(t)) => t,
        _ => Seq::empty(),
    }
}

/// The ids of the panes that were created, in order.
pub open spec fn created_panes(h: Seq<Event>) -> Seq<Text>
    decreases h.len(),
{
    if h.len() == 0 {
        Seq::empty()
    } else if creates_pane(h.last().call) {
        created_panes(h.drop_last()).push(reply_text(h.last().reply))
    } else {
        created_panes(h.drop_last())
    }
}

// ─── Backend ─────────────────────────────────────────────────────────────────

/// Something that builds tmux sessions. Every request is added to the history, together with what
/// came back. What comes back is up to the backend: [`TmuxBackend::admits`] is what it knows of it
/// beforehand.
pub trait TmuxBackend {
    /// All requests so far. A backend of which the contracts below are proved says what its
    /// history is; the default is for backends that nobody proves anything of, which cannot name
    /// ghost types.
    closed spec fn history(&self) -> Seq<Event> {
        Seq::empty()
    }

    /// Whether `next` is what the backend, as it is now, may be asked and reply next. A backend
    /// that knows its replies beforehand says so here; by default anything may come.
    closed spec fn admits(&self, next: Seq<Event>) -> bool {
        true
    }

    /// Whether a session of that name exists.
    fn has_session(&mut self, name: &TmuxName) -> (r: bool)
        ensures
            final(self).history() == old(self).history().push(
                (Event { call: Call::HasSession { name: name@ }, reply: Reply::Answer(r) }),
            ),
            forall|next: Seq<Event>| #[trigger]
                final(self).admits(next) ==> old(self).admits(
                    seq![final(self).history().last()] + next,
                ),
    ;

    /// Creates a detached session with one window, and gives back its pane.
    fn new_session_with_env(
        &mut self,
        name: &TmuxName,
        root: &ResolvedTmuxArg,
        window_name: &TmuxName,
        env: &[EnvVar],
    ) -> (r: Result<PaneId, Error>)
        ensures
            final(self).history() == old(self).history().push(
                outcome_of(
                    (Call::NewSession {
                        name: name@,
                        root: root@,
                        window: window_name@,
                        env: model::env_views(env@),
                    }),
                    pane_reply(r),
                ),
            ),
            forall|next: Seq<Event>| #[trigger]
                final(self).admits(next) ==> old(self).admits(
                    seq![final(self).history().last()] + next,
                ),
    ;

    /// Creates a detached session with one window and no variables in its environment.
    fn new_session(
        &mut self,
        name: &TmuxName,
        root: &ResolvedTmuxArg,
        window_name: &TmuxName,
    ) -> (r: Result<PaneId, Error>)
        ensures
            final(self).history() == old(self).history().push(
                outcome_of(
                    (Call::NewSession {
                        name: name@,
                        root: root@,
                        window: window_name@,
                        env: Seq::empty(),
                    }),
                    pane_reply(r),
                ),
            ),
            forall|next: Seq<Event>| #[trigger]
                final(self).admits(next) ==> old(self).admits(
                    seq![final(self).history().last()] + next,
                ),
    {
        let env: Vec<EnvVar> = Vec::new();
        assert(model::env_views(env@) == Seq::<(Text, Text)>::empty());
        self.new_session_with_env(name, root, window_name, env.as_slice())
    }

    /// Splits a pane, and gives back the new one.
    fn split_window_with_env(
        &mut self,
        pane_id: &PaneId,
        flag: TmuxSplitFlag,
        pct: TmuxPanePercent,
        root: &ResolvedTmuxArg,
        env: &[EnvVar],
    ) -> (r: Result<PaneId, Error>)
        ensures
            final(self).history() == old(self).history().push(
                outcome_of(
                    (Call::SplitWindow {
                        pane: pane_id@,
                        flag,
                        pct: pct@,
                        root: root@,
                        env: model::env_views(env@),
                    }),
                    pane_reply(r),
                ),
            ),
            forall|next: Seq<Event>| #[trigger]
                final(self).admits(next) ==> old(self).admits(
                    seq![final(self).history().last()] + next,
                ),
    ;

    /// Splits a pane, with no variables in the environment of the new one.
    fn split_window(
        &mut self,
        pane_id: &PaneId,
        flag: TmuxSplitFlag,
        pct: TmuxPanePercent,
        root: &ResolvedTmuxArg,
    ) -> (r: Result<PaneId, Error>)
        ensures
            final(self).history() == old(self).history().push(
                outcome_of(
                    (Call::SplitWindow {
                        pane: pane_id@,
                        flag,
                        pct: pct@,
                        root: root@,
                        env: Seq::empty(),
                    }),
                    pane_reply(r),
                ),
            ),
            forall|next: Seq<Event>| #[trigger]
                final(self).admits(next) ==> old(self).admits(
                    seq![final(self).history().last()] + next,
                ),
    {
        let env: Vec<EnvVar> = Vec::new();
        assert(model::env_views(env@) == Seq::<(Text, Text)>::empty());
        self.split_window_with_env(pane_id, flag, pct, root, env.as_slice())
    }

    /// Adds a window to a session, and gives back its pane.
    fn new_window_with_env(
        &mut self,
        session: &TmuxName,
        name: &TmuxName,
        root: &ResolvedTmuxArg,
        env: &[EnvVar],
    ) -> (r: Result<PaneId, Error>)
        ensures
            final(self).history() == old(self).history().push(
                outcome_of(
                    (Call::NewWindow {
                        session: session@,
                        name: name@,
                        root: root@,
                        env: model::env_views(env@),
                    }),
                    pane_reply(r),
                ),
            ),
            forall|next: Seq<Event>| #[trigger]
                final(self).admits(next) ==> old(self).admits(
                    seq![final(self).history().last()] + next,
                ),
    ;

    /// Adds a window to a session, with no variables in its environment.
    fn new_window(
        &mut self,
        session: &TmuxName,
        name: &TmuxName,
        root: &ResolvedTmuxArg,
    ) -> (r: Result<PaneId, Error>)
        ensures
            final(self).history() == old(self).history().push(
                outcome_of(
                    (Call::NewWindow {
                        session: session@,
                        name: name@,
                        root: root@,
                        env: Seq::empty(),
                    }),
                    pane_reply(r),
                ),
            ),
            forall|next: Seq<Event>| #[trigger]
                final(self).admits(next) ==> old(self).admits(
                    seq![final(self).history().last()] + next,
                ),
    {
        let env: Vec<EnvVar> = Vec::new();
        assert(model::env_views(env@) == Seq::<(Text, Text)>::empty());
        self.new_window_with_env(session, name, root, env.as_slice())
    }

    /// Types a command line into a pane.
    fn send_keys(&mut self, pane_id: &PaneId, keys: &PaneCommand) -> (r: Result<(), Error>)
        ensures
            final(self).history() == old(self).history().push(
                outcome_of((Call::SendKeys { pane: pane_id@, keys: keys@ }), done(r)),
            ),
            forall|next: Seq<Event>| #[trigger]
                final(self).admits(next) ==> old(self).admits(
                    seq![final(self).history().last()] + next,
                ),
    ;

    /// Moves the focus to a pane.
    fn select_pane(&mut self, pane_id: &PaneId) -> (r: Result<(), Error>)
        ensures
            final(self).history() == old(self).history().push(
                outcome_of((Call::SelectPane { pane: pane_id@ }), done(r)),
            ),
            forall|next: Seq<Event>| #[trigger]
                final(self).admits(next) ==> old(self).admits(
                    seq![final(self).history().last()] + next,
                ),
    ;

    /// Gives a pane a title.
    fn set_pane_title(&mut self, pane_id: &PaneId, title: &PaneTitle) -> (r: Result<(), Error>)
        ensures
            final(self).history() == old(self).history().push(
                outcome_of((Call::SetPaneTitle { pane: pane_id@, title: title@ }), done(r)),
            ),
            forall|next: Seq<Event>| #[trigger]
                final(self).admits(next) ==> old(self).admits(
                    seq![final(self).history().last()] + next,
                ),
    ;

    /// Sets a session option.
    fn set_option(
        &mut self,
        session: &TmuxName,
        key: &TmuxOptionName,
        value: &TmuxOptionValue,
    ) -> (r: Result<(), Error>)
        ensures
            final(self).history() == old(self).history().push(
                outcome_of(
                    (Call::SetOption { session: session@, key: key@, value: value@ }),
                    done(r),
                ),
            ),
            forall|next: Seq<Event>| #[trigger]
                final(self).admits(next) ==> old(self).admits(
                    seq![final(self).history().last()] + next,
                ),
    ;

    /// Sets a window option.
    fn set_window_option(
        &mut self,
        session: &TmuxName,
        window: &TmuxName,
        key: &TmuxOptionName,
        value: &TmuxOptionValue,
    ) -> (r: Result<(), Error>)
        ensures
            final(self).history() == old(self).history().push(
                outcome_of(
                    (Call::SetWindowOption {
                        session: session@,
                        window: window@,
                        key: key@,
                        value: value@,
                    }),
                    done(r),
                ),
            ),
            forall|next: Seq<Event>| #[trigger]
                final(self).admits(next) ==> old(self).admits(
                    seq![final(self).history().last()] + next,
                ),
    ;

    /// Applies a layout preset to a window.
    fn select_layout(
        &mut self,
        session: &TmuxName,
        window: &TmuxName,
        preset: &TmuxLayoutPreset,
    ) -> (r: Result<(), Error>)
        ensures
            final(self).history() == old(self).history().push(
                outcome_of(
                    (Call::SelectLayout { session: session@, window: window@, preset: preset@ }),
                    done(r),
                ),
            ),
            forall|next: Seq<Event>| #[trigger]
                final(self).admits(next) ==> old(self).admits(
                    seq![final(self).history().last()] + next,
                ),
    ;

    /// Makes a window the current one of its session.
    fn select_window(&mut self, session: &TmuxName, window: &TmuxName) -> (r: Result<(), Error>)
        ensures
            final(self).history() == old(self).history().push(
                outcome_of((Call::SelectWindow { session: session@, window: window@ }), done(r)),
            ),
            forall|next: Seq<Event>| #[trigger]
                final(self).admits(next) ==> old(self).admits(
                    seq![final(self).history().last()] + next,
                ),
    ;

    /// Hands the terminal over to a session, if there is one to hand over.
    fn attach_or_switch(&mut self, session: &TmuxName) -> (r: Result<(), Error>)
        ensures
            final(self).history() == old(self).history().push(
                outcome_of((Call::AttachOrSwitch { session: session@ }), done(r)),
            ),
            forall|next: Seq<Event>| #[trigger]
                final(self).admits(next) ==> old(self).admits(
                    seq![final(self).history().last()] + next,
                ),
    ;

    /// Ends a session.
    fn kill_session(&mut self, name: &TmuxName) -> (r: Result<(), Error>)
        ensures
            final(self).history() == old(self).history().push(
                outcome_of((Call::KillSession { name: name@ }), done(r)),
            ),
            forall|next: Seq<Event>| #[trigger]
                final(self).admits(next) ==> old(self).admits(
                    seq![final(self).history().last()] + next,
                ),
    ;

    /// Renames a session.
    fn rename_session(&mut self, from: &TmuxName, to: &TmuxName) -> (r: Result<(), Error>)
        ensures
            final(self).history() == old(self).history().push(
                outcome_of((Call::RenameSession { from: from@, to: to@ }), done(r)),
            ),
            forall|next: Seq<Event>| #[trigger]
                final(self).admits(next) ==> old(self).admits(
                    seq![final(self).history().last()] + next,
                ),
    ;

    /// Gives back what a pane shows.
    fn capture_pane(&mut self, pane_id: &PaneId) -> (r: Result<String, Error>)
        ensures
            final(self).history() == old(self).history().push(
                outcome_of((Call::CapturePane { pane: pane_id@ }), text_reply(r)),
            ),
            forall|next: Seq<Event>| #[trigger]
                final(self).admits(next) ==> old(self).admits(
                    seq![final(self).history().last()] + next,
                ),
    ;

    /// Runs a shell command.
    fn run_command(&mut self, cmd: &ShellCommand) -> (r: Result<(), Error>)
        ensures
            final(self).history() == old(self).history().push(
                outcome_of((Call::RunCommand { command: cmd@ }), done(r)),
            ),
            forall|next: Seq<Event>| #[trigger]
                final(self).admits(next) ==> old(self).admits(
                    seq![final(self).history().last()] + next,
                ),
    ;

    /// Gives back the current value of a built-in variable.
    fn builtin_value(&mut self, var: BuiltinVar) -> (r: Result<String, Error>)
        ensures
            final(self).history() == old(self).history().push(
                outcome_of((Call::BuiltinValue { var }), text_reply(r)),
            ),
            forall|next: Seq<Event>| #[trigger]
                final(self).admits(next) ==> old(self).admits(
                    seq![final(self).history().last()] + next,
                ),
    ;

    /// Lets a second go by.
    fn pause(&mut self)
        ensures
            final(self).history() == old(self).history().push(
                outcome_of(Call::Pause, Ok(Seq::empty())),
            ),
            forall|next: Seq<Event>| #[trigger]
                final(self).admits(next) ==> old(self).admits(
                    seq![final(self).history().last()] + next,
                ),
    ;
}

// ─── One backend at two times ────────────────────────────────────────────────

/// `after` is the backend that `before` is, when it has been asked more: its history goes on from
/// that of `before`, and what has come back since is what `before` admits.
#[verifier::opaque]
pub open spec fn follows<B: TmuxBackend>(before: B, after: B) -> bool {
    &&& before.history().len() <= after.history().len()
    &&& after.history().take(before.history().len() as int) == before.history()
    &&& forall|next: Seq<Event>| #[trigger]
        after.admits(next) ==> before.admits(
            after.history().skip(before.history().len() as int) + next,
        )
}

/// A backend that has not been asked anything since.
pub broadcast proof fn lemma_follows_itself<B: TmuxBackend>(b: B)
    ensures
        #[trigger] follows(b, b),
{
    reveal(follows);
    assert(b.history().take(b.history().len() as int) == b.history());
    assert forall|next: Seq<Event>| #[trigger] b.admits(next) implies b.admits(
        b.history().skip(b.history().len() as int) + next,
    ) by {
        assert(b.history().skip(b.history().len() as int) + next == next);
    }
}

/// A backend at three times.
pub broadcast proof fn lemma_follows_on<B: TmuxBackend>(a: B, b: B, c: B)
    requires
        #[trigger] follows(a, b),
        #[trigger] follows(b, c),
    ensures
        follows(a, c),
{
    reveal(follows);
    let i = a.history().len() as int;
    let j = b.history().len() as int;
    assert(c.history().take(i) == c.history().take(j).take(i));
    assert forall|next: Seq<Event>| #[trigger] c.admits(next) implies a.admits(
        c.history().skip(i) + next,
    ) by {
        assert(b.admits(c.history().skip(j) + next));
        assert(c.history().take(j).skip(i) + (c.history().skip(j) + next) == c.history().skip(i)
            + next);
    }
}

/// A backend before and after one request.
pub proof fn lemma_follows_request<B: TmuxBackend>(before: B, after: B)
    requires
        after.history() == before.history().push(after.history().last()),
        forall|next: Seq<Event>| #[trigger]
            after.admits(next) ==> before.admits(seq![after.history().last()] + next),
    ensures
        follows(before, after),
{
    reveal(follows);
    let n = before.history().len() as int;
    assert(after.history().take(n) == before.history());
    assert(after.history().skip(n) == seq![after.history().last()]);
}

} // verus!
