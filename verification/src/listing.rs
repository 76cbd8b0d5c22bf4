//! What the command line shows: the script of a session, and the list of sessions.

use crate::checks;
use crate::compiler;
use crate::compiler::Compiler;
use crate::error;
use crate::error::Error;
use crate::format::SkippedConfig;
use crate::model::Session;
use crate::real_tmux;
use crate::text;
use crate::text::Text;
use crate::validate;
use crate::words::TmuxName;
use vstd::prelude::*;
use vstd::string::*;
use vstd::utf8::*;

verus! {

/// The script of `session`. Fails exactly when the session does not pass validation.
pub fn generate(session: &Session) -> (r: Result<String, Error>)
    ensures
        error::failure(r) == validate::session_error(*session),
        r matches Ok(script) ==> script@ == text::join(compiler::script(*session), "\n"@),
{
    let mut compiler = Compiler::new();
    compiler.compile(session)?;
    Ok(compiler.into_script())
}

// ─── Sets of names ───────────────────────────────────────────────────────────

/// The texts of a list of names.
pub open spec fn name_texts(names: Seq<TmuxName>) -> Seq<Text> {
    names.map_values(|n: TmuxName| n@)
}

/// A set of tmux names.
#[derive(Debug)]
pub struct TmuxNameSet {
    names: Vec<TmuxName>,
}

impl View for TmuxNameSet {
    type V = Set<Text>;

    closed spec fn view(&self) -> Set<Text> {
        name_texts(self.names@).to_set()
    }
}

impl TmuxNameSet {
    /// No name occurs twice.
    #[verifier::type_invariant]
    spec fn wf(&self) -> bool {
        name_texts(self.names@).no_duplicates()
    }

    /// The empty set.
    pub fn new() -> (r: TmuxNameSet)
        ensures
            r@ == Set::<Text>::empty(),
    {
        let names: Vec<TmuxName> = Vec::new();
        assert(name_texts(names@).to_set() == Set::<Text>::empty());
        TmuxNameSet { names }
    }

    /// Whether the set has no names.
    pub fn is_empty(&self) -> (r: bool)
        ensures
            r <==> self@ == Set::<Text>::empty(),
    {
        let r: bool = self.names.len() == 0;
        proof {
            if r {
                assert(self@ == Set::<Text>::empty());
            } else {
                assert(self@.contains(name_texts(self.names@)[0]));
            }
        }
        r
    }

    /// The number of names.
    pub fn len(&self) -> (r: usize)
        ensures
            r == self@.len(),
    {
        proof {
            use_type_invariant(self);
            name_texts(self.names@).unique_seq_to_set();
        }
        self.names.len()
    }

    /// Whether a name is in the set.
    pub fn contains(&self, name: &str) -> (r: bool)
        ensures
            r == self@.contains(name@),
    {
        for i in 0..self.names.len()
            invariant
                forall|j: int| 0 <= j < i ==> #[trigger] name_texts(self.names@)[j] != name@,
        {
            if text::same_text(self.names[i].as_str(), name) {
                assert(name_texts(self.names@)[i as int] == name@);
                return true;
            }
        }
        false
    }

    /// Adds a name, and says whether it was new.
    pub fn insert(&mut self, name: TmuxName) -> (r: bool)
        ensures
            final(self)@ == old(self)@.insert(name@),
            r == !old(self)@.contains(name@),
    {
        if self.contains(name.as_str()) {
            assert(self@ == self@.insert(name@));
            return false;
        }
        let mut set = TmuxNameSet::new();
        std::mem::swap(&mut set, self);
        proof {
            use_type_invariant(&set);
        }
        let mut names = set.names;
        let ghost before = name_texts(names@);
        names.push(name);
        proof {
            let after = name_texts(names@);
            assert(after == before.push(name@));
            assert(after.no_duplicates());
            assert(after.to_set() == before.to_set().insert(name@)) by {
                assert forall|t: Text| after.contains(t) <==> (before.contains(t) || t == name@) by {
                    if after.contains(t) {
                        let i = choose|i: int| 0 <= i < after.len() && after[i] == t;
                        if i < before.len() {
                            assert(before[i] == t);
                        }
                    }
                    if before.contains(t) {
                        let i = choose|i: int| 0 <= i < before.len() && before[i] == t;
                        assert(after[i] == t);
                    }
                    assert(after[before.len() as int] == name@);
                }
            }
        }
        *self = TmuxNameSet { names };
        true
    }
}

// ─── Sessions that run ───────────────────────────────────────────────────────

/// Whether tmux says that no server runs.
pub fn is_tmux_no_server(stderr: &str) -> (r: bool)
    ensures
        r == text::occurs(stderr@, "no server running"@),
{
    text::contains_text(stderr, "no server running")
}

/// The failure of the first of the given lines that is no session name.
pub open spec fn first_bad_name(lines: Seq<Text>) -> Option<Seq<Text>>
    decreases lines.len(),
{
    if lines.len() == 0 {
        None
    } else if checks::tmux_name_error(lines[0], "tmux name"@) is Some {
        validate::in_context(
            "invalid tmux session name from `tmux list-sessions`: "@ + text::debug_text(lines[0]),
            checks::tmux_name_error(lines[0], "tmux name"@),
        )
    } else {
        first_bad_name(lines.skip(1))
    }
}

/// The failure of `tmux list-sessions`. That no server runs is none.
pub open spec fn running_error(
    success: bool,
    status: Text,
    stdout: Seq<u8>,
    stderr: Seq<u8>,
) -> Option<Seq<Text>> {
    let told = real_tmux::error_output(stderr);
    if success && !valid_utf8(stdout) {
        Some(
            seq![
                "`tmux list-sessions` returned non-UTF-8 session names"@,
                text::utf8_error(stdout),
            ],
        )
    } else if success {
        first_bad_name(text::lines(decode_utf8(stdout)))
    } else if text::occurs(told, "no server running"@) {
        None
    } else if told.len() == 0 {
        Some(seq!["`tmux list-sessions` failed with "@ + status])
    } else {
        Some(seq!["`tmux list-sessions` failed: "@ + told])
    }
}

/// The error of a tmux that could not be asked for its sessions, because of `cause`.
pub fn list_sessions_not_started(cause: Error) -> (r: Error)
    ensures
        r@ == seq!["failed to execute `tmux list-sessions`"@] + cause@,
{
    cause.context("failed to execute `tmux list-sessions`".to_owned())
}

/// The names of the sessions that run, from what came of `tmux list-sessions`: one name a line.
pub fn running_sessions_outcome(
    success: bool,
    status: &str,
    stdout: &[u8],
    stderr: &[u8],
) -> (r: Result<TmuxNameSet, Error>)
    ensures
        error::failure(r) == running_error(success, status@, stdout@, stderr@),
        r matches Ok(names) ==> names@ == (if success {
            text::lines(decode_utf8(stdout@)).to_set()
        } else {
            Set::empty()
        }),
{
    let mut names = TmuxNameSet::new();
    if success {
        let output = match text::utf8_string(stdout) {
            Ok(output) => output,
            Err(e) => {
                let r = Error::msg(e).context(
                    "`tmux list-sessions` returned non-UTF-8 session names".to_owned(),
                );
                assert(r@ == seq![
                    "`tmux list-sessions` returned non-UTF-8 session names"@,
                    text::utf8_error(stdout@),
                ]);
                return Err(r);
            },
        };
        let lines = text::split_lines(output.as_str());
        let ghost all = text::lines(decode_utf8(stdout@));
        assert(all.skip(0) == all);
        assert(all.take(0).to_set() == Set::<Text>::empty());
        for i in 0..lines.len()
            invariant
                success,
                valid_utf8(stdout@),
                text::views(lines@) == all,
                all == text::lines(decode_utf8(stdout@)),
                first_bad_name(all) == first_bad_name(all.skip(i as int)),
                names@ == all.take(i as int).to_set(),
        {
            assert(all[i as int] == lines@[i as int]@);
            assert(all.skip(i as int)[0] == all[i as int]);
            assert(all.skip(i as int).skip(1) == all.skip(i + 1));
            match TmuxName::new(lines[i].as_str()) {
                Ok(name) => {
                    names.insert(name);
                    proof {
                        let next = all.take(i + 1);
                        assert(next == all.take(i as int).push(all[i as int]));
                        assert(next.to_set() == all.take(i as int).to_set().insert(
                            all[i as int],
                        )) by {
                            broadcast use vstd::seq_lib::group_seq_properties;

                        }
                    }
                },
                Err(e) => {
                    return Err(
                        e.context(
                            "invalid tmux session name from `tmux list-sessions`: ".to_owned().concat(
                                text::debug_string(lines[i].as_str()).as_str(),
                            ),
                        ),
                    );
                },
            }
        }
        assert(all.take(all.len() as int) == all);
        return Ok(names);
    }
    let told = real_tmux::tmux_stderr(stderr);
    if is_tmux_no_server(told.as_str()) {
        return Ok(names);
    }
    if told.as_str().is_empty() {
        return Err(Error::msg("`tmux list-sessions` failed with ".to_owned().concat(status)));
    }
    Err(Error::msg("`tmux list-sessions` failed: ".to_owned().concat(told.as_str())))
}

/// Whether the sessions of the current directory are listed, and files that hold none skipped:
/// where neither a file nor a directory was named. A directory that was named holds nothing but
/// sessions, or listing it fails.
pub fn scans_current_dir(named_files: usize, names_directory: bool) -> (r: bool)
    ensures
        r <==> named_files == 0 && !names_directory,
{
    named_files == 0 && !names_directory
}

// ─── Lines ───────────────────────────────────────────────────────────────────

/// The line of a session in a list.
pub open spec fn session_line(s: Session, running: bool) -> Text {
    s.name@ + (if running {
        " [running]"@
    } else {
        ""@
    }) + " — "@ + text::decimal(s.windows@.len()) + " window(s)"@
}

/// The line of a session in a list. `running` are the sessions that run, if that is known.
pub fn format_session_line(s: &Session, running: Option<&TmuxNameSet>) -> (r: String)
    ensures
        r@ == session_line(*s, running matches Some(names) && names@.contains(s.name@)),
{
    let is_running: bool = match running {
        Some(names) => names.contains(s.name.as_str()),
        None => false,
    };
    let tag: &str = if is_running {
        " [running]"
    } else {
        ""
    };
    s.name.as_str().to_owned().concat(tag).concat(" — ").concat(
        text::decimal_string(s.windows.len() as u64).as_str(),
    ).concat(" window(s)")
}

/// What is said of a session file that is valid.
pub fn format_valid_line(s: &Session) -> (r: String)
    ensures
        r@ == "✓  '"@ + s.name@ + "' — "@ + text::decimal(s.windows@.len()) + " window(s)"@,
{
    "✓  '".to_owned().concat(s.name.as_str()).concat("' — ").concat(
        text::decimal_string(s.windows.len() as u64).as_str(),
    ).concat(" window(s)")
}

/// The warning on a file that was skipped.
pub fn format_skip_warning(skipped: &SkippedConfig) -> (r: String)
    ensures
        r@ == "warning: skipping '"@ + skipped.path@ + "' ("@ + skipped.reason@ + ")"@,
{
    "warning: skipping '".to_owned().concat(skipped.path.as_str()).concat("' (").concat(
        skipped.reason.as_str(),
    ).concat(")")
}

} // verus!
