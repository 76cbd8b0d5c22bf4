//! What holds of session files and of the lists of sessions, for every input.

use crate::check_laws;
use crate::checks;
use crate::error::Error;
use crate::format::{ConfigFormat, LoadedConfig};
use crate::listing;
use crate::model::Session;
use crate::real_tmux;
use crate::sorting;
use crate::text;
use crate::text::Text;
use crate::text_laws;
use crate::validate;
use vstd::prelude::*;
use vstd::utf8::*;

verus! {

// ─── One file ────────────────────────────────────────────────────────────────

/// The extension of a file decides its format: `toml` is TOML, `yaml` and `yml` are YAML, and
/// everything else is JSON. In a directory, files with another extension, or none, are not session
/// files.
pub proof fn law_extension_decides_the_format(extension: Option<Text>)
    ensures
        crate::format::format_of(extension) is Toml <==> extension == Some("toml"@),
        crate::format::format_of(extension) is Yaml <==> extension == Some("yaml"@) || extension == Some(
            "yml"@,
        ),
        extension matches Some(e) ==> (crate::format::is_config_extension(e) <==> crate::format::format_of(
            extension,
        ) !is Json || e == "json"@),
{
    reveal_strlit("toml");
    reveal_strlit("yaml");
    reveal_strlit("yml");
    assert("toml"@[0] == 't' && "yaml"@[0] == 'y' && "yml"@[0] == 'y');
}

/// A byte order mark in front of a file is dropped, one and no more, and nothing else is.
pub proof fn law_byte_order_mark_is_dropped(s: Text)
    ensures
        crate::format::without_bom(seq!['\u{FEFF}'] + s) == s,
        !(s.len() > 0 && s[0] == '\u{FEFF}') ==> crate::format::without_bom(s) == s,
{
    assert((seq!['\u{FEFF}'] + s).skip(1) =~= s);
}

/// A file is loaded exactly if its contents were parsed and the session passes validation. What is
/// told of a file that was not parsed is the format, the path and the error of the parser; what is
/// told of a session that does not pass is the error of the validation.
pub proof fn law_loading_a_file(path: Text, format: ConfigFormat, parsed: Result<Session, Error>)
    ensures
        match parsed {
            Ok(session) => crate::format::load_error(path, format, parsed) == validate::session_error(
                session,
            ),
            Err(e) => crate::format::load_error(path, format, parsed) == Some(
                seq![
                    "invalid "@ + (match format {
                        ConfigFormat::Toml => "TOML"@,
                        ConfigFormat::Yaml => "YAML"@,
                        ConfigFormat::Json => "JSON"@,
                    }) + " in '"@ + path + "'"@,
                ] + e@,
            ),
        },
{
}

// ─── A directory ─────────────────────────────────────────────────────────────

/// How many of the first `k` files could be loaded.
pub open spec fn loaded_before(files: Seq<LoadedConfig>, k: int) -> int
    decreases k,
{
    if k <= 0 {
        0
    } else {
        loaded_before(files, k - 1) + if files[k - 1].result is Ok {
            1int
        } else {
            0
        }
    }
}

proof fn lemma_counts(files: Seq<LoadedConfig>, n: int)
    requires
        0 <= n <= files.len(),
    ensures
        crate::format::loaded(files.take(n)).len() == loaded_before(files, n),
        crate::format::skips(files.take(n)).len() == n - loaded_before(files, n),
        0 <= loaded_before(files, n) <= n,
    decreases n,
{
    if n > 0 {
        lemma_counts(files, n - 1);
        assert(files.take(n).drop_last() =~= files.take(n - 1));
        assert(files.take(n).last() == files[n - 1]);
    }
}

proof fn lemma_prefixes(files: Seq<LoadedConfig>, k: int, n: int)
    requires
        0 <= k < n <= files.len(),
    ensures
        files[k].result matches Ok(session) ==> loaded_before(files, k) < crate::format::loaded(
            files.take(n),
        ).len() && crate::format::loaded(files.take(n))[loaded_before(files, k)] == session,
        files[k].result matches Err(e) ==> k - loaded_before(files, k) < crate::format::skips(
            files.take(n),
        ).len() && crate::format::skips(files.take(n))[k - loaded_before(files, k)] == (
            files[k].path@,
            crate::format::reason_of(e@),
        ),
    decreases n,
{
    lemma_counts(files, k);
    lemma_counts(files, n - 1);
    lemma_counts(files, n);
    assert(files.take(n).drop_last() =~= files.take(n - 1));
    assert(files.take(n).last() == files[n - 1]);
    if k < n - 1 {
        lemma_prefixes(files, k, n - 1);
    }
}

/// Each file has its place: the session of a file that could be loaded stands behind those of the
/// files before it, and a file that could not stands, with its path and the reason, behind those
/// before it that could not.
pub proof fn law_every_file_has_its_place(files: Seq<LoadedConfig>, k: int)
    requires
        0 <= k < files.len(),
    ensures
        crate::format::loaded(files).len() == loaded_before(files, files.len() as int),
        crate::format::skips(files).len() == files.len() - loaded_before(files, files.len() as int),
        files[k].result matches Ok(session) ==> crate::format::loaded(files)[loaded_before(files, k)]
            == session && loaded_before(files, k) < crate::format::loaded(files).len(),
        files[k].result matches Err(e) ==> crate::format::skips(files)[k - loaded_before(files, k)] == (
            files[k].path@,
            crate::format::reason_of(e@),
        ) && k - loaded_before(files, k) < crate::format::skips(files).len(),
{
    let n = files.len() as int;
    assert(files.take(n) =~= files);
    lemma_counts(files, n);
    lemma_prefixes(files, k, n);
}

/// The reason for which a file is skipped is the first line of the root cause of its error, without
/// white space around it; where there is no line, it says that the file could not be parsed.
pub proof fn law_reason_is_the_first_line_of_the_cause(e: Seq<Text>, line: Text, rest: Text)
    requires
        e.len() > 0,
        text_laws::one_line(line),
    ensures
        e.last() == line + seq!['\n'] + rest ==> crate::format::reason_of(e) == text::trim(
            if line.len() > 0 && line.last() == '\r' {
                line.drop_last()
            } else {
                line
            },
        ),
        e.last() == line && line.len() > 0 ==> crate::format::reason_of(e) == text::trim(line),
        e.last().len() == 0 ==> crate::format::reason_of(e) == text::trim(
            "could not be parsed as a session config"@,
        ),
{
    text_laws::law_lines_end_at_line_feeds(line, rest);
    text_laws::law_last_line_needs_no_line_feed(line);
    if e.last().len() == 0 {
        text_laws::law_last_line_needs_no_line_feed(e.last());
    }
}

/// Sessions are listed in the order of their names, and files are taken in the order of their
/// paths: where two texts first differ, the one with the smaller character, or the one that has
/// ended, goes first.
pub proof fn law_lists_are_in_the_order_of_texts(
    sessions: Seq<Session>,
    files: Seq<LoadedConfig>,
    i: int,
    j: int,
    k: int,
)
    requires
        0 <= i < j,
    ensures
        j < crate::format::by_name(sessions).len() ==> !text_laws::smaller_at(
            crate::format::by_name(sessions)[j].name@,
            crate::format::by_name(sessions)[i].name@,
            k,
        ),
        j < crate::format::by_path(files).len() ==> !text_laws::smaller_at(
            crate::format::by_path(files)[j].path@,
            crate::format::by_path(files)[i].path@,
            k,
        ),
        crate::format::by_name(sessions).to_multiset() == sessions.to_multiset(),
        crate::format::by_path(files).to_multiset() == files.to_multiset(),
{
    sorting::law_sorting_orders(sessions);
    sorting::law_sorting_orders(files);
    crate::format::law_sorted_by_name(sessions);
    if j < crate::format::by_name(sessions).len() {
        text_laws::law_order_of_texts(
            crate::format::by_name(sessions)[j].name@,
            crate::format::by_name(sessions)[i].name@,
        );
    }
    if j < crate::format::by_path(files).len() {
        text_laws::law_order_of_texts(
            crate::format::by_path(files)[j].path@,
            crate::format::by_path(files)[i].path@,
        );
        assert(!text::before(
            sorting::Sortable::key(&crate::format::by_path(files)[j]),
            sorting::Sortable::key(&crate::format::by_path(files)[i]),
        ));
    }
}

// ─── Sessions that run ───────────────────────────────────────────────────────

/// Of the lines that tmux prints, the first that is no name is told, with why it is none; there is
/// no failure where all are names.
pub proof fn law_first_bad_session_name_is_told(good: Seq<Text>, bad: Text, rest: Seq<Text>)
    requires
        forall|i: int| 0 <= i < good.len() ==> checks::valid_tmux_name(#[trigger] good[i]),
    ensures
        listing::first_bad_name(good) is None,
        !checks::valid_tmux_name(bad) ==> listing::first_bad_name(good + seq![bad] + rest) == Some(
            seq![
                "invalid tmux session name from `tmux list-sessions`: "@ + text::debug_text(bad),
            ] + checks::tmux_name_error(bad, "tmux name"@)->0,
        ),
    decreases good.len(),
{
    let all = good + seq![bad] + rest;
    checks::lemma_tmux_name_error(bad, "tmux name"@);
    if good.len() == 0 {
        assert(all[0] == bad);
    } else {
        checks::lemma_tmux_name_error(good[0], "tmux name"@);
        assert(checks::valid_tmux_name(good[0]));
        assert(all[0] == good[0]);
        assert(all.skip(1) =~= good.skip(1) + seq![bad] + rest);
        assert forall|i: int| 0 <= i < good.skip(1).len() implies checks::valid_tmux_name(
            #[trigger] good.skip(1)[i],
        ) by {
            assert(good.skip(1)[i] == good[i + 1]);
        }
        law_first_bad_session_name_is_told(good.skip(1), bad, rest);
    }
}

/// Asking for the sessions that run fails in no other way than these: the names are no UTF-8 or no
/// names, or tmux failed for another reason than that no server runs.
pub proof fn law_asking_for_running_sessions(
    success: bool,
    status: Text,
    stdout: Seq<u8>,
    stderr: Seq<u8>,
)
    ensures
        ({
            let e = listing::running_error(success, status, stdout, stderr);
            let told = text::trim(text::utf8_lossy(stderr));
            if success {
                if valid_utf8(stdout) {
                    e == listing::first_bad_name(text::lines(decode_utf8(stdout)))
                } else {
                    e == Some(
                        seq![
                            "`tmux list-sessions` returned non-UTF-8 session names"@,
                            text::utf8_error(stdout),
                        ],
                    )
                }
            } else if text::occurs(told, "no server running"@) {
                e is None
            } else if told.len() == 0 {
                e == Some(seq!["`tmux list-sessions` failed with "@ + status])
            } else {
                e == Some(seq!["`tmux list-sessions` failed: "@ + told])
            }
        }),
{
}

/// A list shows the name of a session, whether it runs, and the number of its windows.
pub proof fn law_line_of_a_session(s: Session)
    ensures
        listing::session_line(s, true) == s.name@ + " [running]"@ + " — "@ + text::decimal(
            s.windows@.len(),
        ) + " window(s)"@,
        listing::session_line(s, false) == s.name@ + " — "@ + text::decimal(s.windows@.len())
            + " window(s)"@,
{
    reveal_strlit("");
    assert(""@ =~= Seq::<char>::empty());
    assert(s.name@ + ""@ =~= s.name@);
}

// ─── What came of a process ──────────────────────────────────────────────────

/// A process that created a pane printed its id: the output, without white space around it, is a
/// percent sign and a row of digits. Everything else is an error.
pub proof fn law_output_of_a_new_pane(stdout: Seq<u8>, context: Text)
    ensures
        real_tmux::pane_output_error(stdout, context) is None <==> valid_utf8(stdout) && ({
            let id = text::trim(decode_utf8(stdout));
            id.len() > 1 && id[0] == '%' && forall|i: int|
                0 < i < id.len() ==> '0' <= #[trigger] id[i] <= '9'
        }),
        !valid_utf8(stdout) ==> real_tmux::pane_output_error(stdout, context) == Some(
            seq![context + " returned non-UTF-8 pane id"@, text::utf8_error(stdout)],
        ),
        valid_utf8(stdout) && real_tmux::pane_output_error(stdout, context) is Some
            ==> real_tmux::pane_output_error(stdout, context)->0[0] == context
            + " returned invalid pane id"@,
{
    check_laws::law_pane_ids(text::trim(decode_utf8(stdout)));
}

/// What a process printed is a text exactly if it is UTF-8.
pub proof fn law_output_must_be_text(stdout: Seq<u8>, context: Text)
    ensures
        valid_utf8(stdout) ==> real_tmux::text_output_error(stdout, context) is None,
        !valid_utf8(stdout) ==> real_tmux::text_output_error(stdout, context) == Some(
            seq![context, text::utf8_error(stdout)],
        ),
{
}

/// A process that was not successful is an error, and one that was is none. The error names the
/// exit code, or what the process wrote to its standard error.
pub proof fn law_failed_processes_are_errors(what: Text, result: real_tmux::CommandResult)
    ensures
        real_tmux::exit_error(what, result) is None <==> result.success,
        real_tmux::reported_error(what, result) is None <==> result.success,
        !result.success ==> real_tmux::reported_error(what, result) == Some(
            seq![what + " failed: "@ + text::trim(text::utf8_lossy(result.stderr@))],
        ),
        !result.success && result.code is None ==> real_tmux::exit_error(what, result) == Some(
            seq![what + " failed: exit code "@ + "None"@],
        ),
        !result.success && (result.code matches Some(n) && n >= 0) ==> real_tmux::exit_error(
            what,
            result,
        ) == Some(
            seq![
                what + " failed: exit code "@ + ("Some("@ + text::decimal(result.code->0 as nat)
                    + ")"@),
            ],
        ),
        !result.success && (result.code matches Some(n) && n < 0) ==> real_tmux::exit_error(
            what,
            result,
        ) == Some(
            seq![
                what + " failed: exit code "@ + ("Some("@ + ("-"@ + text::decimal(
                    (-(result.code->0)) as nat,
                )) + ")"@),
            ],
        ),
{
}

/// The value of a built-in variable is what its program printed. A program that was not successful
/// is an error that names the variable, and what the program wrote to its standard error or, if
/// that is nothing, its exit status.
pub proof fn law_failed_variables_are_errors(
    key: Text,
    program: Text,
    result: real_tmux::CommandResult,
)
    ensures
        ({
            let e = real_tmux::builtin_error(key, program, result);
            let told = text::trim(text::utf8_lossy(result.stderr@));
            let head = "failed to resolve template variable "@ + text::debug_text(key);
            if result.success {
                if valid_utf8(result.stdout@) {
                    e is None
                } else {
                    e == Some(
                        seq![
                            head + ": "@ + program + " returned non-UTF-8 output"@,
                            text::utf8_error(result.stdout@),
                        ],
                    )
                }
            } else if told.len() == 0 {
                e == Some(seq![head + ": "@ + program + " exited with "@ + result.status@])
            } else {
                e == Some(seq![head + ": "@ + told])
            }
        }),
{
}

} // verus!
