//! Session files: which format a file has, and what becomes of the files of a directory.

use crate::error;
use crate::error::Error;
use crate::model::Session;
use crate::sorting;
use crate::sorting::Sortable;
use crate::text;
use crate::text::Text;
use crate::validate;
use vstd::prelude::*;
use vstd::string::*;

verus! {

// ─── One file ────────────────────────────────────────────────────────────────

/// The format of a session file.
#[derive(Debug, Clone, Copy, PartialEq, Eq, Structural)]
pub enum ConfigFormat {
    Toml,
    Yaml,
    Json,
}

/// The format that a file with the given extension has: JSON unless the extension says otherwise.
pub open spec fn format_of(extension: Option<Text>) -> ConfigFormat {
    if extension == Some("toml"@) {
        ConfigFormat::Toml
    } else if extension == Some("yaml"@) || extension == Some("yml"@) {
        ConfigFormat::Yaml
    } else {
        ConfigFormat::Json
    }
}

/// The format of a file with the given extension.
pub fn config_format(extension: Option<&str>) -> (r: ConfigFormat)
    ensures
        r == format_of(
            match extension {
                Some(e) => Some(e@),
                None => None,
            },
        ),
{
    match extension {
        Some(e) => {
            if text::same_text(e, "toml") {
                ConfigFormat::Toml
            } else if text::same_text(e, "yaml") || text::same_text(e, "yml") {
                ConfigFormat::Yaml
            } else {
                ConfigFormat::Json
            }
        },
        None => ConfigFormat::Json,
    }
}

/// The name of a format.
pub open spec fn format_name(format: ConfigFormat) -> Text {
    match format {
        ConfigFormat::Toml => "TOML"@,
        ConfigFormat::Yaml => "YAML"@,
        ConfigFormat::Json => "JSON"@,
    }
}

fn format_name_str(format: ConfigFormat) -> (r: &'static str)
    ensures
        r@ == format_name(format),
{
    match format {
        ConfigFormat::Toml => "TOML",
        ConfigFormat::Yaml => "YAML",
        ConfigFormat::Json => "JSON",
    }
}

/// The extensions of session files.
pub open spec fn is_config_extension(extension: Text) -> bool {
    extension == "json"@ || extension == "toml"@ || extension == "yaml"@ || extension == "yml"@
}

/// Whether a file with the given extension in a directory is taken for a session file. A file
/// without an extension is not.
pub fn has_config_extension(extension: Option<&str>) -> (r: bool)
    ensures
        r == (extension matches Some(e) && is_config_extension(e@)),
{
    match extension {
        Some(e) => text::same_text(e, "json") || text::same_text(e, "toml") || text::same_text(
            e,
            "yaml",
        ) || text::same_text(e, "yml"),
        None => false,
    }
}

/// The contents of a file without the byte order mark that some editors put in front.
pub open spec fn without_bom(s: Text) -> Text {
    if s.len() > 0 && s[0] == '\u{FEFF}' {
        s.skip(1)
    } else {
        s
    }
}

/// The contents of a file without its byte order mark.
pub fn strip_bom(raw: &str) -> (r: &str)
    ensures
        r@ == without_bom(raw@),
{
    let size: usize = raw.unicode_len();
    if size > 0 && raw.get_char(0) == '\u{FEFF}' {
        raw.substring_char(1, size)
    } else {
        raw
    }
}

/// The error of a file that could not be read, because of `cause`.
pub fn unreadable(path: &str, cause: Error) -> (r: Error)
    ensures
        r@ == seq!["cannot read '"@ + path@ + "'"@] + cause@,
{
    cause.context("cannot read '".to_owned().concat(path).concat("'"))
}

/// Whether an entry of a directory is taken for a session file: it is a file, and its extension is
/// that of one.
pub fn is_session_file(is_file: bool, extension: Option<&str>) -> (r: bool)
    ensures
        r == (is_file && (extension matches Some(e) && is_config_extension(e@))),
{
    is_file && has_config_extension(extension)
}

/// The error of a directory that could not be read, because of `cause`.
pub fn unreadable_directory(dir: &str, cause: Error) -> (r: Error)
    ensures
        r@ == seq!["cannot read directory '"@ + dir@ + "'"@] + cause@,
{
    cause.context("cannot read directory '".to_owned().concat(dir).concat("'"))
}

/// The error of an entry of a directory that could not be read, because of `cause`.
pub fn unreadable_entry(dir: &str, cause: Error) -> (r: Error)
    ensures
        r@ == seq!["cannot read entry in directory '"@ + dir@ + "'"@] + cause@,
{
    cause.context("cannot read entry in directory '".to_owned().concat(dir).concat("'"))
}

/// The failure of a session file.
pub open spec fn load_error(
    path: Text,
    format: ConfigFormat,
    parsed: Result<Session, Error>,
) -> Option<Seq<Text>> {
    match parsed {
        Ok(session) => validate::session_error(session),
        Err(e) => Some(seq!["invalid "@ + format_name(format) + " in '"@ + path + "'"@] + e@),
    }
}

/// The session of a file, from what its contents were parsed to: a session that passes validation.
pub fn load_session(path: &str, format: ConfigFormat, parsed: Result<Session, Error>) -> (r: Result<
    Session,
    Error,
>)
    ensures
        error::failure(r) == load_error(path@, format, parsed),
        r matches Ok(session) ==> parsed == Ok::<Session, Error>(session),
{
    match parsed {
        Ok(session) => {
            session.validate()?;
            Ok(session)
        },
        Err(e) => Err(
            e.context(
                "invalid ".to_owned().concat(format_name_str(format)).concat(" in '").concat(
                    path,
                ).concat("'"),
            ),
        ),
    }
}

// ─── Order ───────────────────────────────────────────────────────────────────

/// Sessions are ordered by their names.
impl Sortable for Session {
    open spec fn key(&self) -> Text {
        self.name@
    }

    fn key_str(&self) -> (r: &str) {
        self.name.as_str()
    }
}

/// The sessions, ordered by their names; those of the same name in their old order.
pub open spec fn by_name(sessions: Seq<Session>) -> Seq<Session> {
    sorting::sorted(sessions)
}

/// Sorting gives a list that is ordered by name and holds the same sessions.
pub proof fn law_sorted_by_name(sessions: Seq<Session>)
    ensures
        forall|i: int, j: int|
            0 <= i < j < by_name(sessions).len() ==> !text::before(
                (#[trigger] by_name(sessions)[j]).name@,
                (#[trigger] by_name(sessions)[i]).name@,
            ),
        by_name(sessions).to_multiset() == sessions.to_multiset(),
{
    sorting::law_sorting_orders(sessions);
}

// ─── A directory ─────────────────────────────────────────────────────────────

/// A session file of a directory, and what came of loading it.
#[derive(Debug)]
pub struct LoadedConfig {
    pub path: String,
    pub result: Result<Session, Error>,
}

/// Files are ordered by their paths.
impl Sortable for LoadedConfig {
    open spec fn key(&self) -> Text {
        self.path@
    }

    fn key_str(&self) -> (r: &str) {
        self.path.as_str()
    }
}

/// The files, ordered by their paths.
pub open spec fn by_path(files: Seq<LoadedConfig>) -> Seq<LoadedConfig> {
    sorting::sorted(files)
}

/// The sessions of the files that could be loaded.
pub open spec fn loaded(files: Seq<LoadedConfig>) -> Seq<Session>
    decreases files.len(),
{
    if files.len() == 0 {
        Seq::empty()
    } else {
        match files.last().result {
            Ok(session) => loaded(files.drop_last()).push(session),
            Err(_) => loaded(files.drop_last()),
        }
    }
}

/// The failure of the first file that could not be loaded.
pub open spec fn first_load_error(files: Seq<LoadedConfig>) -> Option<Seq<Text>>
    decreases files.len(),
{
    if files.len() == 0 {
        None
    } else {
        match files[0].result {
            Ok(_) => first_load_error(files.skip(1)),
            Err(e) => Some(
                seq!["failed to load session config '"@ + files[0].path@ + "'"@] + e@,
            ),
        }
    }
}

/// The sessions of the files of a directory, ordered by their names. Fails on the first file, in
/// the order of paths, that could not be loaded. The files may come in any order.
pub fn load_sessions_from_dir(files: Vec<LoadedConfig>) -> (r: Result<Vec<Session>, Error>)
    ensures
        error::failure(r) == first_load_error(by_path(files@)),
        r matches Ok(sessions) ==> sessions@ == by_name(loaded(by_path(files@))),
{
    let mut rest = sorting::sort(files);
    let ghost all = by_path(files@);
    let mut sessions: Vec<Session> = Vec::new();
    assert(all.skip(0) == all);
    assert(loaded(all.take(0)) == Seq::<Session>::empty());
    let ghost mut done: int = 0;
    while rest.len() > 0
        invariant
            all == by_path(files@),
            0 <= done <= all.len(),
            rest@ == all.skip(done),
            first_load_error(all) == first_load_error(rest@),
            sessions@ == by_name(loaded(all.take(done))),
        decreases rest@.len(),
    {
        let ghost before = rest@;
        let file = rest.remove(0);
        assert(file == all[done]);
        assert(rest@ == before.skip(1));
        assert(rest@ == all.skip(done + 1));
        assert(all.take(done + 1).drop_last() == all.take(done));
        match file.result {
            Ok(session) => {
                let ghost so_far = loaded(all.take(done));
                assert(loaded(all.take(done + 1)) == so_far.push(session));
                assert(so_far.push(session).drop_last() == so_far);
                sorting::insert_sorted(&mut sessions, session);
            },
            Err(e) => {
                return Err(
                    e.context(
                        "failed to load session config '".to_owned().concat(
                            file.path.as_str(),
                        ).concat("'"),
                    ),
                );
            },
        }
        proof {
            done = done + 1;
        }
    }
    assert(all.take(done) == all);
    Ok(sessions)
}

/// A file that could not be loaded, and why, in one line.
#[derive(Debug, Clone, PartialEq, Eq)]
pub struct SkippedConfig {
    pub path: String,
    pub reason: String,
}

/// The sessions of a directory, and the files that were skipped.
#[derive(Debug)]
pub struct LenientDirScan {
    pub sessions: Vec<Session>,
    pub skipped: Vec<SkippedConfig>,
}

impl Default for LenientDirScan {
    fn default() -> (r: LenientDirScan)
        ensures
            r.sessions@ == Seq::<Session>::empty(),
            r.skipped@ == Seq::<SkippedConfig>::empty(),
    {
        LenientDirScan { sessions: Vec::new(), skipped: Vec::new() }
    }
}

/// The reason in one line: the first line of the root cause.
pub open spec fn reason_of(e: Seq<Text>) -> Text {
    let lines = text::lines(e.last());
    text::trim(
        if lines.len() > 0 {
            lines[0]
        } else {
            "could not be parsed as a session config"@
        },
    )
}

/// The reason of an error in one line.
pub fn skip_reason(err: &Error) -> (r: String)
    ensures
        r@ == reason_of(err@),
{
    let lines = text::split_lines(err.root_cause().as_str());
    if lines.len() > 0 {
        assert(text::views(lines@)[0] == lines@[0]@);
        text::trimmed(lines[0].as_str())
    } else {
        text::trimmed("could not be parsed as a session config")
    }
}

/// The paths of the files that could not be loaded, and why.
pub open spec fn skips(files: Seq<LoadedConfig>) -> Seq<(Text, Text)>
    decreases files.len(),
{
    if files.len() == 0 {
        Seq::empty()
    } else {
        match files.last().result {
            Ok(_) => skips(files.drop_last()),
            Err(e) => skips(files.drop_last()).push((files.last().path@, reason_of(e@))),
        }
    }
}

/// No path stands behind one that it stands before.
pub open spec fn ascending(skipped: Seq<(Text, Text)>) -> bool {
    forall|i: int, j: int|
        0 <= i < j < skipped.len() ==> !text::before(
            (#[trigger] skipped[j]).0,
            (#[trigger] skipped[i]).0,
        )
}

/// The paths and reasons of skipped files.
pub open spec fn skip_views(skipped: Seq<SkippedConfig>) -> Seq<(Text, Text)> {
    skipped.map_values(|s: SkippedConfig| (s.path@, s.reason@))
}

/// Like [`load_sessions_from_dir`], but a file that could not be loaded is skipped and named in the
/// result. Skipped files are ordered by their paths.
pub fn load_sessions_from_dir_lenient(files: Vec<LoadedConfig>) -> (r: LenientDirScan)
    ensures
        r.sessions@ == by_name(loaded(by_path(files@))),
        skip_views(r.skipped@) == skips(by_path(files@)),
        ascending(skip_views(r.skipped@)),
{
    proof {
        law_skips_ascend_by_path(files@);
    }
    let mut rest = sorting::sort(files);
    let ghost all = by_path(files@);
    let mut sessions: Vec<Session> = Vec::new();
    let mut skipped: Vec<SkippedConfig> = Vec::new();
    assert(all.skip(0) == all);
    assert(loaded(all.take(0)) == Seq::<Session>::empty());
    assert(skip_views(skipped@) == skips(all.take(0)));
    let ghost mut done: int = 0;
    while rest.len() > 0
        invariant
            all == by_path(files@),
            0 <= done <= all.len(),
            rest@ == all.skip(done),
            sessions@ == by_name(loaded(all.take(done))),
            skip_views(skipped@) == skips(all.take(done)),
        decreases rest@.len(),
    {
        let ghost before = rest@;
        let file = rest.remove(0);
        assert(file == all[done]);
        assert(rest@ == before.skip(1));
        assert(rest@ == all.skip(done + 1));
        assert(all.take(done + 1).drop_last() == all.take(done));
        match file.result {
            Ok(session) => {
                let ghost so_far = loaded(all.take(done));
                assert(loaded(all.take(done + 1)) == so_far.push(session));
                assert(so_far.push(session).drop_last() == so_far);
                sorting::insert_sorted(&mut sessions, session);
            },
            Err(e) => {
                let reason = skip_reason(&e);
                let ghost known = skipped@;
                skipped.push(SkippedConfig { path: file.path, reason });
                assert(skip_views(skipped@) == skip_views(known).push(
                    (file.path@, reason_of(e@)),
                ));
            },
        }
        proof {
            done = done + 1;
        }
    }
    assert(all.take(done) == all);
    LenientDirScan { sessions, skipped }
}

// ─── Laws of loading ─────────────────────────────────────────────────────────

/// White space at the start only ever goes: what is left was there.
proof fn lemma_trim_start_keeps(s: Text)
    ensures
        forall|c: char| text::trim_start(s).contains(c) ==> #[trigger] s.contains(c),
    decreases s.len(),
{
    if text::trim_start(s) != s {
        lemma_trim_start_keeps(s.skip(1));
        assert forall|c: char| s.skip(1).contains(c) implies #[trigger] s.contains(c) by {
            let i = choose|i: int| 0 <= i < s.skip(1).len() && s.skip(1)[i] == c;
            assert(s[i + 1] == c);
        }
        assert forall|c: char| text::trim_start(s).contains(c) implies #[trigger] s.contains(c) by {
            assert(s.skip(1).contains(c));
        }
    }
}

/// White space at the end only ever goes: what is left was there.
proof fn lemma_trim_end_keeps(s: Text)
    ensures
        forall|c: char| text::trim_end(s).contains(c) ==> #[trigger] s.contains(c),
    decreases s.len(),
{
    if text::trim_end(s) != s {
        lemma_trim_end_keeps(s.drop_last());
        assert forall|c: char| s.drop_last().contains(c) implies #[trigger] s.contains(c) by {
            let i = choose|i: int| 0 <= i < s.drop_last().len() && s.drop_last()[i] == c;
            assert(s[i] == c);
        }
        assert forall|c: char| text::trim_end(s).contains(c) implies #[trigger] s.contains(c) by {
            assert(s.drop_last().contains(c));
        }
    }
}

/// The first line of a text holds no line feed.
proof fn lemma_first_line(s: Text, i: int)
    requires
        0 <= i <= s.len(),
        forall|j: int| 0 <= j < i ==> s[j] != '\n',
        s.len() > 0,
    ensures
        text::lines_from(s, i).len() > 0,
        !text::lines_from(s, i)[0].contains('\n'),
    decreases s.len() - i,
{
    if i < s.len() && s[i] != '\n' {
        lemma_first_line(s, i + 1);
    }
}

/// The reason for which a file is skipped is one line.
pub proof fn law_skip_reasons_are_one_line(err: Seq<Text>)
    ensures
        !reason_of(err).contains('\n'),
{
    let cause = err.last();
    let line = if text::lines(cause).len() > 0 {
        text::lines(cause)[0]
    } else {
        "could not be parsed as a session config"@
    };
    assert(!line.contains('\n')) by {
        reveal_strlit("could not be parsed as a session config");
        if cause.len() > 0 {
            lemma_first_line(cause, 0);
        }
    }
    lemma_trim_start_keeps(line);
    lemma_trim_end_keeps(text::trim_start(line));
    assert(text::trim_start(line).contains('\n') ==> line.contains('\n'));
    assert(text::trim(line).contains('\n') ==> text::trim_start(line).contains('\n'));
}

/// Lenient loading loses no file: each is loaded or skipped.
pub proof fn law_every_file_is_loaded_or_skipped(files: Seq<LoadedConfig>)
    ensures
        loaded(files).len() + skips(files).len() == files.len(),
    decreases files.len(),
{
    if files.len() > 0 {
        law_every_file_is_loaded_or_skipped(files.drop_last());
    }
}

/// Strict loading succeeds exactly where lenient loading skips nothing.
pub proof fn law_strict_loading_allows_no_skips(files: Seq<LoadedConfig>)
    ensures
        first_load_error(files) is None <==> skips(files).len() == 0,
    decreases files.len(),
{
    if files.len() == 1 {
        assert(files.drop_last() == Seq::<LoadedConfig>::empty());
        assert(files.skip(1) == Seq::<LoadedConfig>::empty());
        assert(skips(files.drop_last()).len() == 0);
        assert(first_load_error(files.skip(1)) is None);
    } else if files.len() > 1 {
        let front = files.drop_last();
        let back = files.skip(1);
        let middle = front.skip(1);
        assert(middle == back.drop_last());
        assert(front[0] == files[0]);
        assert(back.last() == files.last());
        law_strict_loading_allows_no_skips(front);
        law_strict_loading_allows_no_skips(back);
        law_strict_loading_allows_no_skips(middle);
        assert(skips(back).len() == 0 <==> skips(middle).len() == 0 && files.last().result is Ok);
        assert(first_load_error(front) is None <==> files[0].result is Ok && first_load_error(
            middle,
        ) is None);
    }
}

/// Each skipped file is one of the files that could not be loaded, and they are skipped in order.
proof fn lemma_skipped_file(files: Seq<LoadedConfig>, i: int) -> (k: int)
    requires
        0 <= i < skips(files).len(),
    ensures
        0 <= k < files.len(),
        files[k].result is Err,
        files[k].path@ == skips(files)[i].0,
        i == skips(files.take(k)).len(),
    decreases files.len(),
{
    let front = files.drop_last();
    if i < skips(front).len() {
        let k = lemma_skipped_file(front, i);
        assert(front.take(k) == files.take(k));
        k
    } else {
        assert(files.take(files.len() - 1) == front);
        files.len() - 1
    }
}

proof fn lemma_skips_prefix(files: Seq<LoadedConfig>, j: int, k: int)
    requires
        0 <= j <= k <= files.len(),
    ensures
        skips(files.take(j)).len() <= skips(files.take(k)).len(),
    decreases k,
{
    if j < k {
        assert(files.take(k).drop_last() == files.take(k - 1));
        lemma_skips_prefix(files, j, k - 1);
    }
}

/// Skipped files are ordered by their paths, in whatever order the files came.
pub proof fn law_skips_ascend_by_path(files: Seq<LoadedConfig>)
    ensures
        ascending(skips(by_path(files))),
{
    let all = by_path(files);
    let list = skips(all);
    sorting::law_sorting_orders(files);
    assert forall|i: int, j: int| 0 <= i < j < list.len() implies !text::before(
        (#[trigger] list[j]).0,
        (#[trigger] list[i]).0,
    ) by {
        let a = lemma_skipped_file(all, i);
        let b = lemma_skipped_file(all, j);
        if b <= a {
            lemma_skips_prefix(all, b, a);
        }
        assert(!text::before(all[b].key(), all[a].key()));
    }
}

/// Where loading fails, the file that is told could not be loaded, and no file before it failed.
proof fn lemma_first_failure(files: Seq<LoadedConfig>) -> (k: int)
    requires
        first_load_error(files) is Some,
    ensures
        0 <= k < files.len(),
        files[k].result matches Err(e) && first_load_error(files) == Some(
            seq!["failed to load session config '"@ + files[k].path@ + "'"@] + e@,
        ),
        forall|i: int| 0 <= i < k ==> (#[trigger] files[i]).result is Ok,
    decreases files.len(),
{
    if files[0].result is Err {
        0
    } else {
        let rest = files.skip(1);
        let k = lemma_first_failure(rest);
        assert forall|i: int| 0 <= i < k + 1 implies (#[trigger] files[i]).result is Ok by {
            if i > 0 {
                assert(files[i] == rest[i - 1]);
            }
        }
        k + 1
    }
}

/// Sorting keeps every file.
proof fn lemma_by_path_keeps(files: Seq<LoadedConfig>, file: LoadedConfig)
    ensures
        by_path(files).contains(file) <==> files.contains(file),
{
    broadcast use vstd::seq_lib::group_to_multiset_ensures;

    sorting::law_sorting_orders(files);
    assert(files.to_multiset().count(file) > 0 <==> files.contains(file));
    assert(by_path(files).to_multiset().count(file) > 0 <==> by_path(files).contains(file));
}

/// Where strict loading fails, it tells of a file that could not be loaded, and of all such files
/// none has a path before that of this one, in whatever order the files came.
pub proof fn law_first_failure_is_first_by_path(files: Seq<LoadedConfig>)
    requires
        first_load_error(by_path(files)) is Some,
    ensures
        exists|k: int| #[trigger] told(files, k),
{
    let all = by_path(files);
    let m = lemma_first_failure(all);
    sorting::law_sorting_orders(files);
    assert(all.contains(all[m]));
    lemma_by_path_keeps(files, all[m]);
    let k = choose|k: int| 0 <= k < files.len() && files[k] == all[m];
    assert forall|i: int| 0 <= i < files.len() && (#[trigger] files[i]).result is Err implies
        !text::before(files[i].path@, files[k].path@) by {
        assert(files.contains(files[i]));
        lemma_by_path_keeps(files, files[i]);
        let j = choose|j: int| 0 <= j < all.len() && all[j] == files[i];
        assert(j >= m);
        text::lemma_before_irreflexive(all[m].path@);
        if j > m {
            assert(!text::before(all[j].key(), all[m].key()));
        }
    }
    assert(told(files, k));
}

/// Strict loading tells of the file at `k`: it could not be loaded, and no such file has a path
/// before its own.
pub open spec fn told(files: Seq<LoadedConfig>, k: int) -> bool {
    &&& 0 <= k < files.len()
    &&& files[k].result matches Err(e) && first_load_error(by_path(files)) == Some(
        seq!["failed to load session config '"@ + files[k].path@ + "'"@] + e@,
    )
    &&& forall|i: int|
        0 <= i < files.len() && (#[trigger] files[i]).result is Err ==> !text::before(
            files[i].path@,
            files[k].path@,
        )
}

proof fn lemma_loaded_add(a: Seq<LoadedConfig>, b: Seq<LoadedConfig>)
    ensures
        loaded(a + b) == loaded(a) + loaded(b),
        skips(a + b) == skips(a) + skips(b),
    decreases b.len(),
{
    if b.len() == 0 {
        assert(a + b == a);
        assert(loaded(a) + Seq::<Session>::empty() == loaded(a));
        assert(skips(a) + Seq::<(Text, Text)>::empty() == skips(a));
    } else {
        assert((a + b).drop_last() == a + b.drop_last());
        lemma_loaded_add(a, b.drop_last());
        match b.last().result {
            Ok(session) => {
                assert((loaded(a) + loaded(b.drop_last())).push(session) == loaded(a) + loaded(
                    b.drop_last(),
                ).push(session));
            },
            Err(e) => {
                let skip = (b.last().path@, reason_of(e@));
                assert((skips(a) + skips(b.drop_last())).push(skip) == skips(a) + skips(
                    b.drop_last(),
                ).push(skip));
            },
        }
    }
}

/// The order in which the files of a directory are taken loses none: there is one session for each
/// file that could be loaded, and one entry for each that was skipped.
pub proof fn law_order_of_files_loses_nothing(files: Seq<LoadedConfig>)
    ensures
        loaded(by_path(files)).to_multiset() == loaded(files).to_multiset(),
        skips(by_path(files)).to_multiset() == skips(files).to_multiset(),
    decreases files.len(),
{
    broadcast use vstd::seq_lib::group_to_multiset_ensures;

    if files.len() > 0 {
        let front = files.drop_last();
        let file = files.last();
        let all = by_path(front);
        let k = sorting::place_of(all, file.path@) as int;
        law_order_of_files_loses_nothing(front);
        sorting::law_sorting_orders(front);
        sorting::lemma_place(all, file.path@);
        let a = all.take(k);
        let b = all.skip(k);
        assert(all == a + b);
        assert(by_path(files) == a + (seq![file] + b));
        lemma_loaded_add(a, b);
        lemma_loaded_add(a, seq![file] + b);
        lemma_loaded_add(seq![file], b);
        assert(seq![file].drop_last() == Seq::<LoadedConfig>::empty());
        reveal_with_fuel(loaded, 2);
        reveal_with_fuel(skips, 2);
        match file.result {
            Ok(session) => {
                assert(loaded(seq![file]) == seq![session]);
                assert(skips(seq![file]) == Seq::<(Text, Text)>::empty());
                let n = loaded(a).len() as int;
                assert(loaded(a) + (seq![session] + loaded(b)) == (loaded(a) + loaded(b)).insert(
                    n,
                    session,
                ));
                assert(Seq::<(Text, Text)>::empty() + skips(b) == skips(b));
            },
            Err(e) => {
                let skip = (file.path@, reason_of(e@));
                assert(loaded(seq![file]) == Seq::<Session>::empty());
                assert(skips(seq![file]) == seq![skip]);
                let n = skips(a).len() as int;
                assert(skips(a) + (seq![skip] + skips(b)) == (skips(a) + skips(b)).insert(n, skip));
                assert(Seq::<Session>::empty() + loaded(b) == loaded(b));
            },
        }
    } else {
        assert(files == Seq::<LoadedConfig>::empty());
    }
}

} // verus!
