//! Templates and quoting: `{{key}}` placeholders, what stands in their place, and shell words.
//!
//! A template is cut into parts once, from left to right. The three ways to render it differ only
//! in what they make of the parts.

use crate::checks;
use crate::error::Error;
use crate::ordered_map;
use crate::ordered_map::TemplateVars;
use crate::text;
use crate::text::Text;
use crate::words::{ResolvedTmuxArg, ShellWord};
use vstd::prelude::*;
use vstd::string::*;

verus! {

// ─── Quoting ─────────────────────────────────────────────────────────────────

/// A character inside single quotes: a single quote is closed, escaped and opened again.
pub open spec fn quoted_char(c: char) -> Text {
    if c == '\'' {
        seq!['\'', '\\', '\'', '\'']
    } else {
        seq![c]
    }
}

/// The characters of `s` as they stand between single quotes.
pub open spec fn quoted_body(s: Text) -> Text
    decreases s.len(),
{
    if s.len() == 0 {
        Seq::empty()
    } else {
        quoted_body(s.drop_last()) + quoted_char(s.last())
    }
}

/// `s` as a single-quoted shell word.
pub open spec fn quoted(s: Text) -> Text {
    seq!['\''] + quoted_body(s) + seq!['\'']
}

/// POSIX single-quote escape: wraps `s` in `'…'`, turning an interior `'` into `'\''`.
pub fn shell_quote(s: &str) -> (r: String)
    ensures
        r@ == quoted(s@),
{
    let all = text::chars(s);
    let mut out = String::new();
    out.push('\'');
    assert(s@.take(0) == Seq::<char>::empty());
    for i in 0..all.len()
        invariant
            all@ == s@,
            out@ == seq!['\''] + quoted_body(s@.take(i as int)),
    {
        let c: char = all[i];
        let ghost so_far = out@;
        if c == '\'' {
            out.push('\'');
            out.push('\\');
            out.push('\'');
            out.push('\'');
        } else {
            out.push(c);
        }
        assert(out@ == so_far + quoted_char(c));
        assert(s@.take(i + 1).drop_last() == s@.take(i as int));
        assert(out@ == seq!['\''] + quoted_body(s@.take(i + 1)));
    }
    assert(s@.take(s@.len() as int) == s@);
    out.push('\'');
    assert(out@ == quoted(s@));
    out
}

// ─── Cutting a template ──────────────────────────────────────────────────────

/// A piece of a template: text that stands for itself, or the key of a placeholder.
pub enum Segment {
    Literal(Text),
    Key(Text),
}

/// The first position from `from` on at which `c` stands twice in a row.
pub open spec fn find_pair(s: Text, c: char, from: int) -> Option<int>
    decreases s.len() - from,
{
    if from < 0 || from + 1 >= s.len() {
        None
    } else if s[from] == c && s[from + 1] == c {
        Some(from)
    } else {
        find_pair(s, c, from + 1)
    }
}

/// What [`find_pair`] finds is the first pair.
pub proof fn lemma_find_pair(s: Text, c: char, from: int)
    requires
        0 <= from,
    ensures
        match find_pair(s, c, from) {
            Some(i) => {
                &&& from <= i
                &&& i + 1 < s.len()
                &&& s[i] == c
                &&& s[i + 1] == c
                &&& forall|k: int| from <= k < i ==> !(#[trigger] s[k] == c && s[k + 1] == c)
            },
            None => forall|k: int|
                from <= k < s.len() - 1 ==> !(#[trigger] s[k] == c && s[k + 1] == c),
        },
    decreases s.len() - from,
{
    if from + 1 < s.len() && !(s[from] == c && s[from + 1] == c) {
        lemma_find_pair(s, c, from + 1);
    }
}

/// The segments of the template `s`. A placeholder runs from `{{` to the next `}}`; a `{{` that is
/// never closed stands for itself.
pub open spec fn segments(s: Text) -> Seq<Segment>
    decreases s.len(),
{
    if s.len() == 0 {
        Seq::empty()
    } else {
        match find_pair(s, '{', 0) {
            None => seq![Segment::Literal(s)],
            Some(i) => {
                proof {
                    lemma_find_pair(s, '{', 0);
                    lemma_find_pair(s.skip(i + 2), '}', 0);
                }
                let after = s.skip(i + 2);
                let head = Segment::Literal(s.take(i));
                match find_pair(after, '}', 0) {
                    Some(j) => seq![head, Segment::Key(after.take(j))] + segments(after.skip(j + 2)),
                    None => seq![head, Segment::Literal("{{"@)] + segments(after),
                }
            },
        }
    }
}

// ─── Parts ───────────────────────────────────────────────────────────────────

/// A placeholder that is known without being defined by the session.
#[derive(Debug, Clone, Copy, PartialEq, Eq, Structural)]
pub enum BuiltinVar {
    /// `{{cwd}}`: the current directory.
    Cwd,
    /// `{{date}}`: the current date.
    Date,
    /// `{{git_branch}}`: the branch checked out in the current directory.
    GitBranch,
}

/// The built-in variable that `key` names.
pub open spec fn builtin_named(key: Text) -> Option<BuiltinVar> {
    if key == "cwd"@ {
        Some(BuiltinVar::Cwd)
    } else if key == "date"@ {
        Some(BuiltinVar::Date)
    } else if key == "git_branch"@ {
        Some(BuiltinVar::GitBranch)
    } else {
        None
    }
}

/// The built-in variable that `key` names.
fn builtin_var(key: &str) -> (r: Option<BuiltinVar>)
    ensures
        r == builtin_named(key@),
{
    if text::same_text(key, "cwd") {
        Some(BuiltinVar::Cwd)
    } else if text::same_text(key, "date") {
        Some(BuiltinVar::Date)
    } else if text::same_text(key, "git_branch") {
        Some(BuiltinVar::GitBranch)
    } else {
        None
    }
}

/// The value that the session gives the variable `key`.
pub open spec fn value_of(vars: TemplateVars, key: Text) -> Option<Text> {
    match ordered_map::find(vars@, key) {
        Some(v) => Some(v@),
        None => None,
    }
}

/// What a segment of a template stands for: a text, or the value of a built-in variable.
pub enum Part {
    Fixed(Text),
    Builtin(BuiltinVar),
}

/// What a segment stands for. A variable of the session goes before a built-in one; a placeholder
/// that is neither stands for itself.
pub open spec fn part(segment: Segment, vars: TemplateVars) -> Part {
    match segment {
        Segment::Literal(t) => Part::Fixed(t),
        Segment::Key(key) => match value_of(vars, key) {
            Some(value) => Part::Fixed(value),
            None => match builtin_named(key) {
                Some(b) => Part::Builtin(b),
                None => Part::Fixed("{{"@ + key + "}}"@),
            },
        },
    }
}

/// What the template `s` stands for, from left to right.
pub open spec fn parts(s: Text, vars: TemplateVars) -> Seq<Part> {
    segments(s).map_values(|segment: Segment| part(segment, vars))
}

/// The part holds no NUL character.
pub open spec fn clean_part(p: Part) -> bool {
    match p {
        Part::Fixed(t) => checks::no_nul(t),
        Part::Builtin(_) => true,
    }
}

/// No part holds a NUL character.
pub open spec fn clean(list: Seq<Part>) -> bool {
    forall|i: int| 0 <= i < list.len() ==> clean_part(#[trigger] list[i])
}

/// A part of a template, in executable form.
enum TemplatePart {
    Fixed(String),
    Builtin(BuiltinVar),
}

impl View for TemplatePart {
    type V = Part;

    closed spec fn view(&self) -> Part {
        match self {
            TemplatePart::Fixed(t) => Part::Fixed(t@),
            TemplatePart::Builtin(b) => Part::Builtin(*b),
        }
    }
}

spec fn part_views(list: Seq<TemplatePart>) -> Seq<Part> {
    list.map_values(|p: TemplatePart| p@)
}

/// The position of the first pair of `c` in `all` from `from` on.
fn position_of_pair(all: &Vec<char>, c: char, from: usize) -> (r: Option<usize>)
    requires
        from <= all@.len(),
    ensures
        match r {
            Some(i) => find_pair(all@, c, from as int) == Some(i as int),
            None => find_pair(all@, c, from as int) is None,
        },
{
    let mut i: usize = from;
    while i < all.len() && i + 1 < all.len()
        invariant
            from <= i <= all@.len(),
            find_pair(all@, c, from as int) == find_pair(all@, c, i as int),
        decreases all@.len() - i,
    {
        if all[i] == c && all[i + 1] == c {
            return Some(i);
        }
        i += 1;
    }
    None
}

/// A pair is found in the rest of a text where it is found in the text.
proof fn lemma_find_pair_skip(s: Text, c: char, start: int, from: int)
    requires
        0 <= start <= from,
        start <= s.len(),
    ensures
        find_pair(s, c, from) == match find_pair(s.skip(start), c, from - start) {
            Some(i) => Some(i + start),
            None => None,
        },
    decreases s.len() - from,
{
    if from + 1 < s.len() {
        assert(s.skip(start)[from - start] == s[from]);
        assert(s.skip(start)[from - start + 1] == s[from + 1]);
        lemma_find_pair_skip(s, c, start, from + 1);
    }
}

/// What the placeholder `key` stands for.
fn key_part(key: &str, vars: &TemplateVars) -> (r: TemplatePart)
    ensures
        r@ == part(Segment::Key(key@), *vars),
        checks::no_nul(key@) ==> clean_part(r@),
{
    proof {
        reveal_strlit("{{");
        reveal_strlit("}}");
    }
    match vars.get(key) {
        Some(value) => TemplatePart::Fixed(value.as_str().to_owned()),
        None => match builtin_var(key) {
            Some(b) => TemplatePart::Builtin(b),
            None => TemplatePart::Fixed("{{".to_owned().concat(key).concat("}}")),
        },
    }
}

/// Cuts the template `s` into its parts.
fn cut(s: &str, vars: &TemplateVars) -> (r: Vec<TemplatePart>)
    ensures
        part_views(r@) == parts(s@, *vars),
        checks::no_nul(s@) ==> clean(parts(s@, *vars)),
{
    proof {
        reveal_strlit("{{");
    }
    let all = text::chars(s);
    let mut out: Vec<TemplatePart> = Vec::new();
    let mut start: usize = 0;
    assert(s@.skip(0) == s@);
    assert(part_views(out@) + parts(s@, *vars) == parts(s@, *vars));
    while start < all.len()
        invariant
            all@ == s@,
            start <= all@.len(),
            parts(s@, *vars) == part_views(out@) + parts(s@.skip(start as int), *vars),
            checks::no_nul(s@) ==> clean(part_views(out@)),
        decreases all@.len() - start,
    {
        let ghost rest = s@.skip(start as int);
        let ghost known = out@;
        proof {
            reveal_strlit("{{");
            lemma_find_pair_skip(s@, '{', start as int, start as int);
            lemma_find_pair(rest, '{', 0);
        }
        match position_of_pair(&all, '{', start) {
            None => {
                out.push(TemplatePart::Fixed(text::substring(&all, start, all.len())));
                proof {
                    if checks::no_nul(s@) {
                        checks::lemma_no_nul_subrange(s@, start as int, s@.len() as int);
                    }
                    assert(s@.subrange(start as int, s@.len() as int) == rest);
                    assert(parts(rest, *vars) == seq![Part::Fixed(rest)]);
                    assert(part_views(out@) == part_views(known).push(Part::Fixed(rest)));
                    assert(s@.skip(s@.len() as int) == Seq::<char>::empty());
                    assert(parts(Seq::<char>::empty(), *vars) == Seq::<Part>::empty());
                    assert(part_views(out@) == part_views(known) + seq![Part::Fixed(rest)]);
                    assert(part_views(out@) + Seq::<Part>::empty() == part_views(out@));
                }
                start = all.len();
            },
            Some(open) => {
                let after: usize = open + 2;
                let ghost i = open - start;
                let ghost tail = rest.skip(i + 2);
                proof {
                    assert(tail == s@.skip(after as int));
                    lemma_find_pair_skip(s@, '}', after as int, after as int);
                    lemma_find_pair(tail, '}', 0);
                }
                out.push(TemplatePart::Fixed(text::substring(&all, start, open)));
                proof {
                    assert(s@.subrange(start as int, open as int) == rest.take(i));
                    if checks::no_nul(s@) {
                        checks::lemma_no_nul_subrange(s@, start as int, open as int);
                    }
                }
                let ghost head = Part::Fixed(rest.take(i));
                match position_of_pair(&all, '}', after) {
                    Some(close) => {
                        let key = text::substring(&all, after, close);
                        proof {
                            if checks::no_nul(s@) {
                                checks::lemma_no_nul_subrange(s@, after as int, close as int);
                            }
                        }
                        out.push(key_part(key.as_str(), vars));
                        proof {
                            let j = close - after;
                            let segment = Segment::Key(tail.take(j));
                            assert(s@.subrange(after as int, close as int) == tail.take(j));
                            assert(tail.skip(j + 2) == s@.skip(close + 2));
                            assert(segments(rest) == seq![
                                Segment::Literal(rest.take(i)),
                                segment,
                            ] + segments(tail.skip(j + 2)));
                            assert(parts(rest, *vars) == seq![head, part(segment, *vars)] + parts(
                                tail.skip(j + 2),
                                *vars,
                            ));
                            assert(part_views(out@) == part_views(known) + seq![
                                head,
                                part(segment, *vars),
                            ]);
                            assert(part_views(known) + (seq![head, part(segment, *vars)] + parts(
                                s@.skip(close + 2),
                                *vars,
                            )) == part_views(out@) + parts(s@.skip(close + 2), *vars));
                        }
                        start = close + 2;
                    },
                    None => {
                        out.push(TemplatePart::Fixed("{{".to_owned()));
                        proof {
                            let brace = Part::Fixed("{{"@);
                            assert(segments(rest) == seq![
                                Segment::Literal(rest.take(i)),
                                Segment::Literal("{{"@),
                            ] + segments(tail));
                            assert(parts(rest, *vars) == seq![head, brace] + parts(tail, *vars));
                            assert(part_views(out@) == part_views(known) + seq![head, brace]);
                            assert(part_views(known) + (seq![head, brace] + parts(tail, *vars))
                                == part_views(out@) + parts(tail, *vars));
                        }
                        start = after;
                    },
                }
            },
        }
    }
    assert(s@.skip(s@.len() as int) == Seq::<char>::empty());
    assert(parts(Seq::<char>::empty(), *vars) == Seq::<Part>::empty());
    assert(part_views(out@) + Seq::<Part>::empty() == part_views(out@));
    out
}

// ─── Rendering: command lines ────────────────────────────────────────────────

/// The shell expansion that gives the value of a built-in variable.
pub open spec fn expansion(b: BuiltinVar) -> Text {
    match b {
        BuiltinVar::Cwd => "$PWD"@,
        BuiltinVar::Date => "$(date +%Y-%m-%d)"@,
        BuiltinVar::GitBranch => "$(git rev-parse --abbrev-ref HEAD)"@,
    }
}

fn expansion_str(b: BuiltinVar) -> (r: &'static str)
    ensures
        r@ == expansion(b),
{
    match b {
        BuiltinVar::Cwd => "$PWD",
        BuiltinVar::Date => "$(date +%Y-%m-%d)",
        BuiltinVar::GitBranch => "$(git rev-parse --abbrev-ref HEAD)",
    }
}

/// A part of a command line.
pub open spec fn resolved_part(p: Part) -> Text {
    match p {
        Part::Fixed(t) => t,
        Part::Builtin(b) => expansion(b),
    }
}

/// The parts of a command line, one after the other.
pub open spec fn resolved_parts(list: Seq<Part>) -> Text {
    text::concat(list.map_values(|p: Part| resolved_part(p)))
}

/// The template `s` as a command line: each placeholder is replaced once, and what stands in its
/// place is not looked at again.
pub open spec fn resolved(s: Text, vars: TemplateVars) -> Text {
    resolved_parts(parts(s, vars))
}

/// Parts without NUL make a command line without NUL.
pub proof fn lemma_resolved_no_nul(list: Seq<Part>)
    requires
        clean(list),
    ensures
        checks::no_nul(resolved_parts(list)),
    decreases list.len(),
{
    let texts = list.map_values(|p: Part| resolved_part(p));
    if list.len() > 0 {
        let front = list.drop_last();
        assert(front.map_values(|p: Part| resolved_part(p)) == texts.drop_last());
        lemma_resolved_no_nul(front);
        reveal_strlit("$PWD");
        reveal_strlit("$(date +%Y-%m-%d)");
        reveal_strlit("$(git rev-parse --abbrev-ref HEAD)");
        assert(clean_part(list.last()));
        checks::lemma_no_nul_add(text::concat(texts.drop_last()), texts.last());
    }
}

/// Substitutes `{{key}}` from `vars`, then the built-in variables:
/// - `{{cwd}}` → `$PWD`
/// - `{{date}}` → `$(date +%Y-%m-%d)`
/// - `{{git_branch}}` → `$(git rev-parse --abbrev-ref HEAD)`
///
/// An unknown placeholder is kept as it is.
pub fn resolve_vars(s: &str, vars: &TemplateVars) -> (r: String)
    ensures
        r@ == resolved(s@, *vars),
        checks::no_nul(s@) ==> checks::no_nul(r@),
{
    let list = cut(s, vars);
    let ghost all = parts(s@, *vars);
    let ghost texts = all.map_values(|p: Part| resolved_part(p));
    let mut out = String::new();
    for i in 0..list.len()
        invariant
            part_views(list@) == all,
            texts == all.map_values(|p: Part| resolved_part(p)),
            out@ == text::concat(texts.take(i as int)),
    {
        assert(texts.take(i + 1).drop_last() == texts.take(i as int));
        assert(all[i as int] == list@[i as int]@);
        match &list[i] {
            TemplatePart::Fixed(t) => out.append(t.as_str()),
            TemplatePart::Builtin(b) => out.append(expansion_str(*b)),
        }
    }
    proof {
        assert(texts.take(texts.len() as int) == texts);
        if checks::no_nul(s@) {
            lemma_resolved_no_nul(all);
        }
    }
    out
}

// ─── Rendering: arguments for tmux ───────────────────────────────────────────

/// The built-in variables whose values a list of parts asks for, in order, one for each time that
/// it is asked for.
pub open spec fn requests(list: Seq<Part>) -> Seq<BuiltinVar>
    decreases list.len(),
{
    if list.len() == 0 {
        Seq::empty()
    } else {
        match list.last() {
            Part::Fixed(_) => requests(list.drop_last()),
            Part::Builtin(b) => requests(list.drop_last()).push(b),
        }
    }
}

/// The parts one after the other, with the values `answers` in place of the built-in variables.
pub open spec fn filled(list: Seq<Part>, answers: Seq<Text>) -> Text
    decreases list.len(),
{
    if list.len() == 0 {
        Seq::empty()
    } else {
        filled(list.drop_last(), answers) + match list.last() {
            Part::Fixed(t) => t,
            Part::Builtin(_) => answers[requests(list.drop_last()).len() as int],
        }
    }
}

/// The built-in variables whose values [`resolve_tmux_arg_vars`] needs for the template `s`.
pub fn builtin_requests(s: &str, vars: &TemplateVars) -> (r: Vec<BuiltinVar>)
    ensures
        r@ == requests(parts(s@, *vars)),
{
    let list = cut(s, vars);
    let ghost all = parts(s@, *vars);
    let mut out: Vec<BuiltinVar> = Vec::new();
    for i in 0..list.len()
        invariant
            part_views(list@) == all,
            out@ == requests(all.take(i as int)),
    {
        assert(all.take(i + 1).drop_last() == all.take(i as int));
        assert(all[i as int] == list@[i as int]@);
        match &list[i] {
            TemplatePart::Fixed(_) => {},
            TemplatePart::Builtin(b) => out.push(*b),
        }
    }
    assert(all.take(all.len() as int) == all);
    out
}

/// The first parts of a list ask for the first values.
proof fn lemma_requests_prefix(list: Seq<Part>, n: int)
    requires
        0 <= n <= list.len(),
    ensures
        requests(list.take(n)).len() <= requests(list).len(),
    decreases list.len(),
{
    if n < list.len() {
        assert(list.drop_last().take(n) == list.take(n));
        lemma_requests_prefix(list.drop_last(), n);
    } else {
        assert(list.take(n) == list);
    }
}

/// What the part at `i` adds to the argument, and which answer it uses.
proof fn lemma_fill_step(list: Seq<Part>, answers: Seq<Text>, i: int)
    requires
        0 <= i < list.len(),
        answers.len() == requests(list).len(),
    ensures
        requests(list.take(i)).len() <= answers.len(),
        match list[i] {
            Part::Fixed(t) => {
                &&& requests(list.take(i + 1)).len() == requests(list.take(i)).len()
                &&& filled(list.take(i + 1), answers) == filled(list.take(i), answers) + t
            },
            Part::Builtin(_) => {
                let used = requests(list.take(i)).len();
                &&& used < answers.len()
                &&& requests(list.take(i + 1)).len() == used + 1
                &&& filled(list.take(i + 1), answers) == filled(list.take(i), answers)
                    + answers[used as int]
            },
        },
{
    assert(list.take(i + 1).drop_last() == list.take(i));
    lemma_requests_prefix(list, i);
    lemma_requests_prefix(list, i + 1);
}

/// The template `s` as an argument for tmux. `answers` are the values that [`builtin_requests`]
/// asks for, in its order.
#[verifier::spinoff_prover]
pub fn resolve_tmux_arg_vars(s: &str, vars: &TemplateVars, answers: &Vec<String>) -> (r: Result<
    ResolvedTmuxArg,
    Error,
>)
    requires
        answers@.len() == requests(parts(s@, *vars)).len(),
    ensures
        crate::error::failure(r) == checks::nul_error(
            filled(parts(s@, *vars), text::views(answers@)),
            "resolved tmux argument"@,
        ),
        r matches Ok(arg) ==> arg@ == filled(parts(s@, *vars), text::views(answers@)),
{
    let list = cut(s, vars);
    let ghost all = parts(s@, *vars);
    let mut out = String::new();
    let mut used: usize = 0;
    for i in 0..list.len()
        invariant
            part_views(list@) == all,
            answers@.len() == requests(all).len(),
            used == requests(all.take(i as int)).len(),
            out@ == filled(all.take(i as int), text::views(answers@)),
    {
        proof {
            assert(all[i as int] == list@[i as int]@);
            lemma_fill_step(all, text::views(answers@), i as int);
            assert(answers.len() == answers@.len());
        }
        match &list[i] {
            TemplatePart::Fixed(t) => out.append(t.as_str()),
            TemplatePart::Builtin(_) => {
                out.append(answers[used].as_str());
                used += 1;
            },
        }
    }
    assert(all.take(all.len() as int) == all);
    ResolvedTmuxArg::new(out.as_str())
}

// ─── Rendering: shell words ──────────────────────────────────────────────────

/// The double-quoted expansion that gives the value of a built-in variable as part of a word.
pub open spec fn word_expansion(b: BuiltinVar) -> Text {
    match b {
        BuiltinVar::Cwd => "\"${PWD}\""@,
        BuiltinVar::Date => "\"$(date +%Y-%m-%d)\""@,
        BuiltinVar::GitBranch => "\"$(git rev-parse --abbrev-ref HEAD)\""@,
    }
}

fn word_expansion_str(b: BuiltinVar) -> (r: &'static str)
    ensures
        r@ == word_expansion(b),
{
    match b {
        BuiltinVar::Cwd => "\"${PWD}\"",
        BuiltinVar::Date => "\"$(date +%Y-%m-%d)\"",
        BuiltinVar::GitBranch => "\"$(git rev-parse --abbrev-ref HEAD)\"",
    }
}

/// A part of a shell word.
pub open spec fn word_part(p: Part) -> Text {
    match p {
        Part::Fixed(t) => if t.len() == 0 {
            Seq::empty()
        } else {
            quoted(t)
        },
        Part::Builtin(b) => word_expansion(b),
    }
}

/// The parts of a shell word, one after the other.
pub open spec fn word_parts(list: Seq<Part>) -> Text {
    text::concat(list.map_values(|p: Part| word_part(p)))
}

/// The template `s` as one shell word.
pub open spec fn word(s: Text, vars: TemplateVars) -> Text {
    let w = word_parts(parts(s, vars));
    if w.len() == 0 {
        quoted(Seq::empty())
    } else {
        w
    }
}

/// A text without NUL is quoted without NUL.
pub proof fn lemma_quoted_no_nul(s: Text)
    requires
        checks::no_nul(s),
    ensures
        checks::no_nul(quoted(s)),
{
    lemma_quoted_body_no_nul(s);
    checks::lemma_no_nul_add(seq!['\''], quoted_body(s));
    checks::lemma_no_nul_add(seq!['\''] + quoted_body(s), seq!['\'']);
}

proof fn lemma_quoted_body_no_nul(s: Text)
    requires
        checks::no_nul(s),
    ensures
        checks::no_nul(quoted_body(s)),
    decreases s.len(),
{
    if s.len() > 0 {
        checks::lemma_no_nul_subrange(s, 0, s.len() - 1);
        assert(s.drop_last() == s.subrange(0, s.len() - 1));
        lemma_quoted_body_no_nul(s.drop_last());
        assert(s.contains(s.last()));
        checks::lemma_no_nul_add(quoted_body(s.drop_last()), quoted_char(s.last()));
    }
}

/// Parts without NUL make a word without NUL.
pub proof fn lemma_word_no_nul(list: Seq<Part>)
    requires
        clean(list),
    ensures
        checks::no_nul(word_parts(list)),
    decreases list.len(),
{
    let texts = list.map_values(|p: Part| word_part(p));
    if list.len() > 0 {
        let front = list.drop_last();
        assert(front.map_values(|p: Part| word_part(p)) == texts.drop_last());
        lemma_word_no_nul(front);
        reveal_strlit("\"${PWD}\"");
        reveal_strlit("\"$(date +%Y-%m-%d)\"");
        reveal_strlit("\"$(git rev-parse --abbrev-ref HEAD)\"");
        assert(clean_part(list.last()));
        if let Part::Fixed(t) = list.last() {
            lemma_quoted_no_nul(t);
        }
        checks::lemma_no_nul_add(text::concat(texts.drop_last()), texts.last());
    }
}

/// Appends `literal` to a shell word, quoted; nothing for an empty literal.
fn push_shell_literal(out: &mut String, literal: &str)
    ensures
        final(out)@ == old(out)@ + word_part(Part::Fixed(literal@)),
{
    if !literal.is_empty() {
        out.append(shell_quote(literal).as_str());
    } else {
        assert(out@ + Seq::<char>::empty() == out@);
    }
}

/// The template `s` as one shell word: text and values of `vars` in single quotes, the built-in
/// variables as expansions in double quotes.
pub fn shell_quote_template_vars(s: &str, vars: &TemplateVars) -> (r: Result<ShellWord, Error>)
    ensures
        crate::error::failure(r) == checks::nul_error(word(s@, *vars), "shell word"@),
        r matches Ok(w) ==> w@ == word(s@, *vars),
        checks::no_nul(s@) ==> r is Ok,
{
    let list = cut(s, vars);
    let ghost all = parts(s@, *vars);
    let ghost texts = all.map_values(|p: Part| word_part(p));
    let mut out = String::new();
    for i in 0..list.len()
        invariant
            part_views(list@) == all,
            texts == all.map_values(|p: Part| word_part(p)),
            out@ == text::concat(texts.take(i as int)),
    {
        assert(texts.take(i + 1).drop_last() == texts.take(i as int));
        assert(all[i as int] == list@[i as int]@);
        match &list[i] {
            TemplatePart::Fixed(t) => push_shell_literal(&mut out, t.as_str()),
            TemplatePart::Builtin(b) => out.append(word_expansion_str(*b)),
        }
    }
    proof {
        assert(texts.take(texts.len() as int) == texts);
        if checks::no_nul(s@) {
            lemma_word_no_nul(all);
            lemma_quoted_no_nul(Seq::empty());
        }
    }
    let quoted_word = if out.as_str().is_empty() {
        proof {
            reveal_strlit("");
            assert(""@ == Seq::<char>::empty());
        }
        shell_quote("")
    } else {
        out
    };
    ShellWord::new(quoted_word.as_str())
}

} // verus!
