//! What holds of templates and quoting for every input.

use crate::ordered_map;
use crate::ordered_map::{MapKey, TemplateVars};
use crate::template;
use crate::template::{BuiltinVar, Part, Segment};
use crate::text;
use crate::text::Text;
use vstd::prelude::*;

verus! {

// ─── Quoting ─────────────────────────────────────────────────────────────────

/// What a shell makes of the word `w`, read from inside single quotes if `in_quotes`. `None` where
/// a quote is not closed, a backslash escapes nothing, or a character stands outside quotes.
///
/// Inside single quotes every character but the quote stands for itself; outside, a backslash
/// stands for the character that follows it. `values` gives what the double-quoted expansions of
/// the built-in variables expand to.
pub open spec fn shell_value(
    w: Text,
    in_quotes: bool,
    values: spec_fn(BuiltinVar) -> Text,
) -> Option<Text>
    decreases w.len(),
{
    if w.len() == 0 {
        if in_quotes {
            None
        } else {
            Some(Seq::empty())
        }
    } else if in_quotes {
        if w[0] == '\'' {
            shell_value(w.skip(1), false, values)
        } else {
            prepend(seq![w[0]], shell_value(w.skip(1), true, values))
        }
    } else if w[0] == '\'' {
        shell_value(w.skip(1), true, values)
    } else if w[0] == '\\' && w.len() > 1 {
        prepend(seq![w[1]], shell_value(w.skip(2), false, values))
    } else {
        proof {
            lemma_expansion_lengths();
        }
        if text::starts_with(w, "\"${PWD}\""@) {
            prepend(values(BuiltinVar::Cwd), shell_value(w.skip(8), false, values))
        } else if text::starts_with(w, "\"$(date +%Y-%m-%d)\""@) {
            prepend(values(BuiltinVar::Date), shell_value(w.skip(19), false, values))
        } else if text::starts_with(w, "\"$(git rev-parse --abbrev-ref HEAD)\""@) {
            prepend(values(BuiltinVar::GitBranch), shell_value(w.skip(36), false, values))
        } else {
            None
        }
    }
}

/// `head` in front of a value.
pub open spec fn prepend(head: Text, tail: Option<Text>) -> Option<Text> {
    match tail {
        Some(t) => Some(head + t),
        None => None,
    }
}

/// How long the double-quoted expansions are.
pub proof fn lemma_expansion_lengths()
    ensures
        template::word_expansion(BuiltinVar::Cwd).len() == 8,
        template::word_expansion(BuiltinVar::Date).len() == 19,
        template::word_expansion(BuiltinVar::GitBranch).len() == 36,
        "\"${PWD}\""@.len() == 8,
        "\"$(date +%Y-%m-%d)\""@.len() == 19,
        "\"$(git rev-parse --abbrev-ref HEAD)\""@.len() == 36,
{
    reveal_strlit("\"${PWD}\"");
    reveal_strlit("\"$(date +%Y-%m-%d)\"");
    reveal_strlit("\"$(git rev-parse --abbrev-ref HEAD)\"");
}

/// The quoted characters of a text are those of its first character, then those of the rest.
proof fn lemma_quoted_body_front(s: Text)
    requires
        s.len() > 0,
    ensures
        template::quoted_body(s) == template::quoted_char(s[0]) + template::quoted_body(s.skip(1)),
    decreases s.len(),
{
    let empty = Seq::<char>::empty();
    if s.len() == 1 {
        assert(s.drop_last() == empty && s.skip(1) == empty);
        assert(template::quoted_body(empty) == empty);
        assert(empty + template::quoted_char(s[0]) == template::quoted_char(s[0]) + empty);
    } else {
        let front = s.drop_last();
        lemma_quoted_body_front(front);
        assert(front.skip(1) == s.skip(1).drop_last());
        assert(template::quoted_char(s[0]) + template::quoted_body(front.skip(1))
            + template::quoted_char(s.last()) == template::quoted_char(s[0]) + (
        template::quoted_body(front.skip(1)) + template::quoted_char(s.last())));
    }
}

/// One character of a word, read from inside quotes.
proof fn lemma_read_inside(w: Text, values: spec_fn(BuiltinVar) -> Text)
    requires
        w.len() > 0,
    ensures
        shell_value(w, true, values) == (if w[0] == '\'' {
            shell_value(w.skip(1), false, values)
        } else {
            prepend(seq![w[0]], shell_value(w.skip(1), true, values))
        }),
{
}

/// An escaped quote between two quoted pieces, read from inside the first.
proof fn lemma_read_escaped_quote(tail: Text, values: spec_fn(BuiltinVar) -> Text)
    ensures
        shell_value(seq!['\'', '\\', '\'', '\''] + tail, true, values) == prepend(
            seq!['\''],
            shell_value(tail, true, values),
        ),
{
    let w = seq!['\'', '\\', '\'', '\''] + tail;
    let x = seq!['\\', '\'', '\''] + tail;
    let y = seq!['\''] + tail;
    lemma_read_inside(w, values);
    assert(w.skip(1) =~= x);
    assert(x.skip(2) =~= y);
    assert(y.skip(1) =~= tail);
    assert(shell_value(x, false, values) == prepend(seq![x[1]], shell_value(y, false, values)));
    assert(shell_value(y, false, values) == shell_value(tail, true, values));
}

/// Read from inside quotes, the quoted characters of `s` and the closing quote stand for `s`.
proof fn lemma_read_quoted_body(s: Text, rest: Text, values: spec_fn(BuiltinVar) -> Text)
    ensures
        shell_value(template::quoted_body(s) + seq!['\''] + rest, true, values) == prepend(
            s,
            shell_value(rest, false, values),
        ),
    decreases s.len(),
{
    let w = template::quoted_body(s) + seq!['\''] + rest;
    if s.len() == 0 {
        assert(w[0] == '\'' && w.skip(1) == rest);
        lemma_read_inside(w, values);
        assert(s == Seq::<char>::empty());
        if let Some(t) = shell_value(rest, false, values) {
            assert(s + t == t);
        }
    } else {
        let tail = template::quoted_body(s.skip(1)) + seq!['\''] + rest;
        lemma_quoted_body_front(s);
        lemma_read_quoted_body(s.skip(1), rest, values);
        assert(w == template::quoted_char(s[0]) + tail);
        if let Some(t) = shell_value(rest, false, values) {
            assert(seq![s[0]] + (s.skip(1) + t) == s + t);
        }
        if s[0] == '\'' {
            lemma_read_escaped_quote(tail, values);
        } else {
            assert(w[0] == s[0] && w.skip(1) == tail);
            lemma_read_inside(w, values);
        }
    }
}

/// A quoted text in front of a word stands for the text.
proof fn lemma_read_quoted(s: Text, rest: Text, values: spec_fn(BuiltinVar) -> Text)
    ensures
        shell_value(template::quoted(s) + rest, false, values) == prepend(
            s,
            shell_value(rest, false, values),
        ),
{
    let w = template::quoted(s) + rest;
    assert(w[0] == '\'');
    assert(w.skip(1) == template::quoted_body(s) + seq!['\''] + rest);
    lemma_read_quoted_body(s, rest, values);
}

/// Quoting loses nothing and lets nothing through: a shell reads the quoted form of any text as
/// one word, and that word is the text.
pub proof fn law_quoting_round_trips(s: Text, values: spec_fn(BuiltinVar) -> Text)
    ensures
        shell_value(template::quoted(s), false, values) == Some(s),
{
    lemma_read_quoted(s, Seq::empty(), values);
    assert(template::quoted(s) + Seq::<char>::empty() == template::quoted(s));
    assert(s + Seq::<char>::empty() == s);
}

/// The quoted form of a text starts and ends with a single quote.
pub proof fn law_quoted_is_in_single_quotes(s: Text)
    ensures
        template::quoted(s).len() >= 2,
        template::quoted(s)[0] == '\'',
        template::quoted(s).last() == '\'',
{
}

/// Two different texts have different quoted forms.
pub proof fn law_quoting_is_injective(s: Text, t: Text)
    requires
        template::quoted(s) == template::quoted(t),
    ensures
        s == t,
{
    let values = |b: BuiltinVar| Seq::<char>::empty();
    law_quoting_round_trips(s, values);
    law_quoting_round_trips(t, values);
}

// ─── Words and arguments ─────────────────────────────────────────────────────

/// What a part stands for where the built-in variables have the given values.
pub open spec fn part_value(p: Part, values: spec_fn(BuiltinVar) -> Text) -> Text {
    match p {
        Part::Fixed(t) => t,
        Part::Builtin(b) => values(b),
    }
}

/// What a template stands for where the built-in variables have the given values.
pub open spec fn template_value(list: Seq<Part>, values: spec_fn(BuiltinVar) -> Text) -> Text {
    text::concat(list.map_values(|p: Part| part_value(p, values)))
}

/// A part of a word, in front of the rest of it, stands for the value of the part.
proof fn lemma_read_part(p: Part, rest: Text, values: spec_fn(BuiltinVar) -> Text)
    ensures
        shell_value(template::word_part(p) + rest, false, values) == prepend(
            part_value(p, values),
            shell_value(rest, false, values),
        ),
{
    let w = template::word_part(p) + rest;
    match p {
        Part::Fixed(t) => {
            if t.len() == 0 {
                assert(w == rest);
                assert(t == Seq::<char>::empty());
                if let Some(v) = shell_value(rest, false, values) {
                    assert(t + v == v);
                }
            } else {
                lemma_read_quoted(t, rest, values);
            }
        },
        Part::Builtin(b) => {
            let head = template::word_expansion(b);
            lemma_expansion_lengths();
            reveal_strlit("\"${PWD}\"");
            reveal_strlit("\"$(date +%Y-%m-%d)\"");
            reveal_strlit("\"$(git rev-parse --abbrev-ref HEAD)\"");
            assert(w.take(head.len() as int) == head);
            assert(w.skip(head.len() as int) == rest);
            assert(w[0] == '"' && w[1] == '$' && w[2] == head[2] && w[3] == head[3]);
            assert(w.take(8)[2] == w[2] || w.len() < 8);
            assert(w.take(19)[2] == w[2] || w.len() < 19);
            assert(w.take(36)[3] == w[3] || w.len() < 36);
            assert(w.take(19)[3] == w[3] || w.len() < 19);
        },
    }
}

/// The parts of a word, one after the other, stand for the value of the template.
proof fn lemma_read_parts(
    list: Seq<Part>,
    rest: Text,
    values: spec_fn(BuiltinVar) -> Text,
)
    ensures
        shell_value(template::word_parts(list) + rest, false, values) == prepend(
            template_value(list, values),
            shell_value(rest, false, values),
        ),
    decreases list.len(),
{
    let words = list.map_values(|p: Part| template::word_part(p));
    let texts = list.map_values(|p: Part| part_value(p, values));
    if list.len() == 0 {
        assert(template::word_parts(list) + rest == rest);
        if let Some(v) = shell_value(rest, false, values) {
            assert(template_value(list, values) + v == v);
        }
    } else {
        let front = list.drop_last();
        let last = list.last();
        assert(front.map_values(|p: Part| template::word_part(p)) == words.drop_last());
        assert(front.map_values(|p: Part| part_value(p, values)) == texts.drop_last());
        assert(template::word_parts(list) + rest == template::word_parts(front) + (
        template::word_part(last) + rest));
        lemma_read_parts(front, template::word_part(last) + rest, values);
        lemma_read_part(last, rest, values);
        if let Some(v) = shell_value(rest, false, values) {
            assert(template_value(front, values) + (part_value(last, values) + v)
                == template_value(list, values) + v);
        }
    }
}

/// The word made of a template is one that a shell reads as the value of the template, whatever
/// the built-in variables expand to.
pub proof fn law_word_stands_for_template(
    s: Text,
    vars: TemplateVars,
    values: spec_fn(BuiltinVar) -> Text,
)
    ensures
        shell_value(template::word(s, vars), false, values) == Some(
            template_value(template::parts(s, vars), values),
        ),
{
    let list = template::parts(s, vars);
    let w = template::word_parts(list);
    let empty = Seq::<char>::empty();
    lemma_read_parts(list, empty, values);
    assert(w + empty == w);
    assert(template_value(list, values) + empty == template_value(list, values));
    if w.len() == 0 {
        assert(w == empty);
        law_quoting_round_trips(empty, values);
    }
}

/// With the values of the built-in variables as answers, the argument for tmux is the value of
/// the template.
proof fn lemma_filled_value(
    list: Seq<Part>,
    answers: Seq<Text>,
    values: spec_fn(BuiltinVar) -> Text,
)
    requires
        template::requests(list).len() <= answers.len(),
        forall|i: int|
            0 <= i < template::requests(list).len() ==> #[trigger] answers[i] == values(
                template::requests(list)[i],
            ),
    ensures
        template::filled(list, answers) == template_value(list, values),
    decreases list.len(),
{
    let texts = list.map_values(|p: Part| part_value(p, values));
    if list.len() > 0 {
        let front = list.drop_last();
        assert(front.map_values(|p: Part| part_value(p, values)) == texts.drop_last());
        assert forall|i: int| 0 <= i < template::requests(front).len() implies #[trigger] answers[i]
            == values(template::requests(front)[i]) by {
            assert(template::requests(list)[i] == template::requests(front)[i]);
        }
        lemma_filled_value(front, answers, values);
        if let Part::Builtin(b) = list.last() {
            let n = template::requests(front).len() as int;
            assert(template::requests(list)[n] == b);
            assert(answers[n] == values(b));
        }
    }
}

/// A working directory is the same on both ways to build a session: what a shell reads in the
/// script is the argument that tmux gets directly, if the built-in variables have the same values.
pub proof fn law_word_agrees_with_argument(
    s: Text,
    vars: TemplateVars,
    answers: Seq<Text>,
    values: spec_fn(BuiltinVar) -> Text,
)
    requires
        answers == template::requests(template::parts(s, vars)).map_values(values),
    ensures
        shell_value(template::word(s, vars), false, values) == Some(
            template::filled(template::parts(s, vars), answers),
        ),
{
    law_word_stands_for_template(s, vars, values);
    lemma_filled_value(template::parts(s, vars), answers, values);
}

// ─── Substitution ────────────────────────────────────────────────────────────

/// A text without `{{` is no template: it stands for itself.
pub proof fn law_text_without_placeholder_is_kept(s: Text, vars: TemplateVars)
    requires
        forall|i: int| 0 <= i < s.len() - 1 ==> !(#[trigger] s[i] == '{' && s[i + 1] == '{'),
    ensures
        template::resolved(s, vars) == s,
        template::filled(template::parts(s, vars), Seq::empty()) == s,
{
    template::lemma_find_pair(s, '{', 0);
    let list = template::parts(s, vars);
    let texts = list.map_values(|p: Part| template::resolved_part(p));
    let empty = Seq::<char>::empty();
    if s.len() == 0 {
        assert(s == empty);
    } else {
        assert(template::segments(s) == seq![Segment::Literal(s)]);
        assert(list == seq![Part::Fixed(s)]);
        assert(list.drop_last() == Seq::<Part>::empty());
        assert(texts == seq![s]);
        assert(texts.drop_last() == Seq::<Text>::empty());
        assert(empty + s == s);
        reveal_with_fuel(text::concat, 2);
        reveal_with_fuel(template::filled, 2);
    }
}

/// `c` stands at `i` and behind it.
pub open spec fn pair_at(s: Text, c: char, i: int) -> bool {
    0 <= i < s.len() - 1 && s[i] == c && s[i + 1] == c
}

/// A text in which no `}}` stands behind a `{{` holds no placeholder: it stands for itself.
pub proof fn law_unclosed_placeholders_are_kept(s: Text, vars: TemplateVars)
    requires
        forall|i: int, j: int|
            #![trigger pair_at(s, '{', i), pair_at(s, '}', j)]
            pair_at(s, '{', i) && i + 2 <= j ==> !pair_at(s, '}', j),
    ensures
        template::resolved(s, vars) == s,
    decreases s.len(),
{
    template::lemma_find_pair(s, '{', 0);
    match template::find_pair(s, '{', 0) {
        None => law_text_without_placeholder_is_kept(s, vars),
        Some(i) => {
            let head = s.take(i);
            let after = s.skip(i + 2);
            assert(pair_at(s, '{', i));
            assert forall|k: int| 0 <= k < after.len() - 1 implies !(#[trigger] after[k] == '}'
                && after[k + 1] == '}') by {
                assert(s[k + i + 2] == after[k] && s[k + i + 3] == after[k + 1]);
                assert(!pair_at(s, '}', k + i + 2));
            }
            assert forall|j: int, k: int|
                #![trigger pair_at(after, '{', j), pair_at(after, '}', k)]
                pair_at(after, '{', j) && j + 2 <= k implies !pair_at(after, '}', k) by {
                assert(pair_at(after, '}', k) ==> after[k] == '}' && after[k + 1] == '}');
            }
            template::lemma_find_pair(after, '}', 0);
            assert(template::find_pair(after, '}', 0) is None);
            law_unclosed_placeholders_are_kept(after, vars);
            let front = seq![Part::Fixed(head), Part::Fixed("{{"@)];
            let list = template::parts(s, vars);
            assert(list == front + template::parts(after, vars));
            let of_front = front.map_values(|p: Part| template::resolved_part(p));
            let of_after = template::parts(after, vars).map_values(
                |p: Part| template::resolved_part(p),
            );
            assert(list.map_values(|p: Part| template::resolved_part(p)) == of_front + of_after);
            text::lemma_concat_add(of_front, of_after);
            assert(of_front == seq![head, "{{"@]);
            assert(of_front.drop_last() == seq![head]);
            assert(of_front.drop_last().drop_last() == Seq::<Text>::empty());
            reveal_with_fuel(text::concat, 3);
            assert(Seq::<char>::empty() + head == head);
            reveal_strlit("{{");
            assert(s == head + "{{"@ + after);
        },
    }
}

/// In `s`, put before two characters `c`, no two characters `c` stand in a row: those two are the
/// first.
pub open spec fn leads_to_pair(s: Text, c: char) -> bool {
    forall|i: int| 0 <= i < s.len() ==> !(#[trigger] s[i] == c && (i + 1 == s.len() || s[i + 1] == c))
}

/// The parts of a template are those up to the end of its first placeholder, then those of the
/// rest, which is a template of its own.
pub proof fn law_placeholders_are_replaced_from_left_to_right(
    head: Text,
    key: Text,
    rest: Text,
    vars: TemplateVars,
)
    requires
        leads_to_pair(head, '{'),
        leads_to_pair(key, '}'),
    ensures
        template::parts(head + "{{"@ + key + "}}"@ + rest, vars) == seq![
            Part::Fixed(head),
            template::part(Segment::Key(key), vars),
        ] + template::parts(rest, vars),
        template::resolved(head + "{{"@ + key + "}}"@ + rest, vars) == head
            + template::resolved_part(template::part(Segment::Key(key), vars))
            + template::resolved(rest, vars),
{
    reveal_strlit("{{");
    reveal_strlit("}}");
    let s = head + "{{"@ + key + "}}"@ + rest;
    let n = head.len() as int;
    template::lemma_find_pair(s, '{', 0);
    assert(s[n] == '{' && s[n + 1] == '{');
    assert forall|k: int| 0 <= k < n implies !(#[trigger] s[k] == '{' && s[k + 1] == '{') by {
        assert(s[k] == head[k]);
        assert(k + 1 < n ==> s[k + 1] == head[k + 1]);
    }
    let open = template::find_pair(s, '{', 0)->0;
    assert(template::find_pair(s, '{', 0) is Some);
    assert(open == n);
    let after = s.skip(n + 2);
    assert(after == key + "}}"@ + rest);
    let m = key.len() as int;
    template::lemma_find_pair(after, '}', 0);
    assert(after[m] == '}' && after[m + 1] == '}');
    assert forall|k: int| 0 <= k < m implies !(#[trigger] after[k] == '}' && after[k + 1] == '}') by {
        assert(after[k] == key[k]);
        assert(k + 1 < m ==> after[k + 1] == key[k + 1]);
    }
    let close = template::find_pair(after, '}', 0)->0;
    assert(template::find_pair(after, '}', 0) is Some);
    assert(close == m);
    assert(s.take(n) == head && after.take(m) == key && after.skip(m + 2) == rest);
    let front = seq![Part::Fixed(head), template::part(Segment::Key(key), vars)];
    let list = template::parts(s, vars);
    assert(list == front + template::parts(rest, vars));
    let of_front = front.map_values(|p: Part| template::resolved_part(p));
    let of_rest = template::parts(rest, vars).map_values(|p: Part| template::resolved_part(p));
    assert(list.map_values(|p: Part| template::resolved_part(p)) == of_front + of_rest);
    text::lemma_concat_add(of_front, of_rest);
    let value = template::resolved_part(template::part(Segment::Key(key), vars));
    assert(of_front == seq![head, value]);
    assert(of_front.drop_last() == seq![head]);
    assert(of_front.drop_last().drop_last() == Seq::<Text>::empty());
    reveal_with_fuel(text::concat, 3);
    assert(Seq::<char>::empty() + head == head);
}

/// The value of a variable is put in its place as it is: a placeholder inside the value is not
/// replaced.
pub proof fn law_values_are_not_scanned(head: Text, key: Text, rest: Text, vars: TemplateVars)
    requires
        leads_to_pair(head, '{'),
        leads_to_pair(key, '}'),
        template::value_of(vars, key) is Some,
    ensures
        template::resolved(head + "{{"@ + key + "}}"@ + rest, vars) == head + template::value_of(
            vars,
            key,
        )->0 + template::resolved(rest, vars),
{
    law_placeholders_are_replaced_from_left_to_right(head, key, rest, vars);
}

/// A variable of the session goes before the built-in variable of the same name, and a built-in
/// variable stands for its expansion otherwise.
pub proof fn law_session_variables_go_first(key: Text, vars: TemplateVars)
    requires
        template::builtin_named(key) is Some,
    ensures
        template::resolved_part(template::part(Segment::Key(key), vars)) == match template::value_of(
            vars,
            key,
        ) {
            Some(value) => value,
            None => template::expansion(template::builtin_named(key)->0),
        },
{
}

/// A placeholder that is neither a variable of the session nor a built-in one is kept.
pub proof fn law_unknown_placeholders_are_kept(
    head: Text,
    key: Text,
    rest: Text,
    vars: TemplateVars,
)
    requires
        leads_to_pair(head, '{'),
        leads_to_pair(key, '}'),
        template::value_of(vars, key) is None,
        template::builtin_named(key) is None,
    ensures
        template::resolved(head + "{{"@ + key + "}}"@ + rest, vars) == head + ("{{"@ + key + "}}"@)
            + template::resolved(rest, vars),
{
    law_placeholders_are_replaced_from_left_to_right(head, key, rest, vars);
}

/// The parts of a word, one after the other, are nothing, or start with a quote.
proof fn lemma_word_starts_with_a_quote(list: Seq<Part>)
    ensures
        template::word_parts(list).len() > 0 ==> template::word_parts(list)[0] == '\''
            || template::word_parts(list)[0] == '"',
    decreases list.len(),
{
    let words = list.map_values(|p: Part| template::word_part(p));
    if list.len() > 0 {
        let front = list.drop_last();
        assert(front.map_values(|p: Part| template::word_part(p)) == words.drop_last());
        lemma_word_starts_with_a_quote(front);
        reveal_strlit("\"${PWD}\"");
        reveal_strlit("\"$(date +%Y-%m-%d)\"");
        reveal_strlit("\"$(git rev-parse --abbrev-ref HEAD)\"");
    }
}

/// The word made of a template is never empty, not even where the template stands for nothing, so a
/// shell takes it for a word: it starts with a quote.
pub proof fn law_word_is_never_empty(s: Text, vars: TemplateVars)
    ensures
        template::word(s, vars).len() >= 2,
        template::word(s, vars)[0] == '\'' || template::word(s, vars)[0] == '"',
{
    let list = template::parts(s, vars);
    let values = |b: BuiltinVar| Seq::<char>::empty();
    lemma_word_starts_with_a_quote(list);
    law_quoted_is_in_single_quotes(Seq::empty());
    law_word_stands_for_template(s, vars, values);
    let w = template::word(s, vars);
    if w.len() == 1 {
        lemma_lone_quote(w, values);
    }
}

/// A single quote character is no word.
proof fn lemma_lone_quote(w: Text, values: spec_fn(BuiltinVar) -> Text)
    requires
        w.len() == 1,
        w[0] == '\'' || w[0] == '"',
    ensures
        shell_value(w, false, values) is None,
{
    lemma_expansion_lengths();
    assert(w.skip(1) =~= Seq::<char>::empty());
    if w[0] == '\'' {
        assert(shell_value(w, false, values) == shell_value(w.skip(1), true, values));
        assert(shell_value(Seq::empty(), true, values) is None);
    }
}

// ─── Variables ───────────────────────────────────────────────────────────────

/// A variable of the session has the value that the session gives it, and there is no other.
pub proof fn law_session_variables_have_their_values(vars: TemplateVars, key: Text)
    requires
        vars.wf(),
    ensures
        forall|i: int|
            0 <= i < vars@.len() && (#[trigger] vars@[i]).0@ == key ==> template::value_of(vars, key)
                == Some(vars@[i].1@),
        (forall|i: int| 0 <= i < vars@.len() ==> (#[trigger] vars@[i]).0@ != key)
            ==> template::value_of(vars, key) is None,
{
    ordered_map::lemma_find_none(vars@, key);
    assert forall|i: int| 0 <= i < vars@.len() && (#[trigger] vars@[i]).0@ == key implies
        template::value_of(vars, key) == Some(vars@[i].1@) by {
        ordered_map::lemma_find_at(vars@, i);
    }
    if forall|i: int| 0 <= i < vars@.len() ==> (#[trigger] vars@[i]).0@ != key {
        assert forall|i: int| 0 <= i < vars@.len() implies (#[trigger] vars@[i]).0.text() != key by {
            assert(vars@[i].0@ != key);
        }
    }
}

/// The placeholders that are known without the session: in a command line each becomes the shell
/// expansion that gives its value.
pub proof fn law_builtin_placeholders(head: Text, rest: Text, vars: TemplateVars)
    requires
        leads_to_pair(head, '{'),
    ensures
        template::value_of(vars, "cwd"@) is None ==> template::resolved(
            head + "{{"@ + "cwd"@ + "}}"@ + rest,
            vars,
        ) == head + "$PWD"@ + template::resolved(rest, vars),
        template::value_of(vars, "date"@) is None ==> template::resolved(
            head + "{{"@ + "date"@ + "}}"@ + rest,
            vars,
        ) == head + "$(date +%Y-%m-%d)"@ + template::resolved(rest, vars),
        template::value_of(vars, "git_branch"@) is None ==> template::resolved(
            head + "{{"@ + "git_branch"@ + "}}"@ + rest,
            vars,
        ) == head + "$(git rev-parse --abbrev-ref HEAD)"@ + template::resolved(rest, vars),
        forall|key: Text|
            key != "cwd"@ && key != "date"@ && key != "git_branch"@
                ==> #[trigger] template::builtin_named(key) is None,
{
    reveal_strlit("cwd");
    reveal_strlit("date");
    reveal_strlit("git_branch");
    assert("cwd"@.len() == 3 && "date"@.len() == 4 && "git_branch"@.len() == 10);
    assert(leads_to_pair("cwd"@, '}'));
    assert(leads_to_pair("date"@, '}'));
    assert(leads_to_pair("git_branch"@, '}'));
    law_placeholders_are_replaced_from_left_to_right(head, "cwd"@, rest, vars);
    law_placeholders_are_replaced_from_left_to_right(head, "date"@, rest, vars);
    law_placeholders_are_replaced_from_left_to_right(head, "git_branch"@, rest, vars);
}

proof fn lemma_requests_add(a: Seq<Part>, b: Seq<Part>)
    ensures
        template::requests(a + b) == template::requests(a) + template::requests(b),
    decreases b.len(),
{
    if b.len() == 0 {
        assert(a + b =~= a);
        assert(template::requests(a) + Seq::<BuiltinVar>::empty() =~= template::requests(a));
    } else {
        assert((a + b).drop_last() =~= a + b.drop_last());
        lemma_requests_add(a, b.drop_last());
        assert(template::requests(a + b) =~= template::requests(a) + template::requests(b));
    }
}

proof fn lemma_filled_add(a: Seq<Part>, b: Seq<Part>, answers: Seq<Text>)
    requires
        template::requests(a).len() + template::requests(b).len() <= answers.len(),
    ensures
        template::filled(a + b, answers) == template::filled(a, answers) + template::filled(
            b,
            answers.skip(template::requests(a).len() as int),
        ),
    decreases b.len(),
{
    let n = template::requests(a).len() as int;
    if b.len() == 0 {
        assert(a + b =~= a);
        assert(template::filled(a, answers) + Seq::<char>::empty() =~= template::filled(
            a,
            answers,
        ));
    } else {
        let front = b.drop_last();
        assert((a + b).drop_last() =~= a + front);
        lemma_requests_add(a, front);
        lemma_requests_add(a, b);
        lemma_filled_add(a, front, answers);
        let m = template::requests(front).len() as int;
        if b.last() is Builtin {
            assert(answers.skip(n)[m] == answers[n + m]);
        }
        assert(template::filled(a + b, answers) =~= template::filled(a, answers)
            + template::filled(b, answers.skip(n)));
    }
}

/// An argument for tmux is made from left to right: text stands for itself, a variable of the
/// session for its value, and a built-in variable asks for its value, once each time, and stands
/// for the answer.
pub proof fn law_arguments_are_filled_from_left_to_right(
    head: Text,
    key: Text,
    rest: Text,
    vars: TemplateVars,
    answers: Seq<Text>,
)
    requires
        leads_to_pair(head, '{'),
        leads_to_pair(key, '}'),
        template::requests(template::parts(head + "{{"@ + key + "}}"@ + rest, vars)).len()
            == answers.len(),
    ensures
        ({
            let list = template::parts(head + "{{"@ + key + "}}"@ + rest, vars);
            let others = template::parts(rest, vars);
            match (template::value_of(vars, key), template::builtin_named(key)) {
                (Some(value), _) => {
                    &&& template::requests(list) == template::requests(others)
                    &&& template::filled(list, answers) == head + value + template::filled(
                        others,
                        answers,
                    )
                },
                (None, Some(b)) => {
                    &&& template::requests(list) == seq![b] + template::requests(others)
                    &&& template::filled(list, answers) == head + answers[0] + template::filled(
                        others,
                        answers.skip(1),
                    )
                },
                (None, None) => {
                    &&& template::requests(list) == template::requests(others)
                    &&& template::filled(list, answers) == head + ("{{"@ + key + "}}"@)
                        + template::filled(others, answers)
                },
            }
        }),
{
    law_placeholders_are_replaced_from_left_to_right(head, key, rest, vars);
    let list = template::parts(head + "{{"@ + key + "}}"@ + rest, vars);
    let others = template::parts(rest, vars);
    let p = template::part(Segment::Key(key), vars);
    let front = seq![Part::Fixed(head), p];
    assert(list == front + others);
    lemma_requests_add(front, others);
    assert(front.drop_last() =~= seq![Part::Fixed(head)]);
    assert(front.drop_last().drop_last() =~= Seq::<Part>::empty());
    reveal_with_fuel(template::requests, 3);
    reveal_with_fuel(template::filled, 3);
    assert(Seq::<char>::empty() + head =~= head);
    match p {
        Part::Fixed(t) => {
            assert(template::requests(front) =~= Seq::<BuiltinVar>::empty());
            assert(Seq::<BuiltinVar>::empty() + template::requests(others) =~= template::requests(
                others,
            ));
            lemma_filled_add(front, others, answers);
            assert(answers.skip(0) =~= answers);
            assert(template::filled(front, answers) =~= head + t);
        },
        Part::Builtin(b) => {
            assert(template::requests(front) =~= seq![b]);
            lemma_filled_add(front, others, answers);
            assert(template::filled(front, answers) =~= head + answers[0]);
        },
    }
}

} // verus!
