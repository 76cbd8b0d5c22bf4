//! The rules that names, keys, values and patterns of a session description obey.
//!
//! For each rule there are three things: the predicate that says which texts obey it, the message
//! that a text breaking it is refused with, and the function that tests it.

use crate::error::Error;
use crate::text;
use crate::text::Text;
use vstd::prelude::*;
use vstd::string::*;

verus! {

// ─── tmux names ──────────────────────────────────────────────────────────────

/// The characters that separate the parts of a tmux target.
pub open spec fn is_separator(c: char) -> bool {
    c == ':' || c == '.'
}

/// The first target separator in `s`.
pub open spec fn first_separator(s: Text) -> Option<char>
    decreases s.len(),
{
    if s.len() == 0 {
        None
    } else if is_separator(s[0]) {
        Some(s[0])
    } else {
        first_separator(s.skip(1))
    }
}

/// The first control character in `s`.
pub open spec fn first_control(s: Text) -> Option<char>
    decreases s.len(),
{
    if s.len() == 0 {
        None
    } else if text::is_control(s[0]) {
        Some(s[0])
    } else {
        first_control(s.skip(1))
    }
}

/// A tmux session or window name: not empty, no target separator, no control character.
pub open spec fn valid_tmux_name(s: Text) -> bool {
    &&& s.len() > 0
    &&& forall|i: int|
        0 <= i < s.len() ==> !is_separator(#[trigger] s[i]) && !text::is_control(s[i])
}

/// Why `s` is no tmux name.
pub open spec fn tmux_name_error(s: Text, context: Text) -> Option<Seq<Text>> {
    if s.len() == 0 {
        Some(seq![context + ": tmux name must not be empty"@])
    } else {
        match first_separator(s) {
            Some(ch) => Some(
                seq![
                    context + ": tmux name must not contain "@ + text::debug_char(ch)
                        + " (tmux target separator)"@,
                ],
            ),
            None => match first_control(s) {
                Some(ch) => Some(
                    seq![
                        context + ": tmux name must not contain control characters (found "@
                            + text::debug_char(ch) + ")"@,
                    ],
                ),
                None => None,
            },
        }
    }
}

/// A name is refused exactly when it breaks the rule for tmux names.
pub proof fn lemma_tmux_name_error(s: Text, context: Text)
    ensures
        tmux_name_error(s, context) is None <==> valid_tmux_name(s),
{
    lemma_first_separator(s);
    lemma_first_control(s);
}

proof fn lemma_first_separator(s: Text)
    ensures
        first_separator(s) is None <==> (forall|i: int|
            0 <= i < s.len() ==> !is_separator(#[trigger] s[i])),
    decreases s.len(),
{
    if s.len() > 0 && !is_separator(s[0]) {
        lemma_first_separator(s.skip(1));
        assert(s == seq![s[0]] + s.skip(1));
        assert(forall|i: int| 0 <= i < s.len() - 1 ==> #[trigger] s.skip(1)[i] == s[i + 1]);
    }
}

proof fn lemma_first_control(s: Text)
    ensures
        first_control(s) is None <==> (forall|i: int|
            0 <= i < s.len() ==> !text::is_control(#[trigger] s[i])),
    decreases s.len(),
{
    if s.len() > 0 && !text::is_control(s[0]) {
        lemma_first_control(s.skip(1));
        assert(s == seq![s[0]] + s.skip(1));
        assert(forall|i: int| 0 <= i < s.len() - 1 ==> #[trigger] s.skip(1)[i] == s[i + 1]);
    }
}

fn find_separator(s: &str) -> (r: Option<char>)
    ensures
        r == first_separator(s@),
{
    let all = text::chars(s);
    assert(s@.skip(0) == s@);
    for i in 0..all.len()
        invariant
            all@ == s@,
            first_separator(s@) == first_separator(s@.skip(i as int)),
    {
        assert(s@.skip(i as int)[0] == s@[i as int]);
        let c: char = all[i];
        if c == ':' || c == '.' {
            return Some(c);
        }
        assert(s@.skip(i as int).skip(1) == s@.skip(i + 1));
    }
    None
}

fn find_control(s: &str) -> (r: Option<char>)
    ensures
        r == first_control(s@),
{
    let all = text::chars(s);
    assert(s@.skip(0) == s@);
    for i in 0..all.len()
        invariant
            all@ == s@,
            first_control(s@) == first_control(s@.skip(i as int)),
    {
        assert(s@.skip(i as int)[0] == s@[i as int]);
        let c: char = all[i];
        if text::control_char(c) {
            return Some(c);
        }
        assert(s@.skip(i as int).skip(1) == s@.skip(i + 1));
    }
    None
}

/// Tests `s` against the rule for tmux session and window names. `context` says what the name is
/// for and starts the message of the error.
pub fn validate_tmux_name(s: &str, context: &str) -> (r: Result<(), Error>)
    ensures
        crate::error::failure(r) == tmux_name_error(s@, context@),
        r is Ok <==> valid_tmux_name(s@),
{
    proof {
        lemma_tmux_name_error(s@, context@);
    }
    if s.is_empty() {
        return Err(Error::msg(context.to_owned().concat(": tmux name must not be empty")));
    }
    if let Some(ch) = find_separator(s) {
        return Err(
            Error::msg(
                context.to_owned().concat(": tmux name must not contain ").concat(
                    text::debug_char_string(ch).as_str(),
                ).concat(" (tmux target separator)"),
            ),
        );
    }
    if let Some(ch) = find_control(s) {
        return Err(
            Error::msg(
                context.to_owned().concat(
                    ": tmux name must not contain control characters (found ",
                ).concat(text::debug_char_string(ch).as_str()).concat(")"),
            ),
        );
    }
    Ok(())
}

// ─── Environment variable and template variable names ────────────────────────

/// A character that may start a variable name.
pub open spec fn is_key_start(c: char) -> bool {
    text::is_letter(c) || c == '_'
}

/// A character that may stand in a variable name after the first.
pub open spec fn is_key_rest(c: char) -> bool {
    text::is_letter(c) || text::is_digit(c) || c == '_'
}

/// A variable name: an ASCII letter or underscore, then ASCII letters, digits and underscores.
pub open spec fn valid_env_key(s: Text) -> bool {
    &&& s.len() > 0
    &&& is_key_start(s[0])
    &&& forall|i: int| 1 <= i < s.len() ==> is_key_rest(#[trigger] s[i])
}

/// Why `s` is no variable name.
pub open spec fn env_key_error(s: Text, context: Text) -> Option<Seq<Text>> {
    if s.len() == 0 {
        Some(seq![context + ": env var key must not be empty"@])
    } else if !is_key_start(s[0]) {
        Some(
            seq![
                context + ": invalid env var key "@ + text::debug_text(s)
                    + ": must start with ASCII letter or underscore"@,
            ],
        )
    } else if !valid_env_key(s) {
        Some(
            seq![
                context + ": invalid env var key "@ + text::debug_text(s)
                    + ": must contain only ASCII letters, digits, or underscores"@,
            ],
        )
    } else {
        None
    }
}

/// Tests `s` against the rule for environment variable names.
pub fn validate_env_key(s: &str, context: &str) -> (r: Result<(), Error>)
    ensures
        crate::error::failure(r) == env_key_error(s@, context@),
        r is Ok <==> valid_env_key(s@),
{
    if s.is_empty() {
        return Err(Error::msg(context.to_owned().concat(": env var key must not be empty")));
    }
    let all = text::chars(s);
    if !text::letter_char(all[0]) && all[0] != '_' {
        return Err(
            Error::msg(
                context.to_owned().concat(": invalid env var key ").concat(
                    text::debug_string(s).as_str(),
                ).concat(": must start with ASCII letter or underscore"),
            ),
        );
    }
    for i in 1..all.len()
        invariant
            all@ == s@,
            s@.len() > 0,
            is_key_start(s@[0]),
            forall|j: int| 1 <= j < i ==> is_key_rest(#[trigger] s@[j]),
    {
        if !text::letter_char(all[i]) && !text::digit_char(all[i]) && all[i] != '_' {
            assert(!is_key_rest(s@[i as int]));
            return Err(
                Error::msg(
                    context.to_owned().concat(": invalid env var key ").concat(
                        text::debug_string(s).as_str(),
                    ).concat(": must contain only ASCII letters, digits, or underscores"),
                ),
            );
        }
    }
    Ok(())
}

/// Tests `s` against the rule for template variable names, which is that of environment variables.
pub fn validate_template_var_name(s: &str, context: &str) -> (r: Result<(), Error>)
    ensures
        crate::error::failure(r) == env_key_error(s@, context@),
        r is Ok <==> valid_env_key(s@),
{
    validate_env_key(s, context)
}

// ─── Free text ───────────────────────────────────────────────────────────────

/// `s` holds no NUL character.
pub open spec fn no_nul(s: Text) -> bool {
    !s.contains('\0')
}

/// A part of a text without NUL holds none either.
pub proof fn lemma_no_nul_subrange(s: Text, from: int, to: int)
    requires
        0 <= from <= to <= s.len(),
        no_nul(s),
    ensures
        no_nul(s.subrange(from, to)),
{
    let sub = s.subrange(from, to);
    if sub.contains('\0') {
        let i = choose|i: int| 0 <= i < sub.len() && sub[i] == '\0';
        assert(s[from + i] == '\0');
    }
}

/// Two texts without NUL, one after the other, hold none either.
pub proof fn lemma_no_nul_add(a: Text, b: Text)
    ensures
        no_nul(a + b) <==> no_nul(a) && no_nul(b),
{
    if no_nul(a) && no_nul(b) && (a + b).contains('\0') {
        let i = choose|i: int| 0 <= i < (a + b).len() && (a + b)[i] == '\0';
        assert(if i < a.len() {
            a[i] == '\0'
        } else {
            b[i - a.len()] == '\0'
        });
    }
    if a.contains('\0') {
        let i = choose|i: int| 0 <= i < a.len() && a[i] == '\0';
        assert((a + b)[i] == '\0');
    }
    if b.contains('\0') {
        let i = choose|i: int| 0 <= i < b.len() && b[i] == '\0';
        assert((a + b)[a.len() + i] == '\0');
    }
}

/// Why `s` is no text without NUL.
pub open spec fn nul_error(s: Text, context: Text) -> Option<Seq<Text>> {
    if no_nul(s) {
        None
    } else {
        Some(seq![context + ": must not contain NUL bytes"@])
    }
}

/// Tests that `s` holds no NUL character.
pub fn validate_no_nul(s: &str, context: &str) -> (r: Result<(), Error>)
    ensures
        crate::error::failure(r) == nul_error(s@, context@),
        r is Ok <==> no_nul(s@),
{
    if text::has_char(s, '\0') {
        return Err(Error::msg(context.to_owned().concat(": must not contain NUL bytes")));
    }
    Ok(())
}

/// Tests that `s` holds no NUL character.
pub fn validate_string_no_nul(s: &str, context: &str) -> (r: Result<(), Error>)
    ensures
        crate::error::failure(r) == nul_error(s@, context@),
        r is Ok <==> no_nul(s@),
{
    validate_no_nul(s, context)
}

/// `s` is not empty and holds no NUL character.
pub open spec fn valid_non_empty(s: Text) -> bool {
    no_nul(s) && s.len() > 0
}

/// Why `s` is no non-empty text without NUL. `what` names it in the message on emptiness.
pub open spec fn non_empty_error(s: Text, context: Text, what: Text) -> Option<Seq<Text>> {
    if !no_nul(s) {
        nul_error(s, context)
    } else if s.len() == 0 {
        Some(seq![context + what + " must not be empty"@])
    } else {
        None
    }
}

/// Tests that `s` is not empty and holds no NUL character.
pub fn validate_non_empty_no_nul(s: &str, context: &str) -> (r: Result<(), Error>)
    ensures
        crate::error::failure(r) == non_empty_error(s@, context@, ":"@),
        r is Ok <==> valid_non_empty(s@),
{
    validate_no_nul(s, context)?;
    if s.is_empty() {
        return Err(Error::msg(context.to_owned().concat(":").concat(" must not be empty")));
    }
    Ok(())
}

/// Tests `s` against the rule for tmux layout presets: not empty, no NUL character.
pub fn validate_tmux_layout_preset(s: &str, context: &str) -> (r: Result<(), Error>)
    ensures
        crate::error::failure(r) == non_empty_error(s@, context@, ": tmux layout preset"@),
        r is Ok <==> valid_non_empty(s@),
{
    validate_no_nul(s, context)?;
    if s.is_empty() {
        return Err(
            Error::msg(
                context.to_owned().concat(": tmux layout preset").concat(" must not be empty"),
            ),
        );
    }
    Ok(())
}

/// Why `s` is no pattern to wait for.
pub open spec fn wait_pattern_error(s: Text, context: Text) -> Option<Seq<Text>> {
    if s.len() == 0 {
        Some(seq![context + ": wait_for pattern must not be empty"@])
    } else {
        nul_error(s, context)
    }
}

/// Tests `s` against the rule for patterns to wait for: not empty, no NUL character.
pub fn validate_wait_pattern(s: &str, context: &str) -> (r: Result<(), Error>)
    ensures
        crate::error::failure(r) == wait_pattern_error(s@, context@),
        r is Ok <==> valid_non_empty(s@),
{
    if s.is_empty() {
        return Err(Error::msg(context.to_owned().concat(": wait_for pattern must not be empty")));
    }
    validate_no_nul(s, context)
}

// ─── tmux options ────────────────────────────────────────────────────────────

/// A tmux option name: not empty, no NUL character, no leading `-`.
pub open spec fn valid_option_name(s: Text) -> bool {
    no_nul(s) && s.len() > 0 && s[0] != '-'
}

/// Why `s` is no tmux option name.
pub open spec fn option_name_error(s: Text, context: Text) -> Option<Seq<Text>> {
    if !no_nul(s) {
        nul_error(s, context)
    } else if s.len() == 0 {
        Some(seq![context + ": tmux option key must not be empty"@])
    } else if s[0] == '-' {
        Some(
            seq![
                context + ": invalid tmux option key "@ + text::debug_text(s)
                    + ": must not start with '-' (would be parsed as a flag)"@,
            ],
        )
    } else {
        None
    }
}

/// Tests `s` against the rule for tmux option names.
pub fn validate_tmux_option_name(s: &str, context: &str) -> (r: Result<(), Error>)
    ensures
        crate::error::failure(r) == option_name_error(s@, context@),
        r is Ok <==> valid_option_name(s@),
{
    validate_no_nul(s, context)?;
    if s.is_empty() {
        return Err(Error::msg(context.to_owned().concat(": tmux option key must not be empty")));
    }
    let all = text::chars(s);
    if all[0] == '-' {
        return Err(
            Error::msg(
                context.to_owned().concat(": invalid tmux option key ").concat(
                    text::debug_string(s).as_str(),
                ).concat(": must not start with '-' (would be parsed as a flag)"),
            ),
        );
    }
    Ok(())
}

/// Tests that the tmux option value `s` holds no NUL character.
pub fn validate_tmux_option_value(s: &str, context: &str) -> (r: Result<(), Error>)
    ensures
        crate::error::failure(r) == nul_error(s@, context@),
        r is Ok <==> no_nul(s@),
{
    validate_no_nul(s, context)
}

// ─── Pane ids ────────────────────────────────────────────────────────────────

/// A tmux pane id: `%` and one or more decimal digits.
pub open spec fn valid_pane_id(s: Text) -> bool {
    &&& s.len() > 1
    &&& s[0] == '%'
    &&& forall|i: int| 1 <= i < s.len() ==> text::is_digit(#[trigger] s[i])
}

/// Why `s` is no pane id.
pub open spec fn pane_id_error(s: Text) -> Option<Seq<Text>> {
    if !no_nul(s) {
        nul_error(s, "pane id"@)
    } else if s.len() == 0 {
        Some(seq!["pane id must not be empty"@])
    } else if !valid_pane_id(s) {
        Some(seq!["pane id must be a tmux pane id like %0, got "@ + text::debug_text(s)])
    } else {
        None
    }
}

/// A pane id is refused exactly when it breaks the rule for pane ids.
pub proof fn lemma_pane_id_error(s: Text)
    ensures
        pane_id_error(s) is None <==> valid_pane_id(s),
{
    if valid_pane_id(s) && s.contains('\0') {
        let i = choose|i: int| 0 <= i < s.len() && s[i] == '\0';
        assert(text::is_digit(s[i]));
    }
}

/// Tests `s` against the rule for pane ids.
pub fn validate_pane_id(s: &str) -> (r: Result<(), Error>)
    ensures
        crate::error::failure(r) == pane_id_error(s@),
        r is Ok <==> valid_pane_id(s@),
{
    proof {
        lemma_pane_id_error(s@);
    }
    validate_no_nul(s, "pane id")?;
    if s.is_empty() {
        return Err(Error::msg("pane id must not be empty".to_owned()));
    }
    let all = text::chars(s);
    let mut digits: bool = true;
    for i in 1..all.len()
        invariant
            all@ == s@,
            digits <==> forall|j: int| 1 <= j < i ==> text::is_digit(#[trigger] s@[j]),
    {
        if !text::digit_char(all[i]) {
            assert(!text::is_digit(s@[i as int]));
            digits = false;
        }
    }
    if all[0] != '%' || !digits || all.len() <= 1 {
        return Err(
            Error::msg(
                "pane id must be a tmux pane id like %0, got ".to_owned().concat(
                    text::debug_string(s).as_str(),
                ),
            ),
        );
    }
    Ok(())
}

} // verus!
