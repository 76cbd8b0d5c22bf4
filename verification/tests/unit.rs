use nix_tmux_define::{resolve_vars, shell_quote, OrderedMap, TemplateVarName, TemplateVarValue};

fn var_key(value: &str) -> TemplateVarName {
    TemplateVarName::new(value).unwrap()
}

fn var_value(value: &str) -> TemplateVarValue {
    TemplateVarValue::new(value).unwrap()
}

#[test]
fn expands_builtins() {
    let vars = OrderedMap::new();
    assert_eq!(resolve_vars("{{cwd}}", &vars), "$PWD");
    assert_eq!(resolve_vars("{{date}}", &vars), "$(date +%Y-%m-%d)");
    assert_eq!(
        resolve_vars("{{git_branch}}", &vars),
        "$(git rev-parse --abbrev-ref HEAD)"
    );
}

#[test]
fn unknown_placeholder_passes_through() {
    // Intentional: `{{ }}` appears in real commands such as `awk '{{print}}'`,
    // so unknown placeholders must NOT be treated as errors or stripped.
    let vars = OrderedMap::new();
    assert_eq!(resolve_vars("awk '{{print}}'", &vars), "awk '{{print}}'");
    assert_eq!(resolve_vars("{{unknown}}", &vars), "{{unknown}}");
}

#[test]
fn user_var_overrides_builtin_name() {
    // User vars are applied before built-ins, so a user var named like a
    // built-in wins.
    let mut vars = OrderedMap::new();
    vars.insert(var_key("cwd"), var_value("/custom"));
    assert_eq!(resolve_vars("{{cwd}}", &vars), "/custom");
}

/// An independent POSIX-ish tokenizer for a single shell word. It does NOT
/// mirror `shell_quote`'s implementation; it parses `'…'` literal segments and
/// `\<c>` escapes the way a shell would. Returns `None` if the string would not
/// parse as a single, complete word (unterminated quote, dangling backslash, or
/// an unquoted whitespace that would split the word).
fn shell_decode_single_word(s: &str) -> Option<String> {
    let mut out = String::new();
    let mut chars = s.chars();
    while let Some(c) = chars.next() {
        match c {
            '\'' => loop {
                match chars.next() {
                    Some('\'') => break,
                    Some(ch) => out.push(ch),
                    None => return None,
                }
            },
            '\\' => match chars.next() {
                Some(ch) => out.push(ch),
                None => return None,
            },
            c if c.is_whitespace() => return None,
            ch => out.push(ch),
        }
    }
    Some(out)
}

/// Fixed regression guards for classic injection attempts.
#[test]
fn known_injection_attempts_are_neutralised() {
    for case in [
        "",
        "'; rm -rf / #",
        "$(reboot)",
        "`reboot`",
        "${HOME}",
        "a'b'c",
        "''",
        "newline\nhere",
    ] {
        let quoted = shell_quote(case);
        assert_eq!(
            shell_decode_single_word(&quoted).as_deref(),
            Some(case),
            "input {case:?} → {quoted:?} failed to neutralise",
        );
    }
}

/// A pseudo-random sequence of numbers.
struct Numbers(u64);

impl Numbers {
    fn next(&mut self) -> u64 {
        self.0 = self
            .0
            .wrapping_mul(6364136223846793005)
            .wrapping_add(1442695040888963407);
        self.0 >> 33
    }
}

/// A string over characters that matter to a shell, and some that do not.
fn arbitrary_string(numbers: &mut Numbers) -> String {
    let alphabet: Vec<char> = "'\"\\$`{}ab é☃\n\0\u{10ffff}#;&|()<>*?!~=%".chars().collect();
    let length = numbers.next() % 40;
    (0..length)
        .map(|_| alphabet[(numbers.next() as usize) % alphabet.len()])
        .collect()
}

#[test]
fn round_trips_through_independent_decoder() {
    let mut numbers = Numbers(1);
    for _ in 0..2000 {
        let s = arbitrary_string(&mut numbers);
        let quoted = shell_quote(&s);
        assert_eq!(
            shell_decode_single_word(&quoted).as_deref(),
            Some(s.as_str()),
            "quoted form {quoted:?} did not decode back to a single word"
        );
    }
}

#[test]
fn output_is_single_quoted() {
    let mut numbers = Numbers(2);
    for _ in 0..500 {
        let q = shell_quote(&arbitrary_string(&mut numbers));
        assert!(q.starts_with('\''), "must start with a quote: {q:?}");
        assert!(q.ends_with('\''), "must end with a quote: {q:?}");
    }
}

#[test]
fn identity_without_placeholder() {
    let mut vars = OrderedMap::new();
    vars.insert(var_key("unused"), var_value("X"));
    let mut numbers = Numbers(3);
    for _ in 0..500 {
        let s: String = arbitrary_string(&mut numbers).replace('{', "");
        assert_eq!(resolve_vars(&s, &vars), s);
    }
}

#[test]
fn substitutes_user_var() {
    let mut numbers = Numbers(4);
    for _ in 0..500 {
        let value = arbitrary_string(&mut numbers).replace('\0', "");
        let mut vars = OrderedMap::new();
        vars.insert(var_key("k"), var_value(&value));
        assert_eq!(resolve_vars("a {{k}} b", &vars), format!("a {value} b"));
    }
}
