//! Strings that are known to be valid: each type holds a text that obeys one rule of
//! [`crate::checks`], and there is no way to build a value that breaks it.

use crate::checks;
use crate::error::Error;
use crate::text;
use crate::text::Text;
use vstd::prelude::*;
use vstd::string::*;

verus! {

/// The name of a tmux session or window.
#[derive(Debug, PartialEq, Eq, PartialOrd, Ord, Hash)]
pub struct TmuxName(String);

impl View for TmuxName {
    type V = Text;

    closed spec fn view(&self) -> Text {
        self.0@
    }
}

impl TmuxName {
    /// The rule that every value obeys.
    #[verifier::type_invariant]
    pub open spec fn wf(&self) -> bool {
        checks::valid_tmux_name(self@)
    }

    /// The value with the text `value`, if the rule allows it.
    pub fn new(value: &str) -> (r: Result<TmuxName, Error>)
        ensures
            crate::error::failure(r) == checks::tmux_name_error(value@, "tmux name"@),
            r is Ok <==> checks::valid_tmux_name(value@),
            r matches Ok(v) ==> v@ == value@,
    {
        checks::validate_tmux_name(value, "tmux name")?;
        Ok(TmuxName(value.to_owned()))
    }

    /// The text.
    pub fn as_str(&self) -> (r: &str)
        ensures
            r@ == self@,
            self.wf(),
    {
        proof {
            use_type_invariant(self);
        }
        self.0.as_str()
    }

    /// The text, by value.
    pub fn into_inner(self) -> (r: String)
        ensures
            r@ == self@,
            self.wf(),
    {
        proof {
            use_type_invariant(&self);
        }
        self.0
    }
}

impl Clone for TmuxName {
    fn clone(&self) -> (r: TmuxName)
        ensures
            r@ == self@,
    {
        proof {
            use_type_invariant(self);
        }
        TmuxName(self.0.clone())
    }
}

impl TmuxName {
    /// What `{:?}` prints for a value with the text `s`.
    pub open spec fn debug(s: Text) -> Text {
        "TmuxName("@ + text::debug_text(s) + ")"@
    }

    /// The text that `{:?}` prints.
    pub fn debug_string(&self) -> (r: String)
        ensures
            r@ == TmuxName::debug(self@),
    {
        "TmuxName(".to_owned().concat(text::debug_string(self.as_str()).as_str()).concat(")")
    }
}

/// A command line typed into a pane.
#[derive(Debug, PartialEq, Eq, PartialOrd, Ord, Hash)]
pub struct PaneCommand(String);

impl View for PaneCommand {
    type V = Text;

    closed spec fn view(&self) -> Text {
        self.0@
    }
}

impl PaneCommand {
    /// The rule that every value obeys.
    #[verifier::type_invariant]
    pub open spec fn wf(&self) -> bool {
        checks::no_nul(self@)
    }

    /// The value with the text `value`, if the rule allows it.
    pub fn new(value: &str) -> (r: Result<PaneCommand, Error>)
        ensures
            crate::error::failure(r) == checks::nul_error(value@, "pane command"@),
            r is Ok <==> checks::no_nul(value@),
            r matches Ok(v) ==> v@ == value@,
    {
        checks::validate_string_no_nul(value, "pane command")?;
        Ok(PaneCommand(value.to_owned()))
    }

    /// The text.
    pub fn as_str(&self) -> (r: &str)
        ensures
            r@ == self@,
            self.wf(),
    {
        proof {
            use_type_invariant(self);
        }
        self.0.as_str()
    }

    /// The text, by value.
    pub fn into_inner(self) -> (r: String)
        ensures
            r@ == self@,
            self.wf(),
    {
        proof {
            use_type_invariant(&self);
        }
        self.0
    }
}

impl Clone for PaneCommand {
    fn clone(&self) -> (r: PaneCommand)
        ensures
            r@ == self@,
    {
        proof {
            use_type_invariant(self);
        }
        PaneCommand(self.0.clone())
    }
}

/// The title of a pane.
#[derive(Debug, PartialEq, Eq, PartialOrd, Ord, Hash)]
pub struct PaneTitle(String);

impl View for PaneTitle {
    type V = Text;

    closed spec fn view(&self) -> Text {
        self.0@
    }
}

impl PaneTitle {
    /// The rule that every value obeys.
    #[verifier::type_invariant]
    pub open spec fn wf(&self) -> bool {
        checks::no_nul(self@)
    }

    /// The value with the text `value`, if the rule allows it.
    pub fn new(value: &str) -> (r: Result<PaneTitle, Error>)
        ensures
            crate::error::failure(r) == checks::nul_error(value@, "pane title"@),
            r is Ok <==> checks::no_nul(value@),
            r matches Ok(v) ==> v@ == value@,
    {
        checks::validate_string_no_nul(value, "pane title")?;
        Ok(PaneTitle(value.to_owned()))
    }

    /// The text.
    pub fn as_str(&self) -> (r: &str)
        ensures
            r@ == self@,
            self.wf(),
    {
        proof {
            use_type_invariant(self);
        }
        self.0.as_str()
    }

    /// The text, by value.
    pub fn into_inner(self) -> (r: String)
        ensures
            r@ == self@,
            self.wf(),
    {
        proof {
            use_type_invariant(&self);
        }
        self.0
    }
}

impl Clone for PaneTitle {
    fn clone(&self) -> (r: PaneTitle)
        ensures
            r@ == self@,
    {
        proof {
            use_type_invariant(self);
        }
        PaneTitle(self.0.clone())
    }
}

/// A command line for `bash -c`.
#[derive(Debug, PartialEq, Eq, PartialOrd, Ord, Hash)]
pub struct ShellCommand(String);

impl View for ShellCommand {
    type V = Text;

    closed spec fn view(&self) -> Text {
        self.0@
    }
}

impl ShellCommand {
    /// The rule that every value obeys.
    #[verifier::type_invariant]
    pub open spec fn wf(&self) -> bool {
        checks::no_nul(self@)
    }

    /// The value with the text `value`, if the rule allows it.
    pub fn new(value: &str) -> (r: Result<ShellCommand, Error>)
        ensures
            crate::error::failure(r) == checks::nul_error(value@, "shell command"@),
            r is Ok <==> checks::no_nul(value@),
            r matches Ok(v) ==> v@ == value@,
    {
        checks::validate_string_no_nul(value, "shell command")?;
        Ok(ShellCommand(value.to_owned()))
    }

    /// The text.
    pub fn as_str(&self) -> (r: &str)
        ensures
            r@ == self@,
            self.wf(),
    {
        proof {
            use_type_invariant(self);
        }
        self.0.as_str()
    }

    /// The text, by value.
    pub fn into_inner(self) -> (r: String)
        ensures
            r@ == self@,
            self.wf(),
    {
        proof {
            use_type_invariant(&self);
        }
        self.0
    }
}

impl Clone for ShellCommand {
    fn clone(&self) -> (r: ShellCommand)
        ensures
            r@ == self@,
    {
        proof {
            use_type_invariant(self);
        }
        ShellCommand(self.0.clone())
    }
}

/// A working directory, with `{{key}}` placeholders.
#[derive(Debug, PartialEq, Eq, PartialOrd, Ord, Hash)]
pub struct RootTemplate(String);

impl View for RootTemplate {
    type V = Text;

    closed spec fn view(&self) -> Text {
        self.0@
    }
}

impl RootTemplate {
    /// The rule that every value obeys.
    #[verifier::type_invariant]
    pub open spec fn wf(&self) -> bool {
        checks::valid_non_empty(self@)
    }

    /// The value with the text `value`, if the rule allows it.
    pub fn new(value: &str) -> (r: Result<RootTemplate, Error>)
        ensures
            crate::error::failure(r) == checks::non_empty_error(value@, "root template"@, ":"@),
            r is Ok <==> checks::valid_non_empty(value@),
            r matches Ok(v) ==> v@ == value@,
    {
        checks::validate_non_empty_no_nul(value, "root template")?;
        Ok(RootTemplate(value.to_owned()))
    }

    /// The text.
    pub fn as_str(&self) -> (r: &str)
        ensures
            r@ == self@,
            self.wf(),
    {
        proof {
            use_type_invariant(self);
        }
        self.0.as_str()
    }

    /// The text, by value.
    pub fn into_inner(self) -> (r: String)
        ensures
            r@ == self@,
            self.wf(),
    {
        proof {
            use_type_invariant(&self);
        }
        self.0
    }
}

impl Clone for RootTemplate {
    fn clone(&self) -> (r: RootTemplate)
        ensures
            r@ == self@,
    {
        proof {
            use_type_invariant(self);
        }
        RootTemplate(self.0.clone())
    }
}

/// The name of an environment variable.
#[derive(Debug, PartialEq, Eq, PartialOrd, Ord, Hash)]
pub struct EnvVarName(String);

impl View for EnvVarName {
    type V = Text;

    closed spec fn view(&self) -> Text {
        self.0@
    }
}

impl EnvVarName {
    /// The rule that every value obeys.
    #[verifier::type_invariant]
    pub open spec fn wf(&self) -> bool {
        checks::valid_env_key(self@)
    }

    /// The value with the text `value`, if the rule allows it.
    pub fn new(value: &str) -> (r: Result<EnvVarName, Error>)
        ensures
            crate::error::failure(r) == checks::env_key_error(value@, "env var key"@),
            r is Ok <==> checks::valid_env_key(value@),
            r matches Ok(v) ==> v@ == value@,
    {
        checks::validate_env_key(value, "env var key")?;
        Ok(EnvVarName(value.to_owned()))
    }

    /// The text.
    pub fn as_str(&self) -> (r: &str)
        ensures
            r@ == self@,
            self.wf(),
    {
        proof {
            use_type_invariant(self);
        }
        self.0.as_str()
    }

    /// The text, by value.
    pub fn into_inner(self) -> (r: String)
        ensures
            r@ == self@,
            self.wf(),
    {
        proof {
            use_type_invariant(&self);
        }
        self.0
    }
}

impl Clone for EnvVarName {
    fn clone(&self) -> (r: EnvVarName)
        ensures
            r@ == self@,
    {
        proof {
            use_type_invariant(self);
        }
        EnvVarName(self.0.clone())
    }
}

impl EnvVarName {
    /// What `{:?}` prints for a value with the text `s`.
    pub open spec fn debug(s: Text) -> Text {
        "EnvVarName("@ + text::debug_text(s) + ")"@
    }

    /// The text that `{:?}` prints.
    pub fn debug_string(&self) -> (r: String)
        ensures
            r@ == EnvVarName::debug(self@),
    {
        "EnvVarName(".to_owned().concat(text::debug_string(self.as_str()).as_str()).concat(")")
    }
}

/// The value of an environment variable.
#[derive(Debug, PartialEq, Eq, PartialOrd, Ord, Hash)]
pub struct EnvVarValue(String);

impl View for EnvVarValue {
    type V = Text;

    closed spec fn view(&self) -> Text {
        self.0@
    }
}

impl EnvVarValue {
    /// The rule that every value obeys.
    #[verifier::type_invariant]
    pub open spec fn wf(&self) -> bool {
        checks::no_nul(self@)
    }

    /// The value with the text `value`, if the rule allows it.
    pub fn new(value: &str) -> (r: Result<EnvVarValue, Error>)
        ensures
            crate::error::failure(r) == checks::nul_error(value@, "env var value"@),
            r is Ok <==> checks::no_nul(value@),
            r matches Ok(v) ==> v@ == value@,
    {
        checks::validate_string_no_nul(value, "env var value")?;
        Ok(EnvVarValue(value.to_owned()))
    }

    /// The text.
    pub fn as_str(&self) -> (r: &str)
        ensures
            r@ == self@,
            self.wf(),
    {
        proof {
            use_type_invariant(self);
        }
        self.0.as_str()
    }

    /// The text, by value.
    pub fn into_inner(self) -> (r: String)
        ensures
            r@ == self@,
            self.wf(),
    {
        proof {
            use_type_invariant(&self);
        }
        self.0
    }
}

impl Clone for EnvVarValue {
    fn clone(&self) -> (r: EnvVarValue)
        ensures
            r@ == self@,
    {
        proof {
            use_type_invariant(self);
        }
        EnvVarValue(self.0.clone())
    }
}

/// The name of a tmux option.
#[derive(Debug, PartialEq, Eq, PartialOrd, Ord, Hash)]
pub struct TmuxOptionName(String);

impl View for TmuxOptionName {
    type V = Text;

    closed spec fn view(&self) -> Text {
        self.0@
    }
}

impl TmuxOptionName {
    /// The rule that every value obeys.
    #[verifier::type_invariant]
    pub open spec fn wf(&self) -> bool {
        checks::valid_option_name(self@)
    }

    /// The value with the text `value`, if the rule allows it.
    pub fn new(value: &str) -> (r: Result<TmuxOptionName, Error>)
        ensures
            crate::error::failure(r) == checks::option_name_error(value@, "tmux option key"@),
            r is Ok <==> checks::valid_option_name(value@),
            r matches Ok(v) ==> v@ == value@,
    {
        checks::validate_tmux_option_name(value, "tmux option key")?;
        Ok(TmuxOptionName(value.to_owned()))
    }

    /// The text.
    pub fn as_str(&self) -> (r: &str)
        ensures
            r@ == self@,
            self.wf(),
    {
        proof {
            use_type_invariant(self);
        }
        self.0.as_str()
    }

    /// The text, by value.
    pub fn into_inner(self) -> (r: String)
        ensures
            r@ == self@,
            self.wf(),
    {
        proof {
            use_type_invariant(&self);
        }
        self.0
    }
}

impl Clone for TmuxOptionName {
    fn clone(&self) -> (r: TmuxOptionName)
        ensures
            r@ == self@,
    {
        proof {
            use_type_invariant(self);
        }
        TmuxOptionName(self.0.clone())
    }
}

impl TmuxOptionName {
    /// What `{:?}` prints for a value with the text `s`.
    pub open spec fn debug(s: Text) -> Text {
        "TmuxOptionName("@ + text::debug_text(s) + ")"@
    }

    /// The text that `{:?}` prints.
    pub fn debug_string(&self) -> (r: String)
        ensures
            r@ == TmuxOptionName::debug(self@),
    {
        "TmuxOptionName(".to_owned().concat(text::debug_string(self.as_str()).as_str()).concat(")")
    }
}

/// The value of a tmux option.
#[derive(Debug, PartialEq, Eq, PartialOrd, Ord, Hash)]
pub struct TmuxOptionValue(String);

impl View for TmuxOptionValue {
    type V = Text;

    closed spec fn view(&self) -> Text {
        self.0@
    }
}

impl TmuxOptionValue {
    /// The rule that every value obeys.
    #[verifier::type_invariant]
    pub open spec fn wf(&self) -> bool {
        checks::no_nul(self@)
    }

    /// The value with the text `value`, if the rule allows it.
    pub fn new(value: &str) -> (r: Result<TmuxOptionValue, Error>)
        ensures
            crate::error::failure(r) == checks::nul_error(value@, "tmux option value"@),
            r is Ok <==> checks::no_nul(value@),
            r matches Ok(v) ==> v@ == value@,
    {
        checks::validate_tmux_option_value(value, "tmux option value")?;
        Ok(TmuxOptionValue(value.to_owned()))
    }

    /// The text.
    pub fn as_str(&self) -> (r: &str)
        ensures
            r@ == self@,
            self.wf(),
    {
        proof {
            use_type_invariant(self);
        }
        self.0.as_str()
    }

    /// The text, by value.
    pub fn into_inner(self) -> (r: String)
        ensures
            r@ == self@,
            self.wf(),
    {
        proof {
            use_type_invariant(&self);
        }
        self.0
    }
}

impl Clone for TmuxOptionValue {
    fn clone(&self) -> (r: TmuxOptionValue)
        ensures
            r@ == self@,
    {
        proof {
            use_type_invariant(self);
        }
        TmuxOptionValue(self.0.clone())
    }
}

/// The name of a template variable.
#[derive(Debug, PartialEq, Eq, PartialOrd, Ord, Hash)]
pub struct TemplateVarName(String);

impl View for TemplateVarName {
    type V = Text;

    closed spec fn view(&self) -> Text {
        self.0@
    }
}

impl TemplateVarName {
    /// The rule that every value obeys.
    #[verifier::type_invariant]
    pub open spec fn wf(&self) -> bool {
        checks::valid_env_key(self@)
    }

    /// The value with the text `value`, if the rule allows it.
    pub fn new(value: &str) -> (r: Result<TemplateVarName, Error>)
        ensures
            crate::error::failure(r) == checks::env_key_error(value@, "template var name"@),
            r is Ok <==> checks::valid_env_key(value@),
            r matches Ok(v) ==> v@ == value@,
    {
        checks::validate_template_var_name(value, "template var name")?;
        Ok(TemplateVarName(value.to_owned()))
    }

    /// The text.
    pub fn as_str(&self) -> (r: &str)
        ensures
            r@ == self@,
            self.wf(),
    {
        proof {
            use_type_invariant(self);
        }
        self.0.as_str()
    }

    /// The text, by value.
    pub fn into_inner(self) -> (r: String)
        ensures
            r@ == self@,
            self.wf(),
    {
        proof {
            use_type_invariant(&self);
        }
        self.0
    }
}

impl Clone for TemplateVarName {
    fn clone(&self) -> (r: TemplateVarName)
        ensures
            r@ == self@,
    {
        proof {
            use_type_invariant(self);
        }
        TemplateVarName(self.0.clone())
    }
}

impl TemplateVarName {
    /// What `{:?}` prints for a value with the text `s`.
    pub open spec fn debug(s: Text) -> Text {
        "TemplateVarName("@ + text::debug_text(s) + ")"@
    }

    /// The text that `{:?}` prints.
    pub fn debug_string(&self) -> (r: String)
        ensures
            r@ == TemplateVarName::debug(self@),
    {
        "TemplateVarName(".to_owned().concat(text::debug_string(self.as_str()).as_str()).concat(")")
    }
}

/// The value of a template variable.
#[derive(Debug, PartialEq, Eq, PartialOrd, Ord, Hash)]
pub struct TemplateVarValue(String);

impl View for TemplateVarValue {
    type V = Text;

    closed spec fn view(&self) -> Text {
        self.0@
    }
}

impl TemplateVarValue {
    /// The rule that every value obeys.
    #[verifier::type_invariant]
    pub open spec fn wf(&self) -> bool {
        checks::no_nul(self@)
    }

    /// The value with the text `value`, if the rule allows it.
    pub fn new(value: &str) -> (r: Result<TemplateVarValue, Error>)
        ensures
            crate::error::failure(r) == checks::nul_error(value@, "template var value"@),
            r is Ok <==> checks::no_nul(value@),
            r matches Ok(v) ==> v@ == value@,
    {
        checks::validate_string_no_nul(value, "template var value")?;
        Ok(TemplateVarValue(value.to_owned()))
    }

    /// The text.
    pub fn as_str(&self) -> (r: &str)
        ensures
            r@ == self@,
            self.wf(),
    {
        proof {
            use_type_invariant(self);
        }
        self.0.as_str()
    }

    /// The text, by value.
    pub fn into_inner(self) -> (r: String)
        ensures
            r@ == self@,
            self.wf(),
    {
        proof {
            use_type_invariant(&self);
        }
        self.0
    }
}

impl Clone for TemplateVarValue {
    fn clone(&self) -> (r: TemplateVarValue)
        ensures
            r@ == self@,
    {
        proof {
            use_type_invariant(self);
        }
        TemplateVarValue(self.0.clone())
    }
}

/// A layout preset of tmux, such as `tiled` or `even-horizontal`.
#[derive(Debug, PartialEq, Eq, PartialOrd, Ord, Hash)]
pub struct TmuxLayoutPreset(String);

impl View for TmuxLayoutPreset {
    type V = Text;

    closed spec fn view(&self) -> Text {
        self.0@
    }
}

impl TmuxLayoutPreset {
    /// The rule that every value obeys.
    #[verifier::type_invariant]
    pub open spec fn wf(&self) -> bool {
        checks::valid_non_empty(self@)
    }

    /// The value with the text `value`, if the rule allows it.
    pub fn new(value: &str) -> (r: Result<TmuxLayoutPreset, Error>)
        ensures
            crate::error::failure(r) == checks::non_empty_error(value@, "tmux layout preset"@, ": tmux layout preset"@),
            r is Ok <==> checks::valid_non_empty(value@),
            r matches Ok(v) ==> v@ == value@,
    {
        checks::validate_tmux_layout_preset(value, "tmux layout preset")?;
        Ok(TmuxLayoutPreset(value.to_owned()))
    }

    /// The text.
    pub fn as_str(&self) -> (r: &str)
        ensures
            r@ == self@,
            self.wf(),
    {
        proof {
            use_type_invariant(self);
        }
        self.0.as_str()
    }

    /// The text, by value.
    pub fn into_inner(self) -> (r: String)
        ensures
            r@ == self@,
            self.wf(),
    {
        proof {
            use_type_invariant(&self);
        }
        self.0
    }
}

impl Clone for TmuxLayoutPreset {
    fn clone(&self) -> (r: TmuxLayoutPreset)
        ensures
            r@ == self@,
    {
        proof {
            use_type_invariant(self);
        }
        TmuxLayoutPreset(self.0.clone())
    }
}

/// A non-empty text that `wait_for` looks for in the output of a pane.
#[derive(Debug, PartialEq, Eq, Hash)]
pub struct WaitPattern(String);

impl View for WaitPattern {
    type V = Text;

    closed spec fn view(&self) -> Text {
        self.0@
    }
}

impl WaitPattern {
    /// The rule that every value obeys.
    #[verifier::type_invariant]
    pub open spec fn wf(&self) -> bool {
        checks::valid_non_empty(self@)
    }

    /// The value with the text `value`, if the rule allows it.
    pub fn new(value: &str) -> (r: Result<WaitPattern, Error>)
        ensures
            crate::error::failure(r) == checks::wait_pattern_error(value@, "wait_for pattern"@),
            r is Ok <==> checks::valid_non_empty(value@),
            r matches Ok(v) ==> v@ == value@,
    {
        checks::validate_wait_pattern(value, "wait_for pattern")?;
        Ok(WaitPattern(value.to_owned()))
    }

    /// The text.
    pub fn as_str(&self) -> (r: &str)
        ensures
            r@ == self@,
            self.wf(),
    {
        proof {
            use_type_invariant(self);
        }
        self.0.as_str()
    }

    /// The text, by value.
    pub fn into_inner(self) -> (r: String)
        ensures
            r@ == self@,
            self.wf(),
    {
        proof {
            use_type_invariant(&self);
        }
        self.0
    }
}

impl Clone for WaitPattern {
    fn clone(&self) -> (r: WaitPattern)
        ensures
            r@ == self@,
    {
        proof {
            use_type_invariant(self);
        }
        WaitPattern(self.0.clone())
    }
}

/// An argument for tmux in which every placeholder has been replaced.
#[derive(Debug, PartialEq, Eq)]
pub struct ResolvedTmuxArg(String);

impl View for ResolvedTmuxArg {
    type V = Text;

    closed spec fn view(&self) -> Text {
        self.0@
    }
}

impl ResolvedTmuxArg {
    /// The rule that every value obeys.
    #[verifier::type_invariant]
    pub open spec fn wf(&self) -> bool {
        checks::no_nul(self@)
    }

    /// The value with the text `value`, if the rule allows it.
    pub fn new(value: &str) -> (r: Result<ResolvedTmuxArg, Error>)
        ensures
            crate::error::failure(r) == checks::nul_error(value@, "resolved tmux argument"@),
            r is Ok <==> checks::no_nul(value@),
            r matches Ok(v) ==> v@ == value@,
    {
        checks::validate_no_nul(value, "resolved tmux argument")?;
        Ok(ResolvedTmuxArg(value.to_owned()))
    }

    /// The text.
    pub fn as_str(&self) -> (r: &str)
        ensures
            r@ == self@,
            self.wf(),
    {
        proof {
            use_type_invariant(self);
        }
        self.0.as_str()
    }

    /// The text, by value.
    pub fn into_inner(self) -> (r: String)
        ensures
            r@ == self@,
            self.wf(),
    {
        proof {
            use_type_invariant(&self);
        }
        self.0
    }
}

impl Clone for ResolvedTmuxArg {
    fn clone(&self) -> (r: ResolvedTmuxArg)
        ensures
            r@ == self@,
    {
        proof {
            use_type_invariant(self);
        }
        ResolvedTmuxArg(self.0.clone())
    }
}

/// A word of a shell script, quoted as far as it has to be.
#[derive(Debug, PartialEq, Eq)]
pub struct ShellWord(String);

impl View for ShellWord {
    type V = Text;

    closed spec fn view(&self) -> Text {
        self.0@
    }
}

impl ShellWord {
    /// The rule that every value obeys.
    #[verifier::type_invariant]
    pub open spec fn wf(&self) -> bool {
        checks::no_nul(self@)
    }

    /// The value with the text `value`, if the rule allows it.
    pub fn new(value: &str) -> (r: Result<ShellWord, Error>)
        ensures
            crate::error::failure(r) == checks::nul_error(value@, "shell word"@),
            r is Ok <==> checks::no_nul(value@),
            r matches Ok(v) ==> v@ == value@,
    {
        checks::validate_no_nul(value, "shell word")?;
        Ok(ShellWord(value.to_owned()))
    }

    /// The text.
    pub fn as_str(&self) -> (r: &str)
        ensures
            r@ == self@,
            self.wf(),
    {
        proof {
            use_type_invariant(self);
        }
        self.0.as_str()
    }

    /// The text, by value.
    pub fn into_inner(self) -> (r: String)
        ensures
            r@ == self@,
            self.wf(),
    {
        proof {
            use_type_invariant(&self);
        }
        self.0
    }
}

impl Clone for ShellWord {
    fn clone(&self) -> (r: ShellWord)
        ensures
            r@ == self@,
    {
        proof {
            use_type_invariant(self);
        }
        ShellWord(self.0.clone())
    }
}

/// The id that tmux gives a pane: `%` and a number.
#[derive(Debug, PartialEq, Eq, Hash)]
pub struct PaneId(String);

impl View for PaneId {
    type V = Text;

    closed spec fn view(&self) -> Text {
        self.0@
    }
}

impl PaneId {
    /// The rule that every value obeys.
    #[verifier::type_invariant]
    pub open spec fn wf(&self) -> bool {
        checks::valid_pane_id(self@)
    }

    /// The value with the text `value`, if the rule allows it.
    pub fn new(value: &str) -> (r: Result<PaneId, Error>)
        ensures
            crate::error::failure(r) == checks::pane_id_error(value@),
            r is Ok <==> checks::valid_pane_id(value@),
            r matches Ok(v) ==> v@ == value@,
    {
        checks::validate_pane_id(value)?;
        Ok(PaneId(value.to_owned()))
    }

    /// The text.
    pub fn as_str(&self) -> (r: &str)
        ensures
            r@ == self@,
            self.wf(),
    {
        proof {
            use_type_invariant(self);
        }
        self.0.as_str()
    }

    /// The text, by value.
    pub fn into_inner(self) -> (r: String)
        ensures
            r@ == self@,
            self.wf(),
    {
        proof {
            use_type_invariant(&self);
        }
        self.0
    }
}

impl Clone for PaneId {
    fn clone(&self) -> (r: PaneId)
        ensures
            r@ == self@,
    {
        proof {
            use_type_invariant(self);
        }
        PaneId(self.0.clone())
    }
}

} // verus!
