//! Settings of the pruner, as the environment gives them.
use crate::number;
use crate::text;
use vstd::prelude::*;

verus! {

pub const ENABLE_ENV: &'static str = "CODELINK_CONTEXT_PRUNER";
pub const DIRECTIVES_ENV: &'static str = "CODELINK_CONTEXT_DIRECTIVES";
pub const KEEP_RECENT_TURNS_ENV: &'static str = "CODELINK_PRUNE_KEEP_RECENT_TURNS";
pub const SEGMENT_TURNS_ENV: &'static str = "CODELINK_PRUNE_SEGMENT_TURNS";
pub const HEAVY_TOOL_CHARS_ENV: &'static str = "CODELINK_PRUNE_HEAVY_TOOL_CHARS";
pub const LEGACY_ENABLE_ENV: &'static str = "CODEX_MANGA_CONTEXT_PRUNER";
pub const LEGACY_DIRECTIVES_ENV: &'static str = "CODEX_MANGA_CONTEXT_DIRECTIVES";
pub const LEGACY_KEEP_RECENT_TURNS_ENV: &'static str = "CODEX_MANGA_PRUNE_KEEP_RECENT_TURNS";
pub const LEGACY_SEGMENT_TURNS_ENV: &'static str = "CODEX_MANGA_PRUNE_SEGMENT_TURNS";
pub const LEGACY_HEAVY_TOOL_CHARS_ENV: &'static str = "CODEX_MANGA_PRUNE_HEAVY_TOOL_CHARS";
pub const DEFAULT_KEEP_RECENT_TURNS: usize = 1;
pub const DEFAULT_SEGMENT_TURNS: usize = 10;
pub const DEFAULT_HEAVY_TOOL_CHARS: usize = 4096;
pub const CONTEXT_PRUNER_DIRECTIVE_INSTRUCTIONS: &'static str = r#"CodeLink manga profile context pruning:
- You may request runtime context pruning after a stable manga checkpoint, usually every 10 pages or after visual QA has produced text verdicts.
- Emit exactly one checkpoint line when older image payloads are no longer needed:
  [codelink-context-checkpoint scope=older-images] brief continuity summary and QA status
- Emit a heavy checkpoint when older tool/search/patch payloads are no longer needed:
  [codelink-context-checkpoint scope=older-heavy] brief tool/history summary and current state
- The runtime will automatically find older image/tool payloads, preserve user text, assistant verdicts, and keep the recent turn guarded.
- Do not emit checkpoint lines casually; frequent mid-history pruning hurts prompt-cache reuse."#;

/// How much of a conversation the pruner leaves alone, and whether it obeys directives.
#[derive(Debug, Clone, Copy, PartialEq, Eq)]
pub struct ContextPrunerConfig {
    /// The newest turns that are never pruned.
    pub keep_recent_turns: usize,
    /// Automatic pruning advances by this many turns at a time.
    pub segment_turns: usize,
    /// A tool payload of more characters than this is heavy.
    pub heavy_tool_chars: usize,
    /// Whether checkpoint directives in messages are obeyed.
    pub enable_directives: bool,
}

/// The values of the pruner's environment variables, each where it is set.
#[derive(Debug, Clone, PartialEq, Eq)]
pub struct PrunerEnv {
    pub enable: Option<String>,
    pub legacy_enable: Option<String>,
    pub directives: Option<String>,
    pub legacy_directives: Option<String>,
    pub keep_recent_turns: Option<String>,
    pub legacy_keep_recent_turns: Option<String>,
    pub segment_turns: Option<String>,
    pub legacy_segment_turns: Option<String>,
    pub heavy_tool_chars: Option<String>,
    pub legacy_heavy_tool_chars: Option<String>,
}

/// The view of the pruner's environment variables.
#[verifier::ext_equal]
pub struct PrunerEnvView {
    pub enable: Option<Seq<char>>,
    pub legacy_enable: Option<Seq<char>>,
    pub directives: Option<Seq<char>>,
    pub legacy_directives: Option<Seq<char>>,
    pub keep_recent_turns: Option<Seq<char>>,
    pub legacy_keep_recent_turns: Option<Seq<char>>,
    pub segment_turns: Option<Seq<char>>,
    pub legacy_segment_turns: Option<Seq<char>>,
    pub heavy_tool_chars: Option<Seq<char>>,
    pub legacy_heavy_tool_chars: Option<Seq<char>>,
}

impl View for PrunerEnv {
    type V = PrunerEnvView;

    open spec fn view(&self) -> PrunerEnvView {
        PrunerEnvView {
            enable: text::view_option(self.enable),
            legacy_enable: text::view_option(self.legacy_enable),
            directives: text::view_option(self.directives),
            legacy_directives: text::view_option(self.legacy_directives),
            keep_recent_turns: text::view_option(self.keep_recent_turns),
            legacy_keep_recent_turns: text::view_option(self.legacy_keep_recent_turns),
            segment_turns: text::view_option(self.segment_turns),
            legacy_segment_turns: text::view_option(self.legacy_segment_turns),
            heavy_tool_chars: text::view_option(self.heavy_tool_chars),
            legacy_heavy_tool_chars: text::view_option(self.legacy_heavy_tool_chars),
        }
    }
}

/// The values that switch a setting on.
pub open spec fn is_truthy(value: Seq<char>) -> bool {
    ||| value == "1"@
    ||| value == "true"@
    ||| value == "TRUE"@
    ||| value == "yes"@
    ||| value == "on"@
}

/// The value of a setting that has two names: that of the first that is set.
pub open spec fn first_set(value: Option<Seq<char>>, legacy: Option<Seq<char>>) -> Option<
    Seq<char>,
> {
    if value is Some {
        value
    } else {
        legacy
    }
}

/// Whether a setting that is on by default is on: the first of its names that is set decides.
pub open spec fn is_switched_on(value: Option<Seq<char>>, legacy: Option<Seq<char>>) -> bool {
    match first_set(value, legacy) {
        Some(value) => is_truthy(value),
        None => true,
    }
}

/// The number that a setting gives, or its default where it is not set or is no number.
pub open spec fn number_or(value: Option<Seq<char>>, default: usize) -> usize {
    match value {
        Some(value) => match number::parse_unsigned_of(value, usize::MAX as int) {
            Some(n) => n as usize,
            None => default,
        },
        None => default,
    }
}

impl PrunerEnvView {
    /// Whether the pruner is on: it is unless the main switch is set, under the first of its names
    /// that is set, to a value that does not switch it on.
    pub open spec fn is_on(self) -> bool {
        is_switched_on(self.enable, self.legacy_enable)
    }

    /// The configuration that the variables ask for, or none where the pruner is off.
    pub open spec fn config(self) -> Option<ContextPrunerConfig> {
        if self.is_on() {
            Some(
                ContextPrunerConfig {
                    keep_recent_turns: number_or(
                        first_set(self.keep_recent_turns, self.legacy_keep_recent_turns),
                        DEFAULT_KEEP_RECENT_TURNS,
                    ),
                    segment_turns: number_or(
                        first_set(self.segment_turns, self.legacy_segment_turns),
                        DEFAULT_SEGMENT_TURNS,
                    ),
                    heavy_tool_chars: number_or(
                        first_set(self.heavy_tool_chars, self.legacy_heavy_tool_chars),
                        DEFAULT_HEAVY_TOOL_CHARS,
                    ),
                    enable_directives: is_switched_on(self.directives, self.legacy_directives),
                },
            )
        } else {
            None
        }
    }

    /// No variable is set.
    pub open spec fn unset() -> PrunerEnvView {
        PrunerEnvView {
            enable: None,
            legacy_enable: None,
            directives: None,
            legacy_directives: None,
            keep_recent_turns: None,
            legacy_keep_recent_turns: None,
            segment_turns: None,
            legacy_segment_turns: None,
            heavy_tool_chars: None,
            legacy_heavy_tool_chars: None,
        }
    }
}

/// Whether a value switches a setting on.
pub fn env_value_truthy(value: &str) -> (truthy: bool)
    ensures
        truthy == is_truthy(value@),
{
    text::text_eq(value, "1") || text::text_eq(value, "true") || text::text_eq(value, "TRUE")
        || text::text_eq(value, "yes") || text::text_eq(value, "on")
}

/// The value of a setting that has two names: that of the first that is set.
pub fn env_var_any(value: &Option<String>, legacy: &Option<String>) -> (found: Option<String>)
    ensures
        text::view_option(found) == first_set(
            text::view_option(*value),
            text::view_option(*legacy),
        ),
{
    if value.is_some() {
        text::clone_option(value)
    } else {
        text::clone_option(legacy)
    }
}

/// Whether a setting that is on by default is on.
pub fn env_switch(value: &Option<String>, legacy: &Option<String>) -> (on: bool)
    ensures
        on == is_switched_on(text::view_option(*value), text::view_option(*legacy)),
{
    match env_var_any(value, legacy) {
        Some(value) => env_value_truthy(value.as_str()),
        None => true,
    }
}

/// The number that a setting gives, or its default.
fn env_number(value: &Option<String>, legacy: &Option<String>, default: usize) -> (n: usize)
    ensures
        n == number_or(
            first_set(text::view_option(*value), text::view_option(*legacy)),
            default,
        ),
{
    match env_var_any(value, legacy) {
        Some(value) => match number::parse_usize(value.as_str()) {
            Some(n) => n,
            None => default,
        },
        None => default,
    }
}

impl ContextPrunerConfig {
    /// The configuration that the environment asks for, or none where the pruner is off.
    pub fn from_env(env: &PrunerEnv) -> (config: Option<ContextPrunerConfig>)
        ensures
            config == env@.config(),
    {
        if !env_switch(&env.enable, &env.legacy_enable) {
            return None;
        }
        Some(
            ContextPrunerConfig {
                keep_recent_turns: env_number(
                    &env.keep_recent_turns,
                    &env.legacy_keep_recent_turns,
                    DEFAULT_KEEP_RECENT_TURNS,
                ),
                segment_turns: env_number(
                    &env.segment_turns,
                    &env.legacy_segment_turns,
                    DEFAULT_SEGMENT_TURNS,
                ),
                heavy_tool_chars: env_number(
                    &env.heavy_tool_chars,
                    &env.legacy_heavy_tool_chars,
                    DEFAULT_HEAVY_TOOL_CHARS,
                ),
                enable_directives: env_switch(&env.directives, &env.legacy_directives),
            },
        )
    }
}

/// What the model is told about directives: nothing where the pruner is off or does not obey them.
pub fn developer_instructions_from_env(env: &PrunerEnv) -> (instructions: Option<String>)
    ensures
        text::view_option(instructions) == match env@.config() {
            Some(config) => if config.enable_directives {
                Some(CONTEXT_PRUNER_DIRECTIVE_INSTRUCTIONS@)
            } else {
                None
            },
            None => None,
        },
{
    match ContextPrunerConfig::from_env(env) {
        Some(config) => if config.enable_directives {
            Some(CONTEXT_PRUNER_DIRECTIVE_INSTRUCTIONS.to_owned())
        } else {
            None
        },
        None => None,
    }
}

/// The numerals of the defaults.
proof fn lemma_default_numerals()
    ensures
        number_or(Some("1"@), DEFAULT_KEEP_RECENT_TURNS) == DEFAULT_KEEP_RECENT_TURNS,
        number_or(Some("10"@), DEFAULT_SEGMENT_TURNS) == DEFAULT_SEGMENT_TURNS,
        number_or(Some("4096"@), DEFAULT_HEAVY_TOOL_CHARS) == DEFAULT_HEAVY_TOOL_CHARS,
{
    reveal_strlit("1");
    reveal_strlit("10");
    reveal_strlit("4096");
    reveal_with_fuel(number::digits_value, 5);
    assert("1"@.drop_last() =~= Seq::<char>::empty());
    assert("10"@.drop_last() =~= "1"@);
    assert("4096"@.drop_last() =~= seq!['4', '0', '9']);
    assert("4096"@.drop_last().drop_last() =~= seq!['4', '0']);
    assert("4096"@.drop_last().drop_last().drop_last() =~= seq!['4']);
    assert("4096"@.drop_last().drop_last().drop_last().drop_last() =~= Seq::<char>::empty());
}

/// A session whose environment sets none of the variables prunes: it keeps the newest turn,
/// advances ten turns at a time, calls a payload of more than 4096 characters heavy, and obeys
/// directives.
pub proof fn law_pruning_is_on_by_default()
    ensures
        PrunerEnvView::unset().config() == Some(
            ContextPrunerConfig {
                keep_recent_turns: 1,
                segment_turns: 10,
                heavy_tool_chars: 4096,
                enable_directives: true,
            },
        ),
{
}

/// Setting a variable to its default changes nothing, whatever else is set, as long as the setting
/// is not given under its legacy name.
pub proof fn law_defaults_agree_with_explicit_settings(env: PrunerEnvView)
    ensures
        env.enable is None && env.legacy_enable is None ==> (PrunerEnvView {
            enable: Some("1"@),
            ..env
        }).config() == env.config(),
        env.directives is None && env.legacy_directives is None ==> (PrunerEnvView {
            directives: Some("1"@),
            ..env
        }).config() == env.config(),
        env.keep_recent_turns is None && env.legacy_keep_recent_turns is None ==> (PrunerEnvView {
            keep_recent_turns: Some("1"@),
            ..env
        }).config() == env.config(),
        env.segment_turns is None && env.legacy_segment_turns is None ==> (PrunerEnvView {
            segment_turns: Some("10"@),
            ..env
        }).config() == env.config(),
        env.heavy_tool_chars is None && env.legacy_heavy_tool_chars is None ==> (PrunerEnvView {
            heavy_tool_chars: Some("4096"@),
            ..env
        }).config() == env.config(),
{
    lemma_default_numerals();
}

/// Setting the main switch to a value that does not switch it on turns the pruner off for a
/// session, whatever else is set, its legacy name too.
pub proof fn law_main_switch_turns_pruning_off(env: PrunerEnvView, value: Seq<char>)
    requires
        env.enable == Some(value),
        !is_truthy(value),
    ensures
        env.config() is None,
{
}

/// A switch is thrown by `1`, `true`, `TRUE`, `yes` and `on`, and by nothing else; the current name of
/// the main switch, and that of the switch for directives, decides over the legacy one.
pub proof fn law_switches_are_thrown_by_these_words(env: PrunerEnvView, value: Seq<char>)
    ensures
        ({
            let throws = seq!["1"@, "true"@, "TRUE"@, "yes"@, "on"@].contains(value);
            &&& env.enable == Some(value) ==> (env.config() is Some <==> throws)
            &&& env.enable is None && env.legacy_enable == Some(value) ==> (env.config() is Some
                <==> throws)
            &&& env.config() is Some && env.directives == Some(value)
                ==> env.config()->0.enable_directives == throws
            &&& env.config() is Some && env.directives is None && env.legacy_directives == Some(
                value,
            ) ==> env.config()->0.enable_directives == throws
        }),
{
    let words = seq!["1"@, "true"@, "TRUE"@, "yes"@, "on"@];
    assert(words[0] == "1"@ && words[1] == "true"@ && words[2] == "TRUE"@ && words[3] == "yes"@
        && words[4] == "on"@);
}

/// Each number is read from its variable, or from its legacy variable where that alone is set.
pub proof fn law_numbers_are_read_from_their_variables(env: PrunerEnvView, n: usize)
    requires
        env.config() is Some,
    ensures
        ({
            let numeral = Some(number::decimal_of(n as int));
            let config = env.config()->0;
            &&& env.keep_recent_turns == numeral || env.keep_recent_turns is None
                && env.legacy_keep_recent_turns == numeral ==> config.keep_recent_turns == n
            &&& env.segment_turns == numeral || env.segment_turns is None
                && env.legacy_segment_turns == numeral ==> config.segment_turns == n
            &&& env.heavy_tool_chars == numeral || env.heavy_tool_chars is None
                && env.legacy_heavy_tool_chars == numeral ==> config.heavy_tool_chars == n
        }),
{
    number::law_unsigned_numeral_reads_back(n as nat, usize::MAX as int);
}

/// A number that is not set, or that is set to no number, has its default.
pub proof fn law_numbers_have_defaults(env: PrunerEnvView, value: Seq<char>)
    requires
        env.config() is Some,
        number::parse_unsigned_of(value, usize::MAX as int) is None,
    ensures
        ({
            let config = env.config()->0;
            &&& env.keep_recent_turns == Some(value) || env.keep_recent_turns is None
                && env.legacy_keep_recent_turns is None ==> config.keep_recent_turns == 1
            &&& env.segment_turns == Some(value) || env.segment_turns is None
                && env.legacy_segment_turns is None ==> config.segment_turns == 10
            &&& env.heavy_tool_chars == Some(value) || env.heavy_tool_chars is None
                && env.legacy_heavy_tool_chars is None ==> config.heavy_tool_chars == 4096
        }),
{
}

} // verus!
