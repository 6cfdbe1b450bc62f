//! The parts of the pruner: settings, directives, cutoffs, placeholders and passes.
use codelink::item::{
    ContentItem, FunctionCallOutputContentItem, FunctionCallOutputPayload, ResponseItem,
};
use codelink::pruner::config::{
    developer_instructions_from_env, env_switch, env_value_truthy, env_var_any,
    ContextPrunerConfig, PrunerEnv, CONTEXT_PRUNER_DIRECTIVE_INSTRUCTIONS,
};
use codelink::pruner::cutoff::{
    checkpoint_cutoffs, is_heavy_tool_prune_protected, item_has_prunable_heavy_tool_payload,
    item_has_prunable_image, output_text_len, pruning_cutoff, pruning_cutoff_for_requested_turns,
    recent_turn_guard_index,
};
use codelink::pruner::directive::{
    extract_checkpoint_directive, latest_checkpoint_directive, parse_checkpoint_target,
    strip_checkpoint_directive_lines, strip_checkpoint_prefix, trim_checkpoint_summary,
    CheckpointDirective, CheckpointTarget, CHECKPOINT_APPLIED_PLACEHOLDER,
};
use codelink::pruner::duplicates::{
    is_protected_tool, prune_duplicate_tool_outputs, tool_call_signature,
};
use codelink::pruner::failures::{failed_tool_output_call_id, purge_old_failed_tool_payloads};
use codelink::pruner::heavy::prune_heavy_tool_payloads;
use codelink::pruner::images::prune_images;
use codelink::pruner::placeholder::{
    extract_exit_code, heavy_tool_input_placeholder, heavy_tool_output_placeholder,
    image_placeholder, preview, ToolCallMetadata, DUPLICATE_TOOL_OUTPUT_PLACEHOLDER,
    IMAGE_PLACEHOLDER,
};
use codelink::pruner::prompt::{
    prune_items_for_prompt, prune_items_for_prompt_from_env, prune_older_items,
};

fn message(role: &str, text: &str) -> ResponseItem {
    ResponseItem::Message {
        id: None,
        role: role.to_string(),
        content: vec![ContentItem::OutputText {
            text: text.to_string(),
        }],
        phase: None,
    }
}

fn image() -> ResponseItem {
    ResponseItem::Message {
        id: None,
        role: "user".to_string(),
        content: vec![ContentItem::InputImage {
            image_url: "data:x".to_string(),
            detail: None,
        }],
        phase: None,
    }
}

fn call(name: &str, arguments: &str, call_id: &str) -> ResponseItem {
    ResponseItem::FunctionCall {
        id: None,
        name: name.to_string(),
        namespace: None,
        arguments: arguments.to_string(),
        call_id: call_id.to_string(),
    }
}

fn output(call_id: &str, text: &str, success: Option<bool>) -> ResponseItem {
    let mut output = FunctionCallOutputPayload::from_text(text.to_string());
    output.success = success;
    ResponseItem::FunctionCallOutput {
        call_id: call_id.to_string(),
        output,
    }
}

fn config(keep_recent_turns: usize, segment_turns: usize, heavy: usize) -> ContextPrunerConfig {
    ContextPrunerConfig {
        keep_recent_turns,
        segment_turns,
        heavy_tool_chars: heavy,
        enable_directives: true,
    }
}

fn empty_env() -> PrunerEnv {
    PrunerEnv {
        enable: None,
        legacy_enable: None,
        directives: None,
        legacy_directives: None,
        keep_recent_turns: None,
        legacy_keep_recent_turns: None,
        segment_turns: None,
        legacy_segment_turns: None,
        heavy_tool_chars: None,
        legacy_heavy_tool_chars: None,
    }
}

fn set(value: &str) -> Option<String> {
    Some(value.to_string())
}

#[test]
fn truthy_values_are_few() {
    for value in ["1", "true", "TRUE", "yes", "on"] {
        assert!(env_value_truthy(value));
    }
    for value in ["", "0", "True", "YES", "ON", " 1", "y"] {
        assert!(!env_value_truthy(value));
    }
    assert!(env_switch(&None, &None));
    assert!(env_switch(&None, &set("on")));
    assert!(env_switch(&set("on"), &set("0")));
    assert!(!env_switch(&set("0"), &set("1")));
    assert!(!env_switch(&None, &set("0")));
    assert_eq!(env_var_any(&set("a"), &set("b")), set("a"));
    assert_eq!(env_var_any(&None, &set("b")), set("b"));
    assert_eq!(env_var_any(&None, &None), None);
}

#[test]
fn settings_are_read_from_the_environment() {
    let env = PrunerEnv {
        enable: set("1"),
        keep_recent_turns: set("3"),
        legacy_keep_recent_turns: set("7"),
        legacy_segment_turns: set("5"),
        heavy_tool_chars: set("many"),
        legacy_directives: set("off"),
        ..empty_env()
    };
    assert_eq!(
        ContextPrunerConfig::from_env(&env),
        Some(ContextPrunerConfig {
            keep_recent_turns: 3,
            segment_turns: 5,
            heavy_tool_chars: 4096,
            enable_directives: false,
        })
    );
    assert_eq!(developer_instructions_from_env(&env), None);
    let legacy = PrunerEnv {
        legacy_enable: set("yes"),
        ..empty_env()
    };
    assert_eq!(
        ContextPrunerConfig::from_env(&legacy),
        Some(config(1, 10, 4096))
    );
    assert_eq!(
        developer_instructions_from_env(&legacy).as_deref(),
        Some(CONTEXT_PRUNER_DIRECTIVE_INSTRUCTIONS)
    );
}

#[test]
fn pruning_is_on_unless_it_is_switched_off() {
    let on = Some(config(1, 10, 4096));
    assert_eq!(ContextPrunerConfig::from_env(&empty_env()), on);
    let explicit = PrunerEnv {
        enable: set("1"),
        directives: set("1"),
        keep_recent_turns: set("1"),
        segment_turns: set("10"),
        heavy_tool_chars: set("4096"),
        ..empty_env()
    };
    assert_eq!(ContextPrunerConfig::from_env(&explicit), on);
    let off = PrunerEnv {
        enable: set("0"),
        ..empty_env()
    };
    assert_eq!(ContextPrunerConfig::from_env(&off), None);
    let legacy_off = PrunerEnv {
        legacy_enable: set("0"),
        ..empty_env()
    };
    assert_eq!(ContextPrunerConfig::from_env(&legacy_off), None);
    let both = PrunerEnv {
        enable: set("0"),
        legacy_enable: set("1"),
        ..empty_env()
    };
    assert_eq!(ContextPrunerConfig::from_env(&both), None);
    let both = PrunerEnv {
        enable: set("1"),
        legacy_enable: set("0"),
        ..empty_env()
    };
    assert_eq!(ContextPrunerConfig::from_env(&both), on);
}

#[test]
fn prompt_is_left_alone_where_the_pruner_is_off() {
    let mut items = vec![image(), message("user", "recent")];
    let off = PrunerEnv {
        enable: set("0"),
        segment_turns: set("1"),
        ..empty_env()
    };
    prune_items_for_prompt_from_env(&mut items, &off);
    assert_eq!(items, vec![image(), message("user", "recent")]);
    let env = PrunerEnv {
        segment_turns: set("1"),
        ..empty_env()
    };
    prune_items_for_prompt_from_env(&mut items, &env);
    assert!(!item_has_prunable_image(&items[0]));
}

#[test]
fn directives_are_found_in_lines() {
    let older_images = |summary: Option<&str>| {
        Some(CheckpointDirective {
            target: CheckpointTarget::OlderImages,
            summary: summary.map(|summary| summary.to_string()),
        })
    };
    assert_eq!(
        extract_checkpoint_directive("x\n  [codelink-context-checkpoint scope=older-images]  ok \ny"),
        older_images(Some("ok"))
    );
    assert_eq!(
        extract_checkpoint_directive("[manga-context-checkpoint  scope=older-images ]"),
        older_images(None)
    );
    assert_eq!(
        extract_checkpoint_directive(
            "[codelink-context-checkpoint scope=all] a\n[codelink-context-checkpoint turns= 4 ] b"
        ),
        Some(CheckpointDirective {
            target: CheckpointTarget::LegacyTurns(4),
            summary: set("b"),
        })
    );
    assert_eq!(
        extract_checkpoint_directive("see [codelink-context-checkpoint scope=older-images]"),
        None
    );
    assert_eq!(
        extract_checkpoint_directive("[codelink-context-checkpoint scope=older-images"),
        None
    );
}

#[test]
fn directive_targets_are_exact() {
    assert_eq!(
        parse_checkpoint_target("scope=older-heavy"),
        Some(CheckpointTarget::OlderHeavy)
    );
    assert_eq!(
        parse_checkpoint_target("turns=+2"),
        Some(CheckpointTarget::LegacyTurns(2))
    );
    assert_eq!(parse_checkpoint_target("turns=-2"), None);
    assert_eq!(parse_checkpoint_target("scope=older"), None);
    assert_eq!(strip_checkpoint_prefix("[codelink-context-checkpoint x"), Some("x"));
    assert_eq!(strip_checkpoint_prefix(" [codelink-context-checkpoint x"), None);
}

#[test]
fn newest_directive_counts() {
    let items = vec![
        message("assistant", "[codelink-context-checkpoint scope=older-heavy] one"),
        message("assistant", "[codelink-context-checkpoint turns=2] two"),
        message("assistant", "plain"),
    ];
    assert_eq!(
        latest_checkpoint_directive(&items),
        Some(CheckpointDirective {
            target: CheckpointTarget::LegacyTurns(2),
            summary: set("two"),
        })
    );
    assert_eq!(latest_checkpoint_directive(&items[2..]), None);
}

#[test]
fn directive_lines_are_stripped() {
    assert_eq!(
        strip_checkpoint_directive_lines("a\n [codelink-context-checkpoint nonsense\nb\n"),
        "a\nb"
    );
    assert_eq!(
        strip_checkpoint_directive_lines("[manga-context-checkpoint turns=1] x"),
        CHECKPOINT_APPLIED_PLACEHOLDER
    );
    assert_eq!(
        strip_checkpoint_directive_lines(" [codelink-context-checkpoint x\n"),
        CHECKPOINT_APPLIED_PLACEHOLDER
    );
}

#[test]
fn texts_without_directives_are_left_alone() {
    for text in ["", "\n", "plain\ntext", "plain\r\ntext\r\n", "a\n\n", "see [codelink-context-checkpoint x"] {
        assert_eq!(strip_checkpoint_directive_lines(text), text);
    }
    let mut items = vec![message("user", ""), message("user", "a\r\nb\n")];
    let before = items.clone();
    prune_items_for_prompt(&mut items, config(1, 1, 4096));
    assert_eq!(items, before);
}

#[test]
fn summaries_are_short() {
    assert_eq!(trim_checkpoint_summary(" \t "), None);
    assert_eq!(trim_checkpoint_summary(" a b "), set("a b"));
    let long = "ü".repeat(801);
    assert_eq!(trim_checkpoint_summary(&long), Some("ü".repeat(800)));
}

#[test]
fn automatic_cutoff_moves_by_segments() {
    let mut boundaries = Vec::new();
    let mut cutoffs = Vec::new();
    for _ in 0..8 {
        boundaries.push(true);
        boundaries.push(false);
        cutoffs.push(pruning_cutoff(&boundaries, 1, 3));
    }
    assert_eq!(cutoffs, vec![0, 0, 0, 6, 6, 6, 12, 12]);
    assert_eq!(pruning_cutoff(&boundaries, 0, 4), 16);
    assert_eq!(pruning_cutoff(&boundaries, 8, 0), 0);
    assert_eq!(pruning_cutoff(&boundaries, 7, 0), 2);
}

#[test]
fn directive_cutoffs_spare_recent_turns() {
    let boundaries = [true, false, true, true, false];
    assert_eq!(recent_turn_guard_index(&boundaries, 0), 5);
    assert_eq!(recent_turn_guard_index(&boundaries, 1), 3);
    assert_eq!(recent_turn_guard_index(&boundaries, 2), 2);
    assert_eq!(recent_turn_guard_index(&boundaries, 3), 0);
    assert_eq!(pruning_cutoff_for_requested_turns(&boundaries, 1, 1), 2);
    assert_eq!(pruning_cutoff_for_requested_turns(&boundaries, 9, 1), 3);
    assert_eq!(pruning_cutoff_for_requested_turns(&boundaries, 9, 0), 5);
    assert_eq!(pruning_cutoff_for_requested_turns(&boundaries, 0, 0), 0);
}

#[test]
fn directive_scopes_are_separate() {
    let items = vec![
        image(),
        output("a", "0123456789", None),
        image(),
        message("user", "recent"),
    ];
    let boundaries = [true, false, true, true];
    let directive = |target| CheckpointDirective {
        target,
        summary: None,
    };
    let at = |target| checkpoint_cutoffs(&items, &boundaries, &directive(target), &config(1, 10, 5));
    assert_eq!(at(CheckpointTarget::OlderImages), (3, 0));
    assert_eq!(at(CheckpointTarget::OlderHeavy), (0, 2));
    assert_eq!(at(CheckpointTarget::LegacyTurns(1)), (2, 2));
}

#[test]
fn heavy_payloads_are_counted_in_characters() {
    assert!(!item_has_prunable_heavy_tool_payload(&call("x", "üüü", "a"), 3));
    assert!(item_has_prunable_heavy_tool_payload(&call("x", "üüüü", "a"), 3));
    assert!(!item_has_prunable_heavy_tool_payload(&call("task", "üüüü", "a"), 3));
    assert!(item_has_prunable_heavy_tool_payload(&output("a", "1234", None), 3));
    assert!(is_heavy_tool_prune_protected("compress"));
    assert!(!is_heavy_tool_prune_protected("apply_patch"));
    let parts = FunctionCallOutputPayload::from_content_items(vec![
        FunctionCallOutputContentItem::InputText {
            text: "ab".to_string(),
        },
        FunctionCallOutputContentItem::InputText {
            text: "  ".to_string(),
        },
        FunctionCallOutputContentItem::InputText {
            text: "c".to_string(),
        },
    ]);
    assert_eq!(output_text_len(&parts), Some(4));
    assert_eq!(
        output_text_len(&FunctionCallOutputPayload::from_content_items(vec![])),
        None
    );
}

#[test]
fn previews_are_one_short_line() {
    assert_eq!(preview("a \n\t b\"c\""), "a b'c'");
    assert_eq!(preview(""), "");
    let long = "x".repeat(161);
    assert_eq!(preview(&long), format!("{}…", "x".repeat(160)));
    assert_eq!(preview(&long[1..]), "x".repeat(160));
    let spaced = format!("{}end", "x \n  ".repeat(70));
    assert_eq!(preview(&spaced), format!("{}end", "x ".repeat(70)));
}

#[test]
fn exit_codes_are_found() {
    assert_eq!(extract_exit_code("Process exited with code 0\n"), Some(0));
    assert_eq!(extract_exit_code("ü Process exited with code -12x"), Some(-12));
    assert_eq!(extract_exit_code("Process exited with code x"), None);
    assert_eq!(extract_exit_code("Process exited with code 9999999999"), None);
    assert_eq!(extract_exit_code("exited with code 3"), None);
}

#[test]
fn placeholders_keep_what_is_known() {
    assert_eq!(image_placeholder(None), IMAGE_PLACEHOLDER);
    let directive = CheckpointDirective {
        target: CheckpointTarget::OlderImages,
        summary: set("ok"),
    };
    assert_eq!(
        image_placeholder(Some(&directive)),
        format!("{IMAGE_PLACEHOLDER}; checkpoint summary: ok")
    );
    assert_eq!(
        heavy_tool_input_placeholder("run", "id1", 12, "some  input"),
        "[codelink-context-pruned: old heavy tool input removed; tool=run; call_id=id1; chars=12; \
         preview=\"some input\"]"
    );
    let metadata = ToolCallMetadata {
        name: "run".to_string(),
        input_preview: "in".to_string(),
        input_chars: 2,
    };
    assert_eq!(
        heavy_tool_output_placeholder(
            "run",
            "id1",
            30,
            Some(false),
            "Process exited with code 7",
            Some(&metadata)
        ),
        "[codelink-context-pruned: old heavy tool output removed; tool=run; call_id=id1; chars=30; \
         success=false; exit_code=7; input_chars=2; input_preview=\"in\"; \
         preview=\"Process exited with code 7\"]"
    );
    assert_eq!(
        heavy_tool_output_placeholder("run", "id1", 3, None, "abc", None),
        "[codelink-context-pruned: old heavy tool output removed; tool=run; call_id=id1; chars=3; \
         success=unknown; preview=\"abc\"]"
    );
}

#[test]
fn images_are_replaced_before_the_cutoff() {
    let mut items = vec![image(), image()];
    prune_images(&mut items, 1, "gone");
    assert_eq!(
        items[0],
        ResponseItem::Message {
            id: None,
            role: "user".to_string(),
            content: vec![ContentItem::InputText {
                text: "gone".to_string()
            }],
            phase: None,
        }
    );
    assert_eq!(items[1], image());
}

#[test]
fn signatures_tell_calls_apart() {
    assert!(is_protected_tool("apply_patch"));
    assert!(!is_protected_tool("view_image"));
    assert_eq!(tool_call_signature(&call("edit", "{}", "a")), None);
    assert_eq!(
        tool_call_signature(&call("run", "{}", "a")),
        Some(("a".to_string(), "function:0:3:run{}".to_string()))
    );
    let custom = ResponseItem::CustomToolCall {
        id: None,
        status: None,
        call_id: "b".to_string(),
        name: "run".to_string(),
        input: "{}".to_string(),
    };
    assert_eq!(
        tool_call_signature(&custom),
        Some(("b".to_string(), "custom:3:run{}".to_string()))
    );
}

#[test]
fn different_calls_are_not_taken_for_repetitions() {
    let custom = |name: &str, input: &str, call_id: &str| ResponseItem::CustomToolCall {
        id: None,
        status: None,
        call_id: call_id.to_string(),
        name: name.to_string(),
        input: input.to_string(),
    };
    let mut items = vec![
        custom("a", "b:c", "1"),
        ResponseItem::CustomToolCallOutput {
            call_id: "1".to_string(),
            name: None,
            output: FunctionCallOutputPayload::from_text("x".to_string()),
        },
        custom("a:b", "c", "2"),
        ResponseItem::CustomToolCallOutput {
            call_id: "2".to_string(),
            name: None,
            output: FunctionCallOutputPayload::from_text("y".to_string()),
        },
        call("x", "y:z", "3"),
        output("3", "z", None),
        call("x:y", "z", "4"),
        call("1", "1:x", "5"),
        output("5", "w", None),
        call("1:1", ":x", "6"),
    ];
    let before = items.clone();
    prune_duplicate_tool_outputs(&mut items, 10);
    assert_eq!(items, before);
}

#[test]
fn repeated_calls_keep_the_newest_output() {
    let mut items = vec![
        call("run", "{}", "a"),
        output("a", "one", Some(true)),
        call("run", "{}", "b"),
        output("b", "two", None),
        call("run", "{}", "c"),
        output("c", "three", None),
        call("edit", "{}", "d"),
        output("d", "four", None),
        call("edit", "{}", "e"),
    ];
    let before = items.clone();
    prune_duplicate_tool_outputs(&mut items, 2);
    assert_eq!(items[1], output("a", DUPLICATE_TOOL_OUTPUT_PLACEHOLDER, None));
    assert_eq!(items[2..], before[2..]);
    prune_duplicate_tool_outputs(&mut items, 9);
    assert_eq!(items[3], output("b", DUPLICATE_TOOL_OUTPUT_PLACEHOLDER, None));
    assert_eq!(items[4..], before[4..]);
}

#[test]
fn failures_are_known_by_their_output() {
    assert_eq!(
        failed_tool_output_call_id(&output("a", "x", Some(false))),
        set("a")
    );
    assert_eq!(failed_tool_output_call_id(&output("a", "x", None)), None);
    let mut items = vec![
        call("run", "{}", "a"),
        call("run", "{}", "b"),
        output("a", "x", Some(false)),
        output("b", "y", Some(true)),
    ];
    purge_old_failed_tool_payloads(&mut items, 2);
    assert_eq!(items[0], call("run", "{}", "a"));
    purge_old_failed_tool_payloads(&mut items, 4);
    assert_ne!(items[0], call("run", "{}", "a"));
    assert_eq!(items[1], call("run", "{}", "b"));
    assert_eq!(items[3], output("b", "y", Some(true)));
}

#[test]
fn heavy_outputs_name_their_call() {
    let mut items = vec![
        call("run", "short", "a"),
        output("a", "a long output", Some(true)),
        output("none", "another long output", None),
        call("task", "a long protected input", "b"),
        output("b", "a long protected output", None),
    ];
    let before = items.clone();
    prune_heavy_tool_payloads(&mut items, 5, 10);
    assert_eq!(items[0], before[0]);
    assert_eq!(
        items[1],
        output(
            "a",
            "[codelink-context-pruned: old heavy tool output removed; tool=run; call_id=a; \
             chars=13; success=true; input_chars=5; input_preview=\"short\"; \
             preview=\"a long output\"]",
            None
        )
    );
    assert_eq!(
        items[2],
        output(
            "none",
            "[codelink-context-pruned: old heavy tool output removed; tool=unknown; call_id=none; \
             chars=19; success=unknown; preview=\"another long output\"]",
            None
        )
    );
    assert_eq!(items[3..], before[3..]);
}

#[test]
fn boundaries_may_be_given() {
    let mut items = vec![image(), message("developer", "turn"), image()];
    prune_older_items(&mut items, &[true, true, false], None, &config(1, 1, 4096));
    assert!(!item_has_prunable_image(&items[0]));
    assert_eq!(items[2], image());
}

#[test]
fn pruning_keeps_the_shape_of_a_conversation() {
    let mut items = vec![
        message("user", "old"),
        call("run", &"x".repeat(50), "a"),
        output("a", &"y".repeat(50), Some(true)),
        ResponseItem::Reasoning {
            payload: "r".to_string(),
        },
        ResponseItem::Other,
        message("user", "recent"),
    ];
    let before = items.clone();
    prune_items_for_prompt(&mut items, config(1, 1, 10));
    assert_eq!(items.len(), before.len());
    assert_eq!(items[0], before[0]);
    assert_eq!(items[3..], before[3..]);
    assert!(matches!(&items[1], ResponseItem::FunctionCall { name, call_id, .. }
        if name == "run" && call_id == "a"));
    assert!(matches!(&items[2], ResponseItem::FunctionCallOutput { call_id, .. } if call_id == "a"));
}

#[test]
fn directives_are_ignored_where_they_are_disabled() {
    let directive = "[codelink-context-checkpoint scope=older-images] x";
    let mut items = vec![image(), message("assistant", directive), message("user", "recent")];
    let before = items.clone();
    let mut quiet = config(1, 10, 4096);
    quiet.enable_directives = false;
    prune_items_for_prompt(&mut items, quiet);
    assert_eq!(items, before);
}
