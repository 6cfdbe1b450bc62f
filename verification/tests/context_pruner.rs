//! Pruning the prompt of a conversation, from end to end.
use codelink::item::{
    ContentItem, FunctionCallOutputContentItem, FunctionCallOutputPayload, ResponseItem,
};
use codelink::pruner::config::{ContextPrunerConfig, DEFAULT_HEAVY_TOOL_CHARS};
use codelink::pruner::directive::CHECKPOINT_APPLIED_PLACEHOLDER;
use codelink::pruner::placeholder::{
    DUPLICATE_TOOL_OUTPUT_PLACEHOLDER, ERROR_TOOL_INPUT_PLACEHOLDER, ERROR_TOOL_OUTPUT_PLACEHOLDER,
    HEAVY_TOOL_INPUT_PREFIX, HEAVY_TOOL_OUTPUT_PREFIX, IMAGE_PLACEHOLDER,
};
use codelink::pruner::prompt::prune_items_for_prompt;

fn user_text(text: &str) -> ResponseItem {
    ResponseItem::Message {
        id: None,
        role: "user".to_string(),
        content: vec![ContentItem::InputText {
            text: text.to_string(),
        }],
        phase: None,
    }
}

fn user_image(image_url: &str) -> ResponseItem {
    ResponseItem::Message {
        id: None,
        role: "user".to_string(),
        content: vec![ContentItem::InputImage {
            image_url: image_url.to_string(),
            detail: None,
        }],
        phase: None,
    }
}

fn assistant_text(text: &str) -> ResponseItem {
    ResponseItem::Message {
        id: None,
        role: "assistant".to_string(),
        content: vec![ContentItem::OutputText {
            text: text.to_string(),
        }],
        phase: None,
    }
}

fn config(keep_recent_turns: usize, segment_turns: usize) -> ContextPrunerConfig {
    ContextPrunerConfig {
        keep_recent_turns,
        segment_turns,
        heavy_tool_chars: DEFAULT_HEAVY_TOOL_CHARS,
        enable_directives: true,
    }
}

fn config_with_heavy(
    keep_recent_turns: usize,
    segment_turns: usize,
    heavy_tool_chars: usize,
) -> ContextPrunerConfig {
    ContextPrunerConfig {
        keep_recent_turns,
        segment_turns,
        heavy_tool_chars,
        enable_directives: true,
    }
}

#[test]
fn prunes_images_before_recent_turn_boundary() {
    let mut items = vec![
        user_image("data:image/png;base64,old"),
        ResponseItem::ImageGenerationCall {
            id: "ig-old".to_string(),
            status: "completed".to_string(),
            revised_prompt: None,
            result: "old-result".to_string(),
        },
        user_text("recent"),
        user_image("data:image/png;base64,recent"),
    ];

    prune_items_for_prompt(&mut items, config(1, 1));

    assert_eq!(
        items,
        vec![
            ResponseItem::Message {
                id: None,
                role: "user".to_string(),
                content: vec![ContentItem::InputText {
                    text: IMAGE_PLACEHOLDER.to_string(),
                }],
                phase: None,
            },
            ResponseItem::ImageGenerationCall {
                id: "ig-old".to_string(),
                status: "completed".to_string(),
                revised_prompt: None,
                result: IMAGE_PLACEHOLDER.to_string(),
            },
            user_text("recent"),
            user_image("data:image/png;base64,recent"),
        ]
    );
}

#[test]
fn prunes_tool_output_images_without_touching_text() {
    let mut items = vec![
        user_text("old"),
        ResponseItem::FunctionCallOutput {
            call_id: "call-old".to_string(),
            output: FunctionCallOutputPayload::from_content_items(vec![
                FunctionCallOutputContentItem::InputText {
                    text: "keep text".to_string(),
                },
                FunctionCallOutputContentItem::InputImage {
                    image_url: "data:image/png;base64,old".to_string(),
                    detail: None,
                },
            ]),
        },
        user_text("recent"),
    ];

    prune_items_for_prompt(&mut items, config(1, 1));

    assert_eq!(
        items,
        vec![
            user_text("old"),
            ResponseItem::FunctionCallOutput {
                call_id: "call-old".to_string(),
                output: FunctionCallOutputPayload::from_content_items(vec![
                    FunctionCallOutputContentItem::InputText {
                        text: "keep text".to_string(),
                    },
                    FunctionCallOutputContentItem::InputText {
                        text: IMAGE_PLACEHOLDER.to_string(),
                    },
                ]),
            },
            user_text("recent"),
        ]
    );
}

#[test]
fn keeps_all_images_when_history_has_only_recent_turns() {
    let mut items = vec![user_image("data:image/png;base64,only")];

    prune_items_for_prompt(&mut items, config(1, 1));

    assert_eq!(items, vec![user_image("data:image/png;base64,only")]);
}

#[test]
fn segment_cutoff_prunes_only_at_stable_boundaries() {
    let mut items = vec![
        user_image("data:image/png;base64,turn1"),
        user_image("data:image/png;base64,turn2"),
        user_image("data:image/png;base64,turn3"),
        user_image("data:image/png;base64,turn4"),
    ];

    prune_items_for_prompt(&mut items, config(1, 3));

    assert_eq!(
        items,
        vec![
            ResponseItem::Message {
                id: None,
                role: "user".to_string(),
                content: vec![ContentItem::InputText {
                    text: IMAGE_PLACEHOLDER.to_string(),
                }],
                phase: None,
            },
            ResponseItem::Message {
                id: None,
                role: "user".to_string(),
                content: vec![ContentItem::InputText {
                    text: IMAGE_PLACEHOLDER.to_string(),
                }],
                phase: None,
            },
            ResponseItem::Message {
                id: None,
                role: "user".to_string(),
                content: vec![ContentItem::InputText {
                    text: IMAGE_PLACEHOLDER.to_string(),
                }],
                phase: None,
            },
            user_image("data:image/png;base64,turn4"),
        ]
    );
}

#[test]
fn prunes_duplicate_tool_outputs_like_dcp() {
    let mut items = vec![
        user_text("old"),
        ResponseItem::FunctionCall {
            id: None,
            name: "view_image".to_string(),
            namespace: None,
            arguments: "{\"path\":\"a.png\"}".to_string(),
            call_id: "call-older".to_string(),
        },
        ResponseItem::FunctionCallOutput {
            call_id: "call-older".to_string(),
            output: FunctionCallOutputPayload::from_text("older output".to_string()),
        },
        ResponseItem::FunctionCall {
            id: None,
            name: "view_image".to_string(),
            namespace: None,
            arguments: "{\"path\":\"a.png\"}".to_string(),
            call_id: "call-newer".to_string(),
        },
        ResponseItem::FunctionCallOutput {
            call_id: "call-newer".to_string(),
            output: FunctionCallOutputPayload::from_text("newer output".to_string()),
        },
        user_text("recent"),
    ];

    prune_items_for_prompt(&mut items, config(1, 1));

    assert_eq!(
        items[2],
        ResponseItem::FunctionCallOutput {
            call_id: "call-older".to_string(),
            output: FunctionCallOutputPayload::from_text(
                DUPLICATE_TOOL_OUTPUT_PLACEHOLDER.to_string()
            ),
        }
    );
    assert_eq!(
        items[4],
        ResponseItem::FunctionCallOutput {
            call_id: "call-newer".to_string(),
            output: FunctionCallOutputPayload::from_text("newer output".to_string()),
        }
    );
}

#[test]
fn purges_old_failed_tool_input_and_output() {
    let mut failed_output =
        FunctionCallOutputPayload::from_text("huge failure output".to_string());
    failed_output.success = Some(false);
    let mut items = vec![
        user_text("old"),
        ResponseItem::FunctionCall {
            id: None,
            name: "exec_command".to_string(),
            namespace: None,
            arguments: "{\"cmd\":\"bad\"}".to_string(),
            call_id: "call-failed".to_string(),
        },
        ResponseItem::FunctionCallOutput {
            call_id: "call-failed".to_string(),
            output: failed_output,
        },
        user_text("recent"),
    ];

    prune_items_for_prompt(&mut items, config(1, 1));

    assert_eq!(
        items[1],
        ResponseItem::FunctionCall {
            id: None,
            name: "exec_command".to_string(),
            namespace: None,
            arguments: ERROR_TOOL_INPUT_PLACEHOLDER.to_string(),
            call_id: "call-failed".to_string(),
        }
    );
    assert_eq!(
        items[2],
        ResponseItem::FunctionCallOutput {
            call_id: "call-failed".to_string(),
            output: FunctionCallOutputPayload::from_text(
                ERROR_TOOL_OUTPUT_PLACEHOLDER.to_string()
            ),
        }
    );
}

#[test]
fn checkpoint_scope_older_heavy_prunes_old_large_tool_payloads() {
    let mut output = FunctionCallOutputPayload::from_text(
        "Chunk ID: abc\nProcess exited with code 0\nOutput:\nlarge output body".to_string(),
    );
    output.success = Some(true);
    let mut items = vec![
        user_text("old"),
        ResponseItem::CustomToolCall {
            id: None,
            status: Some("completed".to_string()),
            call_id: "patch-old".to_string(),
            name: "apply_patch".to_string(),
            input:
                "*** Begin Patch\n*** Add File: huge.md\n+very long patch body\n*** End Patch"
                    .to_string(),
        },
        ResponseItem::CustomToolCallOutput {
            call_id: "patch-old".to_string(),
            name: Some("apply_patch".to_string()),
            output,
        },
        assistant_text("[codelink-context-checkpoint scope=older-heavy] pages 1-8 QA OK"),
        user_text("recent"),
        ResponseItem::FunctionCall {
            id: None,
            name: "exec_command".to_string(),
            namespace: None,
            arguments: "{\"cmd\":\"recent large command that must stay\"}".to_string(),
            call_id: "recent-call".to_string(),
        },
    ];

    prune_items_for_prompt(&mut items, config_with_heavy(1, 10, 20));

    assert!(matches!(
        &items[1],
        ResponseItem::CustomToolCall { input, .. }
            if input.starts_with(HEAVY_TOOL_INPUT_PREFIX)
                && input.contains("tool=apply_patch")
                && input.contains("call_id=patch-old")
    ));
    assert!(matches!(
        &items[2],
        ResponseItem::CustomToolCallOutput { output, .. }
            if output.text_content().is_some_and(|text|
                text.starts_with(HEAVY_TOOL_OUTPUT_PREFIX)
                    && text.contains("tool=apply_patch")
                    && text.contains("call_id=patch-old")
                    && text.contains("success=true")
                    && text.contains("exit_code=0")
            )
    ));
    assert_eq!(items[3], assistant_text(CHECKPOINT_APPLIED_PLACEHOLDER));
    assert_eq!(
        items[5],
        ResponseItem::FunctionCall {
            id: None,
            name: "exec_command".to_string(),
            namespace: None,
            arguments: "{\"cmd\":\"recent large command that must stay\"}".to_string(),
            call_id: "recent-call".to_string(),
        }
    );
}

#[test]
fn checkpoint_scope_older_images_does_not_prune_heavy_tool_text_without_segment_cutoff() {
    let mut items = vec![
        user_text("old"),
        ResponseItem::FunctionCallOutput {
            call_id: "large-output".to_string(),
            output: FunctionCallOutputPayload::from_text(
                "large output that should stay for image-only checkpoint".to_string(),
            ),
        },
        ResponseItem::FunctionCallOutput {
            call_id: "page1".to_string(),
            output: FunctionCallOutputPayload::from_content_items(vec![
                FunctionCallOutputContentItem::InputImage {
                    image_url: "data:image/png;base64,page1".to_string(),
                    detail: None,
                },
            ]),
        },
        assistant_text("[codelink-context-checkpoint scope=older-images] images only"),
        user_text("recent"),
    ];

    prune_items_for_prompt(&mut items, config_with_heavy(1, 10, 20));

    assert_eq!(
        items[1],
        ResponseItem::FunctionCallOutput {
            call_id: "large-output".to_string(),
            output: FunctionCallOutputPayload::from_text(
                "large output that should stay for image-only checkpoint".to_string()
            ),
        }
    );
    assert!(matches!(
        &items[2],
        ResponseItem::FunctionCallOutput { output, .. }
            if output.content_items().is_some_and(|content_items|
                matches!(&content_items[0], FunctionCallOutputContentItem::InputText { text }
                    if text.contains(IMAGE_PLACEHOLDER)
                )
            )
    ));
}

#[test]
fn checkpoint_directive_prunes_requested_turns_without_waiting_for_segment() {
    let mut items = vec![
        user_image("data:image/png;base64,turn1"),
        user_image("data:image/png;base64,turn2"),
        user_image("data:image/png;base64,turn3"),
        assistant_text("[codelink-context-checkpoint turns=3] pages 1-3 QA OK"),
        user_image("data:image/png;base64,turn4"),
    ];

    prune_items_for_prompt(&mut items, config(1, 10));

    let expected_placeholder =
        format!("{IMAGE_PLACEHOLDER}; checkpoint summary: pages 1-3 QA OK");
    assert_eq!(
        items,
        vec![
            ResponseItem::Message {
                id: None,
                role: "user".to_string(),
                content: vec![ContentItem::InputText {
                    text: expected_placeholder.clone(),
                }],
                phase: None,
            },
            ResponseItem::Message {
                id: None,
                role: "user".to_string(),
                content: vec![ContentItem::InputText {
                    text: expected_placeholder.clone(),
                }],
                phase: None,
            },
            ResponseItem::Message {
                id: None,
                role: "user".to_string(),
                content: vec![ContentItem::InputText {
                    text: expected_placeholder,
                }],
                phase: None,
            },
            assistant_text(CHECKPOINT_APPLIED_PLACEHOLDER),
            user_image("data:image/png;base64,turn4"),
        ]
    );
}

#[test]
fn checkpoint_scope_older_images_prunes_seen_image_batch_without_turn_count() {
    let mut items = vec![
        user_text("boot"),
        user_text("task"),
        user_text("make pages"),
        ResponseItem::FunctionCallOutput {
            call_id: "contact-sheet".to_string(),
            output: FunctionCallOutputPayload::from_content_items(vec![
                FunctionCallOutputContentItem::InputText {
                    text: "contact sheet".to_string(),
                },
                FunctionCallOutputContentItem::InputImage {
                    image_url: "data:image/png;base64,sheet".to_string(),
                    detail: None,
                },
            ]),
        },
        ResponseItem::FunctionCallOutput {
            call_id: "page1".to_string(),
            output: FunctionCallOutputPayload::from_content_items(vec![
                FunctionCallOutputContentItem::InputImage {
                    image_url: "data:image/png;base64,page1".to_string(),
                    detail: None,
                },
            ]),
        },
        assistant_text("[codelink-context-checkpoint scope=older-images] pages 1-4 QA OK"),
        user_text("continue"),
    ];

    prune_items_for_prompt(&mut items, config(1, 10));

    let expected_placeholder =
        format!("{IMAGE_PLACEHOLDER}; checkpoint summary: pages 1-4 QA OK");
    assert_eq!(
        items[3],
        ResponseItem::FunctionCallOutput {
            call_id: "contact-sheet".to_string(),
            output: FunctionCallOutputPayload::from_content_items(vec![
                FunctionCallOutputContentItem::InputText {
                    text: "contact sheet".to_string(),
                },
                FunctionCallOutputContentItem::InputText {
                    text: expected_placeholder.clone(),
                },
            ]),
        }
    );
    assert_eq!(
        items[4],
        ResponseItem::FunctionCallOutput {
            call_id: "page1".to_string(),
            output: FunctionCallOutputPayload::from_content_items(vec![
                FunctionCallOutputContentItem::InputText {
                    text: expected_placeholder,
                },
            ]),
        }
    );
    assert_eq!(items[5], assistant_text(CHECKPOINT_APPLIED_PLACEHOLDER));
    assert_eq!(items[6], user_text("continue"));
}

#[test]
fn checkpoint_directive_cannot_prune_recent_guarded_turns() {
    let mut items = vec![
        user_image("data:image/png;base64,turn1"),
        user_image("data:image/png;base64,turn2"),
        assistant_text("[codelink-context-checkpoint scope=older-images] too aggressive"),
    ];

    prune_items_for_prompt(&mut items, config(1, 10));

    assert!(matches!(
        &items[0],
        ResponseItem::Message { content, .. }
            if matches!(&content[0], ContentItem::InputText { .. })
    ));
    assert_eq!(items[1], user_image("data:image/png;base64,turn2"));
    assert_eq!(items[2], assistant_text(CHECKPOINT_APPLIED_PLACEHOLDER));
}
