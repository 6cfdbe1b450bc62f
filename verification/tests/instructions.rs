//! What an agent is told.
use codelink::instructions::{
    developer_instructions, ImageGenerationInstructions, IMAGE_INSTRUCTIONS_ROLE,
};

#[test]
fn instructions_mention_core_codelink_commands() {
    let instructions = developer_instructions();
    for needle in [
        "codel bg",
        "codel timer",
        "codel watch-remote",
        "codel result <job_id>",
        "CodeLink N bg",
        "Do not busy-poll",
    ] {
        assert!(
            instructions.contains(needle),
            "missing CodeLink instruction: {needle}"
        );
    }
}

#[test]
fn instructions_explain_reference_image_flow() {
    let instructions = ImageGenerationInstructions::new("/tmp", "/tmp/image.png").body();
    for needle in [
        "Generated images are saved to /tmp as /tmp/image.png by default.",
        "reference images",
        "local image path",
        "view_image",
        "image_generation",
        "text prompt",
    ] {
        assert!(
            instructions.contains(needle),
            "missing image generation instruction: {needle}"
        );
    }
}

#[test]
fn developer_instructions_are_a_list_under_a_heading() {
    let instructions = developer_instructions();
    let mut lines = instructions.lines();
    assert_eq!(lines.next(), Some("CodeLink built-in capabilities:"));
    assert!(lines.clone().all(|line| line.starts_with("- ")));
    assert_eq!(lines.count(), 10);
    assert!(instructions.ends_with("unless the prompt says to edit.\n"));
    assert!(instructions.contains("Use `codel bg --cwd <dir> \"<prompt>\"` for background agent"));
}

#[test]
fn image_instructions_are_told_by_the_developer() {
    assert_eq!(IMAGE_INSTRUCTIONS_ROLE, "developer");
    let body = ImageGenerationInstructions::new("a", "b").body();
    assert!(body.starts_with("Generated images are saved to a as b by default.\nIf you need"));
    assert!(body.ends_with("before calling `image_generation` with the user's text prompt."));
}
