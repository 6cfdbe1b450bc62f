//! What is told to an agent in every session.
use vstd::prelude::*;
use vstd::string::*;

verus! {

/// What an agent is told of background jobs.
pub const BUILTIN_DEVELOPER_INSTRUCTIONS: &'static str =
    "CodeLink built-in capabilities:\n- This binary is CodeLink, a Codex fork. Prefer the short command `codel`; `codelink` is a long-form alias.\n- CodeLink supports durable background jobs under `~/.codelink/`: `codel bg`, `codel timer`, `codel watch-remote`, `codel jobs`, `codel result <job_id>`, `codel logs <job_id>`, `codel notifications`, and `codel cancel <job_id>`.\n- Use `codel bg --cwd <dir> \"<prompt>\"` for background agent work such as read-only directory exploration, audits, or long independent tasks. The foreground session should remain usable while it runs.\n- Use `codel timer --after <duration> \"<message>\"` for scheduled wakeups. Durations accept plain seconds or `s`, `m`, `h` suffixes.\n- Use `codel watch-remote` for long remote tmux/log jobs.\n- Background jobs write artifacts under `~/.codelink/jobs/<job_id>/`, including `result.md`, logs, history, and `notification.md`.\n- When a CodeLink wake turn arrives, read `codel result <job_id>` for every listed job, summarize the outcome, and continue the pending work. Do not ask the user to poll manually.\n- The active TUI is woken by a local socket when jobs start or finish. Do not busy-poll jobs in the foreground loop. Startup checks and low-frequency fallback checks are acceptable; normal completion handling should rely on wake notifications.\n- The TUI status line may show active background work as `CodeLink N bg`. Treat that as the source of truth for user-visible running indicators.\n- Never auto-apply background agent changes to the main working tree unless the user explicitly asks. Prefer read-only exploration unless the prompt says to edit.\n";

/// What an agent is told of background jobs.
pub fn developer_instructions() -> (instructions: String)
    ensures
        instructions@ == BUILTIN_DEVELOPER_INSTRUCTIONS@,
{
    BUILTIN_DEVELOPER_INSTRUCTIONS.to_owned()
}

/// Where images are kept that an agent generates.
#[derive(Debug, Clone, PartialEq)]
pub struct ImageGenerationInstructions {
    pub image_output_dir: String,
    pub image_output_path: String,
}

/// In whose name an agent is told of images.
pub const IMAGE_INSTRUCTIONS_ROLE: &'static str = "developer";

impl ImageGenerationInstructions {
    /// Where images are kept.
    pub fn new(image_output_dir: &str, image_output_path: &str) -> (instructions: Self)
        ensures
            instructions.image_output_dir@ == image_output_dir@,
            instructions.image_output_path@ == image_output_path@,
    {
        ImageGenerationInstructions {
            image_output_dir: image_output_dir.to_owned(),
            image_output_path: image_output_path.to_owned(),
        }
    }

    /// What an agent is told of images.
    pub open spec fn text(self) -> Seq<char> {
        "Generated images are saved to "@ + self.image_output_dir@ + " as "@ + self.image_output_path@
            + " by default.\nIf you need to use a generated image at another path, copy it and leave the original in place unless the user explicitly asks you to delete it.\nWhen editing or generating from reference images, use images already in conversation. If the user provides a local image path, call `view_image` for each referenced image before calling `image_generation` with the user's text prompt."@
    }

    /// What an agent is told of images.
    pub fn body(&self) -> (body: String)
        ensures
            body@ == self.text(),
    {
        let mut body = "Generated images are saved to ".to_owned();
        body.append(self.image_output_dir.as_str());
        body.append(" as ");
        body.append(self.image_output_path.as_str());
        body.append(
            " by default.\nIf you need to use a generated image at another path, copy it and leave the original in place unless the user explicitly asks you to delete it.\nWhen editing or generating from reference images, use images already in conversation. If the user provides a local image path, call `view_image` for each referenced image before calling `image_generation` with the user's text prompt.",
        );
        body
    }
}

/// Whatever the paths, an agent is told where images are saved, that the saved ones are to stay, and how
/// to use images for reference.
pub proof fn law_image_instructions_name_the_paths(instructions: ImageGenerationInstructions)
    ensures
        instructions.text() == "Generated images are saved to "@ + instructions.image_output_dir@
            + " as "@ + instructions.image_output_path@
            + " by default.\nIf you need to use a generated image at another path, copy it and leave the original in place unless the user explicitly asks you to delete it.\nWhen editing or generating from reference images, use images already in conversation. If the user provides a local image path, call `view_image` for each referenced image before calling `image_generation` with the user's text prompt."@,
{
}

} // verus!
