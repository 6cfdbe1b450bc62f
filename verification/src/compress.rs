//! The tool with which a model asks for closed parts of a conversation to be compressed.
use crate::number;
use crate::text;
use vstd::prelude::*;
use vstd::string::*;

verus! {

/// The topic of a request that names none.
pub const DEFAULT_TOPIC: &'static str = "closed context";

/// What a tool is called with.
#[derive(Debug, Clone, PartialEq, Eq)]
pub enum ToolPayload {
    /// The arguments of a function, as JSON.
    Function { arguments: String },
    /// Anything else.
    Other,
}

/// How a tool is called.
#[derive(Debug, Clone, Copy, PartialEq, Eq, Structural)]
pub enum ToolKind {
    Function,
}

/// Why a call has no result.
#[derive(Debug, Clone, PartialEq, Eq)]
pub enum FunctionCallError {
    /// The model is told what is wrong with its call.
    RespondToModel(String),
}

/// The result of a call.
#[derive(Debug, Clone, PartialEq, Eq)]
pub struct FunctionToolOutput {
    pub text: String,
    pub success: Option<bool>,
}

/// A request to compress parts of a conversation.
#[derive(Debug, Clone, PartialEq, Eq)]
pub struct CompressArgs {
    pub topic: Option<String>,
    pub content: Vec<CompressRange>,
}

/// A part of a conversation, and what is to stand in its place.
#[derive(Debug, Clone, PartialEq, Eq)]
pub struct CompressRange {
    pub start_id: String,
    pub end_id: String,
    pub summary: String,
}

/// A text of nothing but white space.
pub open spec fn is_blank(text: Seq<char>) -> bool {
    text::trim_of(text).len() == 0
}

/// What is wrong with a part, if anything is. Its ends are looked at before its summary.
pub open spec fn range_fault(range: CompressRange) -> Option<Seq<char>> {
    if is_blank(range.start_id@) || is_blank(range.end_id@) {
        Some("compress range start_id and end_id must be non-empty"@)
    } else if is_blank(range.summary@) {
        Some("compress range summary must be non-empty"@)
    } else {
        None
    }
}

/// What is wrong with the first part with which something is wrong.
pub open spec fn first_range_fault(ranges: Seq<CompressRange>) -> Option<Seq<char>>
    decreases ranges.len(),
{
    if ranges.len() == 0 {
        None
    } else if range_fault(ranges[0]) is Some {
        range_fault(ranges[0])
    } else {
        first_range_fault(ranges.skip(1))
    }
}

/// What is wrong with a request, if anything is.
pub open spec fn request_fault(args: CompressArgs) -> Option<Seq<char>> {
    if args.content@.len() == 0 {
        Some("compress requires at least one content range"@)
    } else {
        first_range_fault(args.content@)
    }
}

/// Whether `error` tells the model `message`.
pub open spec fn tells(error: FunctionCallError, message: Seq<char>) -> bool {
    error matches FunctionCallError::RespondToModel(said) && said@ == message
}

/// Checks a request.
pub fn validate_args(args: &CompressArgs) -> (checked: Result<(), FunctionCallError>)
    ensures
        match checked {
            Ok(_) => request_fault(*args) is None,
            Err(error) => request_fault(*args) is Some && tells(error, request_fault(*args)->0),
        },
{
    if args.content.len() == 0 {
        return Err(
            FunctionCallError::RespondToModel(
                "compress requires at least one content range".to_owned(),
            ),
        );
    }
    let mut i: usize = 0;
    assert(args.content@.skip(0) =~= args.content@);
    while i < args.content.len()
        invariant
            i <= args.content@.len(),
            args.content@.len() > 0,
            first_range_fault(args.content@.skip(i as int)) == first_range_fault(args.content@),
        decreases args.content@.len() - i,
    {
        let range = &args.content[i];
        proof {
            assert(args.content@.skip(i as int)[0] == *range);
            assert(args.content@.skip(i as int).skip(1) =~= args.content@.skip(i as int + 1));
        }
        if text::is_blank(range.start_id.as_str()) || text::is_blank(range.end_id.as_str()) {
            return Err(
                FunctionCallError::RespondToModel(
                    "compress range start_id and end_id must be non-empty".to_owned(),
                ),
            );
        }
        if text::is_blank(range.summary.as_str()) {
            return Err(
                FunctionCallError::RespondToModel(
                    "compress range summary must be non-empty".to_owned(),
                ),
            );
        }
        i = i + 1;
    }
    Ok(())
}

/// The topic of a request.
pub open spec fn topic_of(topic: Option<String>) -> Seq<char> {
    match topic {
        Some(topic) => if is_blank(topic@) {
            DEFAULT_TOPIC@
        } else {
            text::trim_of(topic@)
        },
        None => DEFAULT_TOPIC@,
    }
}

/// What the model is told of a request that is in order.
pub open spec fn receipt_of(topic: Seq<char>, ranges: int) -> Seq<char> {
    "Compression request recorded for topic `"@ + topic + "` with "@ + number::decimal_of(ranges)
        + " range(s). CodeLink will apply it before the next model prompt if the message ids still match and are outside the recent-turn guard."@
}

/// The tool with which a model asks for compression.
pub struct CompressHandler;

impl CompressHandler {
    /// How the tool is called.
    pub fn kind(&self) -> (kind: ToolKind)
        ensures
            kind is Function,
    {
        ToolKind::Function
    }

    /// The arguments of a call.
    pub fn arguments(&self, payload: ToolPayload) -> (arguments: Result<String, FunctionCallError>)
        ensures
            match (payload, arguments) {
                (ToolPayload::Function { arguments: given }, Ok(arguments)) => arguments == given,
                (ToolPayload::Other, Err(error)) => tells(
                    error,
                    "compress handler received unsupported payload"@,
                ),
                _ => false,
            },
    {
        match payload {
            ToolPayload::Function { arguments } => Ok(arguments),
            ToolPayload::Other => Err(
                FunctionCallError::RespondToModel(
                    "compress handler received unsupported payload".to_owned(),
                ),
            ),
        }
    }

    /// Answers a request. It is answered with success exactly if it is in order.
    pub fn handle(&self, args: &CompressArgs) -> (output: Result<
        FunctionToolOutput,
        FunctionCallError,
    >)
        ensures
            match output {
                Ok(output) => {
                    &&& request_fault(*args) is None
                    &&& output.text@ == receipt_of(
                        topic_of(args.topic),
                        args.content@.len() as int,
                    )
                    &&& output.success == Some(true)
                },
                Err(error) => request_fault(*args) is Some && tells(
                    error,
                    request_fault(*args)->0,
                ),
            },
    {
        match validate_args(args) {
            Ok(_) => {},
            Err(error) => {
                return Err(error);
            },
        }
        let topic = match &args.topic {
            Some(topic) => {
                let topic = text::trim(topic.as_str());
                if topic.is_empty() {
                    DEFAULT_TOPIC
                } else {
                    topic
                }
            },
            None => DEFAULT_TOPIC,
        };
        let mut receipt = "Compression request recorded for topic `".to_owned();
        receipt.append(topic);
        receipt.append("` with ");
        receipt.append(number::decimal(args.content.len() as u128).as_str());
        receipt.append(
            " range(s). CodeLink will apply it before the next model prompt if the message ids still match and are outside the recent-turn guard.",
        );
        Ok(FunctionToolOutput { text: receipt, success: Some(true) })
    }
}

/// A request is in order exactly if it has a part, and each of its parts has two ends and a summary.
pub proof fn law_complete_requests_are_accepted(args: CompressArgs)
    ensures
        request_fault(args) is None <==> {
            &&& args.content@.len() > 0
            &&& forall|i: int|
                0 <= i < args.content@.len() ==> {
                    &&& !is_blank((#[trigger] args.content@[i]).start_id@)
                    &&& !is_blank(args.content@[i].end_id@)
                    &&& !is_blank(args.content@[i].summary@)
                }
        },
{
    lemma_first_range_fault(args.content@);
    let ranges = args.content@;
    if request_fault(args) is None {
        assert forall|i: int| 0 <= i < ranges.len() implies {
            &&& !is_blank((#[trigger] ranges[i]).start_id@)
            &&& !is_blank(ranges[i].end_id@)
            &&& !is_blank(ranges[i].summary@)
        } by {
            assert(range_fault(ranges[i]) is None);
        }
    }
}

/// Nothing is wrong with a list of parts exactly if nothing is wrong with each of them.
proof fn lemma_first_range_fault(ranges: Seq<CompressRange>)
    ensures
        first_range_fault(ranges) is None <==> forall|i: int|
            0 <= i < ranges.len() ==> range_fault(#[trigger] ranges[i]) is None,
    decreases ranges.len(),
{
    if ranges.len() > 0 {
        let rest = ranges.skip(1);
        lemma_first_range_fault(rest);
        assert forall|i: int| 0 <= i < rest.len() implies #[trigger] rest[i] == ranges[i + 1] by {}
        if first_range_fault(ranges) is None {
            assert forall|i: int| 0 <= i < ranges.len() implies range_fault(
                #[trigger] ranges[i],
            ) is None by {
                if i > 0 {
                    assert(rest[i - 1] == ranges[i]);
                }
            }
        }
    }
}

/// What is told of a request is what is wrong with its first part with which something is wrong: with its
/// ends before its summary.
pub proof fn law_first_fault_is_told(args: CompressArgs, i: int)
    requires
        0 <= i < args.content@.len(),
        forall|k: int|
            0 <= k < i ==> !text::all_white((#[trigger] args.content@[k]).start_id@)
                && !text::all_white(args.content@[k].end_id@) && !text::all_white(
                args.content@[k].summary@,
            ),
    ensures
        text::all_white(args.content@[i].start_id@) || text::all_white(args.content@[i].end_id@)
            ==> request_fault(args) == Some(
            "compress range start_id and end_id must be non-empty"@,
        ),
        !text::all_white(args.content@[i].start_id@) && !text::all_white(args.content@[i].end_id@)
            && text::all_white(args.content@[i].summary@) ==> request_fault(args) == Some(
            "compress range summary must be non-empty"@,
        ),
{
    let ranges = args.content@;
    text::lemma_blank_is_white(ranges[i].start_id@);
    text::lemma_blank_is_white(ranges[i].end_id@);
    text::lemma_blank_is_white(ranges[i].summary@);
    assert forall|k: int| 0 <= k < i implies range_fault(#[trigger] ranges[k]) is None by {
        text::lemma_blank_is_white(ranges[k].start_id@);
        text::lemma_blank_is_white(ranges[k].end_id@);
        text::lemma_blank_is_white(ranges[k].summary@);
    }
    if range_fault(ranges[i]) is Some {
        lemma_first_fault_at(ranges, i);
    }
}

/// The first part with which something is wrong is the one that counts.
proof fn lemma_first_fault_at(ranges: Seq<CompressRange>, i: int)
    requires
        0 <= i < ranges.len(),
        forall|k: int| 0 <= k < i ==> range_fault(#[trigger] ranges[k]) is None,
        range_fault(ranges[i]) is Some,
    ensures
        first_range_fault(ranges) == range_fault(ranges[i]),
    decreases i,
{
    if i > 0 {
        let rest = ranges.skip(1);
        assert forall|k: int| 0 <= k < i - 1 implies range_fault(#[trigger] rest[k]) is None by {
            assert(rest[k] == ranges[k + 1]);
        }
        assert(rest[i - 1] == ranges[i]);
        lemma_first_fault_at(rest, i - 1);
    }
}

/// A request without parts is refused for that.
pub proof fn law_empty_requests_are_refused(args: CompressArgs)
    requires
        args.content@.len() == 0,
    ensures
        request_fault(args) == Some("compress requires at least one content range"@),
{
}

/// The topic of a request is the one that it names, without white space around it, or `closed context`
/// where it names none; the receipt tells the topic and the number of parts.
pub proof fn law_receipt_tells_topic_and_parts(topic: Option<String>, ranges: int)
    ensures
        topic is None ==> topic_of(topic) == "closed context"@,
        topic matches Some(named) ==> topic_of(topic) == (if text::all_white(named@) {
            "closed context"@
        } else {
            text::trim_of(named@)
        }),
        text::starts_with(
            receipt_of(topic_of(topic), ranges),
            "Compression request recorded for topic `"@ + topic_of(topic) + "` with "@
                + number::decimal_of(ranges),
        ),
{
    if let Some(named) = topic {
        text::lemma_blank_is_white(named@);
    }
    let told = "Compression request recorded for topic `"@ + topic_of(topic) + "` with "@
        + number::decimal_of(ranges);
    assert(receipt_of(topic_of(topic), ranges).take(told.len() as int) =~= told);
}

} // verus!
