//! Server-Sent-Events decoding: split a body buffer into lines, strip the
//! `data:` prefix and the payload's leading whitespace, drop keep-alives
//! and the `[DONE]` terminator, and translate provider delta events into
//! generic stream chunks.

use crate::adapters::{spec_google_parts_text, GoogleContent};
use crate::text::{str_eq, str_starts_with, trim_ascii, trim_ascii_front, trim_chars, trim_front};
use crate::types::{spec_sat_add_u32, StreamChunk, TokenUsage};
use vstd::prelude::*;

verus! {

/// The payload of one SSE line: the line trimmed of ASCII whitespace with
/// its `data:` prefix stripped and the payload's own leading whitespace
/// removed; `None` for any other line.
pub open spec fn spec_parse_sse_line(s: Seq<char>) -> Option<Seq<char>> {
    let t = trim_chars(s);
    if t.len() >= 5 && t.subrange(0, 5) == "data:"@ {
        Some(trim_front(t.subrange(5, t.len() as int)))
    } else {
        None
    }
}

/// The lines of a buffer, split on line feeds; one element more than there
/// are line feeds, so a trailing partial line is always the last element.
pub open spec fn spec_split_lines(s: Seq<char>) -> Seq<Seq<char>>
    decreases s.len(),
{
    if s.len() == 0 {
        seq![Seq::<char>::empty()]
    } else if s[0] == '\n' {
        seq![Seq::<char>::empty()] + spec_split_lines(s.drop_first())
    } else {
        let rest = spec_split_lines(s.drop_first());
        rest.update(0, seq![s[0]] + rest[0])
    }
}

/// The event a line contributes: its payload, unless the line carries no
/// `data: ` prefix, an empty payload, or the `[DONE]` terminator.
pub open spec fn spec_line_event(l: Seq<char>) -> Option<Seq<char>> {
    match spec_parse_sse_line(l) {
        Some(d) => if d.len() > 0 && d != "[DONE]"@ {
            Some(d)
        } else {
            None
        },
        None => None,
    }
}

/// The events contributed by a sequence of lines, in order.
pub open spec fn spec_events_of_lines(lines: Seq<Seq<char>>) -> Seq<Seq<char>>
    decreases lines.len(),
{
    if lines.len() == 0 {
        Seq::empty()
    } else {
        match spec_line_event(lines[0]) {
            Some(d) => seq![d] + spec_events_of_lines(lines.drop_first()),
            None => spec_events_of_lines(lines.drop_first()),
        }
    }
}

/// The complete events of a buffer.
pub open spec fn spec_sse_events(s: Seq<char>) -> Seq<Seq<char>> {
    spec_events_of_lines(spec_split_lines(s))
}

proof fn lemma_split_lines_nonempty(s: Seq<char>)
    ensures
        spec_split_lines(s).len() >= 1,
    decreases s.len(),
{
    if s.len() > 0 {
        lemma_split_lines_nonempty(s.drop_first());
    }
}

proof fn lemma_split_lines_no_newline(s: Seq<char>)
    requires
        forall|j: int| 0 <= j < s.len() ==> s[j] != '\n',
    ensures
        spec_split_lines(s) == seq![s],
    decreases s.len(),
{
    if s.len() == 0 {
        assert(s =~= Seq::<char>::empty());
        assert(spec_split_lines(s) =~= seq![s]);
    } else {
        lemma_split_lines_no_newline(s.drop_first());
        let rest = spec_split_lines(s.drop_first());
        assert(rest == seq![s.drop_first()]);
        assert(seq![s[0]] + s.drop_first() =~= s);
        assert(rest.update(0, seq![s[0]] + rest[0]) =~= seq![s]);
    }
}

proof fn lemma_split_lines_step(s: Seq<char>, k: int)
    requires
        0 <= k < s.len(),
        s[k] == '\n',
        forall|j: int| 0 <= j < k ==> s[j] != '\n',
    ensures
        spec_split_lines(s) == seq![s.subrange(0, k)] + spec_split_lines(
            s.subrange(k + 1, s.len() as int),
        ),
    decreases k,
{
    if k == 0 {
        assert(s.subrange(0, 0) =~= Seq::<char>::empty());
        assert(s.drop_first() =~= s.subrange(1, s.len() as int));
        assert(seq![Seq::<char>::empty()] + spec_split_lines(s.drop_first()) =~= seq![
            s.subrange(0, 0)
        ] + spec_split_lines(s.subrange(1, s.len() as int)));
    } else {
        let d = s.drop_first();
        assert(d[k - 1] == '\n');
        assert(forall|j: int| 0 <= j < k - 1 ==> d[j] != '\n');
        lemma_split_lines_step(d, k - 1);
        lemma_split_lines_nonempty(d.subrange(k, d.len() as int));
        let tail = spec_split_lines(d.subrange(k, d.len() as int));
        assert(spec_split_lines(d) == seq![d.subrange(0, k - 1)] + tail);
        let rest = spec_split_lines(d);
        assert(rest[0] == d.subrange(0, k - 1));
        assert(seq![s[0]] + d.subrange(0, k - 1) =~= s.subrange(0, k));
        assert(d.subrange(k, d.len() as int) =~= s.subrange(k + 1, s.len() as int));
        assert(rest.update(0, seq![s[0]] + rest[0]) =~= seq![s.subrange(0, k)]
            + spec_split_lines(s.subrange(k + 1, s.len() as int)));
    }
}

proof fn lemma_events_singleton(l: Seq<char>)
    ensures
        spec_events_of_lines(seq![l]) == match spec_line_event(l) {
            Some(d) => seq![d],
            None => Seq::<Seq<char>>::empty(),
        },
{
    reveal_with_fuel(spec_events_of_lines, 3);
    assert(seq![l].drop_first() =~= Seq::<Seq<char>>::empty());
    assert(seq![l][0] == l);
    assert(spec_events_of_lines(Seq::<Seq<char>>::empty()) =~= Seq::<Seq<char>>::empty());
    match spec_line_event(l) {
        Some(d) => {
            assert(spec_events_of_lines(seq![l]) == seq![d] + spec_events_of_lines(
                seq![l].drop_first(),
            ));
            assert(seq![d] + spec_events_of_lines(seq![l].drop_first()) =~= seq![d]);
        },
        None => {
            assert(spec_events_of_lines(seq![l]) == spec_events_of_lines(seq![l].drop_first()));
        },
    }
}

proof fn lemma_events_concat(a: Seq<Seq<char>>, b: Seq<Seq<char>>)
    ensures
        spec_events_of_lines(a + b) == spec_events_of_lines(a) + spec_events_of_lines(b),
    decreases a.len(),
{
    if a.len() == 0 {
        assert(a + b =~= b);
        assert(spec_events_of_lines(a) + spec_events_of_lines(b) =~= spec_events_of_lines(b));
    } else {
        assert((a + b).drop_first() =~= a.drop_first() + b);
        assert((a + b)[0] == a[0]);
        lemma_events_concat(a.drop_first(), b);
        match spec_line_event(a[0]) {
            Some(d) => {
                assert(seq![d] + (spec_events_of_lines(a.drop_first()) + spec_events_of_lines(b))
                    =~= (seq![d] + spec_events_of_lines(a.drop_first())) + spec_events_of_lines(
                    b,
                ));
            },
            None => {},
        }
    }
}

/// Strip one SSE line down to its payload: trim ASCII whitespace, remove
/// the `data:` prefix, then drop the payload's leading whitespace; any
/// other line yields nothing.
pub fn parse_sse_line(line: &str) -> (r: Option<&str>)
    ensures
        match r {
            Some(d) => spec_parse_sse_line(line@) == Some(d@),
            None => spec_parse_sse_line(line@) is None,
        },
{
    proof {
        reveal_strlit("data:");
    }
    let trimmed = trim_ascii(line);
    if str_starts_with(trimmed, "data:") {
        let n = trimmed.unicode_len();
        Some(trim_ascii_front(trimmed.substring_char(5, n)))
    } else {
        None
    }
}

/// Split a buffer into SSE events and the trailing partial line: every
/// complete or partial line contributes its payload — empty payloads and
/// the `[DONE]` terminator dropped — and whatever follows the last line
/// feed comes back for the next read.
pub fn parse_sse_buffer(buffer: &str) -> (r: (Vec<String>, String))
    ensures
        r.0.deep_view() == spec_sse_events(buffer@),
        r.1@ == spec_split_lines(buffer@).last(),
{
    let n = buffer.unicode_len();
    let mut events: Vec<String> = Vec::new();
    let mut start: usize = 0;
    let mut i: usize = 0;
    let ghost mut done: Seq<Seq<char>> = Seq::empty();
    proof {
        assert(buffer@.skip(0) =~= buffer@);
        assert(done + spec_split_lines(buffer@.skip(0)) =~= spec_split_lines(buffer@));
        assert(events.deep_view() =~~= spec_events_of_lines(done));
    }
    while i < n
        invariant
            n == buffer@.len(),
            start <= i <= n,
            forall|j: int| start <= j < i ==> buffer@[j] != '\n',
            spec_split_lines(buffer@) == done + spec_split_lines(buffer@.skip(start as int)),
            events.deep_view() == spec_events_of_lines(done),
        decreases n - i,
    {
        if buffer.get_char(i) == '\n' {
            let line = buffer.substring_char(start, i);
            proof {
                let suffix = buffer@.skip(start as int);
                assert(suffix[i - start] == '\n');
                assert(forall|j: int| 0 <= j < i - start ==> suffix[j] != '\n');
                lemma_split_lines_step(suffix, i - start);
                assert(suffix.subrange(0, i - start) =~= line@);
                assert(suffix.subrange(i - start + 1, suffix.len() as int) =~= buffer@.skip(
                    i + 1,
                ));
                lemma_events_concat(done, seq![line@]);
                assert(seq![line@].drop_first() =~= Seq::<Seq<char>>::empty());
                assert((done + seq![line@]) + spec_split_lines(buffer@.skip(i + 1))
                    =~= done + (seq![line@] + spec_split_lines(buffer@.skip(i + 1))));
            }
            push_line_event(&mut events, line);
            proof {
                lemma_events_singleton(line@);
                done = done + seq![line@];
            }
            start = i + 1;
        }
        i = i + 1;
    }
    let last = buffer.substring_char(start, n);
    proof {
        let suffix = buffer@.skip(start as int);
        assert(suffix =~= last@);
        lemma_split_lines_no_newline(suffix);
        lemma_events_concat(done, seq![last@]);
        assert(seq![last@].drop_first() =~= Seq::<Seq<char>>::empty());
        lemma_split_lines_nonempty(suffix);
        lemma_events_singleton(last@);
        assert((done + seq![last@]).last() == last@);
    }
    push_line_event(&mut events, last);
    let remaining = last.to_owned();
    (events, remaining)
}

/// Append the event one line contributes, if any.
fn push_line_event(events: &mut Vec<String>, line: &str)
    ensures
        final(events).deep_view() == old(events).deep_view() + match spec_line_event(line@) {
            Some(d) => seq![d],
            None => Seq::<Seq<char>>::empty(),
        },
{
    proof {
        reveal_strlit("[DONE]");
    }
    let mut pushed = false;
    if let Some(data) = parse_sse_line(line) {
        if !data.is_empty() && !str_eq(data, "[DONE]") {
            events.push(data.to_owned());
            pushed = true;
            proof {
                assert(events.deep_view() =~~= old(events).deep_view() + seq![data@]);
            }
        }
    }
    if !pushed {
        proof {
            assert(events.deep_view() =~~= old(events).deep_view()
                + Seq::<Seq<char>>::empty());
        }
    }
}

/// One parsed delta event of the OpenAI-compatible stream protocol.
#[derive(Debug, Clone)]
pub struct OpenAIStreamChunk {
    pub id: Option<String>,
    pub object: Option<String>,
    pub created: Option<u64>,
    pub model: Option<String>,
    pub choices: Vec<OpenAIStreamChoice>,
    pub usage: Option<OpenAIStreamUsage>,
}

/// One choice of an OpenAI-compatible delta event.
#[derive(Debug, Clone)]
pub struct OpenAIStreamChoice {
    pub index: u32,
    pub delta: OpenAIStreamDelta,
    pub finish_reason: Option<String>,
}

/// The delta body of an OpenAI-compatible choice.
#[derive(Debug, Clone)]
pub struct OpenAIStreamDelta {
    pub role: Option<String>,
    pub content: Option<String>,
}

/// Usage counters of an OpenAI-compatible stream.
#[derive(Debug, Clone, Copy, PartialEq, Eq, Structural)]
pub struct OpenAIStreamUsage {
    pub prompt_tokens: u32,
    pub completion_tokens: u32,
    pub total_tokens: u32,
}

impl OpenAIStreamChunk {
    /// Reduce this event to a generic chunk: nothing for a choiceless
    /// keep-alive; otherwise the first choice's content — empty when the
    /// delta carries none — the model if echoed, the finish flag, and the
    /// usage counters if present.
    pub fn to_stream_chunk(&self) -> (r: Option<StreamChunk>)
        ensures
            match r {
                None => self.choices@.len() == 0,
                Some(c) => {
                    &&& self.choices@.len() > 0
                    &&& c.content@ == match self.choices@[0].delta.content {
                        Some(s) => s@,
                        None => Seq::<char>::empty(),
                    }
                    &&& match (c.model, self.model) {
                        (Some(a), Some(b)) => a@ == b@,
                        (None, None) => true,
                        _ => false,
                    }
                    &&& c.is_final == (self.choices@[0].finish_reason is Some)
                    &&& match (c.usage, self.usage) {
                        (Some(a), Some(b)) => a.prompt_tokens == b.prompt_tokens
                            && a.completion_tokens == b.completion_tokens && a.total_tokens
                            == b.total_tokens,
                        (None, None) => true,
                        _ => false,
                    }
                },
            },
    {
        if self.choices.len() == 0 {
            return None;
        }
        let choice = &self.choices[0];
        let content = match &choice.delta.content {
            Some(s) => s.clone(),
            None => String::new(),
        };
        let is_final = choice.finish_reason.is_some();
        let usage = match &self.usage {
            Some(u) => Some(
                TokenUsage {
                    prompt_tokens: u.prompt_tokens,
                    completion_tokens: u.completion_tokens,
                    total_tokens: u.total_tokens,
                },
            ),
            None => None,
        };
        let model = match &self.model {
            Some(m) => Some(m.clone()),
            None => None,
        };
        Some(StreamChunk { content, model, is_final, usage })
    }
}

/// One event of the Anthropic stream protocol, discriminated by its type
/// tag.
#[derive(Debug, Clone)]
pub enum AnthropicStreamEvent {
    MessageStart { message: AnthropicMessage },
    ContentBlockStart { index: u32, content_block: AnthropicContentBlock },
    ContentBlockDelta { index: u32, delta: AnthropicDelta },
    ContentBlockStop { index: u32 },
    MessageDelta { delta: AnthropicMessageDelta, usage: Option<AnthropicUsage> },
    MessageStop,
    Ping,
    Error { error: AnthropicError },
}

/// The message header of a stream's opening event.
#[derive(Debug, Clone)]
pub struct AnthropicMessage {
    pub id: String,
    pub model: String,
    pub usage: Option<AnthropicUsage>,
}

/// One content block announcement.
#[derive(Debug, Clone)]
pub struct AnthropicContentBlock {
    pub block_type: String,
    pub text: Option<String>,
}

/// One content delta.
#[derive(Debug, Clone)]
pub struct AnthropicDelta {
    pub delta_type: String,
    pub text: Option<String>,
}

/// The closing delta, carrying the stop reason.
#[derive(Debug, Clone)]
pub struct AnthropicMessageDelta {
    pub stop_reason: Option<String>,
}

/// Token counters as the Anthropic protocol reports them.
#[derive(Debug, Clone, Copy, PartialEq, Eq, Structural)]
pub struct AnthropicUsage {
    pub input_tokens: Option<u32>,
    pub output_tokens: Option<u32>,
}

/// An error event's body.
#[derive(Debug, Clone)]
pub struct AnthropicError {
    pub error_type: String,
    pub message: String,
}

/// The unsigned value of an optional counter, zero when absent.
pub open spec fn spec_or_zero(v: Option<u32>) -> u32 {
    match v {
        Some(x) => x,
        None => 0,
    }
}

impl AnthropicStreamEvent {
    /// Reduce this event to a generic chunk: a content delta becomes a text
    /// chunk; a closing delta with a stop reason becomes the final chunk,
    /// its usage summed from the input and output counters; the opening
    /// event announces the model; everything else is skipped.
    pub fn to_stream_chunk(&self) -> (r: Option<StreamChunk>)
        ensures
            match self {
                AnthropicStreamEvent::ContentBlockDelta { delta, .. } => match (
                    r,
                    delta.text,
                ) {
                    (Some(c), Some(t)) => c.content@ == t@ && c.model is None && !c.is_final
                        && c.usage is None,
                    (None, None) => true,
                    _ => false,
                },
                AnthropicStreamEvent::MessageDelta { delta, usage } => {
                    if delta.stop_reason is Some {
                        match r {
                            Some(c) => {
                                &&& c.content@ == Seq::<char>::empty()
                                &&& c.model is None
                                &&& c.is_final
                                &&& match (c.usage, usage) {
                                    (Some(a), Some(b)) => a.prompt_tokens == spec_or_zero(
                                        b.input_tokens,
                                    ) && a.completion_tokens == spec_or_zero(b.output_tokens)
                                        && a.total_tokens == spec_sat_add_u32(
                                        spec_or_zero(b.input_tokens),
                                        spec_or_zero(b.output_tokens),
                                    ),
                                    (None, None) => true,
                                    _ => false,
                                }
                            },
                            None => false,
                        }
                    } else {
                        r is None
                    }
                },
                AnthropicStreamEvent::MessageStart { message } => match r {
                    Some(c) => c.content@ == Seq::<char>::empty() && (c.model matches Some(m)
                        && m@ == message.model@) && !c.is_final && c.usage is None,
                    None => false,
                },
                _ => r is None,
            },
    {
        match self {
            AnthropicStreamEvent::ContentBlockDelta { delta, .. } => {
                match &delta.text {
                    Some(text) => Some(StreamChunk::content(text.as_str())),
                    None => None,
                }
            },
            AnthropicStreamEvent::MessageDelta { delta, usage } => {
                if delta.stop_reason.is_some() {
                    let token_usage = match usage {
                        Some(u) => {
                            let input = match u.input_tokens {
                                Some(x) => x,
                                None => 0,
                            };
                            let output = match u.output_tokens {
                                Some(x) => x,
                                None => 0,
                            };
                            Some(
                                TokenUsage {
                                    prompt_tokens: input,
                                    completion_tokens: output,
                                    total_tokens: input.saturating_add(output),
                                },
                            )
                        },
                        None => None,
                    };
                    Some(
                        StreamChunk {
                            content: String::new(),
                            model: None,
                            is_final: true,
                            usage: token_usage,
                        },
                    )
                } else {
                    None
                }
            },
            AnthropicStreamEvent::MessageStart { message } => {
                Some(
                    StreamChunk {
                        content: String::new(),
                        model: Some(message.model.clone()),
                        is_final: false,
                        usage: None,
                    },
                )
            },
            _ => None,
        }
    }
}


/// The two counters a Cohere usage block carries, either of which may be
/// absent.
#[derive(Debug, Clone, Copy, PartialEq, Eq, Structural)]
pub struct CohereTokenCounts {
    pub input_tokens: Option<u32>,
    pub output_tokens: Option<u32>,
}

/// The usage of a finished Cohere stream: token counts, with billed units
/// as the fallback reading.
#[derive(Debug, Clone, Copy, PartialEq, Eq, Structural)]
pub struct CohereStreamUsage {
    pub tokens: Option<CohereTokenCounts>,
    pub billed_units: Option<CohereTokenCounts>,
}

/// One event of the Cohere v2 stream protocol, reduced to what the decoder
/// reads.
#[derive(Debug, Clone)]
pub enum CohereStreamEvent {
    ContentDelta { text: Option<String> },
    MessageEnd { usage: Option<CohereStreamUsage> },
    Other,
}

/// The generic usage a Cohere usage block reduces to: the token counts
/// where present, otherwise the billed units, absent counters reading as
/// zero and the total saturating.
pub open spec fn spec_cohere_usage(u: Option<CohereStreamUsage>) -> Option<TokenUsage> {
    match u {
        None => None,
        Some(cu) => {
            let counts = match cu.tokens {
                Some(tc) => Some(tc),
                None => cu.billed_units,
            };
            match counts {
                Some(tc) => {
                    let input = spec_or_zero(tc.input_tokens);
                    let output = spec_or_zero(tc.output_tokens);
                    Some(
                        TokenUsage {
                            prompt_tokens: input,
                            completion_tokens: output,
                            total_tokens: spec_sat_add_u32(input, output),
                        },
                    )
                },
                None => None,
            }
        },
    }
}

/// Reduce a Cohere usage block to the generic counters.
pub fn cohere_usage(usage: &Option<CohereStreamUsage>) -> (r: Option<TokenUsage>)
    ensures
        r == spec_cohere_usage(*usage),
{
    let counts = match usage {
        None => {
            return None;
        },
        Some(cu) => {
            match cu.tokens {
                Some(tc) => tc,
                None => {
                    match cu.billed_units {
                        Some(bc) => bc,
                        None => {
                            return None;
                        },
                    }
                },
            }
        },
    };
    let input = match counts.input_tokens {
        Some(x) => x,
        None => 0,
    };
    let output = match counts.output_tokens {
        Some(x) => x,
        None => 0,
    };
    Some(
        TokenUsage {
            prompt_tokens: input,
            completion_tokens: output,
            total_tokens: input.saturating_add(output),
        },
    )
}

impl CohereStreamEvent {
    /// Reduce this event to a generic chunk: a content delta with text
    /// becomes a non-final text chunk; a message-end becomes the final
    /// chunk, its usage read from the token counts with billed units as
    /// fallback; anything else is skipped.
    pub fn to_stream_chunk(&self) -> (r: Option<StreamChunk>)
        ensures
            match self {
                CohereStreamEvent::ContentDelta { text } => match (r, text) {
                    (Some(c), Some(t)) => c.content@ == t@ && c.model is None && !c.is_final
                        && c.usage is None,
                    (None, None) => true,
                    _ => false,
                },
                CohereStreamEvent::MessageEnd { usage } => match r {
                    Some(c) => {
                        &&& c.content@ == Seq::<char>::empty()
                        &&& c.model is None
                        &&& c.is_final
                        &&& c.usage == spec_cohere_usage(*usage)
                    },
                    None => false,
                },
                CohereStreamEvent::Other => r is None,
            },
    {
        match self {
            CohereStreamEvent::ContentDelta { text } => {
                match text {
                    Some(t) => Some(StreamChunk::content(t.as_str())),
                    None => None,
                }
            },
            CohereStreamEvent::MessageEnd { usage } => {
                Some(
                    StreamChunk {
                        content: String::new(),
                        model: None,
                        is_final: true,
                        usage: cohere_usage(usage),
                    },
                )
            },
            CohereStreamEvent::Other => None,
        }
    }
}

/// One candidate of a Google stream event.
#[derive(Debug, Clone)]
pub struct GoogleStreamCandidate {
    pub content: Option<GoogleContent>,
    pub finish_reason: Option<String>,
}

/// One event of the Google stream protocol.
#[derive(Debug, Clone)]
pub struct GoogleStreamEvent {
    pub candidates: Vec<GoogleStreamCandidate>,
}

impl GoogleStreamEvent {
    /// Reduce this event to a generic chunk: the first candidate's part
    /// texts join into the content and its finish reason sets the final
    /// flag; an event without a candidate, or whose first candidate carries
    /// no content, is skipped.
    pub fn to_stream_chunk(&self) -> (r: Option<StreamChunk>)
        ensures
            match r {
                Some(c) => {
                    &&& self.candidates@.len() > 0
                    &&& self.candidates@[0].content matches Some(content) && c.content@
                        == spec_google_parts_text(content.parts@)
                    &&& c.is_final == (self.candidates@[0].finish_reason is Some)
                    &&& c.model is None
                    &&& c.usage is None
                },
                None => self.candidates@.len() == 0 || self.candidates@[0].content is None,
            },
    {
        if self.candidates.len() == 0 {
            return None;
        }
        let candidate = &self.candidates[0];
        match &candidate.content {
            Some(content) => {
                let text = crate::adapters::google_parts_text(&content.parts);
                Some(
                    StreamChunk {
                        content: text,
                        model: None,
                        is_final: candidate.finish_reason.is_some(),
                        usage: None,
                    },
                )
            },
            None => None,
        }
    }
}

} // verus!
