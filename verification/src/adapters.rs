//! The computable side of the provider adapters: upstream failure
//! classification with the rate-limit distinction, and the message-shaping
//! rules of the provider families whose chat format differs from the
//! OpenAI-compatible one. The HTTP calls themselves live with the hosting
//! process.

use crate::errors::LlmError;
use crate::text::{contains_ignore_case, str_contains_ignore_case};
use crate::types::{LlmResponse, Message, TokenUsage};
use vstd::prelude::*;

verus! {

/// An upstream body signals throttling: any of the known keywords occurs,
/// compared without regard to ASCII case.
pub open spec fn spec_is_rate_limit_text(body: Seq<char>) -> bool {
    ||| contains_ignore_case(body, "rate limit"@)
    ||| contains_ignore_case(body, "too many requests"@)
    ||| contains_ignore_case(body, "quota exceeded"@)
    ||| contains_ignore_case(body, "overloaded"@)
    ||| contains_ignore_case(body, "throttle"@)
}

/// Classify a non-2xx upstream response: status 429 or a throttling keyword
/// in the body is a rate limit, anything else an API error; either way the
/// body is carried as the message.
pub fn classify_http_failure(status: u16, body: &str) -> (r: LlmError)
    ensures
        r is RateLimit <==> (status == 429 || spec_is_rate_limit_text(body@)),
        r is RateLimit || r is ApiError,
        r matches LlmError::RateLimit(m) ==> m@ == body@,
        r matches LlmError::ApiError(m) ==> m@ == body@,
{
    if status == 429 || str_contains_ignore_case(body, "rate limit") || str_contains_ignore_case(
        body,
        "too many requests",
    ) || str_contains_ignore_case(body, "quota exceeded") || str_contains_ignore_case(
        body,
        "overloaded",
    ) || str_contains_ignore_case(body, "throttle") {
        LlmError::RateLimit(body.to_owned())
    } else {
        LlmError::ApiError(body.to_owned())
    }
}

/// One message in the Anthropic chat shape: the system prompt travels
/// outside the message list.
#[derive(Debug, Clone)]
pub struct AnthropicChatMessage {
    pub role: String,
    pub content: String,
}

/// The `(role, content)` views of a prepared message list.
pub open spec fn spec_chat_views(s: Seq<AnthropicChatMessage>) -> Seq<(Seq<char>, Seq<char>)> {
    s.map_values(|m: AnthropicChatMessage| (m.role@, m.content@))
}

/// The `(role, content)` views of the non-system messages, in order.
pub open spec fn spec_non_system_views(msgs: Seq<Message>) -> Seq<(Seq<char>, Seq<char>)>
    decreases msgs.len(),
{
    if msgs.len() == 0 {
        Seq::empty()
    } else if msgs.last().role@ == "system"@ {
        spec_non_system_views(msgs.drop_last())
    } else {
        spec_non_system_views(msgs.drop_last()).push((msgs.last().role@, msgs.last().content@))
    }
}

/// The content of the last system message, if any.
pub open spec fn spec_last_system(msgs: Seq<Message>) -> Option<Seq<char>>
    decreases msgs.len(),
{
    if msgs.len() == 0 {
        None
    } else if msgs.last().role@ == "system"@ {
        Some(msgs.last().content@)
    } else {
        spec_last_system(msgs.drop_last())
    }
}

/// Prepare a message list for the Anthropic shape: the non-system messages
/// pass through in order, the last system message is lifted out; if only
/// system content remains, it is folded into a synthetic user message; an
/// empty message list is refused.
pub fn prepare_anthropic_messages(messages: &Vec<Message>) -> (r: Result<
    (Option<String>, Vec<AnthropicChatMessage>),
    LlmError,
>)
    ensures
        match r {
            Ok((system, regular)) => {
                &&& regular@.len() > 0
                &&& if spec_non_system_views(messages@).len() > 0 {
                    &&& spec_chat_views(regular@) == spec_non_system_views(messages@)
                    &&& match (system, spec_last_system(messages@)) {
                        (Some(s), Some(t)) => s@ == t,
                        (None, None) => true,
                        _ => false,
                    }
                } else {
                    &&& spec_last_system(messages@) matches Some(sys) && regular@.len() == 1
                        && regular@[0].role@ == "user"@ && regular@[0].content@
                        == "Using this context: "@ + sys
                    &&& system is None
                }
            },
            Err(e) => e is ApiError && messages@.len() == 0,
        },
{
    proof {
        reveal_strlit("system");
        reveal_strlit("user");
    }
    let n = messages.len();
    let mut system_content: Option<String> = None;
    let mut regular: Vec<AnthropicChatMessage> = Vec::new();
    let mut i: usize = 0;
    while i < n
        invariant
            n == messages@.len(),
            i <= n,
            spec_chat_views(regular@) == spec_non_system_views(messages@.take(i as int)),
            match system_content {
                Some(s) => spec_last_system(messages@.take(i as int)) == Some(s@),
                None => spec_last_system(messages@.take(i as int)) is None,
            },
            forall|k: int| 0 <= k < regular@.len() ==> (#[trigger] regular@[k]).role@ != "system"@,
        decreases n - i,
    {
        let msg = &messages[i];
        proof {
            assert(messages@.take(i as int + 1).drop_last() =~= messages@.take(i as int));
            assert(messages@.take(i as int + 1).last() == messages@[i as int]);
        }
        if crate::text::str_eq(msg.role.as_str(), "system") {
            system_content = Some(msg.content.clone());
        } else {
            let ghost regular0 = regular@;
            regular.push(
                AnthropicChatMessage { role: msg.role.clone(), content: msg.content.clone() },
            );
            proof {
                assert(spec_chat_views(regular@) =~= spec_chat_views(regular0).push(
                    (messages@[i as int].role@, messages@[i as int].content@),
                ));
            }
        }
        i = i + 1;
    }
    proof {
        assert(messages@.take(n as int) =~= messages@);
    }
    if regular.len() == 0 {
        match system_content {
            Some(sys) => {
                let content = String::from_str("Using this context: ").concat(sys.as_str());
                regular.push(AnthropicChatMessage { role: String::from_str("user"), content });
                proof {
                    assert(regular@[0].role@ == "user"@);
                    assert("user"@ != "system"@);
                }
                return Ok((None, regular));
            },
            None => {
                proof {
                    lemma_empty_when_nothing_found(messages@);
                }
                return Err(
                    LlmError::ApiError(
                        String::from_str("Anthropic requires at least one message"),
                    ),
                );
            },
        }
    }
    Ok((system_content, regular))
}

proof fn lemma_empty_when_nothing_found(msgs: Seq<Message>)
    requires
        spec_non_system_views(msgs).len() == 0,
        spec_last_system(msgs) is None,
    ensures
        msgs.len() == 0,
    decreases msgs.len(),
{
    if msgs.len() > 0 {
        if msgs.last().role@ == "system"@ {
        } else {
            assert(spec_non_system_views(msgs).len() > 0);
        }
    }
}

/// The Google role a message's role maps to: `assistant` becomes `model`,
/// `user` and `model` pass through, anything else does not map.
pub open spec fn spec_google_role(role: Seq<char>) -> Option<Seq<char>> {
    if role == "user"@ {
        Some("user"@)
    } else if role == "model"@ {
        Some("model"@)
    } else if role == "assistant"@ {
        Some("model"@)
    } else {
        None
    }
}

/// The `(role, content)` views of the turns that map to the Google shape,
/// in order, before any system folding.
pub open spec fn spec_google_turns(msgs: Seq<Message>) -> Seq<(Seq<char>, Seq<char>)>
    decreases msgs.len(),
{
    if msgs.len() == 0 {
        Seq::empty()
    } else {
        match spec_google_role(msgs.last().role@) {
            Some(r) => spec_google_turns(msgs.drop_last()).push((r, msgs.last().content@)),
            None => spec_google_turns(msgs.drop_last()),
        }
    }
}

/// How many system messages the list carries.
pub open spec fn spec_system_count(msgs: Seq<Message>) -> int
    decreases msgs.len(),
{
    if msgs.len() == 0 {
        0
    } else {
        spec_system_count(msgs.drop_last()) + if msgs.last().role@ == "system"@ {
            1int
        } else {
            0int
        }
    }
}

proof fn lemma_system_count_mono(msgs: Seq<Message>, i: int)
    requires
        0 <= i <= msgs.len(),
    ensures
        spec_system_count(msgs.take(i)) <= spec_system_count(msgs),
        spec_system_count(msgs) >= 0,
    decreases msgs.len(),
{
    if msgs.len() > 0 {
        if i == msgs.len() {
            assert(msgs.take(i) =~= msgs);
            lemma_system_count_mono(msgs.drop_last(), msgs.len() - 1);
        } else {
            assert(msgs.drop_last().take(i) =~= msgs.take(i));
            lemma_system_count_mono(msgs.drop_last(), i);
        }
    }
}

/// One content turn in the Google chat shape.
#[derive(Debug, Clone)]
pub struct GoogleContent {
    pub role: String,
    pub parts: Vec<GooglePart>,
}

/// One text part of a Google content turn.
#[derive(Debug, Clone)]
pub struct GooglePart {
    pub text: String,
}

/// Map a message list to the Google chat shape: the `assistant` role
/// becomes `model`; a single system message is folded into the first user
/// turn; unknown roles are skipped. The call succeeds exactly when at most
/// one system message is present, some turn maps, and the first mapped turn
/// is a user turn; a second system message, a system message without any
/// user turn, or a leading model turn is refused.
pub fn map_messages_to_google_contents(messages: &Vec<Message>) -> (r: Result<
    Vec<GoogleContent>,
    LlmError,
>)
    ensures
        r is Ok <==> spec_system_count(messages@) <= 1 && spec_google_turns(messages@).len() > 0
            && spec_google_turns(messages@)[0].0 == "user"@,
        match r {
            Ok(contents) => {
                &&& contents@.len() == spec_google_turns(messages@).len()
                &&& contents@[0].role@ == "user"@
                &&& forall|i: int|
                    0 <= i < contents@.len() ==> (#[trigger] contents@[i]).role@
                        == spec_google_turns(messages@)[i].0
                &&& forall|i: int|
                    0 <= i < contents@.len() ==> (#[trigger] contents@[i]).parts@.len() == 1
                &&& forall|i: int|
                    1 <= i < contents@.len() ==> (#[trigger] contents@[i]).parts@[0].text@
                        == spec_google_turns(messages@)[i].1
                &&& contents@[0].parts@[0].text@ == match spec_last_system(messages@) {
                    Some(sys) => sys + "\n\n"@ + spec_google_turns(messages@)[0].1,
                    None => spec_google_turns(messages@)[0].1,
                }
            },
            Err(e) => e is ApiError,
        },
{
    proof {
        reveal_strlit("system");
        reveal_strlit("user");
        reveal_strlit("model");
        reveal_strlit("assistant");
    }
    let n = messages.len();
    let mut contents: Vec<GoogleContent> = Vec::new();
    let mut system_prompt: Option<String> = None;
    let mut first_user_index: Option<usize> = None;
    let mut i: usize = 0;
    while i < n
        invariant
            n == messages@.len(),
            i <= n,
            contents@.len() == spec_google_turns(messages@.take(i as int)).len(),
            forall|k: int|
                0 <= k < contents@.len() ==> (#[trigger] contents@[k]).role@
                    == spec_google_turns(messages@.take(i as int))[k].0,
            forall|k: int|
                0 <= k < contents@.len() ==> (#[trigger] contents@[k]).role@ == "user"@
                    || contents@[k].role@ == "model"@,
            forall|k: int|
                0 <= k < contents@.len() ==> (#[trigger] contents@[k]).parts@.len() == 1,
            forall|k: int|
                0 <= k < contents@.len() ==> (#[trigger] contents@[k]).parts@[0].text@
                    == spec_google_turns(messages@.take(i as int))[k].1,
            match system_prompt {
                Some(s) => spec_system_count(messages@.take(i as int)) == 1 && spec_last_system(
                    messages@.take(i as int),
                ) == Some(s@),
                None => spec_system_count(messages@.take(i as int)) == 0 && spec_last_system(
                    messages@.take(i as int),
                ) is None,
            },
            match first_user_index {
                Some(f) => f < contents@.len() && contents@[f as int].role@ == "user"@
                    && forall|k: int|
                    0 <= k < f ==> (#[trigger] contents@[k]).role@ != "user"@,
                None => forall|k: int|
                    0 <= k < contents@.len() ==> (#[trigger] contents@[k]).role@ != "user"@,
            },
        decreases n - i,
    {
        let msg = &messages[i];
        proof {
            reveal_strlit("system");
            reveal_strlit("user");
            reveal_strlit("model");
            reveal_strlit("assistant");
            assert(messages@.take(i as int + 1).drop_last() =~= messages@.take(i as int));
            assert(messages@.take(i as int + 1).last() == messages@[i as int]);
        }
        if crate::text::str_eq(msg.role.as_str(), "system") {
            if system_prompt.is_some() {
                proof {
                    lemma_system_count_mono(messages@, i as int + 1);
                }
                return Err(
                    LlmError::ApiError(
                        String::from_str(
                            "Multiple system messages are not supported by the Google mapping",
                        ),
                    ),
                );
            }
            proof {
                reveal_strlit("system");
                reveal_strlit("user");
                reveal_strlit("model");
                reveal_strlit("assistant");
                assert("system"@.len() == 6 && "user"@.len() == 4 && "model"@.len() == 5
                    && "assistant"@.len() == 9);
                assert(spec_google_role(messages@[i as int].role@) is None);
                assert(spec_google_turns(messages@.take(i as int + 1)) == spec_google_turns(
                    messages@.take(i as int),
                ));
            }
            system_prompt = Some(msg.content.clone());
        } else if crate::text::str_eq(msg.role.as_str(), "user") || crate::text::str_eq(
            msg.role.as_str(),
            "model",
        ) || crate::text::str_eq(msg.role.as_str(), "assistant") {
            let role = if crate::text::str_eq(msg.role.as_str(), "assistant") {
                String::from_str("model")
            } else {
                msg.role.clone()
            };
            let is_user = crate::text::str_eq(role.as_str(), "user");
            if is_user && first_user_index.is_none() {
                first_user_index = Some(contents.len());
            }
            let mut parts: Vec<GooglePart> = Vec::new();
            parts.push(GooglePart { text: msg.content.clone() });
            proof {
                assert(spec_google_role(messages@[i as int].role@) == Some(role@));
                assert(spec_google_turns(messages@.take(i as int + 1)) == spec_google_turns(
                    messages@.take(i as int),
                ).push((role@, messages@[i as int].content@)));
            }
            contents.push(GoogleContent { role, parts });
        } else {
            proof {
                assert(spec_google_role(messages@[i as int].role@) is None);
                assert(spec_google_turns(messages@.take(i as int + 1)) == spec_google_turns(
                    messages@.take(i as int),
                ));
            }
        }
        i = i + 1;
    }
    proof {
        assert(messages@.take(n as int) =~= messages@);
    }
    match &system_prompt {
        Some(sys) => {
            match first_user_index {
                Some(user_idx) => {
                    let turn = &mut contents[user_idx];
                    prepend_system_text(turn, sys.as_str());
                },
                None => {
                    proof {
                        let turns = spec_google_turns(messages@);
                        if turns.len() > 0 {
                            assert(contents@[0].role@ != "user"@);
                            assert(turns[0].0 != "user"@);
                        }
                    }
                    return Err(
                        LlmError::ApiError(
                            String::from_str(
                                "System message provided but no user message found",
                            ),
                        ),
                    );
                },
            }
        },
        None => {},
    }
    if contents.len() == 0 {
        return Err(
            LlmError::ApiError(String::from_str("No valid messages found for the Google shape")),
        );
    }
    if !crate::text::str_eq(contents[0].role.as_str(), "user") {
        return Err(
            LlmError::ApiError(
                String::from_str("Google chat must start with a message in the user role"),
            ),
        );
    }
    Ok(contents)
}

/// Join the system prompt onto a turn's single text part, two line feeds
/// between.
fn prepend_system_text(turn: &mut GoogleContent, sys: &str)
    requires
        old(turn).parts@.len() == 1,
    ensures
        final(turn).role == old(turn).role,
        final(turn).parts@.len() == 1,
        final(turn).parts@[0].text@ == sys@ + "\n\n"@ + old(turn).parts@[0].text@,
{
    let old_text = turn.parts[0].text.clone();
    let joined = String::from_str(sys).concat("\n\n").concat(old_text.as_str());
    let part = &mut turn.parts[0];
    part.text = joined;
}

/// One message in the Cohere v2 chat shape.
#[derive(Debug, Clone)]
pub struct CohereMessage {
    pub role: String,
    pub content: String,
}

/// One content block of a Cohere v2 response.
#[derive(Debug, Clone)]
pub struct CohereContentBlock {
    pub content_type: String,
    pub text: Option<String>,
}

/// Convert the generic message list to the Cohere shape, one for one.
pub fn convert_messages_to_cohere(messages: &Vec<Message>) -> (r: Vec<CohereMessage>)
    ensures
        r@.len() == messages@.len(),
        forall|i: int|
            0 <= i < messages@.len() ==> (#[trigger] r@[i]).role@ == messages@[i].role@ && r@[
            i].content@ == messages@[i].content@,
{
    let n = messages.len();
    let mut out: Vec<CohereMessage> = Vec::new();
    let mut i: usize = 0;
    while i < n
        invariant
            n == messages@.len(),
            i <= n,
            out@.len() == i,
            forall|k: int|
                0 <= k < i ==> (#[trigger] out@[k]).role@ == messages@[k].role@ && out@[
                k].content@ == messages@[k].content@,
        decreases n - i,
    {
        out.push(
            CohereMessage {
                role: messages[i].role.clone(),
                content: messages[i].content.clone(),
            },
        );
        i = i + 1;
    }
    out
}

/// The concatenated text of a Cohere response: every `text`-typed block's
/// content, in order.
pub open spec fn spec_cohere_text(blocks: Seq<CohereContentBlock>) -> Seq<char>
    decreases blocks.len(),
{
    if blocks.len() == 0 {
        Seq::empty()
    } else {
        spec_cohere_text(blocks.drop_last()) + (if blocks.last().content_type@ == "text"@ {
            match blocks.last().text {
                Some(t) => t@,
                None => Seq::empty(),
            }
        } else {
            Seq::empty()
        })
    }
}

/// Extract the text of a Cohere response from its content blocks.
pub fn extract_cohere_content(content_blocks: &Vec<CohereContentBlock>) -> (r: String)
    ensures
        r@ == spec_cohere_text(content_blocks@),
{
    let n = content_blocks.len();
    let mut out = String::new();
    let mut i: usize = 0;
    while i < n
        invariant
            n == content_blocks@.len(),
            i <= n,
            out@ == spec_cohere_text(content_blocks@.take(i as int)),
        decreases n - i,
    {
        proof {
            assert(content_blocks@.take(i as int + 1).drop_last() =~= content_blocks@.take(
                i as int,
            ));
        }
        let block = &content_blocks[i];
        if crate::text::str_eq(block.content_type.as_str(), "text") {
            match &block.text {
                Some(t) => {
                    out.append(t.as_str());
                },
                None => {
                    proof {
                        assert(out@ + Seq::<char>::empty() =~= out@);
                    }
                },
            }
        } else {
            proof {
                assert(out@ + Seq::<char>::empty() =~= out@);
            }
        }
        i = i + 1;
    }
    proof {
        assert(content_blocks@.take(n as int) =~= content_blocks@);
    }
    out
}


/// The concatenated text of a Google turn's parts, in order.
pub open spec fn spec_google_parts_text(parts: Seq<GooglePart>) -> Seq<char>
    decreases parts.len(),
{
    if parts.len() == 0 {
        Seq::empty()
    } else {
        spec_google_parts_text(parts.drop_last()) + parts.last().text@
    }
}

/// Join a Google turn's part texts.
pub fn google_parts_text(parts: &Vec<GooglePart>) -> (r: String)
    ensures
        r@ == spec_google_parts_text(parts@),
{
    let n = parts.len();
    let mut out = String::new();
    let mut i: usize = 0;
    while i < n
        invariant
            n == parts@.len(),
            i <= n,
            out@ == spec_google_parts_text(parts@.take(i as int)),
        decreases n - i,
    {
        proof {
            assert(parts@.take(i as int + 1).drop_last() =~= parts@.take(i as int));
        }
        out.append(parts[i].text.as_str());
        i = i + 1;
    }
    proof {
        assert(parts@.take(n as int) =~= parts@);
    }
    out
}

/// One choice of a full OpenAI-compatible completion.
#[derive(Debug, Clone)]
pub struct OpenAIResponseChoice {
    pub message: Message,
}

/// A full OpenAI-compatible completion, as the wire carries it.
#[derive(Debug, Clone)]
pub struct OpenAIResponse {
    pub model: Option<String>,
    pub choices: Vec<OpenAIResponseChoice>,
    pub usage: Option<crate::sse::OpenAIStreamUsage>,
}

/// Reduce an OpenAI-compatible completion to the generic response: the call
/// fails — as an API error — exactly when no choice came back; otherwise
/// the first choice's content is the answer, the usage counters map field
/// for field, and the echoed model stands in unless the upstream omitted
/// it, in which case the configured one does.
pub fn extract_openai_response(v: &OpenAIResponse, fallback_model: &str) -> (r: Result<
    LlmResponse,
    LlmError,
>)
    ensures
        r is Err <==> v.choices@.len() == 0,
        r matches Err(e) ==> e is ApiError,
        r matches Ok(resp) ==> {
            &&& resp.content@ == v.choices@[0].message.content@
            &&& resp.model@ == match v.model {
                Some(m) => m@,
                None => fallback_model@,
            }
            &&& match (resp.usage, v.usage) {
                (Some(a), Some(b)) => a.prompt_tokens == b.prompt_tokens && a.completion_tokens
                    == b.completion_tokens && a.total_tokens == b.total_tokens,
                (None, None) => true,
                _ => false,
            }
        },
{
    if v.choices.len() == 0 {
        return Err(LlmError::ApiError(String::from_str("No response choices")));
    }
    let content = v.choices[0].message.content.clone();
    let model = match &v.model {
        Some(m) => m.clone(),
        None => fallback_model.to_owned(),
    };
    let usage = match &v.usage {
        Some(u) => Some(
            TokenUsage {
                prompt_tokens: u.prompt_tokens,
                completion_tokens: u.completion_tokens,
                total_tokens: u.total_tokens,
            },
        ),
        None => None,
    };
    Ok(LlmResponse { content, model, usage })
}

/// One candidate of a full Google completion.
#[derive(Debug, Clone)]
pub struct GoogleResponseCandidate {
    pub content: GoogleContent,
    pub token_count: u32,
}

/// A full Google completion, as the wire carries it.
#[derive(Debug, Clone)]
pub struct GoogleResponse {
    pub candidates: Vec<GoogleResponseCandidate>,
}

/// Reduce a Google completion to the generic response: the call fails — as
/// an API error — exactly when no candidate came back; otherwise the first
/// candidate's part texts join into the answer, and a positive token count
/// becomes the total usage with prompt and completion left at zero, as the
/// upstream reports only one number.
pub fn extract_google_response(v: &GoogleResponse, model: &str) -> (r: Result<
    LlmResponse,
    LlmError,
>)
    ensures
        r is Err <==> v.candidates@.len() == 0,
        r matches Err(e) ==> e is ApiError,
        r matches Ok(resp) ==> {
            &&& resp.content@ == spec_google_parts_text(v.candidates@[0].content.parts@)
            &&& resp.model@ == model@
            &&& resp.usage == (if v.candidates@[0].token_count > 0 {
                Some(
                    TokenUsage {
                        prompt_tokens: 0,
                        completion_tokens: 0,
                        total_tokens: v.candidates@[0].token_count,
                    },
                )
            } else {
                None::<TokenUsage>
            })
        },
{
    if v.candidates.len() == 0 {
        return Err(
            LlmError::ApiError(
                String::from_str("No candidates returned; content may have been blocked"),
            ),
        );
    }
    let candidate = &v.candidates[0];
    let content = google_parts_text(&candidate.content.parts);
    let usage = if candidate.token_count > 0 {
        Some(
            TokenUsage {
                prompt_tokens: 0,
                completion_tokens: 0,
                total_tokens: candidate.token_count,
            },
        )
    } else {
        None
    };
    Ok(LlmResponse { content, model: model.to_owned(), usage })
}

} // verus!
