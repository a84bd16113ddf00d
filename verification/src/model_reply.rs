//! What is sent to the model, and how its reply is read.

use vstd::prelude::*;
use crate::agent::{Agent, LoopState};
use crate::agent_loop;
use crate::config::ProviderConfig;
use crate::end_of_task_passthrough;
use crate::end_of_task_passthrough::passthrough_check;
use crate::history::HistoryMessage;
use crate::json;
use crate::nav;
use crate::text;
use crate::tools;

verus! {

// ---------------------------------------------------------------------------
// Requests
// ---------------------------------------------------------------------------

/// A message as JSON text. A message of the model is handed back as it came.
pub open spec fn message_json(m: HistoryMessage) -> Seq<char> {
    match m.raw {
        Some(raw) => raw@,
        None => {
            let with_role = match m.role {
                Some(role) => json::with_text("{}"@, "role"@, role@),
                None => "{}"@,
            };
            let with_call = match m.tool_call_id {
                Some(id) => json::with_text(with_role, "tool_call_id"@, id@),
                None => with_role,
            };
            match m.content {
                Some(content) => json::with_text(with_call, "content"@, content@),
                None => with_call,
            }
        },
    }
}

/// Renders a message as JSON text.
pub fn render_message(m: &HistoryMessage) -> (r: String)
    ensures
        r@ == message_json(*m),
{
    if let Some(raw) = &m.raw {
        return raw.clone();
    }
    let with_role = match &m.role {
        Some(role) => json::set_text("{}", "role", role.as_str()),
        None => text::owned("{}"),
    };
    let with_call = match &m.tool_call_id {
        Some(id) => json::set_text(with_role.as_str(), "tool_call_id", id.as_str()),
        None => with_role,
    };
    match &m.content {
        Some(content) => json::set_text(with_call.as_str(), "content", content.as_str()),
        None => with_call,
    }
}

/// The conversation as JSON text.
pub open spec fn conversation_json(messages: Seq<HistoryMessage>) -> Seq<char> {
    json::array_of(messages.map_values(|m: HistoryMessage| message_json(m)))
}

/// Renders the conversation as JSON text.
pub fn render_conversation(messages: &Vec<HistoryMessage>) -> (r: String)
    ensures
        r@ == conversation_json(messages@),
{
    let ghost render = |m: HistoryMessage| message_json(m);
    let mut items: Vec<String> = Vec::new();
    let mut i: usize = 0;
    while i < messages.len()
        invariant
            i <= messages@.len(),
            render == (|m: HistoryMessage| message_json(m)),
            text::views(items@) == messages@.take(i as int).map_values(render),
        decreases messages@.len() - i,
    {
        let item = render_message(&messages[i]);
        let ghost before = text::views(items@);
        items.push(item);
        assert(text::views(items@) == before.push(item@));
        i += 1;
        assert(messages@.take(i as int) == messages@.take(i - 1).push(messages@[i - 1]));
        assert(messages@.take(i as int).map_values(render) == messages@.take(i - 1).map_values(
            render,
        ).push(render(messages@[i - 1])));
    }
    assert(messages@.take(messages@.len() as int) == messages@);
    json::array_text(&items)
}

/// Where requests go.
pub open spec fn completions_url(config: ProviderConfig) -> Seq<char> {
    config.opencode_zen.base_url@ + "/chat/completions"@
}

/// The header that authorizes a request.
pub open spec fn authorization(config: ProviderConfig) -> Seq<char> {
    "Bearer "@ + config.opencode_zen.api_key@
}

impl ProviderConfig {
    /// The address that requests go to.
    pub fn completions_url(&self) -> (r: String)
        ensures
            r@ == completions_url(*self),
    {
        let mut out = self.opencode_zen.base_url.clone();
        out.append("/chat/completions");
        out
    }

    /// The value of the header that authorizes a request.
    pub fn authorization(&self) -> (r: String)
        ensures
            r@ == authorization(*self),
    {
        let mut out = text::owned("Bearer ");
        out.append(self.opencode_zen.api_key.as_str());
        out
    }
}

/// The request for the next step.
pub open spec fn step_request(model: Seq<char>, messages: Seq<HistoryMessage>) -> Seq<char> {
    json::with_text(
        json::json_with(
            json::json_with(
                json::with_text("{}"@, "model"@, model),
                "messages"@,
                conversation_json(messages),
            ),
            "tools"@,
            tools::schema_text(),
        ),
        "tool_choice"@,
        "auto"@,
    )
}

impl Agent {
    /// Renders the request for the next step.
    pub fn step_body(&self) -> (r: String)
        ensures
            r@ == step_request(
                self.config.opencode_zen.default_model@,
                self.history.messages@,
            ),
    {
        let out = json::set_text("{}", "model", self.config.opencode_zen.default_model.as_str());
        let out = json::with_key(
            out.as_str(),
            "messages",
            render_conversation(&self.history.messages).as_str(),
        );
        let out = json::with_key(out.as_str(), "tools", tools::get_tools_schema().as_str());
        json::set_text(out.as_str(), "tool_choice", "auto")
    }
}

/// How often the model is asked before the loop gives up.
pub const MODEL_ATTEMPTS: u32 = 5;

/// Seconds before the model is asked for the second time; doubled each time.
pub const MODEL_RETRY_SECS: u64 = 2;

pub const MODEL_GAVE_UP: &'static str = "LLM API returned error consistently after 5 attempts";

// ---------------------------------------------------------------------------
// Usage
// ---------------------------------------------------------------------------

/// The tokens of one step.
#[derive(Debug, Clone, Copy, PartialEq, Eq, Structural)]
pub struct TokenUsage {
    pub total: u64,
    pub prompt: u64,
    pub completion: u64,
    /// How many tokens of the prompt came from the cache.
    pub cached: u64,
    /// How many tokens of the prompt are billed.
    pub billed: u64,
}

/// The tokens of one step from the numbers that a reply gives, as far as it gives
/// them: in all, of the prompt, of the completion, and those from the cache, where
/// the number among the details goes before the other one.
pub open spec fn usage_with(
    total: Option<u64>,
    prompt: Option<u64>,
    completion: Option<u64>,
    cached_in_details: Option<u64>,
    cached: Option<u64>,
) -> TokenUsage {
    let of_prompt = or_zero(prompt);
    let from_cache = match cached_in_details {
        Some(n) => n,
        None => or_zero(cached),
    };
    TokenUsage {
        total: or_zero(total),
        prompt: of_prompt,
        completion: or_zero(completion),
        cached: from_cache,
        billed: if of_prompt >= from_cache {
            (of_prompt - from_cache) as u64
        } else {
            0
        },
    }
}

/// A number, `0` where there is none.
pub open spec fn or_zero(n: Option<u64>) -> u64 {
    match n {
        Some(m) => m,
        None => 0,
    }
}

fn number_or_zero(n: Option<u64>) -> (r: u64)
    ensures
        r == or_zero(n),
{
    match n {
        Some(m) => m,
        None => 0,
    }
}

/// Sums up the numbers that a reply gives.
pub fn usage_from(
    total: Option<u64>,
    prompt: Option<u64>,
    completion: Option<u64>,
    cached_in_details: Option<u64>,
    cached: Option<u64>,
) -> (r: TokenUsage)
    ensures
        r == usage_with(total, prompt, completion, cached_in_details, cached),
{
    let of_prompt: u64 = number_or_zero(prompt);
    let from_cache: u64 = match cached_in_details {
        Some(n) => n,
        None => number_or_zero(cached),
    };
    TokenUsage {
        total: number_or_zero(total),
        prompt: of_prompt,
        completion: number_or_zero(completion),
        cached: from_cache,
        billed: of_prompt.saturating_sub(from_cache),
    }
}

/// The tokens that a reply reports.
pub open spec fn usage_in(reply: Seq<char>) -> TokenUsage {
    usage_with(
        json::json_number(reply, "/usage/total_tokens"@),
        json::json_number(reply, "/usage/prompt_tokens"@),
        json::json_number(reply, "/usage/completion_tokens"@),
        json::json_number(reply, "/usage/prompt_tokens_details/cached_tokens"@),
        json::json_number(reply, "/usage/cached_tokens"@),
    )
}

/// Reads the tokens that a reply reports; all are zero where it reports none.
pub fn usage_of(reply: &str) -> (r: TokenUsage)
    ensures
        r == usage_in(reply@),
{
    usage_from(
        json::number_at(reply, "/usage/total_tokens"),
        json::number_at(reply, "/usage/prompt_tokens"),
        json::number_at(reply, "/usage/completion_tokens"),
        json::number_at(reply, "/usage/prompt_tokens_details/cached_tokens"),
        json::number_at(reply, "/usage/cached_tokens"),
    )
}

impl Agent {
    /// Whether the tokens of one more step can be counted.
    pub open spec fn can_spend(self, step: u64) -> bool {
        self.state.total_tokens + step <= usize::MAX
    }

    /// Whether the tokens of a step can be counted, and what the count is then.
    pub open spec fn spends(self, step: u64, r: bool, after: Agent) -> bool {
        &&& r == self.can_spend(step)
        &&& after == (Agent {
            state: LoopState {
                total_tokens: if r {
                    (self.state.total_tokens + step) as usize
                } else {
                    self.state.total_tokens
                },
                ..self.state
            },
            ..self
        })
    }

    /// Counts the tokens of a step. `false`, with nothing counted, where the sum
    /// does not fit.
    pub fn add_tokens(&mut self, step: u64) -> (r: bool)
        ensures
            old(self).spends(step, r, *final(self)),
    {
        if step > usize::MAX as u64 {
            return false;
        }
        match self.state.total_tokens.checked_add(step as usize) {
            Some(total) => {
                self.state.total_tokens = total;
                true
            },
            None => false,
        }
    }
}

// ---------------------------------------------------------------------------
// The reply
// ---------------------------------------------------------------------------

/// A reply, unless something is wrong with it.
pub fn reply_unless(reply: String, error: Option<String>) -> (r: Result<String, String>)
    ensures
        r == match error {
            Some(e) => Err::<String, String>(e),
            None => Ok::<String, String>(reply),
        },
{
    match error {
        Some(e) => Err(e),
        None => Ok(reply),
    }
}

/// A reply that is JSON; what is wrong with one that is not.
pub fn json_reply(reply: String) -> (r: Result<String, String>)
    ensures
        match json::json_error(reply@) {
            Some(error) => r matches Err(e) && e@ == error,
            None => r == Ok::<String, String>(reply),
        },
{
    let error = json::parse_error(reply.as_str());
    reply_unless(reply, error)
}

/// Whether a reply holds a list of choices. Without one it holds no message.
pub open spec fn has_choices(reply: Seq<char>) -> bool {
    json::json_items(reply, "/choices"@) is Some
}

fn holds_choices(reply: &str) -> (r: bool)
    ensures
        r == has_choices(reply@),
{
    json::items_at(reply, "/choices").is_some()
}

/// The text of the message in a reply.
pub open spec fn content_in(reply: Seq<char>) -> Option<Seq<char>> {
    if has_choices(reply) {
        json::json_string(reply, "/choices/0/message/content"@)
    } else {
        None
    }
}

/// Reads the text of the message in a reply.
pub fn reply_content(reply: &str) -> (r: Option<String>)
    ensures
        text::opt_view(r) == content_in(reply@),
{
    if holds_choices(reply) {
        json::string_at(reply, "/choices/0/message/content")
    } else {
        None
    }
}

/// The message of the model without its reasoning, as JSON text.
pub open spec fn assistant_json(reply: Seq<char>) -> Seq<char> {
    if has_choices(reply) {
        json::json_without(reply, "/choices/0/message"@, "reasoning_details"@)
    } else {
        "null"@
    }
}

/// Whether a message is that of the model in a reply.
pub open spec fn is_reply(m: HistoryMessage, reply: Seq<char>) -> bool {
    let raw = assistant_json(reply);
    &&& text::opt_view(m.raw) == Some(raw)
    &&& text::opt_view(m.role) == json::json_string(raw, "/role"@)
    &&& text::opt_view(m.content) == json::json_string(raw, "/content"@)
    &&& text::opt_view(m.tool_call_id) == json::json_string(raw, "/tool_call_id"@)
}

/// A call that the model asks for.
#[derive(Debug, PartialEq, Eq)]
pub struct ModelCall {
    pub id: String,
    pub name: String,
    pub args: String,
}

/// The contents of a `ModelCall`.
pub ghost struct ModelCallView {
    pub id: Seq<char>,
    pub name: Seq<char>,
    pub args: Seq<char>,
}

impl View for ModelCall {
    type V = ModelCallView;

    open spec fn view(&self) -> ModelCallView {
        ModelCallView { id: self.id@, name: self.name@, args: self.args@ }
    }
}

/// A call from the parts that a reply gives of it, as far as it gives them.
pub open spec fn call_from(
    id: Option<Seq<char>>,
    name: Option<Seq<char>>,
    args: Option<Seq<char>>,
) -> ModelCallView {
    ModelCallView {
        id: match id {
            Some(s) => s,
            None => "unknown_id"@,
        },
        name: tools::given(name),
        args: match args {
            Some(s) => s,
            None => "{}"@,
        },
    }
}

/// Makes a call of its parts.
pub fn model_call(id: Option<String>, name: Option<String>, args: Option<String>) -> (r: ModelCall)
    ensures
        r@ == call_from(text::opt_view(id), text::opt_view(name), text::opt_view(args)),
{
    ModelCall {
        id: match id {
            Some(s) => s,
            None => text::owned("unknown_id"),
        },
        name: tools::given_or_empty(name),
        args: match args {
            Some(s) => s,
            None => text::owned("{}"),
        },
    }
}

/// The call that a JSON text describes.
pub open spec fn call_in(item: Seq<char>) -> ModelCallView {
    call_from(
        json::json_string(item, "/id"@),
        json::json_string(item, "/function/name"@),
        json::json_string(item, "/function/arguments"@),
    )
}

/// The calls in a reply, each as JSON text.
pub open spec fn calls_in(reply: Seq<char>) -> Option<Seq<Seq<char>>> {
    if has_choices(reply) {
        json::json_items(reply, "/choices/0/message/tool_calls"@)
    } else {
        None
    }
}

/// The first of the calls in a reply.
pub open spec fn first_of(calls: Option<Seq<Seq<char>>>) -> Option<Seq<char>> {
    match calls {
        Some(items) => if items.len() > 0 {
            Some(items[0])
        } else {
            None
        },
        None => None,
    }
}

/// What a reply without a call is answered.
pub open spec fn no_call_answer(calls: Option<Seq<Seq<char>>>) -> Seq<char> {
    if calls is Some {
        "You didn't call any tools. Please use a tool to proceed."@
    } else {
        "Please output a valid tool call."@
    }
}

impl Agent {
    /// How a reply of the model is kept in the conversation.
    pub open spec fn hears(self, reply: Seq<char>, after: Agent) -> bool {
        &&& after == (Agent { history: after.history, ..self })
        &&& after.history.messages@.len() == self.history.messages@.len() + 1
        &&& after.history.messages@.drop_last() == self.history.messages@
        &&& is_reply(after.history.messages@.last(), reply)
    }

    /// Adds the message of the model to the conversation.
    pub fn accept_reply(&mut self, reply: &str)
        ensures
            old(self).hears(reply@, *final(self)),
    {
        let raw = if holds_choices(reply) {
            json::without_key(reply, "/choices/0/message", "reasoning_details")
        } else {
            text::owned("null")
        };
        let role = json::string_at(raw.as_str(), "/role");
        let content = json::string_at(raw.as_str(), "/content");
        let tool_call_id = json::string_at(raw.as_str(), "/tool_call_id");
        self.history.push(HistoryMessage { role, content, tool_call_id, raw: Some(raw) });
        assert(self.history.messages@.drop_last() == old(self).history.messages@);
    }

    /// How the first of the calls in a reply is picked: a reply without any is
    /// answered with a request for one.
    pub open spec fn picks(
        self,
        calls: Option<Seq<Seq<char>>>,
        picked: Option<Seq<char>>,
        after: Agent,
    ) -> bool {
        &&& picked == first_of(calls)
        &&& if picked is Some {
            after == self
        } else {
            &&& after == (Agent { history: after.history, ..self })
            &&& agent_loop::told(
                after.history.messages@,
                self.history.messages@,
                no_call_answer(calls),
            )
        }
    }

    /// Picks the first of the calls in a reply, given as JSON texts.
    pub fn pick_call(&mut self, calls: Option<Vec<String>>) -> (r: Option<String>)
        ensures
            old(self).picks(text::opt_views(calls), text::opt_view(r), *final(self)),
    {
        match calls {
            Some(items) => {
                assert(text::views(items@).len() == items@.len());
                if items.len() == 0 {
                    self.history.push_user(
                        "You didn't call any tools. Please use a tool to proceed.",
                    );
                    return None;
                }
                assert(text::views(items@)[0] == items@[0]@);
                Some(items[0].clone())
            },
            None => {
                self.history.push_user("Please output a valid tool call.");
                None
            },
        }
    }

    /// The call to carry out: the first one of the reply. A reply without any is
    /// answered with a request for one.
    pub fn next_call(&mut self, reply: &str) -> (r: Option<ModelCall>)
        ensures
            old(self).picks(calls_in(reply@), first_of(calls_in(reply@)), *final(self)),
            match r {
                Some(call) => {
                    &&& first_of(calls_in(reply@)) is Some
                    &&& call@ == call_in(first_of(calls_in(reply@))->0)
                },
                None => first_of(calls_in(reply@)) is None,
            },
    {
        let calls = if holds_choices(reply) {
            json::items_at(reply, "/choices/0/message/tool_calls")
        } else {
            None
        };
        match self.pick_call(calls) {
            Some(item) => Some(
                model_call(
                    json::string_at(item.as_str(), "/id"),
                    json::string_at(item.as_str(), "/function/name"),
                    json::string_at(item.as_str(), "/function/arguments"),
                ),
            ),
            None => None,
        }
    }
}

// ---------------------------------------------------------------------------
// The closing words
// ---------------------------------------------------------------------------

/// Where the closing words come from.
#[derive(Debug, PartialEq, Eq)]
pub enum ClosingStep {
    /// The text of the `finish()` call is used as it is.
    Raw,
    /// These words, which can be shown as they are.
    Ready { text: String },
    /// The model is asked to phrase them.
    Ask,
}

/// The request to phrase the closing words. `system` tells the model of the task
/// and of what was done.
pub open spec fn closing_request(model: Seq<char>, system: Seq<char>, raw: Seq<char>) -> Seq<char> {
    let first = json::with_text(
        json::with_text("{}"@, "role"@, "system"@),
        "content"@,
        system,
    );
    let second = json::with_text(
        json::with_text("{}"@, "role"@, "user"@),
        "content"@,
        closing_prompt(raw),
    );
    json::json_with(
        json::json_with(
            json::json_with(
                json::with_text("{}"@, "model"@, model),
                "max_tokens"@,
                "200"@,
            ),
            "temperature"@,
            "0.2"@,
        ),
        "messages"@,
        json::array_of(seq![first, second]),
    )
}

/// What the model is asked for the closing words.
pub open spec fn closing_prompt(raw: Seq<char>) -> Seq<char> {
    "Now write the user-facing reply. Reference what was done concretely. The raw finish() text the agent produced is below; do NOT copy it verbatim — write a natural reply. Raw finish text: "@
        + raw
        + "\n\nReply (1-2 sentences, plain text, no JSON, no preamble):"@
}

/// The words in the text of a reply to that request, trimmed; none where it is
/// blank or missing.
pub open spec fn words_in(content: Option<Seq<char>>) -> Option<Seq<char>> {
    let words = text::trimmed(tools::given(content));
    if words.len() == 0 {
        None
    } else {
        Some(words)
    }
}

/// Reads the closing words off the text of a reply.
pub fn closing_from(content: Option<String>) -> (r: Option<String>)
    ensures
        text::opt_view(r) == words_in(text::opt_view(content)),
{
    let content = tools::given_or_empty(content);
    let words = text::trim(content.as_str());
    if words.is_empty() {
        None
    } else {
        Some(text::owned(words))
    }
}

/// Reads the closing words off a reply.
pub fn read_closing(reply: &str) -> (r: Option<String>)
    ensures
        text::opt_view(r) == words_in(content_in(reply@)),
{
    closing_from(reply_content(reply))
}

/// The words that close a task: those that were phrased for it, or the text of the
/// `finish()` call.
pub open spec fn closing_text(raw: Seq<char>, phrased: Option<Seq<char>>) -> Seq<char> {
    match phrased {
        Some(words) => if words.len() > 0 {
            words
        } else {
            raw
        },
        None => raw,
    }
}

/// Picks the words that close a task.
pub fn close_with(raw: &str, phrased: &Option<String>) -> (r: String)
    ensures
        r@ == closing_text(raw@, text::opt_view(*phrased)),
{
    match phrased {
        Some(words) => if words.as_str().is_empty() {
            text::owned(raw)
        } else {
            words.clone()
        },
        None => text::owned(raw),
    }
}

impl Agent {
    /// How the result of a task is put into words.
    pub open spec fn closes_with(self, raw: Seq<char>, r: ClosingStep) -> bool {
        &&& match r {
            ClosingStep::Raw => !self.config.agent.summarization.end_of_task_llm_summary,
            ClosingStep::Ready { text } => {
                &&& self.config.agent.summarization.end_of_task_llm_summary
                &&& end_of_task_passthrough::passes(text::trimmed(raw))
                &&& text@ == text::trimmed(raw)
            },
            ClosingStep::Ask => {
                &&& self.config.agent.summarization.end_of_task_llm_summary
                &&& !end_of_task_passthrough::passes(text::trimmed(raw))
            },
        }
    }

    /// Decides where the closing words come from.
    pub fn closing_step(&self, raw: &str) -> (r: ClosingStep)
        ensures
            self.closes_with(raw@, r),
    {
        if !self.config.agent.summarization.end_of_task_llm_summary {
            return ClosingStep::Raw;
        }
        match passthrough_check(raw) {
            Some(text) => ClosingStep::Ready { text },
            None => ClosingStep::Ask,
        }
    }

    /// Renders the request to phrase the closing words.
    pub fn closing_body(&self, system: &str, raw: &str) -> (r: String)
        ensures
            r@ == closing_request(self.config.opencode_zen.default_model@, system@, raw@),
    {
        let first = json::set_text("{}", "role", "system");
        let first = json::set_text(first.as_str(), "content", system);
        let mut prompt = text::owned(
            "Now write the user-facing reply. Reference what was done concretely. The raw finish() text the agent produced is below; do NOT copy it verbatim — write a natural reply. Raw finish text: ",
        );
        prompt.append(raw);
        prompt.append("\n\nReply (1-2 sentences, plain text, no JSON, no preamble):");
        let second = json::set_text("{}", "role", "user");
        let second = json::set_text(second.as_str(), "content", prompt.as_str());
        let mut items: Vec<String> = Vec::new();
        let ghost parts = seq![first@, second@];
        items.push(first);
        items.push(second);
        assert(text::views(items@) == parts);
        let out = json::set_text("{}", "model", self.config.opencode_zen.default_model.as_str());
        let out = json::with_key(out.as_str(), "max_tokens", "200");
        let out = json::with_key(out.as_str(), "temperature", "0.2");
        json::with_key(out.as_str(), "messages", json::array_text(&items).as_str())
    }
}

/// What the model is asked in a smoke test.
pub open spec fn smoke_request(model: Seq<char>) -> Seq<char> {
    let message = json::with_text(
        json::with_text("{}"@, "role"@, "user"@),
        "content"@,
        "Reply with exactly one word: hello"@,
    );
    json::json_with(
        json::with_text("{}"@, "model"@, model),
        "messages"@,
        json::array_of(seq![message]),
    )
}

impl ProviderConfig {
    /// Renders the request of a smoke test.
    pub fn smoke_body(&self) -> (r: String)
        ensures
            r@ == smoke_request(self.opencode_zen.default_model@),
    {
        let message = json::set_text("{}", "role", "user");
        let message = json::set_text(
            message.as_str(),
            "content",
            "Reply with exactly one word: hello",
        );
        let ghost only = seq![message@];
        let mut messages: Vec<String> = Vec::new();
        messages.push(message);
        assert(text::views(messages@) == only);
        let out = json::set_text("{}", "model", self.opencode_zen.default_model.as_str());
        json::with_key(out.as_str(), "messages", json::array_text(&messages).as_str())
    }
}

// ---------------------------------------------------------------------------
// Laws
// ---------------------------------------------------------------------------

/// The model is asked five times at the most, with waits of two, four, eight and
/// sixteen seconds between.
pub proof fn law_model_is_asked_five_times(attempt: u32)
    requires
        1 <= attempt,
    ensures
        nav::retry_wait(attempt, MODEL_ATTEMPTS, MODEL_RETRY_SECS) == if attempt == 1 {
            Some(2nat)
        } else if attempt == 2 {
            Some(4nat)
        } else if attempt == 3 {
            Some(8nat)
        } else if attempt == 4 {
            Some(16nat)
        } else {
            None
        },
{
    reveal_with_fuel(nav::power_of_two, 5);
}

/// A message of the conversation goes to the model with its role, its content and the
/// call that it answers; one that came from the model goes back as it came.
pub proof fn law_messages_reach_the_model_whole(
    m: HistoryMessage,
    role: Seq<char>,
    content: Seq<char>,
)
    ensures
        m.raw is Some ==> message_json(m) == m.raw->0@,
        m.says(role, content) ==> message_json(m) == json::with_text(
            json::with_text("{}"@, "role"@, role),
            "content"@,
            content,
        ),
        forall|id: Seq<char>| #[trigger]
            m.answers(id, content) ==> message_json(m) == json::with_text(
                json::with_text(json::with_text("{}"@, "role"@, "tool"@), "tool_call_id"@, id),
                "content"@,
                content,
            ),
{
}

/// The model is sent the whole conversation, message by message and in order, with the
/// model that is configured and every tool; none is left out, and none is put in.
pub proof fn law_the_whole_conversation_is_sent(
    model: Seq<char>,
    messages: Seq<HistoryMessage>,
    sent: Seq<Seq<char>>,
)
    requires
        sent.len() == messages.len(),
        forall|i: int|
            0 <= i < sent.len() ==> #[trigger] sent[i] == message_json(messages[i]),
    ensures
        conversation_json(messages) == json::array_of(sent),
        step_request(model, messages) == json::with_text(
            json::json_with(
                json::json_with(
                    json::with_text("{}"@, "model"@, model),
                    "messages"@,
                    json::array_of(sent),
                ),
                "tools"@,
                tools::schema_text(),
            ),
            "tool_choice"@,
            "auto"@,
        ),
{
    assert(messages.map_values(|m: HistoryMessage| message_json(m)) =~= sent);
}

/// Requests go to the service that is configured, under its key.
pub proof fn law_requests_go_to_the_configured_service(config: ProviderConfig)
    ensures
        config.opencode_zen.base_url@.is_prefix_of(completions_url(config)),
        "/chat/completions"@.is_suffix_of(completions_url(config)),
        completions_url(config).len() == config.opencode_zen.base_url@.len()
            + "/chat/completions"@.len(),
        "Bearer "@.is_prefix_of(authorization(config)),
        config.opencode_zen.api_key@.is_suffix_of(authorization(config)),
        authorization(config).len() == "Bearer "@.len() + config.opencode_zen.api_key@.len(),
{
}

/// What the service reports of tokens is what is counted, and what it served from its
/// cache is not billed: what is billed and what came from the cache make up the prompt.
pub proof fn law_usage_is_as_reported(reply: Seq<char>)
    ensures
        json::json_number(reply, "/usage/total_tokens"@) matches Some(n) ==> usage_in(reply).total
            == n,
        json::json_number(reply, "/usage/prompt_tokens"@) matches Some(n) ==> usage_in(reply).prompt
            == n,
        json::json_number(reply, "/usage/completion_tokens"@) matches Some(n) ==> usage_in(
            reply,
        ).completion == n,
        json::json_number(reply, "/usage/prompt_tokens_details/cached_tokens"@) matches Some(n)
            ==> usage_in(reply).cached == n,
        json::json_number(reply, "/usage/prompt_tokens_details/cached_tokens"@) is None ==> (
        json::json_number(reply, "/usage/cached_tokens"@) matches Some(n) ==> usage_in(
            reply,
        ).cached == n),
        usage_in(reply).cached <= usage_in(reply).prompt ==> usage_in(reply).billed + usage_in(
            reply,
        ).cached == usage_in(reply).prompt,
        usage_in(reply).cached > usage_in(reply).prompt ==> usage_in(reply).billed == 0,
        json::json_number(reply, "/usage/total_tokens"@) is None ==> usage_in(reply).total == 0,
        json::json_number(reply, "/usage/prompt_tokens"@) is None ==> usage_in(reply).prompt == 0,
        json::json_number(reply, "/usage/completion_tokens"@) is None ==> usage_in(reply).completion
            == 0,
{
}

/// The tokens of two steps are counted as those of one step that takes as many.
pub proof fn law_tokens_add_up(a: Agent, x: u64, y: u64, mid: Agent, after: Agent)
    requires
        a.spends(x, true, mid),
        mid.spends(y, true, after),
    ensures
        after.state.total_tokens == a.state.total_tokens + x + y,
        after.history == a.history,
        after.state.iterations == a.state.iterations,
{
}

/// The model is heard word for word: a call carries the id, the name and the arguments
/// that the reply gives it, and the first call of a reply is the one that counts.
pub proof fn law_calls_are_read_from_the_reply(item: Seq<char>, calls: Seq<Seq<char>>)
    ensures
        json::json_string(item, "/id"@) matches Some(id) ==> call_in(item).id == id,
        json::json_string(item, "/function/name"@) matches Some(name) ==> call_in(item).name == name,
        json::json_string(item, "/function/arguments"@) matches Some(args) ==> call_in(item).args
            == args,
        json::json_string(item, "/id"@) is None ==> call_in(item).id == "unknown_id"@,
        json::json_string(item, "/function/name"@) is None ==> call_in(item).name.len() == 0,
        json::json_string(item, "/function/arguments"@) is None ==> call_in(item).args == "{}"@,
        calls.len() > 0 ==> first_of(Some(calls)) == Some(calls[0]),
        calls.len() == 0 ==> first_of(Some(calls)) is None,
        first_of(None) is None,
{
}

/// A reply is read where the service puts the message of the model: in the first of its
/// choices. Without choices there is nothing to read.
pub proof fn law_replies_are_read_at_the_first_choice(reply: Seq<char>)
    ensures
        json::json_items(reply, "/choices"@) is Some ==> {
            &&& content_in(reply) == json::json_string(reply, "/choices/0/message/content"@)
            &&& calls_in(reply) == json::json_items(reply, "/choices/0/message/tool_calls"@)
            &&& assistant_json(reply) == json::json_without(
                reply,
                "/choices/0/message"@,
                "reasoning_details"@,
            )
        },
        json::json_items(reply, "/choices"@) is None ==> content_in(reply) is None && calls_in(
            reply,
        ) is None && assistant_json(reply) == "null"@,
{
}

/// A reply is kept at the end of the conversation as it came, without the reasoning,
/// and goes back to the model like that in the next step.
pub proof fn law_replies_go_back_as_they_came(a: Agent, reply: Seq<char>, after: Agent)
    requires
        a.hears(reply, after),
    ensures
        after.history.messages@.len() == a.history.messages@.len() + 1,
        after.history.messages@.drop_last() == a.history.messages@,
        message_json(after.history.messages@.last()) == assistant_json(reply),
        text::opt_view(after.history.messages@.last().role) == json::json_string(
            assistant_json(reply),
            "/role"@,
        ),
        text::opt_view(after.history.messages@.last().content) == json::json_string(
            assistant_json(reply),
            "/content"@,
        ),
        after.completeness == a.completeness,
        after.state == a.state,
{
}

/// A model that calls no tool is asked for one, at the end of the conversation; one that
/// calls some is told nothing.
pub proof fn law_a_model_without_a_call_is_asked_for_one(
    a: Agent,
    calls: Option<Seq<Seq<char>>>,
    picked: Option<Seq<char>>,
    after: Agent,
)
    requires
        a.picks(calls, picked, after),
    ensures
        picked is Some <==> calls is Some && calls->0.len() > 0,
        picked is Some ==> picked->0 == calls->0[0] && after == a,
        picked is None ==> {
            &&& after.history.messages@.len() == a.history.messages@.len() + 1
            &&& after.history.messages@.drop_last() == a.history.messages@
            &&& after.history.messages@.last().has_role("user"@)
            &&& text::occurs(after.history.messages@.last().content->0@, "tool"@)
            &&& calls is Some <==> after.history.messages@.last().content->0@
                == "You didn't call any tools. Please use a tool to proceed."@
            &&& calls is None <==> after.history.messages@.last().content->0@
                == "Please output a valid tool call."@
        },
        after.completeness == a.completeness,
        after.state == a.state,
{
    reveal_strlit("tool");
    reveal_strlit("You didn't call any tools. Please use a tool to proceed.");
    reveal_strlit("Please output a valid tool call.");
    let none = "You didn't call any tools. Please use a tool to proceed."@;
    let bad = "Please output a valid tool call."@;
    assert(none[0] != bad[0]);
    assert(none.subrange(20, 24) =~= "tool"@);
    assert(text::occurs_at(none, "tool"@, 20));
    assert(bad.subrange(22, 26) =~= "tool"@);
    assert(text::occurs_at(bad, "tool"@, 22));
}

/// The result of a task is told in the words that were found for it, or else in its own:
/// nothing is ever told in no words where there were some.
pub proof fn law_results_are_told_in_words(raw: Seq<char>, content: Option<Seq<char>>)
    ensures
        words_in(content) is None ==> closing_text(raw, words_in(content)) == raw,
        words_in(content) is Some ==> closing_text(raw, words_in(content)) == words_in(content)->0,
        words_in(content) is Some <==> content is Some && text::trimmed(content->0).len() > 0,
        words_in(content) matches Some(words) ==> words == text::trimmed(content->0) && text::occurs(
            content->0,
            words,
        ),
        closing_text(raw, None) == raw,
        raw.len() > 0 ==> closing_text(raw, words_in(content)).len() > 0,
{
    assert(text::trimmed(Seq::<char>::empty()).len() == 0) by {
        text::law_trimming_takes_only_white_space(Seq::<char>::empty());
    }
    if let Some(s) = content {
        let (i, j) = text::law_trimming_takes_only_white_space(s);
        assert(text::occurs_at(s, text::trimmed(s), i));
    }
}

/// The words of a finished task are asked for with the text that it finished with.
pub proof fn law_closing_words_are_asked_for_with_the_result(
    model: Seq<char>,
    system: Seq<char>,
    raw: Seq<char>,
) -> (asked: Seq<char>)
    ensures
        text::occurs(asked, raw),
        closing_request(model, system, raw) == json::json_with(
            json::json_with(
                json::json_with(json::with_text("{}"@, "model"@, model), "max_tokens"@, "200"@),
                "temperature"@,
                "0.2"@,
            ),
            "messages"@,
            json::array_of(
                seq![
                    json::with_text(
                        json::with_text("{}"@, "role"@, "system"@),
                        "content"@,
                        system,
                    ),
                    json::with_text(json::with_text("{}"@, "role"@, "user"@), "content"@, asked),
                ],
            ),
        ),
{
    broadcast use text::group_occurs;

    closing_prompt(raw)
}

/// The result of a task is told as it is where it reads well, and the model is asked for
/// words only where it does not; where that is off, it is told raw.
pub proof fn law_words_are_asked_for_only_where_needed(a: Agent, raw: Seq<char>, r: ClosingStep)
    requires
        a.closes_with(raw, r),
    ensures
        r is Raw <==> !a.config.agent.summarization.end_of_task_llm_summary,
        r is Ready <==> a.config.agent.summarization.end_of_task_llm_summary
            && end_of_task_passthrough::passes(text::trimmed(raw)),
        r is Ask <==> a.config.agent.summarization.end_of_task_llm_summary
            && !end_of_task_passthrough::passes(text::trimmed(raw)),
        r matches ClosingStep::Ready { text: told } ==> told@ == text::trimmed(raw),
{
}

} // verus!
