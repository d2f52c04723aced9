//! The agent's turn: model calls interleaved with tool runs, bounded in rounds. The
//! caller performs each call the turn asks for and hands back what came of it.
use vstd::prelude::*;
use vstd::string::StringExecFns;
use crate::brain::{
    blocks_view, build_error, duplicate_blocks, messages_view, tools_view, BlockView, ContentBlock,
    Message, MessageRequest, MessageResponse, MessageView, RequestBuilder, Role, StopReason,
    ToolDefinition,
};
use crate::brain::{brain_error_text, BrainError};
use crate::executor::ToolOutput;
use crate::transport::UserResponse;
use crate::memory::{EntryView, MemoryEntry};
use crate::text::{decimal, u64_to_decimal};

verus! {

/// Settings of the agent.
#[derive(Debug, Clone)]
pub struct AgentConfig {
    /// Most tool rounds in one turn.
    pub max_tool_rounds: u32,
    /// Time allowed for the start-up turn, in seconds.
    pub init_timeout_secs: u64,
    /// Time allowed for the shutdown turn, in seconds.
    pub shutdown_timeout_secs: u64,
    /// Time allowed for answering one request, in seconds.
    pub handle_timeout_secs: u64,
    /// The fixed part of the system prompt.
    pub system_prompt: String,
    /// The agent's identity.
    pub identity: String,
    /// The prompt of the start-up turn.
    pub init_prompt: String,
    /// Whether a turn that runs out of tool rounds fails, rather than answering with
    /// a fixed text.
    pub strict_round_limit: bool,
}

impl Default for AgentConfig {
    fn default() -> (r: AgentConfig)
        ensures
            r.max_tool_rounds == 20,
            r.init_timeout_secs == 120,
            r.shutdown_timeout_secs == 30,
            r.handle_timeout_secs == 300,
            r.identity@ == "Shelly - a system daemon agent"@,
            !r.strict_round_limit,
    {
        AgentConfig {
            max_tool_rounds: 20,
            init_timeout_secs: 120,
            shutdown_timeout_secs: 30,
            handle_timeout_secs: 300,
            system_prompt: String::from_str(
                "You are Shelly, a system daemon running on this machine.\nYou are helpful, cautious, and thorough. You prefer to observe and understand before acting.\nWhen you need to perform operations, use the tools available to you.\nAlways explain your reasoning before taking actions that could have side effects.\nLog your important decisions and observations.",
            ),
            identity: String::from_str("Shelly - a system daemon agent"),
            init_prompt: String::from_str(
                "You just started. Explore your environment:\n- Check system metadata (hostname, OS version)\n- Check disk usage\n- Check network status\n- Check running services\n\nUse the tools available to you. Report what you find.",
            ),
            strict_round_limit: false,
        }
    }
}

/// Errors of loading the agent's settings.
#[derive(Debug, Clone)]
pub enum AgentConfigError {
    ConfigMissing(String),
}

impl AgentConfigError {
    pub fn message(&self) -> (r: String)
        ensures
            r@ == ("Config missing: "@ + match self {
                AgentConfigError::ConfigMissing(s) => s@,
            }),
    {
        match self {
            AgentConfigError::ConfigMissing(s) => String::from_str("Config missing: ").concat(s.as_str()),
        }
    }
}

/// Errors of answering a request.
#[derive(Debug, Clone)]
pub enum AgentError {
    Inference(String),
    RequestBuild(&'static str),
    Timeout(u64),
    Executor(String),
}

/// The text that describes an agent error.
pub open spec fn agent_error_text(e: AgentError) -> Seq<char> {
    match e {
        AgentError::Inference(s) => "Inference error: "@ + s@,
        AgentError::RequestBuild(s) => "Request build error: "@ + s@,
        AgentError::Timeout(secs) => "Timeout after "@ + decimal(secs as nat) + "s"@,
        AgentError::Executor(s) => "Executor error: "@ + s@,
    }
}

impl AgentError {
    pub fn message(&self) -> (r: String)
        ensures
            r@ == agent_error_text(*self),
    {
        match self {
            AgentError::Inference(s) => String::from_str("Inference error: ").concat(s.as_str()),
            AgentError::RequestBuild(s) => String::from_str("Request build error: ").concat(s),
            AgentError::Timeout(secs) => {
                let mut r = String::from_str("Timeout after ");
                let n = u64_to_decimal(*secs);
                r.append(n.as_str());
                r.append("s");
                r
            },
            AgentError::Executor(s) => String::from_str("Executor error: ").concat(s.as_str()),
        }
    }
}

/// Errors of one turn.
#[derive(Debug, Clone)]
pub enum InferenceError {
    MaxToolRounds { max_rounds: u32, actual_rounds: u32 },
    InferenceFailed(String),
    RequestBuild(&'static str),
}

/// The text that describes a turn error.
pub open spec fn inference_error_text(e: InferenceError) -> Seq<char> {
    match e {
        InferenceError::MaxToolRounds { max_rounds, actual_rounds } => "Max tool rounds ("@
            + decimal(max_rounds as nat) + ") exceeded, reached "@ + decimal(actual_rounds as nat) + " rounds"@,
        InferenceError::InferenceFailed(s) => "Inference failed: "@ + s@,
        InferenceError::RequestBuild(s) => "Request build error: "@ + s@,
    }
}

impl InferenceError {
    pub fn message(&self) -> (r: String)
        ensures
            r@ == inference_error_text(*self),
    {
        match self {
            InferenceError::MaxToolRounds { max_rounds, actual_rounds } => {
                let mut r = String::from_str("Max tool rounds (");
                let a = u64_to_decimal(*max_rounds as u64);
                r.append(a.as_str());
                r.append(") exceeded, reached ");
                let b = u64_to_decimal(*actual_rounds as u64);
                r.append(b.as_str());
                r.append(" rounds");
                r
            },
            InferenceError::InferenceFailed(s) => String::from_str("Inference failed: ").concat(s.as_str()),
            InferenceError::RequestBuild(s) => String::from_str("Request build error: ").concat(s),
        }
    }
}

/// The outcome of a finished turn.
#[derive(Debug, Clone)]
pub struct InferenceResult {
    /// The final text.
    pub text: String,
    /// Tool rounds used.
    pub tool_rounds: u32,
}

/// A tool invocation that the model asked for.
#[derive(Debug, Clone)]
pub struct ToolCall {
    pub id: String,
    pub name: String,
    pub input: serde_json::Value,
}

/// What a tool call holds.
pub struct CallView {
    pub id: Seq<char>,
    pub name: Seq<char>,
    pub input: serde_json::Value,
}

impl View for ToolCall {
    type V = CallView;

    open spec fn view(&self) -> CallView {
        CallView { id: self.id@, name: self.name@, input: self.input }
    }
}

pub open spec fn calls_view(cs: Seq<ToolCall>) -> Seq<CallView> {
    cs.map_values(|c: ToolCall| c@)
}

/// The text blocks of a content, concatenated in order.
pub open spec fn text_of(bs: Seq<BlockView>) -> Seq<char>
    decreases bs.len(),
{
    if bs.len() == 0 {
        Seq::empty()
    } else {
        text_of(bs.drop_last()) + match bs.last() {
            BlockView::Text { text } => text,
            _ => Seq::empty(),
        }
    }
}

/// The tool invocations of a content, in order.
pub open spec fn calls_of(bs: Seq<BlockView>) -> Seq<CallView>
    decreases bs.len(),
{
    if bs.len() == 0 {
        Seq::empty()
    } else {
        calls_of(bs.drop_last()) + match bs.last() {
            BlockView::ToolUse { id, name, input } => seq![CallView { id, name, input }],
            _ => Seq::empty(),
        }
    }
}

/// Concatenates the text blocks of a content.
pub fn extract_text(content: &Vec<ContentBlock>) -> (r: String)
    ensures
        r@ == text_of(blocks_view(content@)),
{
    let mut r = String::new();
    let mut i: usize = 0;
    while i < content.len()
        invariant
            i <= content@.len(),
            r@ == text_of(blocks_view(content@.subrange(0, i as int))),
        decreases content@.len() - i,
    {
        proof {
            let next = blocks_view(content@.subrange(0, i + 1));
            assert(next.drop_last() =~= blocks_view(content@.subrange(0, i as int)));
            assert(next.last() == content@[i as int]@);
        }
        match &content[i] {
            ContentBlock::Text { text } => {
                r.append(text.as_str());
            },
            _ => {},
        }
        i = i + 1;
    }
    assert(content@.subrange(0, i as int) =~= content@);
    r
}

/// The tool invocations of a content, in order.
pub fn extract_tool_calls(content: &Vec<ContentBlock>) -> (r: Vec<ToolCall>)
    ensures
        calls_view(r@) == calls_of(blocks_view(content@)),
{
    let mut r: Vec<ToolCall> = Vec::new();
    let mut i: usize = 0;
    while i < content.len()
        invariant
            i <= content@.len(),
            calls_view(r@) == calls_of(blocks_view(content@.subrange(0, i as int))),
        decreases content@.len() - i,
    {
        proof {
            let next = blocks_view(content@.subrange(0, i + 1));
            assert(next.drop_last() =~= blocks_view(content@.subrange(0, i as int)));
            assert(next.last() == content@[i as int]@);
        }
        let ghost prev = r@;
        match &content[i] {
            ContentBlock::ToolUse { id, name, input } => {
                let call = ToolCall { id: id.clone(), name: name.clone(), input: input.clone() };
                r.push(call);
                assert(calls_view(r@) =~= calls_view(prev) + seq![call@]);
            },
            _ => {
                assert(calls_view(prev) + Seq::<CallView>::empty() =~= calls_view(prev));
            },
        }
        i = i + 1;
    }
    assert(content@.subrange(0, i as int) =~= content@);
    r
}

/// The answer of a turn that ran out of tool rounds, when that is not an error.
pub open spec fn rounds_exhausted_text() -> Seq<char> {
    "Maximum tool call rounds reached. Operation aborted."@
}

/// The system prompt of a request: the fixed prompt, then the memory context.
pub open spec fn system_with_context(prompt: Seq<char>, context: Seq<char>) -> Seq<char> {
    prompt + "\n\n# Current Context\n"@ + context
}

/// Composes the system prompt of a request.
pub fn compose_system_prompt(prompt: &str, context: &str) -> (r: String)
    ensures
        r@ == system_with_context(prompt@, context@),
{
    let mut r = String::from_str(prompt);
    r.append("\n\n# Current Context\n");
    r.append(context);
    r
}

/// What the caller is to do next in a turn.
#[derive(Debug)]
pub enum TurnStep {
    /// Run these tools, in order, and hand each result back.
    RunTools(Vec<ToolCall>),
    /// The turn is over.
    Finished(Result<InferenceResult, InferenceError>),
}

/// One turn of the agent.
#[derive(Debug)]
pub struct AgentTurn {
    system: String,
    messages: Vec<Message>,
    pending: Vec<ToolCall>,
    rounds: u32,
    max_rounds: u32,
    strict: bool,
    model_calls: u64,
    finished: bool,
}

impl AgentTurn {
    pub closed spec fn messages_v(&self) -> Seq<MessageView> {
        messages_view(self.messages@)
    }

    /// Tool calls asked for and not yet answered, in order.
    pub closed spec fn pending_v(&self) -> Seq<CallView> {
        calls_view(self.pending@)
    }

    pub closed spec fn system_v(&self) -> Seq<char> {
        self.system@
    }

    /// Tool rounds so far.
    pub closed spec fn rounds(&self) -> nat {
        self.rounds as nat
    }

    pub closed spec fn max_rounds(&self) -> nat {
        self.max_rounds as nat
    }

    /// Whether running out of rounds is an error rather than a fixed answer.
    pub closed spec fn strict(&self) -> bool {
        self.strict
    }

    /// Model calls so far.
    pub closed spec fn model_calls(&self) -> nat {
        self.model_calls as nat
    }

    pub closed spec fn finished(&self) -> bool {
        self.finished
    }

    /// The conversation starts with the user; rounds stay within the bound; every
    /// model call but a final one started a round.
    pub closed spec fn wf(&self) -> bool {
        &&& self.messages@.len() > 0
        &&& self.messages@[0].role == Role::User
        &&& self.rounds <= self.max_rounds
        &&& self.model_calls as nat == self.rounds as nat + if self.finished { 1nat } else { 0nat }
        &&& (self.finished ==> self.pending@.len() == 0)
    }

    /// A turn on `user_input` under system prompt `system`.
    pub fn new(system: String, user_input: String, max_rounds: u32, strict: bool) -> (r: AgentTurn)
        ensures
            r.wf(),
            r.messages_v() == seq![MessageView { role: Role::User, content: seq![BlockView::Text { text: user_input@ }] }],
            r.pending_v() == Seq::<CallView>::empty(),
            r.system_v() == system@,
            r.rounds() == 0,
            r.max_rounds() == max_rounds,
            r.strict() == strict,
            r.model_calls() == 0,
            !r.finished(),
    {
        let mut messages: Vec<Message> = Vec::new();
        messages.push(Message::user_text(user_input));
        let r = AgentTurn {
            system,
            messages,
            pending: Vec::new(),
            rounds: 0,
            max_rounds,
            strict,
            model_calls: 0,
            finished: false,
        };
        assert(r.messages_v() =~= seq![MessageView { role: Role::User, content: seq![BlockView::Text { text: user_input@ }] }]);
        assert(r.pending_v() =~= Seq::<CallView>::empty());
        r
    }

    /// Whether the turn is over.
    pub fn is_finished(&self) -> (r: bool)
        ensures
            r == self.finished(),
    {
        self.finished
    }

    /// Whether tool results are still owed.
    pub fn has_pending(&self) -> (r: bool)
        ensures
            r == (self.pending_v().len() > 0),
    {
        self.pending.len() > 0
    }

    /// The request for the next model call: the whole conversation, which starts with
    /// the user, under the turn's system prompt, with the given tools.
    pub fn request(&self, model: &str, max_tokens: u32, top_k: Option<u32>, tools: &Vec<ToolDefinition>) -> (r: Result<MessageRequest, InferenceError>)
        requires
            self.wf(),
        ensures
            r is Ok,
            r->Ok_0@.model == model@,
            r->Ok_0@.system == Some(self.system_v()),
            r->Ok_0@.messages == self.messages_v(),
            r->Ok_0@.messages.len() > 0 && r->Ok_0@.messages[0].role == Role::User,
            r->Ok_0@.tools == Some(tools_view(tools@)),
            r->Ok_0@.max_tokens == max_tokens,
            r->Ok_0@.top_k == top_k,
    {
        let mut builder = RequestBuilder::new(String::from_str(model))
            .system(self.system.clone())
            .max_tokens(max_tokens);
        let mut i: usize = 0;
        while i < self.messages.len()
            invariant
                i <= self.messages@.len(),
                self.wf(),
                builder@.model == model@,
                builder@.system == Some(self.system_v()),
                builder@.messages == messages_view(self.messages@.subrange(0, i as int)),
                builder@.tools is None,
                builder@.max_tokens == max_tokens,
                builder@.top_k is None,
            decreases self.messages@.len() - i,
        {
            let content = duplicate_blocks(&self.messages[i].content);
            builder = match self.messages[i].role {
                Role::User => builder.user_content(content),
                Role::Assistant => builder.assistant_content(content),
            };
            i = i + 1;
            assert(messages_view(self.messages@.subrange(0, i as int)) =~= messages_view(
                self.messages@.subrange(0, i - 1 as int),
            ).push(self.messages@[i - 1]@));
        }
        assert(self.messages@.subrange(0, i as int) =~= self.messages@);
        let mut tool_copies: Vec<ToolDefinition> = Vec::new();
        let mut j: usize = 0;
        while j < tools.len()
            invariant
                j <= tools@.len(),
                tools_view(tool_copies@) == tools_view(tools@.subrange(0, j as int)),
            decreases tools@.len() - j,
        {
            let t = tools[j].duplicate();
            let ghost prev = tool_copies@;
            tool_copies.push(t);
            j = j + 1;
            assert(tools_view(tool_copies@) =~= tools_view(prev).push(t@));
            assert(tools_view(tools@.subrange(0, j as int)) =~= tools_view(tools@.subrange(0, j - 1 as int)).push(tools@[j - 1]@));
        }
        assert(tools@.subrange(0, j as int) =~= tools@);
        builder = builder.tools(tool_copies);
        if let Some(k) = top_k {
            builder = builder.top_k(k);
        }
        proof {
            assert(builder@.messages[0].role == Role::User);
            assert(build_error(builder@.messages) is None);
        }
        match builder.build() {
            Ok(req) => Ok(req),
            Err(e) => Err(InferenceError::RequestBuild(e)),
        }
    }

    /// Takes the model's response. A tool-use response starts a new round, unless that
    /// would pass the bound: then the turn ends, with an error when strict and with a
    /// fixed answer otherwise. Any other response ends the turn with its text.
    pub fn on_response(&mut self, response: MessageResponse) -> (r: TurnStep)
        requires
            old(self).wf(),
            !old(self).finished(),
            old(self).pending_v().len() == 0,
        ensures
            final(self).wf(),
            final(self).model_calls() == old(self).model_calls() + 1,
            final(self).rounds() <= final(self).max_rounds(),
            r is Finished && r->Finished_0 is Ok ==> r->Finished_0->Ok_0.tool_rounds <= old(self).max_rounds(),
            final(self).system_v() == old(self).system_v(),
            final(self).max_rounds() == old(self).max_rounds(),
            final(self).strict() == old(self).strict(),
            ({
                let content = blocks_view(response.content@);
                let tool_use = response.stop_reason == Some(StopReason::ToolUse);
                let over = old(self).rounds() + 1 > old(self).max_rounds();
                &&& (tool_use && !over ==> {
                    &&& r is RunTools
                    &&& calls_view(r->RunTools_0@) == calls_of(content)
                    &&& final(self).pending_v() == calls_of(content)
                    &&& final(self).rounds() == old(self).rounds() + 1
                    &&& !final(self).finished()
                    &&& final(self).messages_v() == old(self).messages_v().push(MessageView { role: Role::Assistant, content })
                })
                &&& (tool_use && over ==> {
                    &&& r is Finished
                    &&& final(self).finished()
                    &&& final(self).rounds() == old(self).rounds()
                    &&& final(self).messages_v() == old(self).messages_v()
                    &&& (old(self).strict() ==> r->Finished_0 == Err::<InferenceResult, InferenceError>(
                        InferenceError::MaxToolRounds {
                            max_rounds: old(self).max_rounds() as u32,
                            actual_rounds: if old(self).rounds() < u32::MAX { (old(self).rounds() + 1) as u32 } else { old(self).rounds() as u32 },
                        },
                    ))
                    &&& (!old(self).strict() ==> r->Finished_0 is Ok
                        && r->Finished_0->Ok_0.text@ == rounds_exhausted_text()
                        && r->Finished_0->Ok_0.tool_rounds == old(self).rounds())
                })
                &&& (!tool_use ==> {
                    &&& r is Finished
                    &&& final(self).finished()
                    &&& final(self).rounds() == old(self).rounds()
                    &&& r->Finished_0 is Ok
                    &&& r->Finished_0->Ok_0.text@ == text_of(content)
                    &&& r->Finished_0->Ok_0.tool_rounds == old(self).rounds()
                    &&& final(self).messages_v() == old(self).messages_v().push(MessageView { role: Role::Assistant, content })
                })
            }),
    {
        self.model_calls = self.model_calls + 1;
        let tool_use = match response.stop_reason {
            Some(StopReason::ToolUse) => true,
            _ => false,
        };
        if tool_use {
            if self.rounds >= self.max_rounds {
                self.finished = true;
                if self.strict {
                    return TurnStep::Finished(Err(InferenceError::MaxToolRounds {
                        max_rounds: self.max_rounds,
                        actual_rounds: if self.rounds < u32::MAX { self.rounds + 1 } else { self.rounds },
                    }));
                } else {
                    return TurnStep::Finished(Ok(InferenceResult {
                        text: String::from_str("Maximum tool call rounds reached. Operation aborted."),
                        tool_rounds: self.rounds,
                    }));
                }
            }
            self.rounds = self.rounds + 1;
            let calls = extract_tool_calls(&response.content);
            let mine = extract_tool_calls(&response.content);
            let ghost prev = self.messages@;
            self.messages.push(Message { role: Role::Assistant, content: response.content });
            assert(messages_view(self.messages@) =~= messages_view(prev).push(self.messages@.last()@));
            self.pending = mine;
            TurnStep::RunTools(calls)
        } else {
            let text = extract_text(&response.content);
            let ghost prev = self.messages@;
            self.messages.push(Message { role: Role::Assistant, content: response.content });
            assert(messages_view(self.messages@) =~= messages_view(prev).push(self.messages@.last()@));
            self.finished = true;
            TurnStep::Finished(Ok(InferenceResult { text, tool_rounds: self.rounds }))
        }
    }

    /// Takes the result of the first pending tool call: a user message with the tool
    /// result, paired with the call's id, joins the conversation. Returns the journal
    /// entry that records it.
    pub fn on_tool_result(&mut self, result: Result<ToolOutput, String>) -> (r: MemoryEntry)
        requires
            old(self).wf(),
            old(self).pending_v().len() > 0,
        ensures
            final(self).wf(),
            final(self).model_calls() == old(self).model_calls(),
            final(self).rounds() == old(self).rounds(),
            final(self).finished() == old(self).finished(),
            final(self).system_v() == old(self).system_v(),
            final(self).max_rounds() == old(self).max_rounds(),
            final(self).strict() == old(self).strict(),
            final(self).pending_v() == old(self).pending_v().drop_first(),
            ({
                let call = old(self).pending_v()[0];
                let (text, flag) = tool_result_text(result);
                &&& final(self).messages_v() == old(self).messages_v().push(MessageView {
                    role: Role::User,
                    content: seq![BlockView::ToolResult { tool_use_id: call.id, content: text, is_error: Some(flag) }],
                })
                &&& r@ == match result {
                    Ok(_) => EntryView::ToolResult { tool: call.name, result: text },
                    Err(e) => EntryView::Error(call.name + ": "@ + e@),
                }
            }),
    {
        let call = self.pending.remove(0);
        assert(calls_view(self.pending@) =~= calls_view(old(self).pending@).drop_first());
        let (text, flag, entry) = match result {
            Ok(output) => {
                let text = if output.is_error {
                    String::from_str("Error: ").concat(output.content.as_str())
                } else {
                    output.content
                };
                let entry = MemoryEntry::ToolResult { tool: call.name.clone(), result: text.clone() };
                (text, output.is_error, entry)
            },
            Err(e) => {
                let text = String::from_str("Error: ").concat(e.as_str());
                let mut note = call.name.clone();
                note.append(": ");
                note.append(e.as_str());
                (text, true, MemoryEntry::Error(note))
            },
        };
        let mut blocks: Vec<ContentBlock> = Vec::new();
        blocks.push(ContentBlock::ToolResult { tool_use_id: call.id, content: text, is_error: Some(flag) });
        let ghost prev = self.messages@;
        self.messages.push(Message { role: Role::User, content: blocks });
        assert(messages_view(self.messages@) =~= messages_view(prev).push(self.messages@.last()@));
        assert(blocks_view(blocks@) =~= seq![blocks@[0]@]);
        entry
    }

    /// The conversation so far.
    pub fn messages(&self) -> (r: &Vec<Message>)
        ensures
            messages_view(r@) == self.messages_v(),
    {
        &self.messages
    }
}

/// The text and error flag of a tool result as the model sees it: a failure's text is
/// marked as an error.
pub open spec fn tool_result_text(result: Result<ToolOutput, String>) -> (Seq<char>, bool) {
    match result {
        Ok(out) => if out.is_error {
            ("Error: "@ + out.content@, true)
        } else {
            (out.content@, false)
        },
        Err(e) => ("Error: "@ + e@, true),
    }
}

/// However the model responds, a turn calls it at most one time more than the bound
/// on tool rounds.
pub proof fn lemma_bounded_model_calls(t: AgentTurn)
    requires
        t.wf(),
    ensures
        t.rounds() <= t.max_rounds(),
        t.model_calls() <= t.max_rounds() + 1,
        !t.finished() ==> t.model_calls() <= t.max_rounds(),
{
}

/// How answering a request ended.
#[derive(Debug)]
pub enum HandleOutcome {
    /// The turn ended with an answer or an error.
    Done(Result<String, AgentError>),
    /// The turn did not end in time.
    TimedOut,
}

/// The reply to the client and the journal entry for a request `query` that ended
/// with `outcome`.
pub fn respond(query: &str, outcome: HandleOutcome) -> (r: (UserResponse, MemoryEntry))
    ensures
        match outcome {
            HandleOutcome::Done(Ok(text)) => {
                &&& r.0.content@ == text@ && !r.0.is_error
                &&& r.1@ == EntryView::UserInteraction { query: query@, response: text@ }
            },
            HandleOutcome::Done(Err(e)) => {
                &&& r.0.content@ == agent_error_text(e) && r.0.is_error
                &&& r.1@ == EntryView::Error(agent_error_text(e))
            },
            HandleOutcome::TimedOut => {
                &&& r.0.content@ == "Request timeout"@ && r.0.is_error
                &&& r.1@ == EntryView::Error("Handle timeout"@)
            },
        },
{
    match outcome {
        HandleOutcome::Done(Ok(text)) => {
            let entry = MemoryEntry::UserInteraction { query: String::from_str(query), response: text.clone() };
            (UserResponse::new(text), entry)
        },
        HandleOutcome::Done(Err(e)) => {
            let msg = e.message();
            let entry = MemoryEntry::Error(msg.clone());
            (UserResponse::error(msg), entry)
        },
        HandleOutcome::TimedOut => (
            UserResponse::error(String::from_str("Request timeout")),
            MemoryEntry::Error(String::from_str("Handle timeout")),
        ),
    }
}

/// The answer of a finished turn, as the agent reports it.
pub fn turn_answer(result: Result<InferenceResult, InferenceError>) -> (r: Result<String, AgentError>)
    ensures
        match result {
            Ok(res) => r is Ok && r->Ok_0@ == res.text@,
            Err(e) => r is Err && r->Err_0 is Inference && r->Err_0->Inference_0@ == inference_error_text(e),
        },
{
    match result {
        Ok(res) => Ok(res.text),
        Err(e) => Err(AgentError::Inference(e.message())),
    }
}

/// The agent error for a failed model call.
pub fn inference_failure(e: &BrainError) -> (r: AgentError)
    ensures
        r is Inference && r->Inference_0@ == brain_error_text(*e),
{
    AgentError::Inference(e.message())
}

/// The observation recorded after the shutdown turn.
pub fn shutdown_observation(response: &str) -> (r: String)
    ensures
        r@ == "Shutdown: "@ + response@,
{
    String::from_str("Shutdown: ").concat(response)
}

/// The prompt of the shutdown turn.
pub fn shutdown_prompt() -> (r: String)
    ensures
        r@ == "The system is about to shut down. Please save any important state and perform any necessary cleanup. Report what you did."@,
{
    String::from_str(
        "The system is about to shut down. Please save any important state and perform any necessary cleanup. Report what you did.",
    )
}

} // verus!
