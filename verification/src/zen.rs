//! A provider that reaches its models through the Zen gateway: what it asks, and how
//! it reads the streamed answer.

use crate::backend::filled_text;
use crate::plugins::{lossy, lossy_text};
use crate::text::{
    after_prefix, concat, cut, decimal, first_index, from_chars, number, opt, opt_clone, split_once,
    str_eq, strip_prefix, to_chars, trim_chars, trimmed,
};
use crate::types::{byte_len, bytes_of, AgentEvent, AgentResult, AgentRunConfig, Usage};
use crate::view::concat3;
use vstd::prelude::*;

verus! {

/// Where the gateway is.
pub const ZEN_BASE_URL: &'static str = "https://opencode.ai/zen/v1";

/// The model that is asked where none is named.
pub const DEFAULT_MODEL: &'static str = "gpt-5.4";

/// The address of a chat request.
pub fn chat_url() -> (r: String)
    ensures
        r@ == ZEN_BASE_URL@ + "/chat/completions"@,
{
    concat(ZEN_BASE_URL, "/chat/completions")
}

// ---------- asking ----------

/// One message of a chat.
#[derive(Debug)]
pub struct ChatMessage {
    pub role: String,
    pub content: String,
}

/// What some messages are: role and content of each.
pub open spec fn message_views(s: Seq<ChatMessage>) -> Seq<(Seq<char>, Seq<char>)> {
    s.map_values(|m: ChatMessage| (m.role@, m.content@))
}

/// A chat request; its temperature is added where it is sent.
#[derive(Debug)]
pub struct ChatRequest {
    pub model: String,
    pub messages: Vec<ChatMessage>,
    pub max_tokens: Option<u32>,
    pub stream: bool,
}

/// A request for one completion.
#[derive(Debug)]
pub struct CompleteRequest {
    pub model: String,
    pub prompt: String,
    pub system: Option<String>,
    pub max_tokens: Option<u32>,
}

/// The answer to a request for one completion.
#[derive(Debug)]
pub struct CompleteResponse {
    pub content: String,
    pub usage: Option<Usage>,
}

fn put_message(out: &mut Vec<ChatMessage>, role: &str, content: &str)
    ensures
        message_views(final(out)@) == message_views(old(out)@).push((role@, content@)),
{
    let ghost before = message_views(out@);
    out.push(ChatMessage { role: role.to_owned(), content: content.to_owned() });
    assert(message_views(out@) =~= before.push((role@, content@)));
}

/// A model, or the default one for an empty name.
pub open spec fn model_or_default(model: Option<Seq<char>>) -> Seq<char> {
    match filled_text(model) {
        Some(m) => m,
        None => DEFAULT_MODEL@,
    }
}

fn named_model(model: &str) -> (r: String)
    ensures
        r@ == model_or_default(Some(model@)),
{
    proof {
        reveal_strlit("");
        assert(model@.len() == 0 ==> model@ =~= ""@);
    }
    if str_eq(model, "") {
        DEFAULT_MODEL.to_owned()
    } else {
        model.to_owned()
    }
}

/// The messages of a completion.
pub open spec fn complete_messages(
    system: Option<Seq<char>>,
    prompt: Seq<char>,
) -> Seq<(Seq<char>, Seq<char>)> {
    match system {
        Some(s) => seq![("system"@, s), ("user"@, prompt)],
        None => seq![("user"@, prompt)],
    }
}

/// What is asked for one completion.
pub fn complete_request(model: &str, request: &CompleteRequest) -> (r: ChatRequest)
    ensures
        r.model@ == model_or_default(Some(model@)),
        message_views(r.messages@) == complete_messages(opt(request.system), request.prompt@),
        r.max_tokens == request.max_tokens,
        !r.stream,
{
    let mut messages: Vec<ChatMessage> = Vec::new();
    assert(message_views(messages@) =~= Seq::empty());
    if let Some(system) = &request.system {
        put_message(&mut messages, "system", system.as_str());
    }
    put_message(&mut messages, "user", request.prompt.as_str());
    assert(message_views(messages@) =~= complete_messages(opt(request.system), request.prompt@));
    ChatRequest {
        model: named_model(model),
        messages,
        max_tokens: request.max_tokens,
        stream: false,
    }
}

/// The completion among the choices of an answer: the first one.
pub fn complete_response(choices: &Vec<String>, usage: Option<Usage>) -> (r: Result<
    CompleteResponse,
    String,
>)
    ensures
        if choices@.len() > 0 {
            r matches Ok(c) && c.content@ == choices@[0]@ && c.usage == usage
        } else {
            r matches Err(e) && e@ == "Zen API returned no choices"@
        },
{
    if choices.len() > 0 {
        Ok(CompleteResponse { content: choices[0].clone(), usage })
    } else {
        Err("Zen API returned no choices".to_string())
    }
}

/// What a chunk of a stream adds: the text of its first choice, if it has one.
pub fn first_delta(choices: &Vec<Option<String>>) -> (r: Option<String>)
    ensures
        opt(r) == (if choices@.len() > 0 {
            opt(choices@[0])
        } else {
            None
        }),
{
    if choices.len() > 0 {
        opt_clone(&choices[0])
    } else {
        None
    }
}

/// The error of an answer with a status that is no success.
pub fn api_error(status: &str, text: &str) -> (r: String)
    ensures
        r@ == "Zen API error "@ + status@ + ": "@ + text@,
{
    concat(concat3("Zen API error ", status, ": ").as_str(), text)
}

// ---------- agent runs ----------

/// What the model is told of its work.
pub open spec fn system_prompt(description: Option<Seq<char>>) -> Seq<char> {
    let base =
        "You are an AI agent working on a goal/task. Analyze the task and provide a thorough, actionable response. If the task is a goal that needs to be broken down, provide a clear plan. If the task is something you can complete directly, do so."@;
    match filled_text(description) {
        Some(d) => base + "\n\nTask description: "@ + d,
        None => base,
    }
}

/// What the model is told of its work.
pub fn build_system_prompt(config: &AgentRunConfig) -> (r: String)
    ensures
        r@ == system_prompt(opt(config.description)),
{
    let base =
        "You are an AI agent working on a goal/task. Analyze the task and provide a thorough, actionable response. If the task is a goal that needs to be broken down, provide a clear plan. If the task is something you can complete directly, do so.";
    match &config.description {
        Some(d) => {
            proof {
                reveal_strlit("");
                assert(d@.len() == 0 ==> d@ =~= ""@);
            }
            if str_eq(d.as_str(), "") {
                base.to_owned()
            } else {
                concat3(base, "\n\nTask description: ", d.as_str())
            }
        },
        None => base.to_owned(),
    }
}

/// What the model is asked to do.
pub open spec fn user_prompt(title: Seq<char>) -> Seq<char> {
    "Task: "@ + title + "\n\nPlease work on completing the task."@
}

/// What the model is asked to do.
pub fn build_user_prompt(config: &AgentRunConfig) -> (r: String)
    ensures
        r@ == user_prompt(config.title@),
{
    concat3("Task: ", config.title.as_str(), "\n\nPlease work on completing the task.")
}

/// What is asked for a run.
pub fn run_request(config: &AgentRunConfig) -> (r: ChatRequest)
    ensures
        r.model@ == model_or_default(opt(config.model)),
        message_views(r.messages@) == seq![
            ("system"@, system_prompt(opt(config.description))),
            ("user"@, user_prompt(config.title@)),
        ],
        r.max_tokens is None,
        r.stream,
{
    let mut messages: Vec<ChatMessage> = Vec::new();
    assert(message_views(messages@) =~= Seq::empty());
    put_message(&mut messages, "system", build_system_prompt(config).as_str());
    put_message(&mut messages, "user", build_user_prompt(config).as_str());
    assert(message_views(messages@) =~= seq![
        ("system"@, system_prompt(opt(config.description))),
        ("user"@, user_prompt(config.title@)),
    ]);
    let model = match &config.model {
        Some(m) => named_model(m.as_str()),
        None => DEFAULT_MODEL.to_owned(),
    };
    ChatRequest { model, messages, max_tokens: None, stream: true }
}

/// Whether an event is progress with this message and detail.
pub open spec fn is_progress(e: AgentEvent, message: Seq<char>, detail: Option<Seq<char>>) -> bool {
    e matches AgentEvent::Progress { message: m, detail: d } && m@ == message && opt(d) == detail
}

/// The first event of a run.
pub fn starting(config: &AgentRunConfig) -> (r: AgentEvent)
    ensures
        is_progress(
            r,
            "Starting agent run..."@,
            Some(
                "model: "@ + (match config.model {
                    Some(m) => m@,
                    None => "default"@,
                }),
            ),
        ),
{
    let model = match &config.model {
        Some(m) => m.as_str(),
        None => "default",
    };
    AgentEvent::Progress {
        message: "Starting agent run...".to_string(),
        detail: Some(concat("model: ", model)),
    }
}

/// The event of a request that is sent.
pub fn calling(request: &ChatRequest) -> (r: AgentEvent)
    ensures
        is_progress(r, "Calling Zen API (model: "@ + request.model@ + ")..."@, None),
{
    AgentEvent::Progress {
        message: concat3("Calling Zen API (model: ", request.model.as_str(), ")..."),
        detail: None,
    }
}

/// The event of a run that failed.
pub fn failed(error: &str) -> (r: AgentEvent)
    ensures
        r matches AgentEvent::Error { message, detail } && message@ == "Agent run failed"@ && opt(
            detail,
        ) == Some(error@),
{
    AgentEvent::Error {
        message: "Agent run failed".to_string(),
        detail: Some(error.to_owned()),
    }
}

// ---------- reading the stream ----------

/// The data of a line, if it carries some: what stands behind `data: `, but for the
/// mark of the end.
pub open spec fn data_of(line: Seq<char>) -> Option<Seq<char>> {
    match after_prefix(trimmed(line), "data: "@) {
        Some(d) => if d == "[DONE]"@ {
            None
        } else {
            Some(d)
        },
        None => None,
    }
}

/// The data of the complete lines of a text, in order.
pub open spec fn all_data(text: Seq<char>) -> Seq<Seq<char>>
    decreases text.len(),
    via all_data_decreases
{
    match split_once(text, '\n') {
        Some((line, rest)) => match data_of(line) {
            Some(d) => seq![d] + all_data(rest),
            None => all_data(rest),
        },
        None => Seq::empty(),
    }
}

#[via_fn]
proof fn all_data_decreases(text: Seq<char>) {
    lemma_cut(text);
}

/// What stands behind the last complete line of a text.
pub open spec fn incomplete(text: Seq<char>) -> Seq<char>
    decreases text.len(),
    via incomplete_decreases
{
    match split_once(text, '\n') {
        Some((line, rest)) => incomplete(rest),
        None => text,
    }
}

#[via_fn]
proof fn incomplete_decreases(text: Seq<char>) {
    lemma_cut(text);
}

proof fn lemma_cut(text: Seq<char>)
    ensures
        match first_index(text, '\n') {
            Some(i) => 0 <= i < text.len(),
            None => true,
        },
    decreases text.len(),
{
    if text.len() > 0 {
        lemma_cut(text.drop_first());
    }
}

proof fn lemma_cut_extends(a: Seq<char>, b: Seq<char>)
    ensures
        first_index(a, '\n') is Some ==> first_index(a + b, '\n') == first_index(a, '\n'),
    decreases a.len(),
{
    if a.len() > 0 {
        assert((a + b).drop_first() =~= a.drop_first() + b);
        lemma_cut_extends(a.drop_first(), b);
    }
}

/// However a stream is cut into chunks, the same data comes out: what the first part
/// gives, and what its incomplete end gives with the second.
pub proof fn law_chunks_add_up(a: Seq<char>, b: Seq<char>)
    ensures
        all_data(a + b) == all_data(a) + all_data(incomplete(a) + b),
        incomplete(a + b) == incomplete(incomplete(a) + b),
    decreases a.len(),
{
    match first_index(a, '\n') {
        Some(i) => {
            lemma_cut(a);
            lemma_cut_extends(a, b);
            let rest = a.skip(i + 1);
            assert((a + b).take(i) =~= a.take(i));
            assert((a + b).skip(i + 1) =~= rest + b);
            law_chunks_add_up(rest, b);
            assert(all_data(a + b) =~= all_data(a) + all_data(incomplete(a) + b));
        },
        None => {
            assert(all_data(a + b) =~= all_data(a) + all_data(incomplete(a) + b));
        },
    }
}

/// A streamed answer: the lines that have not been read yet, and the content so far.
#[derive(Debug)]
pub struct AnswerStream {
    pub buffer: Vec<char>,
    pub content: String,
}

impl AnswerStream {
    /// Nothing received.
    pub fn new() -> (r: AnswerStream)
        ensures
            r.buffer@.len() == 0,
            r.content@.len() == 0,
    {
        AnswerStream { buffer: Vec::new(), content: String::new() }
    }

    /// Takes a chunk of bytes.
    pub fn feed(&mut self, chunk: &Vec<u8>)
        ensures
            final(self).buffer@ == old(self).buffer@ + lossy_text(chunk@),
            final(self).content == old(self).content,
    {
        let mut text = to_chars(lossy(chunk).as_str());
        self.buffer.append(&mut text);
    }

    /// The next data of the complete lines, or none.
    pub fn next_data(&mut self) -> (r: Option<String>)
        ensures
            final(self).content == old(self).content,
            match r {
                Some(d) => all_data(old(self).buffer@) == seq![d@] + all_data(final(self).buffer@)
                    && incomplete(old(self).buffer@) == incomplete(final(self).buffer@),
                None => all_data(old(self).buffer@).len() == 0 && final(self).buffer@ == incomplete(
                    old(self).buffer@,
                ),
            },
    {
        loop
            invariant
                self.content == old(self).content,
                all_data(self.buffer@) == all_data(old(self).buffer@),
                incomplete(self.buffer@) == incomplete(old(self).buffer@),
            decreases self.buffer@.len(),
        {
            proof {
                lemma_cut(self.buffer@);
            }
            match cut(&self.buffer, '\n') {
                Some((line, rest)) => {
                    self.buffer = rest;
                    let line = trim_chars(&line);
                    if let Some(data) = strip_prefix(&line, "data: ") {
                        let data = from_chars(&data);
                        if !str_eq(data.as_str(), "[DONE]") {
                            return Some(data);
                        }
                    }
                },
                None => {
                    return None;
                },
            }
        }
    }

    /// Takes the content that some data held; what is not empty is reported.
    pub fn received(&mut self, content: Option<String>) -> (r: Option<AgentEvent>)
        ensures
            final(self).buffer == old(self).buffer,
            match filled_text(opt(content)) {
                Some(c) => final(self).content@ == old(self).content@ + c && r is Some && is_progress(
                    r->0,
                    "Received "@ + decimal(byte_len(final(self).content@)) + " chars..."@,
                    Some(c),
                ),
                None => final(self).content == old(self).content && r is None,
            },
    {
        let text = match content {
            Some(t) => t,
            None => {
                return None;
            },
        };
        proof {
            reveal_strlit("");
            assert(text@.len() == 0 ==> text@ =~= ""@);
        }
        if str_eq(text.as_str(), "") {
            return None;
        }
        self.content = concat(self.content.as_str(), text.as_str());
        let n: usize = bytes_of(self.content.as_str());
        Some(
            AgentEvent::Progress {
                message: concat3("Received ", number(n as u64).as_str(), " chars..."),
                detail: Some(text),
            },
        )
    }

    /// The last event of a run: all content that came.
    pub fn result(&self) -> (r: AgentEvent)
        ensures
            r matches AgentEvent::Result(a) && a.content@ == self.content@ && a.files@.len() == 0
                && a.usage is None,
    {
        AgentEvent::Result(
            AgentResult { content: self.content.clone(), files: Vec::new(), usage: None },
        )
    }
}

/// A line carries what stands behind its mark; the line that ends the stream and lines
/// without the mark carry nothing.
pub proof fn law_lines_carry_data(d: Seq<char>, line: Seq<char>)
    requires
        d.len() > 0,
        !crate::text::is_white_space(d.last()),
    ensures
        d != "[DONE]"@ ==> data_of("data: "@ + d) == Some(d),
        data_of("data: "@ + "[DONE]"@) is None,
        !crate::text::starts_with(trimmed(line), "data: "@) ==> data_of(line) is None,
        data_of("data: "@ + d + seq!['\r']) == data_of("data: "@ + d),
{
    reveal_strlit("data: ");
    reveal_strlit("[DONE]");
    let e = Seq::<char>::empty();
    let r = seq!['\r'];
    let s = "data: "@ + d;
    let z = "data: "@ + "[DONE]"@;
    assert(s.last() == d.last());
    assert(crate::text::is_blank(r));
    crate::text::law_trimming_cuts_blanks_at_both_ends(e, s, e);
    crate::text::law_trimming_cuts_blanks_at_both_ends(e, s, r);
    crate::text::law_trimming_cuts_blanks_at_both_ends(e, z, e);
    assert(e + s + e =~= s);
    assert(e + s + r =~= s + r);
    assert(e + z + e =~= z);
    crate::text::law_a_text_holds_its_parts(e, "data: "@, d);
    crate::text::law_a_text_holds_its_parts(e, "data: "@, "[DONE]"@);
}

/// The data of a stream is that of its complete lines, line by line; what has no line break
/// behind it waits.
pub proof fn law_complete_lines_are_read(line: Seq<char>, rest: Seq<char>)
    requires
        forall|i: int| 0 <= i < line.len() ==> line[i] != '\n',
    ensures
        all_data(line).len() == 0,
        incomplete(line) == line,
        data_of(line) is Some ==> all_data(line + seq!['\n'] + rest) == seq![data_of(line)->0]
            + all_data(rest),
        data_of(line) is None ==> all_data(line + seq!['\n'] + rest) == all_data(rest),
        incomplete(line + seq!['\n'] + rest) == incomplete(rest),
{
    crate::text::lemma_first_index(line, '\n');
    let s = line + seq!['\n'] + rest;
    crate::text::lemma_first_index_is(s, '\n', line.len() as int);
    assert(s.take(line.len() as int) =~= line);
    assert(s.skip(line.len() as int + 1) =~= rest);
}

/// A completion begins with what the system is told, if it is told anything, and ends with
/// the prompt of the user.
pub proof fn law_completions_end_with_the_prompt(system: Option<Seq<char>>, prompt: Seq<char>)
    ensures
        complete_messages(system, prompt).last() == ("user"@, prompt),
        system is Some ==> complete_messages(system, prompt).len() == 2 && complete_messages(
            system,
            prompt,
        )[0] == ("system"@, system->0),
        system is None ==> complete_messages(system, prompt).len() == 1,
{
}

proof fn lemma_told(base: Seq<char>, d: Seq<char>)
    ensures
        crate::text::ends_with(base + "\n\nTask description: "@ + d, "Task description: "@ + d),
{
    reveal_strlit("\n\nTask description: ");
    reveal_strlit("Task description: ");
    reveal_strlit("\n\n");
    assert("\n\nTask description: "@ =~= "\n\n"@ + "Task description: "@);
    let tail = "Task description: "@ + d;
    crate::text::law_a_text_holds_its_parts(base + "\n\n"@, tail, Seq::empty());
    assert(base + "\n\nTask description: "@ + d =~= base + "\n\n"@ + tail);
}

/// The model is told the title of the task, and its description where it has one.
pub proof fn law_prompts_hold_the_task(title: Seq<char>, description: Seq<char>)
    ensures
        crate::text::starts_with(user_prompt(title), "Task: "@ + title),
        description.len() > 0 ==> crate::text::ends_with(
            system_prompt(Some(description)),
            "Task description: "@ + description,
        ),
        system_prompt(Some(Seq::empty())) == system_prompt(None),
{
    crate::text::law_a_text_holds_its_parts(
        Seq::empty(),
        "Task: "@ + title,
        "\n\nPlease work on completing the task."@,
    );
    lemma_told(system_prompt(None), description);
}

/// A named model is the one that is asked.
pub proof fn law_a_named_model_is_asked(model: Seq<char>)
    ensures
        model.len() > 0 ==> model_or_default(Some(model)) == model,
        model_or_default(Some(Seq::empty())) == model_or_default(None),
{
}

} // verus!
