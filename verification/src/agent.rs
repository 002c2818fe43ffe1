//! What an agent puts before a model: the security context of a request, and the
//! parts of its system prompt.

use std::path::PathBuf;
use vstd::prelude::*;
use vstd::utf8::encode_utf8;

use crate::context::{ContextView, SecurityContext};
use crate::hash::{content_hash, fingerprint};
use crate::options::{switch, ContextOptions, EnvText, OptionsError};
use crate::prompt::{context_opens_once, prompt_text, unopened};
use crate::text::{
    blank, blank_is_trimmed_to_nothing, contains_text, decimal, find, first_occurrence, is_blank,
    occurs_at, same_text, suffix, to_decimal, to_truth, trim, trimmed, truth,
};

verus! {

/// The session that an agent works in.
#[derive(Debug, Clone, PartialEq, Eq)]
pub struct Session {
    pub id: String,
    pub working_dir: Option<String>,
    pub is_canary: bool,
}

/// What an agent goes by when it prepares a request.
#[derive(Debug, Clone)]
pub struct Agent {
    /// Options that stand in for those of the environment. They are not kept with
    /// the session.
    pub security_graph_options: Option<ContextOptions>,
    pub session: Session,
    pub memory_enabled: bool,
    pub current_turn_system_reminder: Option<String>,
    pub system_prompt_override: Option<String>,
    pub active_skill: Option<String>,
    /// The text of the project's AGENTS.md, as the session took it up.
    pub agents_md_snapshot: Option<String>,
}

/// What a security context is to be loaded with.
#[derive(Debug, Clone)]
pub struct ContextPlan {
    pub options: ContextOptions,
    /// The session's directory; where it has none, the process's directory is used.
    pub working_dir: Option<String>,
}

/// A part of a message.
#[derive(Debug, Clone, PartialEq, Eq)]
pub enum ContentBlock {
    Text { text: String },
    /// An image, a tool call, a tool result or the like.
    Other,
}

/// Who a message is from.
#[derive(Debug, Clone, Copy, PartialEq, Eq, Structural)]
pub enum Role {
    User,
    Assistant,
}

/// A message of a conversation.
#[derive(Debug, Clone, PartialEq, Eq)]
pub struct Message {
    pub role: Role,
    pub content: Vec<ContentBlock>,
}

/// An event for the log: its name, and its fields in order.
#[derive(Debug, Clone, PartialEq, Eq)]
pub struct LogEvent {
    pub name: String,
    pub fields: Vec<(String, String)>,
}

/// What a [`LogEvent`] says.
pub struct EventView {
    pub name: Seq<char>,
    pub fields: Seq<(Seq<char>, Seq<char>)>,
}

impl View for LogEvent {
    type V = EventView;

    open spec fn view(&self) -> EventView {
        EventView {
            name: self.name@,
            fields: self.fields@.map_values(|f: (String, String)| (f.0@, f.1@)),
        }
    }
}

/// A context that is supplied with a request: the message that carries it, the event
/// for the log, and the line for a trace.
#[derive(Debug, Clone, PartialEq, Eq)]
pub struct ContextReport {
    pub message: Message,
    pub event: LogEvent,
    pub trace: String,
}

/// A request that carries a context: the event for the log, and the line for a trace.
#[derive(Debug, Clone, PartialEq, Eq)]
pub struct RequestReport {
    pub event: LogEvent,
    pub trace: String,
}

/// The event of a context that was loaded.
pub open spec fn context_event(session: Seq<char>, shown_path: Seq<char>, c: ContextView) -> EventView {
    EventView {
        name: "SECURITY_CONTEXT"@,
        fields: seq![
            ("session_id"@, session),
            ("graph_path"@, shown_path),
            ("graph_hash"@, c.graph_hash),
            ("context_hash"@, fingerprint(encode_utf8(c.prompt))),
            ("nodes"@, decimal(c.node_count)),
            ("edges"@, decimal(c.edge_count)),
            ("sources_match"@, truth(c.sources_match)),
            ("context_bytes"@, decimal(encode_utf8(c.prompt).len())),
        ],
    }
}

/// The trace of a context that was loaded.
pub open spec fn context_trace(session: Seq<char>, shown_path: Seq<char>, c: ContextView) -> Seq<
    char,
> {
    "[trace] security_graph loaded session="@ + session + " path="@ + shown_path
        + " graph_hash="@ + c.graph_hash + " context_hash="@ + fingerprint(encode_utf8(c.prompt))
        + " nodes="@ + decimal(c.node_count) + " edges="@ + decimal(c.edge_count)
        + " sources_match="@ + truth(c.sources_match) + " bytes="@ + decimal(
        encode_utf8(c.prompt).len(),
    )
}

/// The event of a context that goes out with a request.
pub open spec fn request_event(
    session: Seq<char>,
    stage: Seq<char>,
    model: Seq<char>,
    context: Seq<char>,
) -> EventView {
    EventView {
        name: "SECURITY_CONTEXT_REQUEST"@,
        fields: seq![
            ("session_id"@, session),
            ("stage"@, stage),
            ("context_hash"@, fingerprint(encode_utf8(context))),
            ("model"@, model),
            ("context_bytes"@, decimal(encode_utf8(context).len())),
        ],
    }
}

/// The trace of a context that goes out with a request.
pub open spec fn request_trace(
    session: Seq<char>,
    stage: Seq<char>,
    model: Seq<char>,
    context: Seq<char>,
) -> Seq<char> {
    "[trace] security_graph "@ + stage + " session="@ + session + " model="@ + model
        + " context_hash="@ + fingerprint(encode_utf8(context)) + " bytes="@ + decimal(
        encode_utf8(context).len(),
    )
}

/// What marks the beginning of a security context in a message.
pub open spec fn marker() -> Seq<char> {
    "<security-context>"@
}

/// The block is a text with a security context, which is `context`: all from the marker on.
pub open spec fn block_context(block: ContentBlock, context: Seq<char>) -> bool {
    block matches ContentBlock::Text { text } && exists|at: int|
        first_occurrence(text@, marker(), at) && context == #[trigger] text@.subrange(
            at,
            text@.len() as int,
        )
}

/// The block is a text with a security context.
pub open spec fn has_context(block: ContentBlock) -> bool {
    block matches ContentBlock::Text { text } && contains_text(text@, marker())
}

/// `context` is the security context of a message: that of the first block that has one.
pub open spec fn message_context(content: Seq<ContentBlock>, context: Seq<char>) -> bool {
    exists|at: int|
        0 <= at < content.len() && block_context(#[trigger] content[at], context) && forall|i: int|
            0 <= i < at ==> !has_context(#[trigger] content[i])
}

/// The two parts of a system prompt: one that stays and can be cached, and one
/// that changes.
#[derive(Debug, Clone, PartialEq, Eq)]
pub struct SplitSystemPrompt {
    pub static_part: String,
    pub dynamic_part: String,
}

/// The changing part of a prompt with a reminder behind it.
pub open spec fn with_reminder(dynamic: Seq<char>, reminder: Option<Seq<char>>) -> Seq<char> {
    match reminder {
        None => dynamic,
        Some(reminder) => if blank(reminder) {
            dynamic
        } else if dynamic.len() == 0 {
            "# System Reminder\n\n"@ + trimmed(reminder)
        } else {
            dynamic + "\n\n"@ + "# System Reminder\n\n"@ + trimmed(reminder)
        },
    }
}

/// What a text that may be missing says.
pub open spec fn text_view(s: Option<String>) -> Option<Seq<char>> {
    match s {
        Some(s) => Some(s@),
        None => None,
    }
}

/// A skill that an agent has.
#[derive(Debug, Clone, PartialEq, Eq)]
pub struct Skill {
    pub name: String,
    pub description: String,
    pub prompt: String,
}

/// A skill as the system prompt lists it.
#[derive(Debug, Clone, PartialEq, Eq)]
pub struct SkillInfo {
    pub name: String,
    pub description: String,
}

/// What a system prompt is composed of.
#[derive(Debug, Clone, PartialEq, Eq)]
pub struct PromptInputs {
    /// The prompt of the active skill.
    pub skill_prompt: Option<String>,
    pub available_skills: Vec<SkillInfo>,
    pub is_canary: bool,
    pub memory_prompt: Option<String>,
    pub working_dir: Option<String>,
    /// The text of the project's AGENTS.md.
    pub agents_md: Option<String>,
}

/// What a memory update is about.
#[derive(Debug, Clone, PartialEq, Eq)]
pub struct MemoryUpdate {
    pub session_id: String,
    pub working_dir: Option<String>,
}

/// The prompt of the first skill of the given name.
pub open spec fn skill_prompt(skills: Seq<Skill>, name: Seq<char>) -> Option<Seq<char>>
    decreases skills.len(),
{
    if skills.len() == 0 {
        None
    } else if skills[0].name@ == name {
        Some(skills[0].prompt@)
    } else {
        skill_prompt(skills.drop_first(), name)
    }
}

/// The inputs are those of an agent's system prompt: the prompt of the active skill,
/// what every skill is called and is about, and what the session and memory give.
pub open spec fn inputs_of(
    agent: Agent,
    skills: Seq<Skill>,
    memory_prompt: Option<&str>,
    inputs: PromptInputs,
) -> bool {
    &&& text_view(inputs.skill_prompt) == match agent.active_skill {
        Some(name) => skill_prompt(skills, name@),
        None => None,
    }
    &&& inputs.available_skills@.len() == skills.len()
    &&& forall|i: int|
        0 <= i < skills.len() ==> (#[trigger] inputs.available_skills@[i]).name == skills[i].name
            && inputs.available_skills@[i].description == skills[i].description
    &&& inputs.is_canary == agent.session.is_canary
    &&& text_view(inputs.memory_prompt) == match memory_prompt {
        Some(s) => Some(s@),
        None => None,
    }
    &&& inputs.working_dir == agent.session.working_dir
    &&& inputs.agents_md == agent.agents_md_snapshot
}

/// `after` is `before` with the reminder of an agent's current turn behind it.
pub open spec fn reminded(
    agent: Agent,
    before: SplitSystemPrompt,
    after: SplitSystemPrompt,
) -> bool {
    &&& after.static_part == before.static_part
    &&& after.dynamic_part@ == with_reminder(
        before.dynamic_part@,
        text_view(agent.current_turn_system_reminder),
    )
}

/// The sentence that accounts for the size of a prompt.
pub open spec fn accounting_text(system: nat, tools: nat) -> Seq<char> {
    "Prompt prefix estimate: total="@ + decimal(system + tools) + " tokens (system="@ + decimal(
        system,
    ) + " tools="@ + decimal(tools) + ")"@
}

fn add_log_field(fields: &mut Vec<(String, String)>, name: &str, value: String)
    ensures
        final(fields)@.map_values(|f: (String, String)| (f.0@, f.1@)) == old(fields)@.map_values(
            |f: (String, String)| (f.0@, f.1@),
        ).push((name@, value@)),
{
    let ghost before = fields@;
    fields.push((name.to_owned(), value));
    assert(fields@.map_values(|f: (String, String)| (f.0@, f.1@)) =~= before.map_values(
        |f: (String, String)| (f.0@, f.1@),
    ).push((name@, value@)));
}

fn copy_text(s: &Option<String>) -> (r: Option<String>)
    ensures
        r == *s,
{
    match s {
        Some(s) => Some(s.clone()),
        None => None,
    }
}

fn copy_path(path: &Option<PathBuf>) -> (r: Option<PathBuf>)
    ensures
        r == *path,
{
    match path {
        Some(path) => Some(path.clone()),
        None => None,
    }
}

impl Message {
    /// A message of the user with one text.
    pub fn user(s: &str) -> (r: Message)
        ensures
            r.role == Role::User,
            r.content@.len() == 1,
            r.content@[0] matches ContentBlock::Text { text } && text@ == s@,
    {
        let mut content: Vec<ContentBlock> = Vec::new();
        content.push(ContentBlock::Text { text: s.to_owned() });
        Message { role: Role::User, content }
    }
}

impl Agent {
    /// Overrides discovery for an isolated experiment or an embedding application.
    /// Without an override the environment and the project's file count.
    pub fn set_security_graph_options(&mut self, options: ContextOptions)
        ensures
            *final(self) == (Agent { security_graph_options: Some(options), ..*old(self) }),
    {
        self.security_graph_options = Some(options);
    }

    /// What the security context of a request is to be loaded with; nothing where
    /// it is switched off. The environment counts only where it is not overridden.
    pub fn security_context_plan(&self, found: &EnvText, graph_path: Option<PathBuf>) -> (r: Result<
        Option<ContextPlan>,
        OptionsError,
    >)
        ensures
            match self.security_graph_options {
                Some(options) => match r {
                    Ok(Some(plan)) => options.enabled && plan.options == options
                        && plan.working_dir == self.session.working_dir,
                    Ok(None) => !options.enabled,
                    Err(_) => false,
                },
                None => match r {
                    Ok(Some(plan)) => switch(*found) == Ok::<_, OptionsError>(true)
                        && plan.options == (ContextOptions { enabled: true, graph_path })
                        && plan.working_dir == self.session.working_dir,
                    Ok(None) => switch(*found) == Ok::<_, OptionsError>(false),
                    Err(e) => switch(*found) == Err::<bool, _>(e),
                },
            },
    {
        let options = match &self.security_graph_options {
            Some(options) => ContextOptions {
                enabled: options.enabled,
                graph_path: copy_path(&options.graph_path),
            },
            None => match ContextOptions::from_env(found, graph_path) {
                Ok(options) => options,
                Err(e) => {
                    return Err(e);
                },
            },
        };
        if !options.enabled {
            return Ok(None);
        }
        Ok(Some(ContextPlan { options, working_dir: copy_text(&self.session.working_dir) }))
    }

    /// The message that supplies a context, and what records it. `shown_path` is the
    /// graph's path as it is displayed. The message is rebuilt for each request and
    /// never added to the conversation.
    pub fn security_context_message(&self, context: &SecurityContext, shown_path: &str) -> (r:
        ContextReport)
        ensures
            r.message.role == Role::User,
            r.message.content@.len() == 1,
            r.message.content@[0] matches ContentBlock::Text { text } && text@ == context.prompt@,
            r.event@ == context_event(self.session.id@, shown_path@, context@),
            r.trace@ == context_trace(self.session.id@, shown_path@, context@),
    {
        let bytes = context.prompt.as_str().as_bytes();
        let context_hash = content_hash(bytes);
        let nodes = to_decimal(context.node_count as u64);
        let edges = to_decimal(context.edge_count as u64);
        let matching = to_truth(context.sources_match);
        let size = to_decimal(bytes.len() as u64);
        let mut trace = "[trace] security_graph loaded session=".to_owned();
        trace.append(self.session.id.as_str());
        trace.append(" path=");
        trace.append(shown_path);
        trace.append(" graph_hash=");
        trace.append(context.graph_hash.as_str());
        trace.append(" context_hash=");
        trace.append(context_hash.as_str());
        trace.append(" nodes=");
        trace.append(nodes.as_str());
        trace.append(" edges=");
        trace.append(edges.as_str());
        trace.append(" sources_match=");
        trace.append(matching.as_str());
        trace.append(" bytes=");
        trace.append(size.as_str());
        let mut fields: Vec<(String, String)> = Vec::new();
        add_log_field(&mut fields, "session_id", self.session.id.clone());
        add_log_field(&mut fields, "graph_path", shown_path.to_owned());
        add_log_field(&mut fields, "graph_hash", context.graph_hash.clone());
        add_log_field(&mut fields, "context_hash", context_hash);
        add_log_field(&mut fields, "nodes", nodes);
        add_log_field(&mut fields, "edges", edges);
        add_log_field(&mut fields, "sources_match", matching);
        add_log_field(&mut fields, "context_bytes", size);
        let event = LogEvent { name: "SECURITY_CONTEXT".to_owned(), fields };
        assert(event@.fields =~= context_event(
            self.session.id@,
            shown_path@,
            context@,
        ).fields);
        ContextReport { message: Message::user(context.prompt.as_str()), event, trace }
    }

    /// What records a message that goes out with a request, if it carries a security
    /// context. Only the context's fingerprint and size are told: descriptions may
    /// hold sensitive data.
    pub fn log_security_context_request(
        &self,
        message: Option<&Message>,
        stage: &str,
        model: &str,
    ) -> (r: Option<RequestReport>)
        ensures
            match r {
                Some(report) => message matches Some(m) && exists|context: Seq<char>| #[trigger]
                    message_context(m.content@, context) && report.event@ == request_event(
                        self.session.id@,
                        stage@,
                        model@,
                        context,
                    ) && report.trace@ == request_trace(
                        self.session.id@,
                        stage@,
                        model@,
                        context,
                    ),
                None => message matches Some(m) ==> forall|i: int|
                    0 <= i < m.content@.len() ==> !has_context(#[trigger] m.content@[i]),
            },
    {
        let carrier = match message {
            Some(message) => message,
            None => {
                return None;
            },
        };
        let mut i: usize = 0;
        while i < carrier.content.len()
            invariant
                message == Some(carrier),
                i <= carrier.content@.len(),
                forall|j: int| 0 <= j < i ==> !has_context(#[trigger] carrier.content@[j]),
            decreases carrier.content.len() - i,
        {
            if let ContentBlock::Text { text } = &carrier.content[i] {
                if let Some(at) = find(text.as_str(), "<security-context>") {
                    let context = suffix(text.as_str(), at);
                    assert(block_context(carrier.content@[i as int], context@));
                    assert(message_context(carrier.content@, context@));
                    let bytes = context.as_str().as_bytes();
                    let context_hash = content_hash(bytes);
                    let size = to_decimal(bytes.len() as u64);
                    let mut trace = "[trace] security_graph ".to_owned();
                    trace.append(stage);
                    trace.append(" session=");
                    trace.append(self.session.id.as_str());
                    trace.append(" model=");
                    trace.append(model);
                    trace.append(" context_hash=");
                    trace.append(context_hash.as_str());
                    trace.append(" bytes=");
                    trace.append(size.as_str());
                    let mut fields: Vec<(String, String)> = Vec::new();
                    add_log_field(&mut fields, "session_id", self.session.id.clone());
                    add_log_field(&mut fields, "stage", stage.to_owned());
                    add_log_field(&mut fields, "context_hash", context_hash);
                    add_log_field(&mut fields, "model", model.to_owned());
                    add_log_field(&mut fields, "context_bytes", size);
                    let event = LogEvent { name: "SECURITY_CONTEXT_REQUEST".to_owned(), fields };
                    assert(event@.fields =~= request_event(
                        self.session.id@,
                        stage@,
                        model@,
                        context@,
                    ).fields);
                    return Some(RequestReport { event, trace });
                }
            }
            i += 1;
        }
        None
    }

    /// The line that accounts for the size of a prompt's cached beginning, in tokens.
    pub fn log_prompt_prefix_accounting(&self, system_tokens: usize, tool_tokens: usize) -> (r:
        String)
        requires
            system_tokens + tool_tokens <= usize::MAX,
        ensures
            r@ == accounting_text(system_tokens as nat, tool_tokens as nat),
    {
        let mut out = "Prompt prefix estimate: total=".to_owned();
        out.append(to_decimal((system_tokens + tool_tokens) as u64).as_str());
        out.append(" tokens (system=");
        out.append(to_decimal(system_tokens as u64).as_str());
        out.append(" tools=");
        out.append(to_decimal(tool_tokens as u64).as_str());
        out.append(")");
        out
    }

    /// Whether a request takes what memory has prepared and asks it for more, and
    /// for which session. It does so once in a turn of the user, at its beginning,
    /// and not after each result of a tool.
    pub fn build_memory_prompt_nonblocking_shared(&self, fresh_user_turn: bool) -> (r: Option<
        MemoryUpdate,
    >)
        ensures
            match r {
                Some(update) => self.memory_enabled && fresh_user_turn && update.session_id
                    == self.session.id && update.working_dir == self.session.working_dir,
                None => !self.memory_enabled || !fresh_user_turn,
            },
    {
        if !self.memory_enabled || !fresh_user_turn {
            return None;
        }
        Some(
            MemoryUpdate {
                session_id: self.session.id.clone(),
                working_dir: copy_text(&self.session.working_dir),
            },
        )
    }

    /// Puts the reminder of the current turn, if there is one, behind the part of a
    /// prompt that changes.
    pub fn append_current_turn_system_reminder(&self, split: &mut SplitSystemPrompt)
        ensures
            reminded(*self, *old(split), *final(split)),
    {
        let reminder = match &self.current_turn_system_reminder {
            Some(reminder) => reminder,
            None => {
                return;
            },
        };
        if is_blank(reminder.as_str()) {
            return;
        }
        if !split.dynamic_part.as_str().is_empty() {
            split.dynamic_part.append("\n\n");
        }
        split.dynamic_part.append("# System Reminder\n\n");
        split.dynamic_part.append(trim(reminder.as_str()).as_str());
        proof {
            let start = old(split).dynamic_part@;
            if start.len() == 0 {
                assert(start + "# System Reminder\n\n"@ =~= "# System Reminder\n\n"@);
            }
        }
    }

    /// What the system prompt of a request is composed of.
    pub fn prompt_inputs(&self, skills: &Vec<Skill>, memory_prompt: Option<&str>) -> (r:
        PromptInputs)
        ensures
            inputs_of(*self, skills@, memory_prompt, r),
    {
        let skill_prompt = match &self.active_skill {
            Some(name) => find_skill(skills, name.as_str()),
            None => None,
        };
        let mut available_skills: Vec<SkillInfo> = Vec::new();
        let mut i: usize = 0;
        while i < skills.len()
            invariant
                i <= skills@.len(),
                available_skills@.len() == i,
                forall|j: int|
                    0 <= j < i ==> (#[trigger] available_skills@[j]).name == skills@[j].name
                        && available_skills@[j].description == skills@[j].description,
            decreases skills.len() - i,
        {
            available_skills.push(
                SkillInfo {
                    name: skills[i].name.clone(),
                    description: skills[i].description.clone(),
                },
            );
            i += 1;
        }
        PromptInputs {
            skill_prompt,
            available_skills,
            is_canary: self.session.is_canary,
            memory_prompt: match memory_prompt {
                Some(s) => Some(s.to_owned()),
                None => None,
            },
            working_dir: copy_text(&self.session.working_dir),
            agents_md: copy_text(&self.agents_md_snapshot),
        }
    }

    /// The system prompt of a request, in the part that can be cached and the part
    /// that cannot. An override is the whole of it. Otherwise `compose` makes it of its
    /// inputs, the reminder of the current turn follows, and last of all
    /// `append_directive` adds what the model's effort asks for.
    pub fn build_system_prompt_split<C, D>(
        &self,
        skills: &Vec<Skill>,
        memory_prompt: Option<&str>,
        reasoning_effort: Option<String>,
        compose: C,
        append_directive: D,
    ) -> (r: SplitSystemPrompt) where
        C: FnOnce(PromptInputs) -> SplitSystemPrompt,
        D: FnOnce(SplitSystemPrompt, Option<String>) -> SplitSystemPrompt,

        requires
            forall|inputs: PromptInputs| call_requires(compose, (inputs,)),
            forall|split: SplitSystemPrompt, effort: Option<String>|
                call_requires(append_directive, (split, effort)),
        ensures
            match self.system_prompt_override {
                Some(prompt) => r.static_part@ == prompt@ && r.dynamic_part@.len() == 0,
                None => exists|
                    inputs: PromptInputs,
                    composed: SplitSystemPrompt,
                    finished: SplitSystemPrompt,
                |
                    {
                        &&& #[trigger] inputs_of(*self, skills@, memory_prompt, inputs)
                        &&& call_ensures(compose, (inputs,), composed)
                        &&& #[trigger] reminded(*self, composed, finished)
                        &&& call_ensures(append_directive, (finished, reasoning_effort), r)
                    },
            },
    {
        if let Some(prompt) = &self.system_prompt_override {
            return SplitSystemPrompt { static_part: prompt.clone(), dynamic_part: String::new() };
        }
        let inputs = self.prompt_inputs(skills, memory_prompt);
        let mut split = compose(inputs);
        let ghost composed = split;
        self.append_current_turn_system_reminder(&mut split);
        assert(reminded(*self, composed, split));
        append_directive(split, reasoning_effort)
    }
}

fn find_skill(skills: &Vec<Skill>, name: &str) -> (r: Option<String>)
    ensures
        text_view(r) == skill_prompt(skills@, name@),
{
    let mut i: usize = 0;
    assert(skills@.skip(0) =~= skills@);
    while i < skills.len()
        invariant
            i <= skills@.len(),
            skill_prompt(skills@, name@) == skill_prompt(skills@.skip(i as int), name@),
        decreases skills.len() - i,
    {
        assert(skills@.skip(i as int)[0] == skills@[i as int]);
        if same_text(skills[i].name.as_str(), name) {
            return Some(skills[i].prompt.clone());
        }
        assert(skills@.skip(i as int).drop_first() =~= skills@.skip(i + 1));
        i += 1;
    }
    None
}

/// A message has at most one security context.
pub proof fn message_has_one_context(content: Seq<ContentBlock>, a: Seq<char>, b: Seq<char>)
    requires
        message_context(content, a),
        message_context(content, b),
    ensures
        a == b,
{
    let i = choose|at: int|
        0 <= at < content.len() && block_context(#[trigger] content[at], a) && forall|i: int|
            0 <= i < at ==> !has_context(#[trigger] content[i]);
    let j = choose|at: int|
        0 <= at < content.len() && block_context(#[trigger] content[at], b) && forall|i: int|
            0 <= i < at ==> !has_context(#[trigger] content[i]);
    assert(has_context(content[i]) && has_context(content[j]));
    assert(i == j);
}

/// The log tells nothing of a context but its fingerprint and its size.
pub proof fn log_tells_fingerprints_only(
    session: Seq<char>,
    stage: Seq<char>,
    model: Seq<char>,
    a: Seq<char>,
    b: Seq<char>,
)
    requires
        encode_utf8(a).len() == encode_utf8(b).len(),
    ensures
        fingerprint(encode_utf8(a)) == fingerprint(encode_utf8(b)) ==> request_event(
            session,
            stage,
            model,
            a,
        ) == request_event(session, stage, model, b) && request_trace(session, stage, model, a)
            == request_trace(session, stage, model, b),
{
}

/// What is logged of a request is the very context that was supplied, also where
/// the message got a text without angle brackets put before it.
pub proof fn logged_context_is_the_supplied(
    before: Seq<char>,
    sources_match: bool,
    payload: Seq<char>,
    text: String,
    context: Seq<char>,
)
    requires
        unopened(before),
        text@ == before + prompt_text(sources_match, payload),
        block_context(ContentBlock::Text { text }, context),
    ensures
        context == prompt_text(sources_match, payload),
{
    let prompt = prompt_text(sources_match, payload);
    let at = choose|at: int|
        first_occurrence(text@, marker(), at) && context == #[trigger] text@.subrange(
            at,
            text@.len() as int,
        );
    let n = before.len() as int;
    context_opens_once(sources_match, payload, 0);
    assert(occurs_at(prompt, marker(), 0));
    reveal_strlit("<security-context>");
    assert(marker().len() == 18);
    assert(text@.subrange(n, n + 18) =~= prompt.subrange(0, 18));
    assert(occurs_at(text@, marker(), n));
    assert(at <= n);
    if at < n {
        assert(text@.subrange(at, at + 18)[0] == marker()[0]);
        assert(text@[at] == before[at]);
    }
    assert(text@.subrange(n, text@.len() as int) =~= prompt);
}

/// A blank reminder leaves a prompt as it is; any other one ends it.
pub proof fn reminder_ends_the_prompt(dynamic: Seq<char>, reminder: Seq<char>)
    ensures
        blank(reminder) ==> with_reminder(dynamic, Some(reminder)) == dynamic,
        !blank(reminder) ==> trimmed(reminder).len() > 0 && trimmed(reminder).is_suffix_of(
            with_reminder(dynamic, Some(reminder)),
        ) && dynamic.is_prefix_of(with_reminder(dynamic, Some(reminder))),
{
    blank_is_trimmed_to_nothing(reminder);
    if !blank(reminder) {
        let whole = with_reminder(dynamic, Some(reminder));
        let tail = trimmed(reminder);
        assert(whole.subrange(whole.len() - tail.len(), whole.len() as int) =~= tail);
        assert(whole.subrange(0, dynamic.len() as int) =~= dynamic);
    }
}

/// What an event says under a name: one of its fields has the name and the value.
pub open spec fn logs(event: EventView, name: Seq<char>, value: Seq<char>) -> bool {
    exists|i: int| 0 <= i < event.fields.len() && #[trigger] event.fields[i] == (name, value)
}

/// The event of a loaded context tells the session, the graph's path, hash and counts, and
/// of the context its fingerprint, its size and whether its sources match: that and no more.
pub proof fn context_event_tells_the_context(
    session: Seq<char>,
    shown_path: Seq<char>,
    c: ContextView,
)
    ensures
        ({
            let event = context_event(session, shown_path, c);
            &&& event.fields.len() == 8
            &&& logs(event, "session_id"@, session)
            &&& logs(event, "graph_path"@, shown_path)
            &&& logs(event, "graph_hash"@, c.graph_hash)
            &&& logs(event, "context_hash"@, fingerprint(encode_utf8(c.prompt)))
            &&& logs(event, "nodes"@, decimal(c.node_count))
            &&& logs(event, "edges"@, decimal(c.edge_count))
            &&& logs(
                event,
                "sources_match"@,
                if c.sources_match {
                    "true"@
                } else {
                    "false"@
                },
            )
            &&& logs(event, "context_bytes"@, decimal(encode_utf8(c.prompt).len()))
        }),
{
    let event = context_event(session, shown_path, c);
    assert(event.fields[0] == ("session_id"@, session));
    assert(event.fields[1] == ("graph_path"@, shown_path));
    assert(event.fields[2] == ("graph_hash"@, c.graph_hash));
    assert(event.fields[3] == ("context_hash"@, fingerprint(encode_utf8(c.prompt))));
    assert(event.fields[4] == ("nodes"@, decimal(c.node_count)));
    assert(event.fields[5] == ("edges"@, decimal(c.edge_count)));
    assert(event.fields[6].0 == "sources_match"@);
    assert(event.fields[7] == ("context_bytes"@, decimal(encode_utf8(c.prompt).len())));
}

/// The event of a request tells the session, the stage, the model, and of the context its
/// fingerprint and its size: that and no more.
pub proof fn request_event_tells_the_request(
    session: Seq<char>,
    stage: Seq<char>,
    model: Seq<char>,
    context: Seq<char>,
)
    ensures
        ({
            let event = request_event(session, stage, model, context);
            &&& event.fields.len() == 5
            &&& logs(event, "session_id"@, session)
            &&& logs(event, "stage"@, stage)
            &&& logs(event, "model"@, model)
            &&& logs(event, "context_hash"@, fingerprint(encode_utf8(context)))
            &&& logs(event, "context_bytes"@, decimal(encode_utf8(context).len()))
        }),
{
    let event = request_event(session, stage, model, context);
    assert(event.fields[0] == ("session_id"@, session));
    assert(event.fields[1] == ("stage"@, stage));
    assert(event.fields[2] == ("context_hash"@, fingerprint(encode_utf8(context))));
    assert(event.fields[3] == ("model"@, model));
    assert(event.fields[4] == ("context_bytes"@, decimal(encode_utf8(context).len())));
}

/// The traces tell the same values as the events, in their order.
pub proof fn traces_tell_what_events_tell(
    session: Seq<char>,
    shown_path: Seq<char>,
    c: ContextView,
    stage: Seq<char>,
    model: Seq<char>,
    context: Seq<char>,
)
    ensures
        context_trace(session, shown_path, c) == "[trace] security_graph loaded"@ + " session="@
            + session + " path="@ + shown_path + " graph_hash="@ + c.graph_hash
            + " context_hash="@ + fingerprint(encode_utf8(c.prompt)) + " nodes="@ + decimal(
            c.node_count,
        ) + " edges="@ + decimal(c.edge_count) + " sources_match="@ + (if c.sources_match {
            "true"@
        } else {
            "false"@
        }) + " bytes="@ + decimal(encode_utf8(c.prompt).len()),
        request_trace(session, stage, model, context) == "[trace] security_graph "@ + stage
            + " session="@ + session + " model="@ + model + " context_hash="@ + fingerprint(
            encode_utf8(context),
        ) + " bytes="@ + decimal(encode_utf8(context).len()),
{
    reveal_strlit("[trace] security_graph loaded session=");
    reveal_strlit("[trace] security_graph loaded");
    reveal_strlit(" session=");
    assert("[trace] security_graph loaded session="@ =~= "[trace] security_graph loaded"@
        + " session="@);
}

/// A message carries a context exactly when the marker stands in one of its texts. The
/// context is then all from the first marker on of the first such text.
pub proof fn context_is_all_from_the_marker_on(
    content: Seq<ContentBlock>,
    block: int,
    text: String,
    at: int,
)
    requires
        0 <= block < content.len(),
        content[block] == (ContentBlock::Text { text }),
        occurs_at(text@, "<security-context>"@, at),
        forall|earlier: int|
            0 <= earlier < at ==> !occurs_at(text@, "<security-context>"@, earlier),
        forall|i: int, other: String, p: int|
            #![trigger content[i], occurs_at(other@, "<security-context>"@, p)]
            0 <= i < block && content[i] == (ContentBlock::Text { text: other }) ==> !occurs_at(
                other@,
                "<security-context>"@,
                p,
            ),
    ensures
        message_context(content, text@.subrange(at, text@.len() as int)),
{
    let whole = content[block]->text;
    let context = whole@.subrange(at, whole@.len() as int);
    assert(whole == text);
    assert forall|earlier: int| occurs_at(whole@, marker(), earlier) implies at <= earlier by {
        assert(occurs_at(text@, "<security-context>"@, earlier));
    }
    assert(first_occurrence(whole@, marker(), at));
    assert(block_context(content[block], context));
    assert forall|i: int| 0 <= i < block implies !has_context(#[trigger] content[i]) by {
        if has_context(content[i]) {
            let other = content[i]->text;
            let p = choose|p: int| occurs_at(other@, marker(), p);
            assert(content[i] == (ContentBlock::Text { text: other }));
            assert(!occurs_at(other@, "<security-context>"@, p));
        }
    }
}

/// The prompt of the active skill is that of the first skill of its name, and there is none
/// where no skill has the name.
pub proof fn skill_prompt_is_that_of_the_first(skills: Seq<Skill>, name: Seq<char>, at: int)
    ensures
        0 <= at < skills.len() && skills[at].name@ == name && (forall|i: int|
            0 <= i < at ==> (#[trigger] skills[i]).name@ != name) ==> skill_prompt(skills, name)
            == Some(skills[at].prompt@),
        (forall|i: int| 0 <= i < skills.len() ==> (#[trigger] skills[i]).name@ != name)
            ==> skill_prompt(skills, name) is None,
    decreases skills.len(),
{
    if skills.len() > 0 {
        let rest = skills.drop_first();
        if skills[0].name@ != name {
            skill_prompt_is_that_of_the_first(rest, name, at - 1);
            if 0 < at < skills.len() {
                assert(rest[at - 1] == skills[at]);
            }
            if forall|i: int| 0 <= i < at ==> (#[trigger] skills[i]).name@ != name {
                assert forall|i: int| 0 <= i < at - 1 && i < rest.len() implies (
                #[trigger] rest[i]).name@ != name by {
                    assert(rest[i] == skills[i + 1]);
                }
            }
            if forall|i: int| 0 <= i < skills.len() ==> (#[trigger] skills[i]).name@ != name {
                assert forall|i: int| 0 <= i < rest.len() implies (#[trigger] rest[i]).name@
                    != name by {
                    assert(rest[i] == skills[i + 1]);
                }
            }
        }
    }
}

/// A reminder that tells something is put, without the white space around it, behind its
/// heading, and that behind what there is, with a blank line between.
pub proof fn reminder_is_put_behind_its_heading(dynamic: Seq<char>, reminder: Seq<char>)
    requires
        trimmed(reminder).len() > 0,
    ensures
        dynamic.len() == 0 ==> with_reminder(dynamic, Some(reminder)) == "# System Reminder\n\n"@
            + trimmed(reminder),
        dynamic.len() > 0 ==> with_reminder(dynamic, Some(reminder)) == dynamic + "\n\n"@
            + "# System Reminder\n\n"@ + trimmed(reminder),
        with_reminder(dynamic, None) == dynamic,
{
    blank_is_trimmed_to_nothing(reminder);
}

/// The accounting tells the two sizes and their sum.
pub proof fn accounting_tells_sizes_and_sum(system: nat, tools: nat)
    ensures
        ("Prompt prefix estimate: total="@ + decimal(system + tools) + " tokens (system="@ + decimal(
            system,
        )).is_prefix_of(accounting_text(system, tools)),
        (" tools="@ + decimal(tools) + ")"@).is_suffix_of(accounting_text(system, tools)),
        accounting_text(system, tools).len() == ("Prompt prefix estimate: total="@ + decimal(
            system + tools,
        ) + " tokens (system="@ + decimal(system)).len() + (" tools="@ + decimal(tools) + ")"@).len(),
{
    let start = "Prompt prefix estimate: total="@ + decimal(system + tools) + " tokens (system="@
        + decimal(system);
    let end = " tools="@ + decimal(tools) + ")"@;
    let whole = accounting_text(system, tools);
    assert(whole =~= start + end);
    assert(whole.subrange(0, start.len() as int) =~= start);
    assert(whole.subrange(whole.len() - end.len(), whole.len() as int) =~= end);
}

/// The inputs of a system prompt hold everything that it is made of: every skill by name
/// and description, the prompt of the active one, what memory gives, and what the session
/// and the project give.
pub proof fn inputs_hold_everything(
    agent: Agent,
    skills: Seq<Skill>,
    memory_prompt: Option<&str>,
    inputs: PromptInputs,
)
    requires
        inputs_of(agent, skills, memory_prompt, inputs),
    ensures
        inputs.available_skills@.len() == skills.len(),
        forall|i: int|
            0 <= i < skills.len() ==> (#[trigger] skills[i]).name
                == inputs.available_skills@[i].name && skills[i].description
                == inputs.available_skills@[i].description,
        agent.active_skill is None ==> inputs.skill_prompt is None,
        agent.active_skill matches Some(name) ==> forall|i: int|
            0 <= i < skills.len() && (#[trigger] skills[i]).name@ == name@ && (forall|j: int|
                0 <= j < i ==> (#[trigger] skills[j]).name@ != name@) ==> (
            inputs.skill_prompt matches Some(prompt) && prompt@ == skills[i].prompt@),
        inputs.is_canary == agent.session.is_canary,
        memory_prompt is None ==> inputs.memory_prompt is None,
        memory_prompt matches Some(m) ==> (inputs.memory_prompt matches Some(p) && p@ == m@),
        inputs.working_dir == agent.session.working_dir,
        inputs.agents_md == agent.agents_md_snapshot,
{
    assert forall|i: int| 0 <= i < skills.len() implies (#[trigger] skills[i]).name
        == inputs.available_skills@[i].name && skills[i].description
        == inputs.available_skills@[i].description by {
        assert(inputs.available_skills@[i].name == skills[i].name);
    }
    if let Some(name) = agent.active_skill {
        assert forall|i: int|
            0 <= i < skills.len() && (#[trigger] skills[i]).name@ == name@ && (forall|j: int|
                0 <= j < i ==> (#[trigger] skills[j]).name@ != name@) implies (
        inputs.skill_prompt matches Some(prompt) && prompt@ == skills[i].prompt@) by {
            skill_prompt_is_that_of_the_first(skills, name@, i);
        }
    }
}

} // verus!
