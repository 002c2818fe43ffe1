//! What an agent puts before a model.

use std::path::PathBuf;

use jcode_security::agent::{
    Agent, ContentBlock, LogEvent, Message, Role, Session, Skill, SplitSystemPrompt,
};
use jcode_security::context::SecurityContext;
use jcode_security::hash::content_hash;
use jcode_security::options::{ContextOptions, EnvText, OptionsError};

fn agent() -> Agent {
    Agent {
        security_graph_options: None,
        session: Session { id: "s1".into(), working_dir: Some("/repo".into()), is_canary: true },
        memory_enabled: true,
        current_turn_system_reminder: None,
        system_prompt_override: None,
        active_skill: None,
        agents_md_snapshot: Some("house rules".into()),
    }
}

fn context() -> SecurityContext {
    SecurityContext {
        graph_path: PathBuf::from("/repo/.jcode/security-graph.json"),
        graph_hash: "abc".into(),
        node_count: 12,
        edge_count: 3,
        sources_match: true,
        prompt: "<security-context>\né\n</security-context>".into(),
    }
}

fn fields(event: &LogEvent) -> Vec<(&str, &str)> {
    event.fields.iter().map(|f| (f.0.as_str(), f.1.as_str())).collect()
}

#[test]
fn options_of_an_agent_override_the_environment() {
    let mut a = agent();
    let plan = a.security_context_plan(&EnvText::Absent, Some(PathBuf::from("env.json")));
    let plan = plan.unwrap().unwrap();
    assert_eq!(plan.options.graph_path, Some(PathBuf::from("env.json")));
    assert_eq!(plan.working_dir.as_deref(), Some("/repo"));
    assert!(a.security_context_plan(&EnvText::Text("off".into()), None).unwrap().is_none());
    assert_eq!(
        a.security_context_plan(&EnvText::Text("maybe".into()), None).unwrap_err(),
        OptionsError::UnknownSwitch
    );

    a.set_security_graph_options(ContextOptions {
        enabled: true,
        graph_path: Some(PathBuf::from("own.json")),
    });
    let plan = a.security_context_plan(&EnvText::Text("maybe".into()), None).unwrap().unwrap();
    assert_eq!(plan.options.graph_path, Some(PathBuf::from("own.json")));
    a.set_security_graph_options(ContextOptions { enabled: false, graph_path: None });
    assert!(a.security_context_plan(&EnvText::Text("on".into()), None).unwrap().is_none());
    assert_eq!(a.session, agent().session);
}

#[test]
fn a_context_becomes_a_message_and_an_event() {
    let c = context();
    let report = agent().security_context_message(&c, "/repo/g.json");
    assert_eq!(report.message, Message::user(&c.prompt));
    assert_eq!(report.message.role, Role::User);
    let event = report.event;
    assert_eq!(event.name, "SECURITY_CONTEXT");
    let hash = content_hash(c.prompt.as_bytes());
    assert_eq!(
        report.trace,
        format!("[trace] security_graph loaded session=s1 path=/repo/g.json graph_hash=abc context_hash={hash} nodes=12 edges=3 sources_match=true bytes=41")
    );
    assert_eq!(
        fields(&event),
        [
            ("session_id", "s1"),
            ("graph_path", "/repo/g.json"),
            ("graph_hash", "abc"),
            ("context_hash", hash.as_str()),
            ("nodes", "12"),
            ("edges", "3"),
            ("sources_match", "true"),
            ("context_bytes", "41"),
        ]
    );
    assert_eq!(c.prompt.len(), 41);
}

#[test]
fn a_request_is_logged_by_fingerprint() {
    let c = context();
    let hash = content_hash(c.prompt.as_bytes());
    // Preparation may put a timestamp before the context.
    let message = Message {
        role: Role::User,
        content: vec![
            ContentBlock::Other,
            ContentBlock::Text { text: "hello".into() },
            ContentBlock::Text { text: format!("[12:00 é] {}", c.prompt) },
            ContentBlock::Text { text: "<security-context>later".into() },
        ],
    };
    let report = agent().log_security_context_request(Some(&message), "sent", "m1").unwrap();
    assert_eq!(
        report.trace,
        format!("[trace] security_graph sent session=s1 model=m1 context_hash={hash} bytes=41")
    );
    let event = report.event;
    assert_eq!(event.name, "SECURITY_CONTEXT_REQUEST");
    assert_eq!(
        fields(&event),
        [
            ("session_id", "s1"),
            ("stage", "sent"),
            ("context_hash", hash.as_str()),
            ("model", "m1"),
            ("context_bytes", "41"),
        ]
    );
    assert_eq!(agent().log_security_context_request(None, "sent", "m1"), None);
    let other = Message::user("no context </security-context>");
    assert_eq!(agent().log_security_context_request(Some(&other), "sent", "m1"), None);
}

#[test]
fn prompt_size_is_accounted_for() {
    assert_eq!(
        agent().log_prompt_prefix_accounting(1200, 34),
        "Prompt prefix estimate: total=1234 tokens (system=1200 tools=34)"
    );
}

#[test]
fn memory_is_asked_once_in_a_turn() {
    let update = agent().build_memory_prompt_nonblocking_shared(true).unwrap();
    assert_eq!(update.session_id, "s1");
    assert_eq!(update.working_dir.as_deref(), Some("/repo"));
    assert_eq!(agent().build_memory_prompt_nonblocking_shared(false), None);
    let off = Agent { memory_enabled: false, ..agent() };
    assert_eq!(off.build_memory_prompt_nonblocking_shared(true), None);
}

fn split(dynamic: &str) -> SplitSystemPrompt {
    SplitSystemPrompt { static_part: "static".into(), dynamic_part: dynamic.into() }
}

#[test]
fn reminders_are_put_behind_the_changing_part() {
    let with = |reminder: Option<&str>, before: &str| {
        let a = Agent { current_turn_system_reminder: reminder.map(str::to_string), ..agent() };
        let mut prompt = split(before);
        a.append_current_turn_system_reminder(&mut prompt);
        prompt
    };
    assert_eq!(with(Some(" \nBe brief.\n"), ""), split("# System Reminder\n\nBe brief."));
    assert_eq!(with(Some("Be brief."), "now"), split("now\n\n# System Reminder\n\nBe brief."));
    assert_eq!(with(Some(" \t"), "now"), split("now"));
    assert_eq!(with(None, "now"), split("now"));
}

#[test]
fn an_override_is_the_whole_system_prompt() {
    let a = Agent {
        system_prompt_override: Some("Only this.".into()),
        current_turn_system_reminder: Some("Not this.".into()),
        ..agent()
    };
    let prompt = a.build_system_prompt_split(
        &vec![],
        Some("memory"),
        Some("high".into()),
        |_| panic!("nothing is composed"),
        |_, _| panic!("no directive is added"),
    );
    assert_eq!(
        prompt,
        SplitSystemPrompt { static_part: "Only this.".into(), dynamic_part: String::new() }
    );
}

#[test]
fn a_system_prompt_is_composed_of_skills_memory_and_session() {
    let skill = |name: &str| Skill {
        name: name.into(),
        description: format!("about {name}"),
        prompt: format!("do {name}"),
    };
    let skills = vec![skill("plan"), skill("review")];
    let a = Agent { active_skill: Some("review".into()), ..agent() };
    let inputs = a.prompt_inputs(&skills, Some("memory"));
    assert_eq!(inputs.skill_prompt.as_deref(), Some("do review"));
    let names: Vec<(&str, &str)> = inputs
        .available_skills
        .iter()
        .map(|s| (s.name.as_str(), s.description.as_str()))
        .collect();
    assert_eq!(names, [("plan", "about plan"), ("review", "about review")]);
    assert!(inputs.is_canary);
    assert_eq!(inputs.memory_prompt.as_deref(), Some("memory"));
    assert_eq!(inputs.working_dir.as_deref(), Some("/repo"));
    assert_eq!(inputs.agents_md.as_deref(), Some("house rules"));
    let a = Agent { active_skill: Some("gone".into()), ..agent() };
    let inputs = a.prompt_inputs(&skills, None);
    assert_eq!(inputs.skill_prompt, None);
    assert_eq!(inputs.memory_prompt, None);
}

#[test]
fn the_directive_follows_the_reminder() {
    let a = Agent { current_turn_system_reminder: Some("Be brief.".into()), ..agent() };
    let prompt = a.build_system_prompt_split(
        &vec![],
        Some("memory"),
        Some("high".into()),
        |inputs| SplitSystemPrompt {
            static_part: inputs.agents_md.unwrap(),
            dynamic_part: inputs.memory_prompt.unwrap(),
        },
        |mut prompt, effort| {
            prompt.dynamic_part.push_str(&format!("\n\neffort {}", effort.unwrap()));
            prompt
        },
    );
    assert_eq!(prompt.static_part, "house rules");
    assert_eq!(prompt.dynamic_part, "memory\n\n# System Reminder\n\nBe brief.\n\neffort high");
}
