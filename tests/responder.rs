use keyword_responder::config::{
    activity_type_from_string, activity_type_to_string, is_valid_command_name, status_from_string,
    status_to_string, ActivityKind, Commands, Config, ConfigDocument, ConfigError, FieldError, KeywordResponse,
    Presence, PresenceDocument, SlashCommand, SlashCommands, Status, TextCommand, TextCommands,
};
use keyword_responder::resolve::{
    bootstrap, resolve, resolve_interaction, resolve_message, Action, InboundEvent,
};
use keyword_responder::session::{ConnectionState, Dispatcher};

fn s(x: &str) -> String {
    x.to_string()
}

fn keyword(pattern: &str, reply: &str) -> KeywordResponse {
    KeywordResponse { pattern: s(pattern), reply: s(reply) }
}

fn text_command(name: &str, response: &str) -> TextCommand {
    TextCommand { name: s(name), response: s(response) }
}

fn slash(name: &str, description: &str, response: &str) -> SlashCommand {
    SlashCommand { name: s(name), description: s(description), response: s(response) }
}

fn document() -> ConfigDocument {
    ConfigDocument {
        token: s("bot-token"),
        guild_id: Some(42),
        responses: Some(vec![keyword("hello", "Hello there"), keyword("bye", "Goodbye")]),
        presence: Some(PresenceDocument {
            status: s("idle"),
            activity: s("watching"),
            description: s("the logs"),
        }),
        commands: Some(Commands {
            text: Some(TextCommands {
                prefix: '!',
                commands: vec![text_command("p", "A"), text_command("ping", "B")],
            }),
            slash: Some(SlashCommands {
                commands: vec![slash("hello", "Says hi", "Hi!"), slash("help", "Lists commands", "No help")],
            }),
        }),
    }
}

fn config_with(
    responses: Option<Vec<KeywordResponse>>,
    text: Option<TextCommands>,
    slash_commands: Option<Vec<SlashCommand>>,
) -> Config {
    Config {
        token: s("t"),
        guild_id: None,
        responses,
        presence: None,
        commands: Some(Commands {
            text,
            slash: slash_commands.map(|commands| SlashCommands { commands }),
        }),
    }
}

fn message_replies(actions: &[Action]) -> Vec<String> {
    actions
        .iter()
        .map(|a| match a {
            Action::ReplyToMessage(t) => t.clone(),
            other => panic!("unexpected action {:?}", other),
        })
        .collect()
}

#[test]
fn keyword_matches_fan_out() {
    let c = config_with(
        Some(vec![keyword("a", "1"), keyword("ab", "2"), keyword("z", "3"), keyword("bc", "4")]),
        None,
        None,
    );
    let r = resolve_message(&c, "abc");
    assert_eq!(message_replies(&r), vec![s("1"), s("2"), s("4")]);
}

#[test]
fn keyword_without_match_yields_nothing() {
    let c = config_with(Some(vec![keyword("cat", "meow")]), None, None);
    assert!(resolve_message(&c, "dog").is_empty());
    assert_eq!(message_replies(&resolve_message(&c, "concatenate")), vec![s("meow")]);
}

#[test]
fn text_commands_all_prefix_matches_fire() {
    let c = config_with(
        None,
        Some(TextCommands { prefix: '!', commands: vec![text_command("p", "A"), text_command("ping", "B")] }),
        None,
    );
    let r = resolve_message(&c, "!ping");
    assert_eq!(message_replies(&r), vec![s("A"), s("B")]);
    assert_eq!(message_replies(&resolve_message(&c, "!pong")), vec![s("A")]);
}

#[test]
fn text_commands_need_the_prefix() {
    let c = config_with(
        None,
        Some(TextCommands { prefix: '!', commands: vec![text_command("ping", "B")] }),
        None,
    );
    assert!(resolve_message(&c, "ping").is_empty());
    assert!(resolve_message(&c, "?ping").is_empty());
    assert!(resolve_message(&c, "").is_empty());
    assert!(resolve_message(&c, "!Ping").is_empty());
}

#[test]
fn keyword_and_command_replies_both_fire() {
    let c = config_with(
        Some(vec![keyword("ping", "K")]),
        Some(TextCommands { prefix: '!', commands: vec![text_command("ping", "C")] }),
        None,
    );
    assert_eq!(message_replies(&resolve_message(&c, "!ping now")), vec![s("K"), s("C")]);
}

#[test]
fn slash_interaction_known_and_unknown() {
    let c = config_with(None, None, Some(vec![slash("hello", "Says hi", "Hi!")]));
    let r = resolve_interaction(&c, "hello");
    assert_eq!(r.len(), 1);
    assert_eq!(r[0], Action::ReplyToInteraction(s("Hi!")));
    assert!(resolve_interaction(&c, "unknown").is_empty());
}

#[test]
fn interaction_without_slash_commands_yields_nothing() {
    let c = config_with(None, None, None);
    assert!(resolve_interaction(&c, "hello").is_empty());
}

#[test]
fn resolve_routes_each_event() {
    let c = config_with(
        Some(vec![keyword("hi", "hey")]),
        None,
        Some(vec![slash("hello", "Says hi", "Hi!")]),
    );
    assert!(resolve(&c, &InboundEvent::Ready).is_empty());
    assert_eq!(resolve(&c, &InboundEvent::Message(s("hi all"))), vec![Action::ReplyToMessage(s("hey"))]);
    assert_eq!(
        resolve(&c, &InboundEvent::Interaction(s("hello"))),
        vec![Action::ReplyToInteraction(s("Hi!"))]
    );
}

#[test]
fn load_rejects_unknown_status() {
    let mut d = document();
    d.presence = Some(PresenceDocument { status: s("loud"), activity: s("playing"), description: s("x") });
    assert_eq!(Config::load(d).unwrap_err(), ConfigError::InvalidField(FieldError::Status));
}

#[test]
fn load_rejects_status_in_other_case() {
    let mut d = document();
    d.presence = Some(PresenceDocument { status: s("Online"), activity: s("playing"), description: s("x") });
    assert_eq!(Config::load(d).unwrap_err(), ConfigError::InvalidField(FieldError::Status));
}

#[test]
fn load_rejects_unknown_activity() {
    let mut d = document();
    d.presence = Some(PresenceDocument { status: s("dnd"), activity: s("singing"), description: s("x") });
    assert_eq!(Config::load(d).unwrap_err(), ConfigError::InvalidField(FieldError::Activity));
}

#[test]
fn load_rejects_empty_keyword() {
    let mut d = document();
    d.responses = Some(vec![keyword("", "x")]);
    assert_eq!(Config::load(d).unwrap_err(), ConfigError::InvalidField(FieldError::EmptyKeyword));
}

#[test]
fn load_rejects_repeated_keyword() {
    let mut d = document();
    d.responses = Some(vec![keyword("a", "x"), keyword("b", "y"), keyword("a", "z")]);
    assert_eq!(Config::load(d).unwrap_err(), ConfigError::InvalidField(FieldError::DuplicateKeyword));
}

#[test]
fn load_rejects_bad_slash_names() {
    for name in ["Hello", "two words", "", "\u{c4}", "caf\u{c9}", "a\u{3000}b", "a\u{a0}b"] {
        let mut d = document();
        d.commands = Some(Commands {
            text: None,
            slash: Some(SlashCommands { commands: vec![slash(name, "d", "r")] }),
        });
        assert_eq!(Config::load(d).unwrap_err(), ConfigError::InvalidField(FieldError::SlashCommandName));
    }
}

#[test]
fn load_rejects_repeated_slash_name() {
    let mut d = document();
    d.commands = Some(Commands {
        text: None,
        slash: Some(SlashCommands { commands: vec![slash("a", "d", "r"), slash("a", "e", "s")] }),
    });
    assert_eq!(Config::load(d).unwrap_err(), ConfigError::InvalidField(FieldError::DuplicateSlashCommand));
}

#[test]
fn load_reports_the_presence_before_the_keywords() {
    let mut d = document();
    d.presence = Some(PresenceDocument { status: s("loud"), activity: s("playing"), description: s("x") });
    d.responses = Some(vec![keyword("", "x")]);
    assert_eq!(Config::load(d).unwrap_err(), ConfigError::InvalidField(FieldError::Status));
}

#[test]
fn load_maps_presence_strings() {
    let c = Config::load(document()).unwrap();
    assert_eq!(
        c.presence,
        Some(Presence { status: Status::Idle, activity: ActivityKind::Watching, description: s("the logs") })
    );
    let all = [
        ("online", Status::Online),
        ("idle", Status::Idle),
        ("dnd", Status::DoNotDisturb),
        ("invisible", Status::Invisible),
        ("offline", Status::Offline),
    ];
    for (text, status) in all {
        let mut d = document();
        d.presence = Some(PresenceDocument { status: s(text), activity: s("streaming"), description: s("") });
        let c = Config::load(d).unwrap();
        assert_eq!(c.presence.unwrap().status, status);
    }
}

#[test]
fn load_then_write_out_round_trips() {
    let loaded = Config::load(document()).unwrap();
    let written = loaded.clone().into_document();
    assert_eq!(written, document());
    let again = Config::load(written).unwrap();
    assert_eq!(again, loaded);
}

#[test]
fn load_keeps_absent_sections_absent() {
    let d = ConfigDocument { token: s("t"), guild_id: None, responses: None, presence: None, commands: None };
    let c = Config::load(d.clone()).unwrap();
    assert_eq!(c.into_document(), d);
}

#[test]
fn bootstrap_sets_presence_then_registers() {
    let c = Config::load(document()).unwrap();
    let r = bootstrap(&c);
    assert_eq!(
        r,
        vec![
            Action::SetPresence(Presence {
                status: Status::Idle,
                activity: ActivityKind::Watching,
                description: s("the logs"),
            }),
            Action::RegisterCommand { name: s("hello"), description: s("Says hi"), guild_id: Some(42) },
            Action::RegisterCommand { name: s("help"), description: s("Lists commands"), guild_id: Some(42) },
        ]
    );
}

#[test]
fn bootstrap_registers_globally_without_guild() {
    let c = config_with(None, None, Some(vec![slash("hello", "Says hi", "Hi!")]));
    assert_eq!(
        bootstrap(&c),
        vec![Action::RegisterCommand { name: s("hello"), description: s("Says hi"), guild_id: None }]
    );
}

#[test]
fn ready_bootstraps_once_per_connection() {
    let c = Config::load(document()).unwrap();
    let mut d = Dispatcher::new();
    assert_eq!(d.state, ConnectionState::Disconnected);
    let first = d.handle(&c, &InboundEvent::Ready);
    assert_eq!(first.len(), 3);
    assert_eq!(d.state, ConnectionState::Bootstrapped);
    assert!(d.handle(&c, &InboundEvent::Ready).is_empty());
    assert_eq!(
        d.handle(&c, &InboundEvent::Message(s("!ping"))),
        vec![Action::ReplyToMessage(s("A")), Action::ReplyToMessage(s("B"))]
    );
    assert!(d.handle(&c, &InboundEvent::Ready).is_empty());
    d.connection_lost();
    assert_eq!(d.state, ConnectionState::Disconnected);
    assert_eq!(d.handle(&c, &InboundEvent::Ready), first);
}

#[test]
fn message_before_ready_marks_connected() {
    let c = Config::load(document()).unwrap();
    let mut d = Dispatcher::new();
    let r = d.handle(&c, &InboundEvent::Message(s("bye now")));
    assert_eq!(r, vec![Action::ReplyToMessage(s("Goodbye"))]);
    assert_eq!(d.state, ConnectionState::Connected);
    assert_eq!(d.handle(&c, &InboundEvent::Ready).len(), 3);
}

#[test]
fn command_name_rules() {
    assert!(is_valid_command_name(&s("hello")));
    assert!(is_valid_command_name(&s("roll-dice_2")));
    assert!(!is_valid_command_name(&s("")));
    assert!(!is_valid_command_name(&s("Hello")));
    assert!(!is_valid_command_name(&s("a b")));
    assert!(!is_valid_command_name(&s("a\tb")));
    assert!(!is_valid_command_name(&s("\u{c4}")));
    assert!(!is_valid_command_name(&s("line\u{2028}break")));
    assert!(is_valid_command_name(&s("caf\u{e9}")));
    assert!(is_valid_command_name(&s("\u{4f60}\u{597d}")));
}

#[test]
fn presence_names_round_trip() {
    assert_eq!(status_to_string(Status::DoNotDisturb), s("dnd"));
    assert_eq!(activity_type_to_string(ActivityKind::Listening), s("listening"));
    for st in [Status::Online, Status::Idle, Status::DoNotDisturb, Status::Invisible, Status::Offline] {
        assert_eq!(status_from_string(&status_to_string(st)), Ok(st));
    }
    for a in [ActivityKind::Playing, ActivityKind::Watching, ActivityKind::Listening, ActivityKind::Streaming] {
        assert_eq!(activity_type_from_string(&activity_type_to_string(a)), Ok(a));
    }
    assert_eq!(status_from_string(&s("busy")), Err(FieldError::Status));
    assert_eq!(activity_type_from_string(&s("Playing")), Err(FieldError::Activity));
}
