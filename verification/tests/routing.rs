use ataraxy::Command;
use ataraxy::Framework;
use ataraxy::SubCommands;
use ataraxy::argument::ArgumentError;
use ataraxy::argument::CommandSignature;
use ataraxy::argument::ResolvedValue;
use ataraxy::command::CommandHandler;
use ataraxy::framework::CommandGroup;
use ataraxy::router::Interaction;
use ataraxy::router::InteractionOption;
use ataraxy::router::route;

fn leaf(name: &str, token: u64) -> Command {
    Command {
        name: String::from(name),
        description: format!("the {} command", name),
        guilds: None,
        arguments: CommandSignature {
            context: false,
            arguments: Vec::new(),
        },
        action: CommandHandler(token),
    }
}

fn guild_leaf(name: &str, token: u64, guilds: &[u64]) -> Command {
    let mut c = leaf(name, token);
    c.guilds = Some(guilds.to_vec());
    c
}

fn plain_option(name: &str, value: Option<ResolvedValue>) -> InteractionOption {
    InteractionOption {
        name: String::from(name),
        value,
        options: Vec::new(),
    }
}

fn interaction(command: &str, guild: Option<u64>, options: Vec<InteractionOption>) -> Interaction {
    Interaction {
        id: 1,
        command: String::from(command),
        guild,
        options,
    }
}

#[test]
fn dispatch_invokes_exactly_the_bound_handler() {
    let fw = Framework::new()
        .command(leaf("ping", 10))
        .command(leaf("pong", 20));

    let inv = route(&fw, &interaction("pong", None, vec![])).expect("should route");
    assert_eq!(inv.handler, CommandHandler(20));
    let inv = route(&fw, &interaction("ping", None, vec![])).expect("should route");
    assert_eq!(inv.handler, CommandHandler(10));
}

#[test]
fn unknown_command_is_silently_dropped() {
    let fw = Framework::new().command(leaf("ping", 10));
    assert!(route(&fw, &interaction("nope", None, vec![])).is_none());
}

#[test]
fn guild_override_beats_global_within_its_guild() {
    let fw = Framework::new()
        .command(leaf("greet", 1))
        .command(guild_leaf("greet", 2, &[555]));

    let inv = route(&fw, &interaction("greet", Some(555), vec![])).expect("should route");
    assert_eq!(inv.handler, CommandHandler(2));
}

#[test]
fn other_guild_falls_back_to_global() {
    let fw = Framework::new()
        .command(leaf("greet", 1))
        .command(guild_leaf("greet", 2, &[555]));

    let inv = route(&fw, &interaction("greet", Some(777), vec![])).expect("should route");
    assert_eq!(inv.handler, CommandHandler(1));
}

#[test]
fn no_guild_falls_back_to_global() {
    let fw = Framework::new()
        .command(guild_leaf("greet", 2, &[555]))
        .command(leaf("greet", 1));

    let inv = route(&fw, &interaction("greet", None, vec![])).expect("should route");
    assert_eq!(inv.handler, CommandHandler(1));
}

#[test]
fn overlapping_scopes_are_unroutable() {
    let fw = Framework::new()
        .command(guild_leaf("greet", 2, &[555]))
        .command(guild_leaf("greet", 3, &[555]));

    assert!(route(&fw, &interaction("greet", Some(555), vec![])).is_none());
}

#[test]
fn scoped_only_command_ignores_interactions_without_guild() {
    let fw = Framework::new().command(guild_leaf("greet", 2, &[555]));
    assert!(route(&fw, &interaction("greet", None, vec![])).is_none());
}

#[test]
fn one_level_descent_reaches_subcommand() {
    let sub = leaf("add", 7);
    let fw = Framework::new().command(
        SubCommands::new(String::from("math"), String::from("math commands")).command(sub),
    );

    let event = interaction(
        "math",
        None,
        vec![InteractionOption {
            name: String::from("add"),
            value: None,
            options: vec![plain_option("x", Some(ResolvedValue::Integer(3)))],
        }],
    );
    let mut inv = route(&fw, &event).expect("should route");
    assert_eq!(inv.handler, CommandHandler(7));
    let x: Result<i64, ArgumentError> = inv.args.arg();
    assert_eq!(x.unwrap(), 3);
}

#[test]
fn two_level_descent_passes_only_leaf_options() {
    let inner = leaf("say", 42);
    let group = CommandGroup::new(
        String::from("voice"),
        String::from("voice commands"),
        vec![inner],
    );
    let fw = Framework::new().command(
        SubCommands::new(String::from("admin"), String::from("admin commands")).group(group),
    );

    let leaf_options = vec![plain_option(
        "msg",
        Some(ResolvedValue::Str(String::from("inner"))),
    )];
    let event = interaction(
        "admin",
        None,
        vec![InteractionOption {
            name: String::from("voice"),
            value: None,
            options: vec![InteractionOption {
                name: String::from("say"),
                value: None,
                options: leaf_options,
            }],
        }],
    );
    let mut inv = route(&fw, &event).expect("should route");
    assert_eq!(inv.handler, CommandHandler(42));
    let msg: Result<String, ArgumentError> = inv.args.arg();
    assert_eq!(msg.unwrap(), "inner");
    let beyond: Result<Option<i64>, ArgumentError> = inv.args.arg();
    assert_eq!(beyond.unwrap(), None);
}

#[test]
fn missing_subcommand_name_is_dropped() {
    let fw = Framework::new().command(
        SubCommands::new(String::from("math"), String::from("math commands"))
            .command(leaf("add", 7)),
    );

    let event = interaction("math", None, vec![]);
    assert!(route(&fw, &event).is_none());

    let event = interaction(
        "math",
        None,
        vec![InteractionOption {
            name: String::from("subtract"),
            value: None,
            options: vec![],
        }],
    );
    assert!(route(&fw, &event).is_none());
}

#[test]
fn unknown_value_kind_aborts_dispatch_before_any_handler() {
    let fw = Framework::new().command(leaf("ping", 10));
    let event = interaction(
        "ping",
        None,
        vec![plain_option("arg", Some(ResolvedValue::Unknown))],
    );
    assert!(route(&fw, &event).is_none());
}

#[test]
fn required_argument_without_value_never_reaches_handler() {
    let fw = Framework::new().command(leaf("echo", 10));
    let event = interaction("echo", None, vec![plain_option("msg", None)]);
    let mut inv = route(&fw, &event).expect("materialization itself succeeds");
    let msg: Result<String, ArgumentError> = inv.args.arg();
    assert!(matches!(
        msg,
        Err(ArgumentError::IncomingArgumentNotProvided)
    ));
}

#[test]
fn optional_argument_without_value_reaches_handler_as_none() {
    let fw = Framework::new().command(leaf("echo", 10));
    let event = interaction("echo", None, vec![plain_option("msg", None)]);
    let mut inv = route(&fw, &event).expect("should route");
    let msg: Result<Option<String>, ArgumentError> = inv.args.arg();
    assert_eq!(msg.unwrap(), None);
}
