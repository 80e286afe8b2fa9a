use ataraxy::Command;
use ataraxy::SubCommands;
use ataraxy::argument::CommandSignature;
use ataraxy::clamp;
use ataraxy::clamp_max;
use ataraxy::clamp_min;
use ataraxy::command::CommandHandler;
use ataraxy::framework::CommandGroup;
use ataraxy::framework::SubCommand;

fn leaf(name: &str, token: u64) -> Command {
    Command {
        name: String::from(name),
        description: format!("the {} command", name),
        guilds: None,
        arguments: CommandSignature {
            context: false,
            arguments: Vec::new(),
        },
        action: CommandHandler(token),
    }
}

#[test]
fn clamp_holds_value_inside_range() {
    assert_eq!(clamp(5, 0, 10), 5);
    assert_eq!(clamp(-3, 0, 10), 0);
    assert_eq!(clamp(42, 0, 10), 10);
    assert_eq!(clamp(7, 7, 7), 7);
}

#[test]
fn clamp_min_raises_only_low_values() {
    assert_eq!(clamp_min(5, 0), 5);
    assert_eq!(clamp_min(-3, 0), 0);
    assert_eq!(clamp_min(i128::MIN, -1), -1);
}

#[test]
fn clamp_max_lowers_only_high_values() {
    assert_eq!(clamp_max(5, 10), 5);
    assert_eq!(clamp_max(42, 10), 10);
    assert_eq!(clamp_max(i128::MAX, 1), 1);
}

#[test]
fn subcommands_replace_same_named_children() {
    let sc = SubCommands::new(String::from("tools"), String::from("tool commands"))
        .command(leaf("fix", 1))
        .command(leaf("lint", 2))
        .command(leaf("fix", 3));
    assert_eq!(sc.subcommands.len(), 2);
    match &sc.subcommands[0] {
        SubCommand::SubCommand(c) => {
            assert_eq!(c.name, "fix");
            assert_eq!(c.action, CommandHandler(3));
        }
        _ => panic!("expected a subcommand"),
    }
    match &sc.subcommands[1] {
        SubCommand::SubCommand(c) => assert_eq!(c.name, "lint"),
        _ => panic!("expected a subcommand"),
    }
}

#[test]
fn guild_builder_accumulates_guilds() {
    let sc = SubCommands::new(String::from("tools"), String::from("tool commands"))
        .guild(1)
        .guild(2);
    assert_eq!(sc.guilds, Some(vec![1, 2]));
}

#[test]
fn command_group_keeps_last_of_equal_names() {
    let group = CommandGroup::new(
        String::from("g"),
        String::from("group"),
        vec![leaf("a", 1), leaf("b", 2), leaf("a", 3)],
    );
    assert_eq!(group.subcommands.len(), 2);
    assert_eq!(group.subcommands[0].name, "a");
    assert_eq!(group.subcommands[0].action, CommandHandler(3));
    assert_eq!(group.subcommands[1].name, "b");
}
