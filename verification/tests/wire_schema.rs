use ataraxy::Command;
use ataraxy::Framework;
use ataraxy::SubCommands;
use ataraxy::argument::ChannelType;
use ataraxy::argument::CommandArgumentOptions;
use ataraxy::argument::CommandArgumentSignature;
use ataraxy::argument::CommandArgumentType;
use ataraxy::argument::CommandArgumentValueType;
use ataraxy::argument::CommandSignature;
use ataraxy::argument::WIRE_NUMBER_MAX_BITS;
use ataraxy::argument::WIRE_NUMBER_MIN_BITS;
use ataraxy::argument::as_channel_types;
use ataraxy::command::CommandHandler;
use ataraxy::framework::CommandGroup;
use ataraxy::framework::CommandMergeMethod;
use ataraxy::framework::ValidCommand;
use ataraxy::wire::ApplicationCommandOptionType;
use ataraxy::wire::CommandDescriptor;
use ataraxy::wire::WireBound;
use ataraxy::wire::command_from_descriptor;
use ataraxy::wire::create_command;

fn no_options() -> CommandArgumentOptions {
    CommandArgumentOptions {
        min: None,
        max: None,
        min_len: None,
        max_len: None,
        channel_type: None,
    }
}

fn arg(
    name: &str,
    value_type: CommandArgumentValueType,
    optional: bool,
    options: CommandArgumentOptions,
) -> CommandArgumentSignature {
    CommandArgumentSignature {
        name: String::from(name),
        description: format!("{} argument", name),
        argument: CommandArgumentType {
            optional,
            value_type,
        },
        options,
    }
}

fn leaf_with_args(name: &str, args: Vec<CommandArgumentSignature>) -> Command {
    Command {
        name: String::from(name),
        description: format!("the {} command", name),
        guilds: None,
        arguments: CommandSignature {
            context: false,
            arguments: args,
        },
        action: CommandHandler(1),
    }
}

#[test]
fn integer_bounds_default_to_native_width() {
    let cmd = leaf_with_args(
        "n",
        vec![arg(
            "v",
            CommandArgumentValueType::Integer(-128, 127),
            false,
            no_options(),
        )],
    );
    let d = create_command(&ValidCommand::Command(cmd));
    match d {
        CommandDescriptor::Leaf { arguments, .. } => {
            assert_eq!(arguments[0].kind, ApplicationCommandOptionType::Integer);
            assert!(arguments[0].required);
            assert_eq!(arguments[0].min_value, Some(WireBound::Int(-128)));
            assert_eq!(arguments[0].max_value, Some(WireBound::Int(127)));
        }
        _ => panic!("expected leaf descriptor"),
    }
}

#[test]
fn declared_bounds_are_held_to_native_width() {
    let mut options = no_options();
    options.min = Some(-5);
    options.max = Some(300);
    let cmd = leaf_with_args(
        "n",
        vec![arg(
            "v",
            CommandArgumentValueType::Integer(0, 255),
            false,
            options,
        )],
    );
    let d = create_command(&ValidCommand::Command(cmd));
    match d {
        CommandDescriptor::Leaf { arguments, .. } => {
            assert_eq!(arguments[0].min_value, Some(WireBound::Int(0)));
            assert_eq!(arguments[0].max_value, Some(WireBound::Int(255)));
        }
        _ => panic!("expected leaf descriptor"),
    }
}

#[test]
fn declared_bounds_inside_native_width_pass_through() {
    let mut options = no_options();
    options.min = Some(3);
    options.max = Some(9);
    let cmd = leaf_with_args(
        "n",
        vec![arg(
            "v",
            CommandArgumentValueType::Integer(0, 255),
            true,
            options,
        )],
    );
    let d = create_command(&ValidCommand::Command(cmd));
    match d {
        CommandDescriptor::Leaf { arguments, .. } => {
            assert!(!arguments[0].required);
            assert_eq!(arguments[0].min_value, Some(WireBound::Int(3)));
            assert_eq!(arguments[0].max_value, Some(WireBound::Int(9)));
        }
        _ => panic!("expected leaf descriptor"),
    }
}

#[test]
fn string_length_bounds_ride_along() {
    let mut options = no_options();
    options.min_len = Some(1);
    options.max_len = Some(80);
    let cmd = leaf_with_args(
        "s",
        vec![arg("v", CommandArgumentValueType::Str, false, options)],
    );
    let d = create_command(&ValidCommand::Command(cmd));
    match d {
        CommandDescriptor::Leaf { arguments, .. } => {
            assert_eq!(arguments[0].kind, ApplicationCommandOptionType::Str);
            assert_eq!(arguments[0].min_length, Some(1));
            assert_eq!(arguments[0].max_length, Some(80));
            assert_eq!(arguments[0].min_value, None);
            assert_eq!(arguments[0].max_value, None);
        }
        _ => panic!("expected leaf descriptor"),
    }
}

#[test]
fn channel_kind_expansion_is_sorted_and_unique() {
    assert_eq!(
        as_channel_types(vec![ChannelType::All]),
        vec![0u8, 1, 2, 4, 5, 10, 11, 12, 13]
    );
    assert_eq!(
        as_channel_types(vec![ChannelType::Voice, ChannelType::Text]),
        vec![0u8, 2]
    );
    assert_eq!(
        as_channel_types(vec![ChannelType::Text, ChannelType::Text]),
        vec![0u8]
    );
    assert_eq!(
        as_channel_types(vec![ChannelType::NewsThreads, ChannelType::Thread]),
        vec![11u8, 12]
    );
    assert_eq!(as_channel_types(vec![]), Vec::<u8>::new());
}

#[test]
fn channel_argument_defaults_to_all_kinds() {
    let cmd = leaf_with_args(
        "c",
        vec![arg(
            "chan",
            CommandArgumentValueType::Channel,
            false,
            no_options(),
        )],
    );
    let d = create_command(&ValidCommand::Command(cmd));
    match d {
        CommandDescriptor::Leaf { arguments, .. } => {
            assert_eq!(
                arguments[0].channel_types,
                Some(vec![0u8, 1, 2, 4, 5, 10, 11, 12, 13])
            );
        }
        _ => panic!("expected leaf descriptor"),
    }
}

fn sample_tree() -> ValidCommand {
    let mut int_options = no_options();
    int_options.min = Some(1);
    int_options.max = Some(10);
    let say = leaf_with_args(
        "say",
        vec![
            arg("msg", CommandArgumentValueType::Str, false, no_options()),
            arg(
                "times",
                CommandArgumentValueType::Integer(0, 255),
                true,
                int_options,
            ),
        ],
    );
    let wave = leaf_with_args("wave", vec![]);
    let group = CommandGroup::new(
        String::from("emote"),
        String::from("emote commands"),
        vec![wave],
    );
    ValidCommand::SubCommands(
        SubCommands::new(String::from("fun"), String::from("fun commands"))
            .command(say)
            .group(group),
    )
}

#[test]
fn descriptor_round_trip_preserves_surface() {
    let tree = sample_tree();
    let d = create_command(&tree);
    let back = command_from_descriptor(&d).expect("own descriptors must parse");
    let d2 = create_command(&back);
    assert_eq!(d, d2);
}

#[test]
fn leaf_round_trip_preserves_bounds() {
    let mut options = no_options();
    options.min = Some(2);
    let cmd = leaf_with_args(
        "roll",
        vec![arg(
            "sides",
            CommandArgumentValueType::Integer(0, 255),
            false,
            options,
        )],
    );
    let d = create_command(&ValidCommand::Command(cmd));
    let back = command_from_descriptor(&d).expect("own descriptors must parse");
    let d2 = create_command(&back);
    assert_eq!(d, d2);
    match back {
        ValidCommand::Command(c) => {
            assert_eq!(c.name, "roll");
            assert_eq!(c.arguments.arguments.len(), 1);
            assert_eq!(
                c.arguments.arguments[0].argument.value_type,
                CommandArgumentValueType::Integer(2, 255)
            );
        }
        _ => panic!("expected a leaf"),
    }
}

#[test]
fn float_argument_with_declared_bounds_round_trips() {
    let mut options = no_options();
    options.min = Some(1);
    options.max = Some(6);
    let cmd = leaf_with_args(
        "scale",
        vec![arg(
            "factor",
            CommandArgumentValueType::Number(WIRE_NUMBER_MIN_BITS, WIRE_NUMBER_MAX_BITS),
            false,
            options,
        )],
    );
    let d = create_command(&ValidCommand::Command(cmd));
    match &d {
        CommandDescriptor::Leaf { arguments, .. } => {
            assert_eq!(arguments[0].min_value, Some(WireBound::Int(1)));
            assert_eq!(arguments[0].max_value, Some(WireBound::Int(6)));
        }
        _ => panic!("expected leaf descriptor"),
    }
    let back = command_from_descriptor(&d).expect("own descriptors must parse");
    let d2 = create_command(&back);
    assert_eq!(d, d2);
}

#[test]
fn float_argument_with_default_bounds_round_trips() {
    let cmd = leaf_with_args(
        "scale",
        vec![arg(
            "factor",
            CommandArgumentValueType::Number(WIRE_NUMBER_MIN_BITS, WIRE_NUMBER_MAX_BITS),
            true,
            no_options(),
        )],
    );
    let d = create_command(&ValidCommand::Command(cmd));
    match &d {
        CommandDescriptor::Leaf { arguments, .. } => {
            assert_eq!(
                arguments[0].min_value,
                Some(WireBound::Bits(WIRE_NUMBER_MIN_BITS))
            );
            assert_eq!(
                arguments[0].max_value,
                Some(WireBound::Bits(WIRE_NUMBER_MAX_BITS))
            );
        }
        _ => panic!("expected leaf descriptor"),
    }
    let back = command_from_descriptor(&d).expect("own descriptors must parse");
    let d2 = create_command(&back);
    assert_eq!(d, d2);
}

#[test]
fn registration_plan_partitions_by_scope() {
    let mut scoped = leaf_with_args("local", vec![]);
    scoped.guilds = Some(vec![555, 777]);
    let mut scoped2 = leaf_with_args("other", vec![]);
    scoped2.guilds = Some(vec![555]);
    let fw = Framework::new()
        .command(leaf_with_args("global_one", vec![]))
        .command(scoped)
        .command(leaf_with_args("global_two", vec![]))
        .command(scoped2);

    let plan = fw.registration_plan().expect("replace policy plans a push");
    let global_names: Vec<&str> = plan
        .global
        .iter()
        .map(|d| match d {
            CommandDescriptor::Leaf { name, .. } => name.as_str(),
            CommandDescriptor::Group { name, .. } => name.as_str(),
        })
        .collect();
    assert_eq!(global_names, vec!["global_one", "global_two"]);

    assert_eq!(plan.guilds.len(), 2);
    let set_555 = plan
        .guilds
        .iter()
        .find(|s| s.guild == 555)
        .expect("guild 555 has a bucket");
    let names_555: Vec<&str> = set_555
        .commands
        .iter()
        .map(|d| match d {
            CommandDescriptor::Leaf { name, .. } => name.as_str(),
            CommandDescriptor::Group { name, .. } => name.as_str(),
        })
        .collect();
    assert_eq!(names_555, vec!["local", "other"]);

    let set_777 = plan
        .guilds
        .iter()
        .find(|s| s.guild == 777)
        .expect("guild 777 has a bucket");
    assert_eq!(set_777.commands.len(), 1);
}

#[test]
fn keep_merge_method_plans_no_push() {
    let fw = Framework::new()
        .command(leaf_with_args("ping", vec![]))
        .set_merge_method(CommandMergeMethod::Keep);
    assert!(fw.registration_plan().is_none());
}
