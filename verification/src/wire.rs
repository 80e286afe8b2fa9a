//! The platform's declarative command schema: wire descriptors, the
//! encoding of the command tree into them, the decoding used by test
//! doubles of the remote platform, and the partition of the registry into
//! the global and per-guild registration sets.
//!
//! The nesting limit of the schema is fixed: a top-level command is
//! either a leaf carrying argument options, or a group whose children are
//! subcommands or subcommand groups, the latter carrying leaves one level
//! further down.

use vstd::prelude::*;

use crate::argument::ChannelType;
use crate::argument::CommandArgumentOptions;
use crate::argument::CommandArgumentSignature;
use crate::argument::CommandArgumentType;
use crate::argument::CommandArgumentValueType;
use crate::argument::CommandSignature;
use crate::argument::as_channel_types;
use crate::argument::channel_type_admits;
use crate::command::Command;
use crate::command::CommandHandler;
use crate::framework::CommandGroup;
use crate::framework::SubCommand;
use crate::framework::SubCommands;
use crate::framework::ValidCommand;
use crate::utils::clamp_max;
use crate::utils::clamp_min;

verus! {

/// The numeric option kind of the platform's schema.
#[derive(Debug, Clone, Copy, PartialEq, Eq, Structural)]
pub enum ApplicationCommandOptionType {
    SubCommand,
    SubCommandGroup,
    Str,
    Integer,
    Boolean,
    User,
    Channel,
    Role,
    Number,
}

/// A numeric validation bound as it stands on the wire: an integer
/// value, or the bit pattern of a wire float.
#[derive(Debug, Clone, Copy, PartialEq, Eq, Structural)]
pub enum WireBound {
    Int(i128),
    Bits(u64),
}

/// One argument option of a leaf, as declared to the platform.
#[derive(Debug, Clone, PartialEq)]
pub struct ArgumentDescriptor {
    pub kind: ApplicationCommandOptionType,
    pub name: String,
    pub description: String,
    pub required: bool,
    pub min_value: Option<WireBound>,
    pub max_value: Option<WireBound>,
    pub min_length: Option<u64>,
    pub max_length: Option<u64>,
    pub channel_types: Option<Vec<u8>>,
}

/// A subcommand option: an invokable leaf one level below the top.
#[derive(Debug, Clone, PartialEq)]
pub struct SubCommandDescriptor {
    pub name: String,
    pub description: String,
    pub arguments: Vec<ArgumentDescriptor>,
}

/// A subcommand-group option, carrying leaves one level further down.
#[derive(Debug, Clone, PartialEq)]
pub struct SubGroupDescriptor {
    pub name: String,
    pub description: String,
    pub subcommands: Vec<SubCommandDescriptor>,
}

/// One child option of a top-level group command.
#[derive(Debug, Clone, PartialEq)]
pub enum CommandOptionDescriptor {
    SubCommand(SubCommandDescriptor),
    SubCommandGroup(SubGroupDescriptor),
}

/// A top-level command as declared to the platform: a leaf with argument
/// options, or a group with nested subcommand levels.
#[derive(Debug, Clone, PartialEq)]
pub enum CommandDescriptor {
    Leaf { name: String, description: String, arguments: Vec<ArgumentDescriptor> },
    Group { name: String, description: String, children: Vec<CommandOptionDescriptor> },
}

impl CommandArgumentValueType {
    /// The option kind this declared type registers as.
    pub open spec fn spec_wire_kind(self) -> ApplicationCommandOptionType {
        match self {
            CommandArgumentValueType::Str => ApplicationCommandOptionType::Str,
            CommandArgumentValueType::Integer(_, _) => ApplicationCommandOptionType::Integer,
            CommandArgumentValueType::Number(_, _) => ApplicationCommandOptionType::Number,
            CommandArgumentValueType::Channel => ApplicationCommandOptionType::Channel,
            CommandArgumentValueType::User => ApplicationCommandOptionType::User,
            CommandArgumentValueType::Role => ApplicationCommandOptionType::Role,
            CommandArgumentValueType::Boolean => ApplicationCommandOptionType::Boolean,
        }
    }

    /// The platform option kind this declared type registers as.
    pub fn as_serenity_kind(&self) -> (r: ApplicationCommandOptionType)
        ensures
            r == self.spec_wire_kind(),
    {
        match self {
            CommandArgumentValueType::Str => ApplicationCommandOptionType::Str,
            CommandArgumentValueType::Integer(_, _) => ApplicationCommandOptionType::Integer,
            CommandArgumentValueType::Number(_, _) => ApplicationCommandOptionType::Number,
            CommandArgumentValueType::Channel => ApplicationCommandOptionType::Channel,
            CommandArgumentValueType::User => ApplicationCommandOptionType::User,
            CommandArgumentValueType::Role => ApplicationCommandOptionType::Role,
            CommandArgumentValueType::Boolean => ApplicationCommandOptionType::Boolean,
        }
    }
}

/// The lower wire bound of a numeric option: the declared minimum held up
/// to the native type's own minimum, or the native minimum when nothing
/// narrower was declared. Non-numeric kinds carry no bound.
pub open spec fn spec_wire_min(vt: CommandArgumentValueType, declared: Option<i64>) -> Option<
    WireBound,
> {
    match vt {
        CommandArgumentValueType::Integer(tmin, _) => match declared {
            Option::Some(d) => Option::Some(
                WireBound::Int(
                    if (d as i128) < tmin {
                        tmin
                    } else {
                        d as i128
                    },
                ),
            ),
            Option::None => Option::Some(WireBound::Int(tmin)),
        },
        CommandArgumentValueType::Number(bmin, _) => match declared {
            Option::Some(d) => Option::Some(WireBound::Int(d as i128)),
            Option::None => Option::Some(WireBound::Bits(bmin)),
        },
        _ => Option::None,
    }
}

/// The upper wire bound of a numeric option: the declared maximum held
/// down to the native type's own maximum, or the native maximum when
/// nothing narrower was declared.
pub open spec fn spec_wire_max(vt: CommandArgumentValueType, declared: Option<i64>) -> Option<
    WireBound,
> {
    match vt {
        CommandArgumentValueType::Integer(_, tmax) => match declared {
            Option::Some(d) => Option::Some(
                WireBound::Int(
                    if (d as i128) > tmax {
                        tmax
                    } else {
                        d as i128
                    },
                ),
            ),
            Option::None => Option::Some(WireBound::Int(tmax)),
        },
        CommandArgumentValueType::Number(_, bmax) => match declared {
            Option::Some(d) => Option::Some(WireBound::Int(d as i128)),
            Option::None => Option::Some(WireBound::Bits(bmax)),
        },
        _ => Option::None,
    }
}

/// Whether a code list is the expansion of the declared channel-kind
/// restrictions (with no declaration standing for all kinds): ascending,
/// duplicate-free, and containing exactly the admitted codes.
pub open spec fn spec_channel_codes_match(
    codes: Seq<u8>,
    declared: Option<Vec<ChannelType>>,
) -> bool {
    &&& (forall|a: int, b: int| 0 <= a < b < codes.len() ==> codes[a] < codes[b])
    &&& (forall|code: u8|
        codes.contains(code) <==> match declared {
            Option::Some(cs) => exists|i: int|
                0 <= i < cs@.len() && channel_type_admits(#[trigger] cs@[i], code),
            Option::None => channel_type_admits(ChannelType::All, code),
        })
}

/// Whether an argument descriptor declares exactly what the signature
/// says. With `strict`, the channel-kind restriction codes are compared
/// too; without, only the fields the platform echoes back are.
pub open spec fn arg_descriptor_matches(
    d: ArgumentDescriptor,
    sig: CommandArgumentSignature,
    strict: bool,
) -> bool {
    &&& d.kind == sig.argument.value_type.spec_wire_kind()
    &&& d.name@ == sig.name@
    &&& d.description@ == sig.description@
    &&& d.required == !sig.argument.optional
    &&& d.min_value == spec_wire_min(sig.argument.value_type, sig.options.min)
    &&& d.max_value == spec_wire_max(sig.argument.value_type, sig.options.max)
    &&& d.min_length == if sig.argument.value_type is Str {
        sig.options.min_len
    } else {
        Option::<u64>::None
    }
    &&& d.max_length == if sig.argument.value_type is Str {
        sig.options.max_len
    } else {
        Option::<u64>::None
    }
    &&& if sig.argument.value_type is Channel {
        strict ==> (d.channel_types matches Option::Some(codes) && spec_channel_codes_match(
            codes@,
            sig.options.channel_type,
        ))
    } else {
        d.channel_types is None
    }
}

impl CommandArgumentSignature {
    /// Encode this parameter as the platform option it registers as.
    pub fn as_serenity_option(&self) -> (r: ArgumentDescriptor)
        ensures
            arg_descriptor_matches(r, *self, true),
    {
        let kind = self.argument.value_type.as_serenity_kind();
        let mut min_value: Option<WireBound> = Option::None;
        let mut max_value: Option<WireBound> = Option::None;
        let mut min_length: Option<u64> = Option::None;
        let mut max_length: Option<u64> = Option::None;
        let mut channel_types: Option<Vec<u8>> = Option::None;
        match &self.argument.value_type {
            CommandArgumentValueType::Integer(tmin, tmax) => {
                min_value = Option::Some(
                    WireBound::Int(
                        match self.options.min {
                            Option::Some(d) => clamp_min(d as i128, *tmin),
                            Option::None => *tmin,
                        },
                    ),
                );
                max_value = Option::Some(
                    WireBound::Int(
                        match self.options.max {
                            Option::Some(d) => clamp_max(d as i128, *tmax),
                            Option::None => *tmax,
                        },
                    ),
                );
            },
            CommandArgumentValueType::Number(bmin, bmax) => {
                min_value = Option::Some(
                    match self.options.min {
                        Option::Some(d) => WireBound::Int(d as i128),
                        Option::None => WireBound::Bits(*bmin),
                    },
                );
                max_value = Option::Some(
                    match self.options.max {
                        Option::Some(d) => WireBound::Int(d as i128),
                        Option::None => WireBound::Bits(*bmax),
                    },
                );
            },
            CommandArgumentValueType::Str => {
                min_length = self.options.min_len;
                max_length = self.options.max_len;
            },
            CommandArgumentValueType::Channel => {
                let declared: Vec<ChannelType> = match &self.options.channel_type {
                    Option::Some(cs) => {
                        let mut copy: Vec<ChannelType> = Vec::new();
                        let mut i: usize = 0;
                        while i < cs.len()
                            invariant
                                i <= cs@.len(),
                                copy@ =~= cs@.take(i as int),
                            decreases cs@.len() - i,
                        {
                            copy.push(cs[i]);
                            proof {
                                assert(copy@ =~= cs@.take(i + 1));
                            }
                            i = i + 1;
                        }
                        proof {
                            assert(cs@.take(cs@.len() as int) =~= cs@);
                        }
                        copy
                    },
                    Option::None => {
                        let mut all: Vec<ChannelType> = Vec::new();
                        all.push(ChannelType::All);
                        all
                    },
                };
                proof {
                    match &self.options.channel_type {
                        Option::Some(cs) => {
                            assert(declared@ == cs@);
                        },
                        Option::None => {
                            assert(declared@ =~= seq![ChannelType::All]);
                        },
                    }
                }
                let codes = as_channel_types(declared);
                proof {
                    match &self.options.channel_type {
                        Option::Some(cs) => {
                            assert forall|code: u8| #[trigger] codes@.contains(code) implies
                                exists|i: int|
                                    0 <= i < cs@.len() && channel_type_admits(
                                        #[trigger] cs@[i],
                                        code,
                                    ) by {
                                let i = choose|i: int|
                                    0 <= i < declared@.len() && channel_type_admits(
                                        #[trigger] declared@[i],
                                        code,
                                    );
                                assert(cs@[i] == declared@[i]);
                            }
                            assert forall|code: u8|
                                (exists|i: int|
                                    0 <= i < cs@.len() && channel_type_admits(
                                        #[trigger] cs@[i],
                                        code,
                                    )) implies #[trigger] codes@.contains(code) by {
                                let i = choose|i: int|
                                    0 <= i < cs@.len() && channel_type_admits(
                                        #[trigger] cs@[i],
                                        code,
                                    );
                                assert(declared@[i] == cs@[i]);
                                assert(channel_type_admits(declared@[i], code));
                            }
                        },
                        Option::None => {
                            assert forall|code: u8| #[trigger] codes@.contains(code) implies
                                channel_type_admits(ChannelType::All, code) by {
                                let i = choose|i: int|
                                    0 <= i < declared@.len() && channel_type_admits(
                                        #[trigger] declared@[i],
                                        code,
                                    );
                                assert(declared@[i] == ChannelType::All);
                            }
                            assert forall|code: u8|
                                channel_type_admits(ChannelType::All, code) implies
                                #[trigger] codes@.contains(code) by {
                                assert(declared@[0] == ChannelType::All);
                                assert(channel_type_admits(declared@[0], code));
                            }
                        },
                    }
                }
                channel_types = Option::Some(codes);
            },
            _ => {},
        }
        ArgumentDescriptor {
            kind,
            name: self.name.clone(),
            description: self.description.clone(),
            required: !self.argument.optional,
            min_value,
            max_value,
            min_length,
            max_length,
            channel_types,
        }
    }
}

/// Whether a subcommand option declares exactly what the leaf says.
pub open spec fn subcommand_descriptor_matches(
    sd: SubCommandDescriptor,
    c: Command,
    strict: bool,
) -> bool {
    &&& sd.name@ == c.name@
    &&& sd.description@ == c.description@
    &&& sd.arguments@.len() == c.arguments.arguments@.len()
    &&& forall|i: int|
        0 <= i < sd.arguments@.len() ==> arg_descriptor_matches(
            #[trigger] sd.arguments@[i],
            c.arguments.arguments@[i],
            strict,
        )
}

/// Whether a subcommand-group option declares exactly what the group
/// says.
pub open spec fn group_descriptor_matches(
    gd: SubGroupDescriptor,
    g: CommandGroup,
    strict: bool,
) -> bool {
    &&& gd.name@ == g.name@
    &&& gd.description@ == g.description@
    &&& gd.subcommands@.len() == g.subcommands@.len()
    &&& forall|i: int|
        0 <= i < gd.subcommands@.len() ==> subcommand_descriptor_matches(
            #[trigger] gd.subcommands@[i],
            g.subcommands@[i],
            strict,
        )
}

/// Whether a child option declares exactly what the container child
/// says.
pub open spec fn child_descriptor_matches(
    cd: CommandOptionDescriptor,
    s: SubCommand,
    strict: bool,
) -> bool {
    match s {
        SubCommand::SubCommand(c) => cd matches CommandOptionDescriptor::SubCommand(sd)
            && subcommand_descriptor_matches(sd, c, strict),
        SubCommand::SubCommandGroup(g) => cd matches CommandOptionDescriptor::SubCommandGroup(gd)
            && group_descriptor_matches(gd, g, strict),
    }
}

/// Whether a wire descriptor declares exactly what the registry entry
/// says: name, description, nesting, and each argument option.
pub open spec fn command_descriptor_matches(
    d: CommandDescriptor,
    c: ValidCommand,
    strict: bool,
) -> bool {
    match c {
        ValidCommand::Command(cmd) => {
            &&& d matches CommandDescriptor::Leaf { name, description, arguments }
            &&& name@ == cmd.name@
            &&& description@ == cmd.description@
            &&& arguments@.len() == cmd.arguments.arguments@.len()
            &&& forall|i: int|
                0 <= i < arguments@.len() ==> arg_descriptor_matches(
                    #[trigger] arguments@[i],
                    cmd.arguments.arguments@[i],
                    strict,
                )
        },
        ValidCommand::SubCommands(sc) => {
            &&& d matches CommandDescriptor::Group { name, description, children }
            &&& name@ == sc.name@
            &&& description@ == sc.description@
            &&& children@.len() == sc.subcommands@.len()
            &&& forall|i: int|
                0 <= i < children@.len() ==> child_descriptor_matches(
                    #[trigger] children@[i],
                    sc.subcommands@[i],
                    strict,
                )
        },
    }
}

fn encode_arguments(args: &Vec<CommandArgumentSignature>) -> (r: Vec<ArgumentDescriptor>)
    ensures
        r@.len() == args@.len(),
        forall|i: int|
            0 <= i < r@.len() ==> arg_descriptor_matches(#[trigger] r@[i], args@[i], true),
{
    let mut out: Vec<ArgumentDescriptor> = Vec::new();
    let mut i: usize = 0;
    while i < args.len()
        invariant
            i <= args@.len(),
            out@.len() == i,
            forall|j: int|
                0 <= j < i ==> arg_descriptor_matches(#[trigger] out@[j], args@[j], true),
        decreases args@.len() - i,
    {
        out.push(args[i].as_serenity_option());
        i = i + 1;
    }
    out
}

fn encode_subcommand(c: &Command) -> (r: SubCommandDescriptor)
    ensures
        subcommand_descriptor_matches(r, *c, true),
{
    SubCommandDescriptor {
        name: c.name.clone(),
        description: c.description.clone(),
        arguments: encode_arguments(&c.arguments.arguments),
    }
}

fn encode_group(g: &CommandGroup) -> (r: SubGroupDescriptor)
    ensures
        group_descriptor_matches(r, *g, true),
{
    let mut subcommands: Vec<SubCommandDescriptor> = Vec::new();
    let mut i: usize = 0;
    while i < g.subcommands.len()
        invariant
            i <= g.subcommands@.len(),
            subcommands@.len() == i,
            forall|j: int|
                0 <= j < i ==> subcommand_descriptor_matches(
                    #[trigger] subcommands@[j],
                    g.subcommands@[j],
                    true,
                ),
        decreases g.subcommands@.len() - i,
    {
        subcommands.push(encode_subcommand(&g.subcommands[i]));
        i = i + 1;
    }
    SubGroupDescriptor {
        name: g.name.clone(),
        description: g.description.clone(),
        subcommands,
    }
}

/// Encode a registry entry as the wire descriptor the platform expects:
/// a leaf's arguments directly, a container's children flattened into
/// the nested subcommand and subcommand-group option levels.
pub fn create_command(command: &ValidCommand) -> (r: CommandDescriptor)
    ensures
        command_descriptor_matches(r, *command, true),
{
    match command {
        ValidCommand::Command(cmd) => CommandDescriptor::Leaf {
            name: cmd.name.clone(),
            description: cmd.description.clone(),
            arguments: encode_arguments(&cmd.arguments.arguments),
        },
        ValidCommand::SubCommands(sc) => {
            let mut children: Vec<CommandOptionDescriptor> = Vec::new();
            let mut i: usize = 0;
            while i < sc.subcommands.len()
                invariant
                    i <= sc.subcommands@.len(),
                    children@.len() == i,
                    forall|j: int|
                        0 <= j < i ==> child_descriptor_matches(
                            #[trigger] children@[j],
                            sc.subcommands@[j],
                            true,
                        ),
                decreases sc.subcommands@.len() - i,
            {
                let child = match &sc.subcommands[i] {
                    SubCommand::SubCommand(c) => CommandOptionDescriptor::SubCommand(
                        encode_subcommand(c),
                    ),
                    SubCommand::SubCommandGroup(g) => CommandOptionDescriptor::SubCommandGroup(
                        encode_group(g),
                    ),
                };
                children.push(child);
                i = i + 1;
            }
            CommandDescriptor::Group {
                name: sc.name.clone(),
                description: sc.description.clone(),
                children,
            }
        },
    }
}

/// Whether some declared parameter encodes exactly to this argument
/// option — that is, whether the option lies in the encoder's image.
pub open spec fn spec_arg_encodable(d: ArgumentDescriptor) -> bool {
    exists|sig: CommandArgumentSignature| arg_descriptor_matches(d, sig, true)
}

/// Whether some leaf encodes exactly to this subcommand option.
pub open spec fn spec_subcommand_encodable(sd: SubCommandDescriptor) -> bool {
    exists|c: Command| subcommand_descriptor_matches(sd, c, true)
}

/// Whether some registry entry encodes exactly to this descriptor.
pub open spec fn spec_descriptor_encodable(d: CommandDescriptor) -> bool {
    exists|c: ValidCommand| command_descriptor_matches(d, c, true)
}

/// The shape every encoder-produced argument option has: the kind is a
/// value kind, numeric kinds carry both bounds (a float's integer-valued
/// bound fits the declared width), and no field stands on an option of a
/// kind that does not declare it.
proof fn lemma_arg_encodable_shape(d: ArgumentDescriptor)
    requires
        spec_arg_encodable(d),
    ensures
        d.kind != ApplicationCommandOptionType::SubCommand,
        d.kind != ApplicationCommandOptionType::SubCommandGroup,
        d.kind == ApplicationCommandOptionType::Str ==> d.min_value is None && d.max_value is None
            && d.channel_types is None,
        d.kind == ApplicationCommandOptionType::Integer ==> (d.min_value matches Option::Some(
            WireBound::Int(_),
        )) && (d.max_value matches Option::Some(WireBound::Int(_))) && d.min_length is None
            && d.max_length is None && d.channel_types is None,
        d.kind == ApplicationCommandOptionType::Number ==> (match d.min_value {
            Option::Some(WireBound::Int(v)) => i64::MIN <= v <= i64::MAX,
            Option::Some(WireBound::Bits(_)) => true,
            Option::None => false,
        }) && (match d.max_value {
            Option::Some(WireBound::Int(v)) => i64::MIN <= v <= i64::MAX,
            Option::Some(WireBound::Bits(_)) => true,
            Option::None => false,
        }) && d.min_length is None && d.max_length is None && d.channel_types is None,
        (d.kind == ApplicationCommandOptionType::Boolean || d.kind
            == ApplicationCommandOptionType::User || d.kind == ApplicationCommandOptionType::Role)
            ==> d.min_value is None && d.max_value is None && d.min_length is None
            && d.max_length is None && d.channel_types is None,
        d.kind == ApplicationCommandOptionType::Channel ==> d.min_value is None
            && d.max_value is None && d.min_length is None && d.max_length is None,
{
    let sig = choose|sig: CommandArgumentSignature| arg_descriptor_matches(d, sig, true);
    match sig.argument.value_type {
        CommandArgumentValueType::Str => {},
        CommandArgumentValueType::Integer(_, _) => {},
        CommandArgumentValueType::Number(_, _) => {},
        CommandArgumentValueType::Channel => {},
        CommandArgumentValueType::User => {},
        CommandArgumentValueType::Role => {},
        CommandArgumentValueType::Boolean => {},
    }
}

/// Decode one argument option back into a parameter signature. Decoding
/// is owed on every option the encoder can produce; nothing comes back
/// for a descriptor that no declared parameter produces. The
/// reconstructed signature declares exactly the same wire surface: wire
/// bounds come back as the native type bounds — a float's integer-valued
/// bound as the declared option — and channel restrictions are left out.
fn parse_argument(d: &ArgumentDescriptor) -> (r: Option<CommandArgumentSignature>)
    ensures
        r matches Option::Some(sig) ==> arg_descriptor_matches(*d, sig, false),
        spec_arg_encodable(*d) ==> r is Some,
{
    let mut declared_min: Option<i64> = Option::None;
    let mut declared_max: Option<i64> = Option::None;
    let value_type: CommandArgumentValueType = match d.kind {
        ApplicationCommandOptionType::Str => {
            if !(matches!(d.min_value, Option::None) && matches!(d.max_value, Option::None)
                && matches!(d.channel_types, Option::None)) {
                proof {
                    if spec_arg_encodable(*d) {
                        lemma_arg_encodable_shape(*d);
                    }
                }
                return Option::None;
            }
            CommandArgumentValueType::Str
        },
        ApplicationCommandOptionType::Integer => {
            let (a, b) = match (&d.min_value, &d.max_value) {
                (Option::Some(WireBound::Int(a)), Option::Some(WireBound::Int(b))) => (*a, *b),
                _ => {
                    proof {
                        if spec_arg_encodable(*d) {
                            lemma_arg_encodable_shape(*d);
                        }
                    }
                    return Option::None;
                },
            };
            if !(matches!(d.min_length, Option::None) && matches!(d.max_length, Option::None)
                && matches!(d.channel_types, Option::None)) {
                proof {
                    if spec_arg_encodable(*d) {
                        lemma_arg_encodable_shape(*d);
                    }
                }
                return Option::None;
            }
            CommandArgumentValueType::Integer(a, b)
        },
        ApplicationCommandOptionType::Number => {
            if !(matches!(d.min_length, Option::None) && matches!(d.max_length, Option::None)
                && matches!(d.channel_types, Option::None)) {
                proof {
                    if spec_arg_encodable(*d) {
                        lemma_arg_encodable_shape(*d);
                    }
                }
                return Option::None;
            }
            let bmin: u64 = match &d.min_value {
                Option::Some(WireBound::Bits(b)) => *b,
                Option::Some(WireBound::Int(v)) => {
                    if *v < i64::MIN as i128 || *v > i64::MAX as i128 {
                        proof {
                            if spec_arg_encodable(*d) {
                                lemma_arg_encodable_shape(*d);
                            }
                        }
                        return Option::None;
                    }
                    declared_min = Option::Some(*v as i64);
                    crate::argument::WIRE_NUMBER_MIN_BITS
                },
                Option::None => {
                    proof {
                        if spec_arg_encodable(*d) {
                            lemma_arg_encodable_shape(*d);
                        }
                    }
                    return Option::None;
                },
            };
            let bmax: u64 = match &d.max_value {
                Option::Some(WireBound::Bits(b)) => *b,
                Option::Some(WireBound::Int(v)) => {
                    if *v < i64::MIN as i128 || *v > i64::MAX as i128 {
                        proof {
                            if spec_arg_encodable(*d) {
                                lemma_arg_encodable_shape(*d);
                            }
                        }
                        return Option::None;
                    }
                    declared_max = Option::Some(*v as i64);
                    crate::argument::WIRE_NUMBER_MAX_BITS
                },
                Option::None => {
                    proof {
                        if spec_arg_encodable(*d) {
                            lemma_arg_encodable_shape(*d);
                        }
                    }
                    return Option::None;
                },
            };
            CommandArgumentValueType::Number(bmin, bmax)
        },
        ApplicationCommandOptionType::Boolean => {
            if !(matches!(d.min_value, Option::None) && matches!(d.max_value, Option::None)
                && matches!(d.min_length, Option::None) && matches!(d.max_length, Option::None)
                && matches!(d.channel_types, Option::None)) {
                proof {
                    if spec_arg_encodable(*d) {
                        lemma_arg_encodable_shape(*d);
                    }
                }
                return Option::None;
            }
            CommandArgumentValueType::Boolean
        },
        ApplicationCommandOptionType::User => {
            if !(matches!(d.min_value, Option::None) && matches!(d.max_value, Option::None)
                && matches!(d.min_length, Option::None) && matches!(d.max_length, Option::None)
                && matches!(d.channel_types, Option::None)) {
                proof {
                    if spec_arg_encodable(*d) {
                        lemma_arg_encodable_shape(*d);
                    }
                }
                return Option::None;
            }
            CommandArgumentValueType::User
        },
        ApplicationCommandOptionType::Role => {
            if !(matches!(d.min_value, Option::None) && matches!(d.max_value, Option::None)
                && matches!(d.min_length, Option::None) && matches!(d.max_length, Option::None)
                && matches!(d.channel_types, Option::None)) {
                proof {
                    if spec_arg_encodable(*d) {
                        lemma_arg_encodable_shape(*d);
                    }
                }
                return Option::None;
            }
            CommandArgumentValueType::Role
        },
        ApplicationCommandOptionType::Channel => {
            if !(matches!(d.min_value, Option::None) && matches!(d.max_value, Option::None)
                && matches!(d.min_length, Option::None) && matches!(d.max_length, Option::None)) {
                proof {
                    if spec_arg_encodable(*d) {
                        lemma_arg_encodable_shape(*d);
                    }
                }
                return Option::None;
            }
            CommandArgumentValueType::Channel
        },
        _ => {
            proof {
                if spec_arg_encodable(*d) {
                    lemma_arg_encodable_shape(*d);
                }
            }
            return Option::None;
        },
    };
    let min_len = match d.kind {
        ApplicationCommandOptionType::Str => d.min_length,
        _ => Option::None,
    };
    let max_len = match d.kind {
        ApplicationCommandOptionType::Str => d.max_length,
        _ => Option::None,
    };
    Option::Some(
        CommandArgumentSignature {
            name: d.name.clone(),
            description: d.description.clone(),
            argument: CommandArgumentType { optional: !d.required, value_type },
            options: CommandArgumentOptions {
                min: declared_min,
                max: declared_max,
                min_len,
                max_len,
                channel_type: Option::None,
            },
        },
    )
}

fn parse_arguments(ds: &Vec<ArgumentDescriptor>) -> (r: Option<Vec<CommandArgumentSignature>>)
    ensures
        r matches Option::Some(sigs) ==> sigs@.len() == ds@.len() && forall|i: int|
            0 <= i < ds@.len() ==> arg_descriptor_matches(#[trigger] ds@[i], sigs@[i], false),
        (forall|i: int| 0 <= i < ds@.len() ==> spec_arg_encodable(#[trigger] ds@[i])) ==> r
            is Some,
{
    let mut out: Vec<CommandArgumentSignature> = Vec::new();
    let mut i: usize = 0;
    while i < ds.len()
        invariant
            i <= ds@.len(),
            out@.len() == i,
            forall|j: int|
                0 <= j < i ==> arg_descriptor_matches(#[trigger] ds@[j], out@[j], false),
        decreases ds@.len() - i,
    {
        match parse_argument(&ds[i]) {
            Option::Some(sig) => {
                out.push(sig);
            },
            Option::None => {
                proof {
                    if forall|j: int| 0 <= j < ds@.len() ==> spec_arg_encodable(
                        #[trigger] ds@[j],
                    ) {
                        assert(spec_arg_encodable(ds@[i as int]));
                        assert(false);
                    }
                }
                return Option::None;
            },
        }
        i = i + 1;
    }
    Option::Some(out)
}

fn parse_subcommand(sd: &SubCommandDescriptor) -> (r: Option<Command>)
    ensures
        r matches Option::Some(c) ==> subcommand_descriptor_matches(*sd, c, false),
        spec_subcommand_encodable(*sd) ==> r is Some,
{
    match parse_arguments(&sd.arguments) {
        Option::Some(sigs) => Option::Some(
            Command {
                name: sd.name.clone(),
                description: sd.description.clone(),
                guilds: Option::None,
                arguments: CommandSignature { context: false, arguments: sigs },
                action: CommandHandler(0),
            },
        ),
        Option::None => {
            proof {
                if spec_subcommand_encodable(*sd) {
                    let c = choose|c: Command| subcommand_descriptor_matches(*sd, c, true);
                    assert forall|j: int| 0 <= j < sd.arguments@.len() implies spec_arg_encodable(
                        #[trigger] sd.arguments@[j],
                    ) by {
                        assert(arg_descriptor_matches(
                            sd.arguments@[j],
                            c.arguments.arguments@[j],
                            true,
                        ));
                    }
                    assert(false);
                }
            }
            Option::None
        },
    }
}

/// Decode a wire descriptor back into a registry entry, as a faithful
/// test double of the remote platform would store it. Decoding is owed
/// on every descriptor the encoder can produce; nothing comes back for
/// a descriptor no registry entry produces. Handlers, guild scopes and
/// the context flag are not on the wire: the reconstruction carries a
/// placeholder handler, global scope, and no context injection.
pub fn command_from_descriptor(d: &CommandDescriptor) -> (r: Option<ValidCommand>)
    ensures
        r matches Option::Some(c) ==> command_descriptor_matches(*d, c, false),
        spec_descriptor_encodable(*d) ==> r is Some,
{
    match d {
        CommandDescriptor::Leaf { name, description, arguments } => {
            match parse_arguments(arguments) {
                Option::Some(sigs) => Option::Some(
                    ValidCommand::Command(
                        Command {
                            name: name.clone(),
                            description: description.clone(),
                            guilds: Option::None,
                            arguments: CommandSignature { context: false, arguments: sigs },
                            action: CommandHandler(0),
                        },
                    ),
                ),
                Option::None => {
                    proof {
                        if spec_descriptor_encodable(*d) {
                            let c = choose|c: ValidCommand| command_descriptor_matches(
                                *d,
                                c,
                                true,
                            );
                            match c {
                                ValidCommand::Command(cmd) => {
                                    assert forall|j: int| 0 <= j < arguments@.len() implies
                                        spec_arg_encodable(#[trigger] arguments@[j]) by {
                                        assert(arg_descriptor_matches(
                                            arguments@[j],
                                            cmd.arguments.arguments@[j],
                                            true,
                                        ));
                                    }
                                    assert(false);
                                },
                                ValidCommand::SubCommands(_) => {
                                    assert(false);
                                },
                            }
                        }
                    }
                    Option::None
                },
            }
        },
        CommandDescriptor::Group { name, description, children } => {
            let mut subcommands: Vec<SubCommand> = Vec::new();
            let mut i: usize = 0;
            while i < children.len()
                invariant
                    i <= children@.len(),
                    *d == (CommandDescriptor::Group {
                        name: *name,
                        description: *description,
                        children: *children,
                    }),
                    subcommands@.len() == i,
                    forall|j: int|
                        0 <= j < i ==> child_descriptor_matches(
                            children@[j],
                            #[trigger] subcommands@[j],
                            false,
                        ),
                decreases children@.len() - i,
            {
                let child: SubCommand = match &children[i] {
                    CommandOptionDescriptor::SubCommand(sd) => {
                        match parse_subcommand(sd) {
                            Option::Some(c) => SubCommand::SubCommand(c),
                            Option::None => {
                                proof {
                                    if spec_descriptor_encodable(*d) {
                                        let c = choose|c: ValidCommand|
                                            command_descriptor_matches(*d, c, true);
                                        match c {
                                            ValidCommand::Command(_) => {
                                                assert(false);
                                            },
                                            ValidCommand::SubCommands(sc) => {
                                                assert(child_descriptor_matches(
                                                    children@[i as int],
                                                    sc.subcommands@[i as int],
                                                    true,
                                                ));
                                                match sc.subcommands@[i as int] {
                                                    SubCommand::SubCommand(cmd) => {
                                                        assert(subcommand_descriptor_matches(
                                                            *sd,
                                                            cmd,
                                                            true,
                                                        ));
                                                        assert(spec_subcommand_encodable(*sd));
                                                        assert(false);
                                                    },
                                                    SubCommand::SubCommandGroup(_) => {
                                                        assert(false);
                                                    },
                                                }
                                            },
                                        }
                                    }
                                }
                                return Option::None;
                            },
                        }
                    },
                    CommandOptionDescriptor::SubCommandGroup(gd) => {
                        let mut leaves: Vec<Command> = Vec::new();
                        let mut k: usize = 0;
                        while k < gd.subcommands.len()
                            invariant
                                k <= gd.subcommands@.len(),
                                *d == (CommandDescriptor::Group {
                                    name: *name,
                                    description: *description,
                                    children: *children,
                                }),
                                i < children@.len(),
                                children@[i as int] == CommandOptionDescriptor::SubCommandGroup(
                                    *gd,
                                ),
                                leaves@.len() == k,
                                forall|l: int|
                                    0 <= l < k ==> subcommand_descriptor_matches(
                                        gd.subcommands@[l],
                                        #[trigger] leaves@[l],
                                        false,
                                    ),
                            decreases gd.subcommands@.len() - k,
                        {
                            match parse_subcommand(&gd.subcommands[k]) {
                                Option::Some(c) => {
                                    leaves.push(c);
                                },
                                Option::None => {
                                    proof {
                                        if spec_descriptor_encodable(*d) {
                                            let c = choose|c: ValidCommand|
                                                command_descriptor_matches(*d, c, true);
                                            match c {
                                                ValidCommand::Command(_) => {
                                                    assert(false);
                                                },
                                                ValidCommand::SubCommands(sc) => {
                                                    assert(child_descriptor_matches(
                                                        children@[i as int],
                                                        sc.subcommands@[i as int],
                                                        true,
                                                    ));
                                                    match sc.subcommands@[i as int] {
                                                        SubCommand::SubCommand(_) => {
                                                            assert(false);
                                                        },
                                                        SubCommand::SubCommandGroup(g) => {
                                                            assert(group_descriptor_matches(
                                                                *gd,
                                                                g,
                                                                true,
                                                            ));
                                                            assert(subcommand_descriptor_matches(
                                                                gd.subcommands@[k as int],
                                                                g.subcommands@[k as int],
                                                                true,
                                                            ));
                                                            assert(spec_subcommand_encodable(
                                                                gd.subcommands@[k as int],
                                                            ));
                                                            assert(false);
                                                        },
                                                    }
                                                },
                                            }
                                        }
                                    }
                                    return Option::None;
                                },
                            }
                            k = k + 1;
                        }
                        SubCommand::SubCommandGroup(
                            CommandGroup {
                                name: gd.name.clone(),
                                description: gd.description.clone(),
                                subcommands: leaves,
                            },
                        )
                    },
                };
                subcommands.push(child);
                i = i + 1;
            }
            Option::Some(
                ValidCommand::SubCommands(
                    SubCommands {
                        name: name.clone(),
                        description: description.clone(),
                        guilds: Option::None,
                        subcommands,
                    },
                ),
            )
        },
    }
}

/// Two parameter signatures declare the same wire surface: same name,
/// description, kind, required flag, numeric wire bounds, and — for
/// string parameters — length bounds.
pub open spec fn arg_same_surface(
    x: CommandArgumentSignature,
    y: CommandArgumentSignature,
) -> bool {
    &&& x.name@ == y.name@
    &&& x.description@ == y.description@
    &&& x.argument.value_type.spec_wire_kind() == y.argument.value_type.spec_wire_kind()
    &&& x.argument.optional == y.argument.optional
    &&& spec_wire_min(x.argument.value_type, x.options.min) == spec_wire_min(
        y.argument.value_type,
        y.options.min,
    )
    &&& spec_wire_max(x.argument.value_type, x.options.max) == spec_wire_max(
        y.argument.value_type,
        y.options.max,
    )
    &&& (x.argument.value_type is Str ==> x.options.min_len == y.options.min_len
        && x.options.max_len == y.options.max_len)
}

/// Two parameter lists declare the same wire surface, pairwise.
pub open spec fn args_same_surface(
    a: Seq<CommandArgumentSignature>,
    b: Seq<CommandArgumentSignature>,
) -> bool {
    &&& a.len() == b.len()
    &&& forall|i: int| 0 <= i < a.len() ==> arg_same_surface(#[trigger] a[i], b[i])
}

/// Two leaves declare the same wire surface.
pub open spec fn leaf_same_surface(a: Command, b: Command) -> bool {
    &&& a.name@ == b.name@
    &&& a.description@ == b.description@
    &&& args_same_surface(a.arguments.arguments@, b.arguments.arguments@)
}

/// Two container children declare the same wire surface, to the same
/// nesting depth.
pub open spec fn subcommand_same_surface(s: SubCommand, t: SubCommand) -> bool {
    match (s, t) {
        (SubCommand::SubCommand(a), SubCommand::SubCommand(b)) => leaf_same_surface(a, b),
        (SubCommand::SubCommandGroup(a), SubCommand::SubCommandGroup(b)) => {
            &&& a.name@ == b.name@
            &&& a.description@ == b.description@
            &&& a.subcommands@.len() == b.subcommands@.len()
            &&& forall|i: int|
                0 <= i < a.subcommands@.len() ==> leaf_same_surface(
                    #[trigger] a.subcommands@[i],
                    b.subcommands@[i],
                )
        },
        _ => false,
    }
}

/// Two registry entries declare the same wire surface: the same name,
/// description, nesting shape, and per-argument wire declaration.
pub open spec fn trees_same_surface(c: ValidCommand, c2: ValidCommand) -> bool {
    match (c, c2) {
        (ValidCommand::Command(a), ValidCommand::Command(b)) => leaf_same_surface(a, b),
        (ValidCommand::SubCommands(a), ValidCommand::SubCommands(b)) => {
            &&& a.name@ == b.name@
            &&& a.description@ == b.description@
            &&& a.subcommands@.len() == b.subcommands@.len()
            &&& forall|i: int|
                0 <= i < a.subcommands@.len() ==> subcommand_same_surface(
                    #[trigger] a.subcommands@[i],
                    b.subcommands@[i],
                )
        },
        _ => false,
    }
}

/// Round trip, decode half: every descriptor the encoder produces lies
/// in the decoder's domain, so — by the decoder's own contract —
/// decoding it is owed to succeed.
pub proof fn lemma_encoder_image_decodes(c: ValidCommand, d: CommandDescriptor)
    requires
        command_descriptor_matches(d, c, true),
    ensures
        spec_descriptor_encodable(d),
{
}

proof fn lemma_arg_round_trip(
    d: ArgumentDescriptor,
    x: CommandArgumentSignature,
    y: CommandArgumentSignature,
)
    requires
        arg_descriptor_matches(d, x, true),
        arg_descriptor_matches(d, y, false),
    ensures
        arg_same_surface(x, y),
{
}

/// Round trip: a command tree encoded as its wire descriptor and decoded
/// back by a faithful test double of the remote platform yields a tree
/// with the same name, description, nesting, and per-argument kind,
/// required flag and validation bounds — both trees declare the
/// descriptor's exact wire surface. That the decode succeeds at all is
/// owed separately: the encoder's contract puts its output in the
/// decoder's domain ([`lemma_encoder_image_decodes`]), on which the
/// decoder's own contract promises a result.
pub proof fn lemma_descriptor_round_trip(c: ValidCommand, d: CommandDescriptor, c2: ValidCommand)
    requires
        command_descriptor_matches(d, c, true),
        command_descriptor_matches(d, c2, false),
    ensures
        trees_same_surface(c, c2),
{
    match (c, c2) {
        (ValidCommand::Command(a), ValidCommand::Command(b)) => {
            let arguments = d->Leaf_arguments;
            assert forall|i: int| 0 <= i < a.arguments.arguments@.len() implies arg_same_surface(
                #[trigger] a.arguments.arguments@[i],
                b.arguments.arguments@[i],
            ) by {
                lemma_arg_round_trip(
                    arguments@[i],
                    a.arguments.arguments@[i],
                    b.arguments.arguments@[i],
                );
            }
        },
        (ValidCommand::SubCommands(a), ValidCommand::SubCommands(b)) => {
            let children = d->Group_children;
            assert forall|i: int| 0 <= i < a.subcommands@.len() implies subcommand_same_surface(
                #[trigger] a.subcommands@[i],
                b.subcommands@[i],
            ) by {
                match (a.subcommands@[i], b.subcommands@[i]) {
                    (SubCommand::SubCommand(sa), SubCommand::SubCommand(sb)) => {
                        let sd = children@[i]->SubCommand_0;
                        assert forall|j: int|
                            0 <= j < sa.arguments.arguments@.len() implies arg_same_surface(
                            #[trigger] sa.arguments.arguments@[j],
                            sb.arguments.arguments@[j],
                        ) by {
                            lemma_arg_round_trip(
                                sd.arguments@[j],
                                sa.arguments.arguments@[j],
                                sb.arguments.arguments@[j],
                            );
                        }
                    },
                    (SubCommand::SubCommandGroup(ga), SubCommand::SubCommandGroup(gb)) => {
                        let gd = children@[i]->SubCommandGroup_0;
                        assert forall|j: int|
                            0 <= j < ga.subcommands@.len() implies leaf_same_surface(
                            #[trigger] ga.subcommands@[j],
                            gb.subcommands@[j],
                        ) by {
                            let sd = gd.subcommands@[j];
                            assert(subcommand_descriptor_matches(sd, ga.subcommands@[j], true));
                            assert(subcommand_descriptor_matches(sd, gb.subcommands@[j], false));
                            assert forall|k: int|
                                0 <= k < ga.subcommands@[j].arguments.arguments@.len() implies
                                arg_same_surface(
                                #[trigger] ga.subcommands@[j].arguments.arguments@[k],
                                gb.subcommands@[j].arguments.arguments@[k],
                            ) by {
                                lemma_arg_round_trip(
                                    sd.arguments@[k],
                                    ga.subcommands@[j].arguments.arguments@[k],
                                    gb.subcommands@[j].arguments.arguments@[k],
                                );
                            }
                        }
                    },
                    _ => {
                        assert(false);
                    },
                }
            }
        },
        _ => {
            assert(false);
        },
    }
}

/// Whether a registry entry registers globally.
pub open spec fn spec_is_global_entry(c: ValidCommand) -> bool {
    c.spec_guilds() is None
}

/// Whether a registry entry registers for guild `g`.
pub open spec fn spec_is_scoped_to(c: ValidCommand, g: u64) -> bool {
    match c.spec_guilds() {
        Option::Some(gs) => gs@.contains(g),
        Option::None => false,
    }
}

/// The global registration bucket: every globally scoped entry, in
/// registration order.
pub open spec fn spec_globals(cmds: Seq<ValidCommand>) -> Seq<ValidCommand>
    decreases cmds.len(),
{
    if cmds.len() == 0 {
        Seq::empty()
    } else if spec_is_global_entry(cmds.last()) {
        spec_globals(cmds.drop_last()).push(cmds.last())
    } else {
        spec_globals(cmds.drop_last())
    }
}

/// The registration bucket of guild `g`: every entry scoped to it, in
/// registration order. An entry scoped to several guilds appears in each
/// of their buckets.
pub open spec fn spec_guild_commands(cmds: Seq<ValidCommand>, g: u64) -> Seq<ValidCommand>
    decreases cmds.len(),
{
    if cmds.len() == 0 {
        Seq::empty()
    } else if spec_is_scoped_to(cmds.last(), g) {
        spec_guild_commands(cmds.drop_last(), g).push(cmds.last())
    } else {
        spec_guild_commands(cmds.drop_last(), g)
    }
}

fn is_scoped_to(c: &ValidCommand, g: u64) -> (r: bool)
    ensures
        r == spec_is_scoped_to(*c, g),
{
    match c.guilds() {
        Option::Some(gs) => {
            let mut i: usize = 0;
            let mut found = false;
            while i < gs.len()
                invariant
                    i <= gs@.len(),
                    found == exists|j: int| 0 <= j < i && gs@[j] == g,
                decreases gs@.len() - i,
            {
                if gs[i] == g {
                    found = true;
                }
                i = i + 1;
            }
            found
        },
        Option::None => false,
    }
}

fn contains_u64(v: &Vec<u64>, g: u64) -> (r: bool)
    ensures
        r == v@.contains(g),
{
    let mut i: usize = 0;
    while i < v.len()
        invariant
            i <= v@.len(),
            forall|j: int| 0 <= j < i ==> v@[j] != g,
        decreases v@.len() - i,
    {
        if v[i] == g {
            return true;
        }
        i = i + 1;
    }
    false
}

fn collect_guilds(cmds: &Vec<ValidCommand>) -> (r: Vec<u64>)
    ensures
        forall|a: int, b: int| 0 <= a < b < r@.len() ==> r@[a] != r@[b],
        forall|g: u64|
            r@.contains(g) <==> exists|j: int|
                0 <= j < cmds@.len() && spec_is_scoped_to(#[trigger] cmds@[j], g),
{
    let mut out: Vec<u64> = Vec::new();
    let mut i: usize = 0;
    while i < cmds.len()
        invariant
            i <= cmds@.len(),
            forall|a: int, b: int| 0 <= a < b < out@.len() ==> out@[a] != out@[b],
            forall|g: u64|
                out@.contains(g) <==> exists|j: int|
                    0 <= j < i && spec_is_scoped_to(#[trigger] cmds@[j], g),
        decreases cmds@.len() - i,
    {
        match cmds[i].guilds() {
            Option::Some(gs) => {
                let mut l: usize = 0;
                while l < gs.len()
                    invariant
                        l <= gs@.len(),
                        i < cmds@.len(),
                        cmds@[i as int].spec_guilds() matches Option::Some(v) && v@ == gs@,
                        forall|a: int, b: int| 0 <= a < b < out@.len() ==> out@[a] != out@[b],
                        forall|g: u64|
                            out@.contains(g) <==> ((exists|j: int|
                                0 <= j < i && spec_is_scoped_to(#[trigger] cmds@[j], g))
                                || exists|m: int| 0 <= m < l && gs@[m] == g),
                    decreases gs@.len() - l,
                {
                    let g0 = gs[l];
                    let ghost prev = out@;
                    if !contains_u64(&out, g0) {
                        proof {
                            assert forall|a: int| 0 <= a < prev.len() implies prev[a] != g0 by {
                                if prev[a] == g0 {
                                    assert(prev.contains(g0));
                                }
                            }
                        }
                        out.push(g0);
                    }
                    proof {
                        assert forall|g: u64| #[trigger] out@.contains(g) <==> (prev.contains(g)
                            || g == g0) by {
                            if prev.contains(g0) {
                                assert(out@ == prev);
                            } else {
                                assert(out@ == prev.push(g0));
                                vstd::seq_lib::lemma_seq_contains_after_push(prev, g0, g);
                            }
                        }
                        assert(out@.contains(g0));
                        assert forall|g: u64| #[trigger] out@.contains(g) implies ((exists|j: int|
                            0 <= j < i && spec_is_scoped_to(#[trigger] cmds@[j], g)) || exists|
                            m: int,
                        | 0 <= m < l + 1 && gs@[m] == g) by {
                            if prev.contains(g) {
                                if exists|m: int| 0 <= m < l && gs@[m] == g {
                                    let m = choose|m: int| 0 <= m < l && gs@[m] == g;
                                    assert(0 <= m < l + 1 && gs@[m] == g);
                                }
                            } else {
                                assert(g == g0);
                                assert(gs@[l as int] == g);
                            }
                        }
                        assert forall|g: u64|
                            ((exists|j: int|
                                0 <= j < i && spec_is_scoped_to(#[trigger] cmds@[j], g)) || exists|
                                m: int,
                            | 0 <= m < l + 1 && gs@[m] == g) implies #[trigger] out@.contains(
                            g,
                        ) by {
                            if exists|j: int| 0 <= j < i && spec_is_scoped_to(#[trigger] cmds@[j], g) {
                                assert(prev.contains(g));
                            } else {
                                let m = choose|m: int| 0 <= m < l + 1 && gs@[m] == g;
                                if m < l {
                                    assert(prev.contains(g));
                                } else {
                                    assert(g == g0);
                                }
                            }
                        }
                    }
                    l = l + 1;
                }
                proof {
                    assert forall|g: u64| (exists|m: int| 0 <= m < gs@.len() && gs@[m] == g)
                        implies spec_is_scoped_to(cmds@[i as int], g) by {
                        assert(gs@.contains(g));
                    }
                    assert forall|g: u64| spec_is_scoped_to(cmds@[i as int], g) implies (exists|
                        m: int,
                    | 0 <= m < gs@.len() && gs@[m] == g) by {
                        let m = choose|m: int| 0 <= m < gs@.len() && gs@[m] == g;
                    }
                }
            },
            Option::None => {},
        }
        i = i + 1;
    }
    out
}

/// Encode every globally scoped entry, in registration order.
fn global_descriptors(cmds: &Vec<ValidCommand>) -> (r: Vec<CommandDescriptor>)
    ensures
        r@.len() == spec_globals(cmds@).len(),
        forall|i: int|
            0 <= i < r@.len() ==> command_descriptor_matches(
                #[trigger] r@[i],
                spec_globals(cmds@)[i],
                true,
            ),
{
    let ghost all = cmds@;
    let mut out: Vec<CommandDescriptor> = Vec::new();
    let mut i: usize = 0;
    while i < cmds.len()
        invariant
            i <= all.len(),
            all == cmds@,
            out@.len() == spec_globals(all.take(i as int)).len(),
            forall|j: int|
                0 <= j < out@.len() ==> command_descriptor_matches(
                    #[trigger] out@[j],
                    spec_globals(all.take(i as int))[j],
                    true,
                ),
        decreases all.len() - i,
    {
        proof {
            assert(all.take(i + 1).drop_last() =~= all.take(i as int));
            assert(all.take(i + 1).last() == all[i as int]);
        }
        if cmds[i].guilds().is_none() {
            out.push(create_command(&cmds[i]));
        }
        i = i + 1;
    }
    proof {
        assert(all.take(all.len() as int) =~= all);
    }
    out
}

/// Encode every entry scoped to guild `g`, in registration order.
fn guild_descriptors(cmds: &Vec<ValidCommand>, g: u64) -> (r: Vec<CommandDescriptor>)
    ensures
        r@.len() == spec_guild_commands(cmds@, g).len(),
        forall|i: int|
            0 <= i < r@.len() ==> command_descriptor_matches(
                #[trigger] r@[i],
                spec_guild_commands(cmds@, g)[i],
                true,
            ),
{
    let ghost all = cmds@;
    let mut out: Vec<CommandDescriptor> = Vec::new();
    let mut i: usize = 0;
    while i < cmds.len()
        invariant
            i <= all.len(),
            all == cmds@,
            out@.len() == spec_guild_commands(all.take(i as int), g).len(),
            forall|j: int|
                0 <= j < out@.len() ==> command_descriptor_matches(
                    #[trigger] out@[j],
                    spec_guild_commands(all.take(i as int), g)[j],
                    true,
                ),
        decreases all.len() - i,
    {
        proof {
            assert(all.take(i + 1).drop_last() =~= all.take(i as int));
            assert(all.take(i + 1).last() == all[i as int]);
        }
        if is_scoped_to(&cmds[i], g) {
            out.push(create_command(&cmds[i]));
        }
        i = i + 1;
    }
    proof {
        assert(all.take(all.len() as int) =~= all);
    }
    out
}

/// Whether some bucket of the plan is for guild `g`.
pub open spec fn spec_plan_covers_guild(guilds: Seq<GuildCommandSet>, g: u64) -> bool {
    exists|k: int| 0 <= k < guilds.len() && (#[trigger] guilds[k]).guild == g
}

/// Whether some registry entry is scoped to guild `g`.
pub open spec fn spec_some_entry_scoped_to(cmds: Seq<ValidCommand>, g: u64) -> bool {
    exists|j: int| 0 <= j < cmds.len() && spec_is_scoped_to(#[trigger] cmds[j], g)
}

/// The full-replace registration set of one guild.
#[derive(Debug)]
pub struct GuildCommandSet {
    pub guild: u64,
    pub commands: Vec<CommandDescriptor>,
}

/// What the registration synchronizer pushes at startup: one full
/// replacement for the global scope and one per guild that any entry is
/// scoped to.
#[derive(Debug)]
pub struct RegistrationPlan {
    pub global: Vec<CommandDescriptor>,
    pub guilds: Vec<GuildCommandSet>,
}

impl crate::framework::Framework {
    /// Partition the frozen registry into its registration buckets: the
    /// global bucket and one bucket per guild any entry is scoped to,
    /// each holding the full descriptor set for that scope. Returns
    /// nothing when the merge policy says not to touch the remote
    /// command surface.
    pub fn registration_plan(&self) -> (r: Option<RegistrationPlan>)
        ensures
            match r {
                Option::None => self.spec_merging() == crate::framework::CommandMergeMethod::Keep,
                Option::Some(plan) => {
                    &&& self.spec_merging() == crate::framework::CommandMergeMethod::Replace
                    &&& plan.global@.len() == spec_globals(self.spec_commands()).len()
                    &&& forall|i: int|
                        0 <= i < plan.global@.len() ==> command_descriptor_matches(
                            (#[trigger] plan.global@[i]),
                            spec_globals(self.spec_commands())[i],
                            true,
                        )
                    &&& forall|a: int, b: int|
                        0 <= a < b < plan.guilds@.len() ==> (#[trigger] plan.guilds@[a]).guild != (
                        #[trigger] plan.guilds@[b]).guild
                    &&& forall|g: u64|
                        #[trigger] spec_plan_covers_guild(plan.guilds@, g)
                            <==> spec_some_entry_scoped_to(self.spec_commands(), g)
                    &&& forall|k: int|
                        0 <= k < plan.guilds@.len() ==> {
                            let set = #[trigger] plan.guilds@[k];
                            let bucket = spec_guild_commands(self.spec_commands(), set.guild);
                            set.commands@.len() == bucket.len() && forall|i: int|
                                0 <= i < set.commands@.len() ==> command_descriptor_matches(
                                    #[trigger] set.commands@[i],
                                    bucket[i],
                                    true,
                                )
                        }
                },
            },
    {
        match self.merge_method() {
            crate::framework::CommandMergeMethod::Keep => Option::None,
            crate::framework::CommandMergeMethod::Replace => {
                let cmds = self.commands();
                let global = global_descriptors(cmds);
                let guild_ids = collect_guilds(cmds);
                let mut guilds: Vec<GuildCommandSet> = Vec::new();
                let mut k: usize = 0;
                while k < guild_ids.len()
                    invariant
                        k <= guild_ids@.len(),
                        cmds@ == self.spec_commands(),
                        forall|a: int, b: int|
                            0 <= a < b < guild_ids@.len() ==> guild_ids@[a] != guild_ids@[b],
                        guilds@.len() == k,
                        forall|l: int| 0 <= l < k ==> (#[trigger] guilds@[l]).guild == guild_ids@[l],
                        forall|l: int|
                            0 <= l < k ==> {
                                let set = #[trigger] guilds@[l];
                                let bucket = spec_guild_commands(cmds@, set.guild);
                                set.commands@.len() == bucket.len() && forall|i: int|
                                    0 <= i < set.commands@.len() ==> command_descriptor_matches(
                                        #[trigger] set.commands@[i],
                                        bucket[i],
                                        true,
                                    )
                            },
                    decreases guild_ids@.len() - k,
                {
                    let g = guild_ids[k];
                    let commands = guild_descriptors(cmds, g);
                    guilds.push(GuildCommandSet { guild: g, commands });
                    k = k + 1;
                }
                proof {
                    assert forall|g: u64| #[trigger] spec_plan_covers_guild(guilds@, g)
                        <==> spec_some_entry_scoped_to(cmds@, g) by {
                        if spec_plan_covers_guild(guilds@, g) {
                            let k2 = choose|k2: int|
                                0 <= k2 < guilds@.len() && (#[trigger] guilds@[k2]).guild == g;
                            assert(guild_ids@[k2] == g);
                            assert(guild_ids@.contains(g));
                        }
                        if spec_some_entry_scoped_to(cmds@, g) {
                            assert(guild_ids@.contains(g));
                            let k2 = choose|k2: int|
                                0 <= k2 < guild_ids@.len() && guild_ids@[k2] == g;
                            assert(guilds@[k2].guild == g);
                        }
                    }
                }
                Option::Some(RegistrationPlan { global, guilds })
            },
        }
    }
}

} // verus!
