//! The command registry: top-level commands, subcommand containers, and
//! the builder that assembles the frozen command table.
//!
//! A top-level name may be registered several times as long as the guild
//! scopes of the entries are disjoint; that is how a guild-scoped
//! override coexists with a global fallback. Children of a container are
//! kept in insertion order with unique names: inserting a child under an
//! existing name replaces that child in place.

use vstd::prelude::*;

use crate::command::Command;

verus! {

/// Defines how slash commands should be created and/or merged with
/// existing ones at registration time.
#[derive(Clone, Copy, Debug, PartialEq, Eq, Structural)]
pub enum CommandMergeMethod {
    /// Do not create new slash commands.
    /// May result in out-of-sync slash commands which can cause issues
    Keep,
    /// Reset all slash commands of the bot to match the registry
    Replace,
}

/// A child of a subcommand container: either a directly invokable
/// subcommand or a group of subcommands (one more level down at most).
#[derive(Debug, Clone)]
pub enum SubCommand {
    SubCommand(Command),
    SubCommandGroup(CommandGroup),
}

/// A named group of subcommands, one level below a top-level container.
#[derive(Debug, Clone)]
pub struct CommandGroup {
    pub name: String,
    pub description: String,
    pub subcommands: Vec<Command>,
}

/// A top-level command whose children are subcommands or subcommand
/// groups; the container itself is not invokable.
#[derive(Debug, Clone)]
pub struct SubCommands {
    pub name: String,
    pub description: String,
    pub guilds: Option<Vec<u64>>,
    pub subcommands: Vec<SubCommand>,
}

/// Represents any kind of valid command (either simple command or command
/// with subcommands).
#[derive(Debug, Clone)]
pub enum ValidCommand {
    Command(Command),
    SubCommands(SubCommands),
}

/// The name under which a container child is addressed.
pub open spec fn spec_subcommand_name(s: SubCommand) -> Seq<char> {
    match s {
        SubCommand::SubCommand(c) => c.name@,
        SubCommand::SubCommandGroup(g) => g.name@,
    }
}

/// The first index at or after `i` whose element is named `name`, if any.
pub open spec fn spec_first_subcommand_at(
    list: Seq<SubCommand>,
    name: Seq<char>,
    i: int,
) -> Option<int>
    decreases list.len() - i,
{
    if i < 0 || i >= list.len() {
        Option::None
    } else if spec_subcommand_name(list[i]) == name {
        Option::Some(i)
    } else {
        spec_first_subcommand_at(list, name, i + 1)
    }
}

/// The first index whose element is named `name`, if any.
pub open spec fn spec_first_subcommand(list: Seq<SubCommand>, name: Seq<char>) -> Option<int> {
    spec_first_subcommand_at(list, name, 0)
}

proof fn lemma_first_subcommand_skip(list: Seq<SubCommand>, name: Seq<char>, i: int)
    requires
        0 <= i <= list.len(),
        forall|j: int| 0 <= j < i ==> spec_subcommand_name(#[trigger] list[j]) != name,
    ensures
        spec_first_subcommand(list, name) == spec_first_subcommand_at(list, name, i),
    decreases i,
{
    if i > 0 {
        lemma_first_subcommand_skip(list, name, i - 1);
    }
}

/// Find the first child with the given name.
pub fn find_subcommand(list: &Vec<SubCommand>, name: &String) -> (r: Option<usize>)
    ensures
        match r {
            Option::Some(i) => i < list@.len() && spec_first_subcommand(list@, name@)
                == Option::Some(i as int),
            Option::None => spec_first_subcommand(list@, name@) is None,
        },
{
    let mut i: usize = 0;
    while i < list.len()
        invariant
            i <= list@.len(),
            forall|j: int| 0 <= j < i ==> spec_subcommand_name(#[trigger] list@[j]) != name@,
        decreases list@.len() - i,
    {
        let found = match &list[i] {
            SubCommand::SubCommand(c) => c.name == *name,
            SubCommand::SubCommandGroup(g) => g.name == *name,
        };
        if found {
            proof {
                lemma_first_subcommand_skip(list@, name@, i as int);
            }
            return Option::Some(i);
        }
        i = i + 1;
    }
    proof {
        lemma_first_subcommand_skip(list@, name@, list@.len() as int);
    }
    Option::None
}

/// Insertion of a child: replaces the first child of the same name, or
/// appends when the name is new.
pub open spec fn spec_upsert_subcommand(list: Seq<SubCommand>, item: SubCommand) -> Seq<
    SubCommand,
> {
    match spec_first_subcommand(list, spec_subcommand_name(item)) {
        Option::Some(i) => list.update(i, item),
        Option::None => list.push(item),
    }
}

fn upsert_subcommand(list: &mut Vec<SubCommand>, item: SubCommand)
    ensures
        final(list)@ == spec_upsert_subcommand(old(list)@, item),
{
    let name = match &item {
        SubCommand::SubCommand(c) => c.name.clone(),
        SubCommand::SubCommandGroup(g) => g.name.clone(),
    };
    proof {
        assert(name@ == spec_subcommand_name(item));
    }
    match find_subcommand(list, &name) {
        Option::Some(i) => {
            list.set(i, item);
        },
        Option::None => {
            list.push(item);
        },
    }
}

impl SubCommands {
    /// Create a new command with no subcommands.
    pub fn new(name: String, description: String) -> (r: Self)
        ensures
            r.name == name,
            r.description == description,
            r.guilds is None,
            r.subcommands@ == Seq::<SubCommand>::empty(),
    {
        Self { name, description, guilds: Option::None, subcommands: Vec::new() }
    }

    /// Add a subcommand to the command.
    pub fn command(self, cmd: Command) -> (r: Self)
        ensures
            r.name == self.name,
            r.description == self.description,
            r.guilds == self.guilds,
            r.subcommands@ == spec_upsert_subcommand(
                self.subcommands@,
                SubCommand::SubCommand(cmd),
            ),
    {
        let mut s = self;
        upsert_subcommand(&mut s.subcommands, SubCommand::SubCommand(cmd));
        s
    }

    /// Add a command group to the command.
    pub fn group(self, group: CommandGroup) -> (r: Self)
        ensures
            r.name == self.name,
            r.description == self.description,
            r.guilds == self.guilds,
            r.subcommands@ == spec_upsert_subcommand(
                self.subcommands@,
                SubCommand::SubCommandGroup(group),
            ),
    {
        let mut s = self;
        upsert_subcommand(&mut s.subcommands, SubCommand::SubCommandGroup(group));
        s
    }

    /// Restrict this command to one more guild.
    pub fn guild(self, guild: u64) -> (r: Self)
        ensures
            r.name == self.name,
            r.description == self.description,
            r.subcommands == self.subcommands,
            match self.guilds {
                Option::Some(gs) => r.guilds matches Option::Some(gs2) && gs2@ == gs@.push(guild),
                Option::None => r.guilds matches Option::Some(gs2) && gs2@ == seq![guild],
            },
    {
        let mut s = self;
        match &mut s.guilds {
            Option::None => {
                let mut v: Vec<u64> = Vec::new();
                v.push(guild);
                proof {
                    assert(v@ =~= seq![guild]);
                }
                s.guilds = Option::Some(v);
            },
            Option::Some(guilds) => {
                guilds.push(guild);
            },
        }
        s
    }
}

impl CommandGroup {
    /// Create a new command group from a list of subcommands; a later
    /// subcommand replaces an earlier one of the same name.
    pub fn new(name: String, description: String, commands: Vec<Command>) -> (r: Self)
        ensures
            r.name == name,
            r.description == description,
            r.subcommands@ == spec_group_children(commands@),
    {
        let ghost all = commands@;
        let mut rest = commands;
        let mut subcommands: Vec<Command> = Vec::new();
        let ghost mut i: int = 0;
        while rest.len() > 0
            invariant
                0 <= i <= all.len(),
                rest@ =~= all.skip(i),
                subcommands@ == spec_group_children(all.take(i)),
            decreases rest@.len(),
        {
            let cmd = rest.remove(0);
            proof {
                assert(cmd == all[i]);
                assert(all.take(i + 1).drop_last() =~= all.take(i));
                assert(all.take(i + 1).last() == all[i]);
                assert(rest@ =~= all.skip(i + 1));
                i = i + 1;
            }
            upsert_command(&mut subcommands, cmd);
        }
        proof {
            assert(all.take(all.len() as int) =~= all);
        }
        Self { name, description, subcommands }
    }
}

/// The children a group built from `commands` holds: each command
/// inserted in order, a later one replacing an earlier one of the same
/// name.
pub open spec fn spec_group_children(commands: Seq<Command>) -> Seq<Command>
    decreases commands.len(),
{
    if commands.len() == 0 {
        Seq::empty()
    } else {
        spec_upsert_command(spec_group_children(commands.drop_last()), commands.last())
    }
}

/// The first index at or after `i` whose command is named `name`, if any.
pub open spec fn spec_first_command_at(list: Seq<Command>, name: Seq<char>, i: int) -> Option<
    int,
>
    decreases list.len() - i,
{
    if i < 0 || i >= list.len() {
        Option::None
    } else if list[i].name@ == name {
        Option::Some(i)
    } else {
        spec_first_command_at(list, name, i + 1)
    }
}

/// The first index whose command is named `name`, if any.
pub open spec fn spec_first_command(list: Seq<Command>, name: Seq<char>) -> Option<int> {
    spec_first_command_at(list, name, 0)
}

proof fn lemma_first_command_skip(list: Seq<Command>, name: Seq<char>, i: int)
    requires
        0 <= i <= list.len(),
        forall|j: int| 0 <= j < i ==> (#[trigger] list[j]).name@ != name,
    ensures
        spec_first_command(list, name) == spec_first_command_at(list, name, i),
    decreases i,
{
    if i > 0 {
        lemma_first_command_skip(list, name, i - 1);
    }
}

/// Find the first command with the given name.
pub fn find_command(list: &Vec<Command>, name: &String) -> (r: Option<usize>)
    ensures
        match r {
            Option::Some(i) => i < list@.len() && spec_first_command(list@, name@)
                == Option::Some(i as int),
            Option::None => spec_first_command(list@, name@) is None,
        },
{
    let mut i: usize = 0;
    while i < list.len()
        invariant
            i <= list@.len(),
            forall|j: int| 0 <= j < i ==> (#[trigger] list@[j]).name@ != name@,
        decreases list@.len() - i,
    {
        if list[i].name == *name {
            proof {
                lemma_first_command_skip(list@, name@, i as int);
            }
            return Option::Some(i);
        }
        i = i + 1;
    }
    proof {
        lemma_first_command_skip(list@, name@, list@.len() as int);
    }
    Option::None
}

/// Insertion of a command into a group: replaces the first command of the
/// same name, or appends when the name is new.
pub open spec fn spec_upsert_command(list: Seq<Command>, item: Command) -> Seq<Command> {
    match spec_first_command(list, item.name@) {
        Option::Some(i) => list.update(i, item),
        Option::None => list.push(item),
    }
}

fn upsert_command(list: &mut Vec<Command>, item: Command)
    ensures
        final(list)@ == spec_upsert_command(old(list)@, item),
{
    let name = item.name.clone();
    match find_command(list, &name) {
        Option::Some(i) => {
            list.set(i, item);
        },
        Option::None => {
            list.push(item);
        },
    }
}

proof fn lemma_first_subcommand_at_props(list: Seq<SubCommand>, name: Seq<char>, i: int)
    requires
        0 <= i <= list.len(),
    ensures
        match spec_first_subcommand_at(list, name, i) {
            Option::Some(k) => i <= k < list.len() && spec_subcommand_name(list[k]) == name,
            Option::None => forall|j: int|
                i <= j < list.len() ==> spec_subcommand_name(#[trigger] list[j]) != name,
        },
    decreases list.len() - i,
{
    if i < list.len() && spec_subcommand_name(list[i]) != name {
        lemma_first_subcommand_at_props(list, name, i + 1);
    }
}

/// Insertion keeps child names unique: a container whose children carry
/// pairwise distinct names still does after inserting a child, whether
/// the insertion replaced a child in place or appended a new one.
pub proof fn lemma_upsert_subcommand_keeps_unique_names(list: Seq<SubCommand>, item: SubCommand)
    requires
        forall|a: int, b: int|
            0 <= a < b < list.len() ==> spec_subcommand_name(#[trigger] list[a])
                != spec_subcommand_name(#[trigger] list[b]),
    ensures
        ({
            let r = spec_upsert_subcommand(list, item);
            forall|a: int, b: int|
                0 <= a < b < r.len() ==> spec_subcommand_name(#[trigger] r[a])
                    != spec_subcommand_name(#[trigger] r[b])
        }),
{
    lemma_first_subcommand_at_props(list, spec_subcommand_name(item), 0);
}

proof fn lemma_first_command_at_props(list: Seq<Command>, name: Seq<char>, i: int)
    requires
        0 <= i <= list.len(),
    ensures
        match spec_first_command_at(list, name, i) {
            Option::Some(k) => i <= k < list.len() && list[k].name@ == name,
            Option::None => forall|j: int|
                i <= j < list.len() ==> (#[trigger] list[j]).name@ != name,
        },
    decreases list.len() - i,
{
    if i < list.len() && list[i].name@ != name {
        lemma_first_command_at_props(list, name, i + 1);
    }
}

/// Insertion keeps a group's leaf names unique, whether it replaced a
/// leaf in place or appended a new one.
pub proof fn lemma_upsert_command_keeps_unique_names(list: Seq<Command>, item: Command)
    requires
        forall|a: int, b: int|
            0 <= a < b < list.len() ==> (#[trigger] list[a]).name@ != (#[trigger] list[b]).name@,
    ensures
        ({
            let r = spec_upsert_command(list, item);
            forall|a: int, b: int|
                0 <= a < b < r.len() ==> (#[trigger] r[a]).name@ != (#[trigger] r[b]).name@
        }),
{
    lemma_first_command_at_props(list, item.name@, 0);
}

/// Anything that can stand as a top-level registry entry.
pub trait IntoValidCommand: Sized {
    spec fn spec_into_command(self) -> ValidCommand;

    fn into_command(self) -> (r: ValidCommand)
        ensures
            r == self.spec_into_command(),
    ;
}

impl IntoValidCommand for Command {
    open spec fn spec_into_command(self) -> ValidCommand {
        ValidCommand::Command(self)
    }

    fn into_command(self) -> ValidCommand {
        ValidCommand::Command(self)
    }
}

impl IntoValidCommand for SubCommands {
    open spec fn spec_into_command(self) -> ValidCommand {
        ValidCommand::SubCommands(self)
    }

    fn into_command(self) -> ValidCommand {
        ValidCommand::SubCommands(self)
    }
}

impl ValidCommand {
    pub open spec fn spec_name(self) -> Seq<char> {
        match self {
            ValidCommand::Command(cmd) => cmd.name@,
            ValidCommand::SubCommands(subcmds) => subcmds.name@,
        }
    }

    pub open spec fn spec_description(self) -> Seq<char> {
        match self {
            ValidCommand::Command(cmd) => cmd.description@,
            ValidCommand::SubCommands(subcmds) => subcmds.description@,
        }
    }

    pub open spec fn spec_guilds(self) -> Option<Vec<u64>> {
        match self {
            ValidCommand::Command(c) => c.guilds,
            ValidCommand::SubCommands(sc) => sc.guilds,
        }
    }

    pub fn name(&self) -> (r: &String)
        ensures
            r@ == self.spec_name(),
    {
        match self {
            ValidCommand::Command(cmd) => &cmd.name,
            ValidCommand::SubCommands(subcmds) => &subcmds.name,
        }
    }

    pub fn description(&self) -> (r: &String)
        ensures
            r@ == self.spec_description(),
    {
        match self {
            ValidCommand::Command(cmd) => &cmd.description,
            ValidCommand::SubCommands(subcmds) => &subcmds.description,
        }
    }

    pub fn guilds(&self) -> (r: &Option<Vec<u64>>)
        ensures
            *r == self.spec_guilds(),
    {
        match self {
            ValidCommand::Command(c) => &c.guilds,
            ValidCommand::SubCommands(sc) => &sc.guilds,
        }
    }
}

/// The frozen command table: every registered top-level entry, in
/// registration order, plus the merge policy for the registration push.
#[derive(Clone, Debug)]
pub struct Framework {
    commands: Vec<ValidCommand>,
    command_merging: CommandMergeMethod,
}

impl Framework {
    /// The registered entries, in registration order.
    pub closed spec fn spec_commands(self) -> Seq<ValidCommand> {
        self.commands@
    }

    /// The registration merge policy.
    pub closed spec fn spec_merging(self) -> CommandMergeMethod {
        self.command_merging
    }

    pub fn new() -> (r: Self)
        ensures
            r.spec_commands() == Seq::<ValidCommand>::empty(),
            r.spec_merging() == CommandMergeMethod::Replace,
    {
        Self { commands: Vec::new(), command_merging: CommandMergeMethod::Replace }
    }

    /// Adds a command to the framework.
    pub fn command<T: IntoValidCommand>(self, cmd: T) -> (r: Self)
        ensures
            r.spec_commands() == self.spec_commands().push(cmd.spec_into_command()),
            r.spec_merging() == self.spec_merging(),
    {
        let mut s = self;
        let command = cmd.into_command();
        s.commands.push(command);
        s
    }

    pub fn set_merge_method(self, method: CommandMergeMethod) -> (r: Self)
        ensures
            r.spec_commands() == self.spec_commands(),
            r.spec_merging() == method,
    {
        let mut s = self;
        s.command_merging = method;
        s
    }

    /// Read access to the registered entries for routing and
    /// registration.
    pub fn commands(&self) -> (r: &Vec<ValidCommand>)
        ensures
            r@ == self.spec_commands(),
    {
        &self.commands
    }

    /// Read access to the merge policy.
    pub fn merge_method(&self) -> (r: CommandMergeMethod)
        ensures
            r == self.spec_merging(),
    {
        self.command_merging
    }
}

impl Default for Framework {
    fn default() -> (r: Self)
        ensures
            r.spec_commands() == Seq::<ValidCommand>::empty(),
            r.spec_merging() == CommandMergeMethod::Replace,
    {
        Self::new()
    }
}

} // verus!
