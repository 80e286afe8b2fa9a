//! The dispatch router: from an incoming interaction event to the handler
//! bound to exactly one registered leaf, with its arguments materialized.
//!
//! Routing resolves the target in three steps: select the registry entry
//! for the interaction's name and guild scope, descend through at most
//! two container levels to the leaf, and materialize the leaf's own wire
//! options into argument values. Any failure along the way drops the
//! interaction silently: no handler runs, the process continues.

use vstd::prelude::*;

use crate::argument::ArgumentList;
use crate::argument::CommandArgument;
use crate::argument::CommandArgumentValue;
use crate::argument::ArgumentError;
use crate::argument::ResolvedValue;
use crate::command::Command;
use crate::command::CommandHandler;
use crate::framework::Framework;
use crate::framework::SubCommand;
use crate::framework::ValidCommand;
use crate::framework::spec_first_command;
use crate::framework::spec_first_subcommand;
use crate::framework::find_command;
use crate::framework::find_subcommand;

verus! {

/// One option of an incoming interaction: a name, at most one resolved
/// wire value, and — for container levels — nested options.
#[derive(Debug)]
pub struct InteractionOption {
    pub name: String,
    pub value: Option<ResolvedValue>,
    pub options: Vec<InteractionOption>,
}

/// An incoming command interaction: the invoked top-level name, the guild
/// it came from (if any), and the option tree.
#[derive(Debug)]
pub struct Interaction {
    pub id: u64,
    pub command: String,
    pub guild: Option<u64>,
    pub options: Vec<InteractionOption>,
}

/// A routed invocation: which handler to run, whether it takes the
/// context handle first, and the materialized argument list.
#[derive(Debug)]
pub struct Invocation {
    pub handler: CommandHandler,
    pub context: bool,
    pub args: ArgumentList,
}

/// Ghost image of a routed invocation, for stating what routing returns.
pub struct RoutedCall {
    pub handler: CommandHandler,
    pub context: bool,
    pub args: Seq<CommandArgument>,
}

/// Whether a registry entry's guild scope covers the interaction's
/// origin: a scoped entry covers interactions from one of its guilds, a
/// global entry covers interactions from outside any guild.
pub open spec fn spec_scope_matches(c: ValidCommand, guild: Option<u64>) -> bool {
    match c.spec_guilds() {
        Option::Some(gs) => match guild {
            Option::Some(g) => gs@.contains(g),
            Option::None => false,
        },
        Option::None => guild is None,
    }
}

/// Whether an entry is a candidate for the name and covers the guild.
pub open spec fn spec_is_match(c: ValidCommand, name: Seq<char>, guild: Option<u64>) -> bool {
    c.spec_name() == name && spec_scope_matches(c, guild)
}

/// Whether an entry is the global fallback candidate for the name.
pub open spec fn spec_is_global(c: ValidCommand, name: Seq<char>) -> bool {
    c.spec_name() == name && c.spec_guilds() is None
}

/// How many entries match the name and cover the guild.
pub open spec fn spec_match_count(
    cmds: Seq<ValidCommand>,
    name: Seq<char>,
    guild: Option<u64>,
) -> nat
    decreases cmds.len(),
{
    if cmds.len() == 0 {
        0
    } else {
        spec_match_count(cmds.drop_last(), name, guild) + if spec_is_match(
            cmds.last(),
            name,
            guild,
        ) {
            1nat
        } else {
            0nat
        }
    }
}

/// The first entry matching the name and covering the guild, if any.
pub open spec fn spec_first_match(
    cmds: Seq<ValidCommand>,
    name: Seq<char>,
    guild: Option<u64>,
) -> Option<int>
    decreases cmds.len(),
{
    if cmds.len() == 0 {
        Option::None
    } else {
        match spec_first_match(cmds.drop_last(), name, guild) {
            Option::Some(i) => Option::Some(i),
            Option::None => if spec_is_match(cmds.last(), name, guild) {
                Option::Some(cmds.len() - 1)
            } else {
                Option::None
            },
        }
    }
}

/// The first global entry with the name, if any.
pub open spec fn spec_first_global(cmds: Seq<ValidCommand>, name: Seq<char>) -> Option<int>
    decreases cmds.len(),
{
    if cmds.len() == 0 {
        Option::None
    } else {
        match spec_first_global(cmds.drop_last(), name) {
            Option::Some(i) => Option::Some(i),
            Option::None => if spec_is_global(cmds.last(), name) {
                Option::Some(cmds.len() - 1)
            } else {
                Option::None
            },
        }
    }
}

/// Scope disambiguation: with exactly one covering entry, that entry;
/// with none, the first global fallback with the name; with several
/// (an invalid registry), the interaction is unroutable.
pub open spec fn spec_selected(
    cmds: Seq<ValidCommand>,
    name: Seq<char>,
    guild: Option<u64>,
) -> Option<int> {
    let m = spec_match_count(cmds, name, guild);
    if m == 1 {
        spec_first_match(cmds, name, guild)
    } else if m == 0 {
        spec_first_global(cmds, name)
    } else {
        Option::None
    }
}

fn scope_matches(c: &ValidCommand, guild: &Option<u64>) -> (r: bool)
    ensures
        r == spec_scope_matches(*c, *guild),
{
    match c.guilds() {
        Option::Some(gs) => match guild {
            Option::Some(g) => {
                let mut i: usize = 0;
                let mut found = false;
                while i < gs.len()
                    invariant
                        i <= gs@.len(),
                        found == exists|j: int| 0 <= j < i && gs@[j] == *g,
                    decreases gs@.len() - i,
                {
                    if gs[i] == *g {
                        found = true;
                    }
                    i = i + 1;
                }
                found
            },
            Option::None => false,
        },
        Option::None => guild.is_none(),
    }
}

/// Select the registry entry an interaction resolves to, by name and
/// guild scope.
pub fn select_command(cmds: &Vec<ValidCommand>, name: &String, guild: &Option<u64>) -> (r:
    Option<usize>)
    ensures
        match r {
            Option::Some(i) => i < cmds@.len() && spec_selected(cmds@, name@, *guild)
                == Option::Some(i as int),
            Option::None => spec_selected(cmds@, name@, *guild) is None,
        },
{
    let ghost all = cmds@;
    let mut count: usize = 0;
    let mut first_match: Option<usize> = Option::None;
    let mut first_global: Option<usize> = Option::None;
    let mut i: usize = 0;
    while i < cmds.len()
        invariant
            i <= all.len(),
            all == cmds@,
            count == spec_match_count(all.take(i as int), name@, *guild),
            count <= i,
            match first_match {
                Option::Some(k) => k < i && spec_first_match(all.take(i as int), name@, *guild)
                    == Option::Some(k as int),
                Option::None => spec_first_match(all.take(i as int), name@, *guild) is None,
            },
            match first_global {
                Option::Some(k) => k < i && spec_first_global(all.take(i as int), name@)
                    == Option::Some(k as int),
                Option::None => spec_first_global(all.take(i as int), name@) is None,
            },
        decreases all.len() - i,
    {
        proof {
            assert(all.take(i + 1).drop_last() =~= all.take(i as int));
            assert(all.take(i + 1).last() == all[i as int]);
        }
        let c = &cmds[i];
        let name_matches = *c.name() == *name;
        if name_matches {
            if scope_matches(c, guild) {
                count = count + 1;
                if first_match.is_none() {
                    first_match = Option::Some(i);
                }
            }
            if c.guilds().is_none() && first_global.is_none() {
                first_global = Option::Some(i);
            }
        }
        i = i + 1;
    }
    proof {
        assert(all.take(all.len() as int) =~= all);
    }
    if count == 1 {
        first_match
    } else if count == 0 {
        first_global
    } else {
        Option::None
    }
}

/// The argument one wire option materializes to: its name, and its
/// resolved value converted to the library's tagged union.
pub open spec fn spec_materialize_one(opt: InteractionOption) -> Result<
    CommandArgument,
    ArgumentError,
> {
    match opt.value {
        Option::Some(rv) => match CommandArgumentValue::spec_from_resolved(rv) {
            Ok(v) => Ok(CommandArgument { name: opt.name, value: Option::Some(v) }),
            Err(e) => Err(e),
        },
        Option::None => Ok(CommandArgument { name: opt.name, value: Option::None }),
    }
}

/// The arguments a leaf's wire options materialize to, in order; the
/// first failing option's error aborts the whole materialization.
pub open spec fn spec_materialize(opts: Seq<InteractionOption>) -> Result<
    Seq<CommandArgument>,
    ArgumentError,
>
    decreases opts.len(),
{
    if opts.len() == 0 {
        Ok(Seq::empty())
    } else {
        match spec_materialize(opts.drop_last()) {
            Ok(s) => match spec_materialize_one(opts.last()) {
                Ok(a) => Ok(s.push(a)),
                Err(e) => Err(e),
            },
            Err(e) => Err(e),
        }
    }
}

proof fn lemma_materialize_error(opts: Seq<InteractionOption>, i: int)
    requires
        0 <= i < opts.len(),
        spec_materialize(opts.take(i)) is Ok,
        spec_materialize_one(opts[i]) is Err,
    ensures
        spec_materialize(opts) == Err::<Seq<CommandArgument>, ArgumentError>(
            spec_materialize_one(opts[i])->Err_0,
        ),
    decreases opts.len(),
{
    if i == opts.len() - 1 {
        assert(opts.drop_last() =~= opts.take(i));
        assert(opts.last() == opts[i]);
    } else {
        assert(opts.drop_last().take(i) =~= opts.take(i));
        assert(opts.drop_last()[i] == opts[i]);
        lemma_materialize_error(opts.drop_last(), i);
    }
}

fn materialize_one(opt: &InteractionOption) -> (r: Result<CommandArgument, ArgumentError>)
    ensures
        r == spec_materialize_one(*opt),
{
    match &opt.value {
        Option::Some(rv) => match CommandArgumentValue::from_resolved(rv) {
            Ok(v) => Ok(CommandArgument { name: opt.name.clone(), value: Option::Some(v) }),
            Err(e) => Err(e),
        },
        Option::None => Ok(CommandArgument { name: opt.name.clone(), value: Option::None }),
    }
}

/// Materialize a leaf's wire options into argument values, walking the
/// list once; any conversion failure aborts with the first error.
pub fn materialize(opts: &Vec<InteractionOption>) -> (r: Result<
    Vec<CommandArgument>,
    ArgumentError,
>)
    ensures
        match r {
            Ok(args) => spec_materialize(opts@) == Ok::<Seq<CommandArgument>, ArgumentError>(
                args@,
            ),
            Err(e) => spec_materialize(opts@) == Err::<Seq<CommandArgument>, ArgumentError>(e),
        },
{
    let ghost all = opts@;
    let mut args: Vec<CommandArgument> = Vec::new();
    let mut i: usize = 0;
    while i < opts.len()
        invariant
            i <= all.len(),
            all == opts@,
            spec_materialize(all.take(i as int)) == Ok::<Seq<CommandArgument>, ArgumentError>(
                args@,
            ),
        decreases all.len() - i,
    {
        proof {
            assert(all.take(i + 1).drop_last() =~= all.take(i as int));
            assert(all.take(i + 1).last() == all[i as int]);
        }
        match materialize_one(&opts[i]) {
            Ok(a) => {
                args.push(a);
            },
            Err(e) => {
                proof {
                    lemma_materialize_error(all, i as int);
                }
                return Err(e);
            },
        }
        i = i + 1;
    }
    proof {
        assert(all.take(all.len() as int) =~= all);
    }
    Ok(args)
}

/// What routing hands on for one resolved leaf: the bound handler, its
/// context expectation, and the leaf's own options materialized. A
/// materialization failure drops the interaction.
pub open spec fn spec_leaf_call(cmd: Command, opts: Seq<InteractionOption>) -> Option<
    RoutedCall,
> {
    match spec_materialize(opts) {
        Ok(args) => Option::Some(
            RoutedCall { handler: cmd.action, context: cmd.arguments.context, args },
        ),
        Err(_) => Option::None,
    }
}

/// The routing function: selection by name and scope, then descent
/// through at most two container levels, then materialization of the
/// resolved leaf's own options. `None` is a silent drop: an unknown or
/// unroutable command, a missing child name, or a failing option.
pub open spec fn spec_route(cmds: Seq<ValidCommand>, event: Interaction) -> Option<RoutedCall> {
    match spec_selected(cmds, event.command@, event.guild) {
        Option::None => Option::None,
        Option::Some(idx) => match cmds[idx] {
            ValidCommand::Command(cmd) => spec_leaf_call(cmd, event.options@),
            ValidCommand::SubCommands(sc) => {
                if event.options@.len() == 0 {
                    Option::None
                } else {
                    let sub_opt = event.options@[0];
                    match spec_first_subcommand(sc.subcommands@, sub_opt.name@) {
                        Option::None => Option::None,
                        Option::Some(j) => match sc.subcommands@[j] {
                            SubCommand::SubCommand(subcmd) => spec_leaf_call(
                                subcmd,
                                sub_opt.options@,
                            ),
                            SubCommand::SubCommandGroup(g) => {
                                if sub_opt.options@.len() == 0 {
                                    Option::None
                                } else {
                                    let leaf_opt = sub_opt.options@[0];
                                    match spec_first_command(g.subcommands@, leaf_opt.name@) {
                                        Option::None => Option::None,
                                        Option::Some(k) => spec_leaf_call(
                                            g.subcommands@[k],
                                            leaf_opt.options@,
                                        ),
                                    }
                                }
                            },
                        },
                    }
                }
            },
        },
    }
}

fn leaf_call(cmd: &Command, opts: &Vec<InteractionOption>) -> (r: Option<Invocation>)
    ensures
        match r {
            Option::Some(inv) => spec_leaf_call(*cmd, opts@) matches Option::Some(call)
                && inv.handler == call.handler && inv.context == call.context
                && inv.args.spec_args() == call.args && inv.args.spec_current() == 0,
            Option::None => spec_leaf_call(*cmd, opts@) is None,
        },
{
    match materialize(opts) {
        Ok(args) => Option::Some(
            Invocation {
                handler: cmd.action,
                context: cmd.arguments.context,
                args: ArgumentList::new(args),
            },
        ),
        Err(_) => Option::None,
    }
}

/// Route one incoming interaction against the frozen registry. Returns
/// the invocation the hosting process must run, or nothing when the
/// interaction is silently dropped.
pub fn route(framework: &Framework, event: &Interaction) -> (r: Option<Invocation>)
    ensures
        match r {
            Option::Some(inv) => spec_route(framework.spec_commands(), *event) matches
                Option::Some(call) && inv.handler == call.handler && inv.context == call.context
                && inv.args.spec_args() == call.args && inv.args.spec_current() == 0,
            Option::None => spec_route(framework.spec_commands(), *event) is None,
        },
{
    let cmds = framework.commands();
    match select_command(cmds, &event.command, &event.guild) {
        Option::None => Option::None,
        Option::Some(idx) => match &cmds[idx] {
            ValidCommand::Command(cmd) => leaf_call(cmd, &event.options),
            ValidCommand::SubCommands(sc) => {
                if event.options.len() == 0 {
                    return Option::None;
                }
                let sub_opt = &event.options[0];
                match find_subcommand(&sc.subcommands, &sub_opt.name) {
                    Option::None => Option::None,
                    Option::Some(j) => match &sc.subcommands[j] {
                        SubCommand::SubCommand(subcmd) => leaf_call(subcmd, &sub_opt.options),
                        SubCommand::SubCommandGroup(g) => {
                            if sub_opt.options.len() == 0 {
                                return Option::None;
                            }
                            let leaf_opt = &sub_opt.options[0];
                            match find_command(&g.subcommands, &leaf_opt.name) {
                                Option::None => Option::None,
                                Option::Some(k) => leaf_call(&g.subcommands[k], &leaf_opt.options),
                            }
                        },
                    },
                }
            },
        },
    }
}

/// Two same-named registry entries must not both cover any origin: two
/// globals always collide, two scoped entries collide when their guild
/// sets overlap.
pub open spec fn spec_scopes_disjoint(a: ValidCommand, b: ValidCommand) -> bool {
    match (a.spec_guilds(), b.spec_guilds()) {
        (Option::None, Option::None) => false,
        (Option::Some(x), Option::Some(y)) => forall|g: u64|
            !(#[trigger] x@.contains(g) && y@.contains(g)),
        _ => true,
    }
}

/// A well-formed registry: entries sharing a name have disjoint guild
/// scopes (at most one global entry, and scoped entries without common
/// guilds).
pub open spec fn spec_registry_wf(cmds: Seq<ValidCommand>) -> bool {
    forall|i: int, j: int|
        0 <= i < j < cmds.len() && (#[trigger] cmds[i]).spec_name() == (
        #[trigger] cmds[j]).spec_name() ==> spec_scopes_disjoint(cmds[i], cmds[j])
}

proof fn lemma_no_match(cmds: Seq<ValidCommand>, name: Seq<char>, guild: Option<u64>)
    requires
        forall|j: int| 0 <= j < cmds.len() ==> !spec_is_match(#[trigger] cmds[j], name, guild),
    ensures
        spec_match_count(cmds, name, guild) == 0,
        spec_first_match(cmds, name, guild) is None,
    decreases cmds.len(),
{
    if cmds.len() > 0 {
        assert(forall|j: int|
            0 <= j < cmds.drop_last().len() ==> cmds.drop_last()[j] == cmds[j]);
        lemma_no_match(cmds.drop_last(), name, guild);
    }
}

proof fn lemma_unique_match(cmds: Seq<ValidCommand>, name: Seq<char>, guild: Option<u64>, s: int)
    requires
        0 <= s < cmds.len(),
        spec_is_match(cmds[s], name, guild),
        forall|j: int|
            0 <= j < cmds.len() && j != s ==> !spec_is_match(#[trigger] cmds[j], name, guild),
    ensures
        spec_match_count(cmds, name, guild) == 1,
        spec_first_match(cmds, name, guild) == Option::Some(s),
    decreases cmds.len(),
{
    assert(forall|j: int| 0 <= j < cmds.drop_last().len() ==> cmds.drop_last()[j] == cmds[j]);
    if s == cmds.len() - 1 {
        lemma_no_match(cmds.drop_last(), name, guild);
    } else {
        lemma_unique_match(cmds.drop_last(), name, guild, s);
    }
}

proof fn lemma_unique_global(cmds: Seq<ValidCommand>, name: Seq<char>, t: int)
    requires
        0 <= t < cmds.len(),
        spec_is_global(cmds[t], name),
        forall|j: int|
            0 <= j < cmds.len() && j != t ==> !spec_is_global(#[trigger] cmds[j], name),
    ensures
        spec_first_global(cmds, name) == Option::Some(t),
    decreases cmds.len(),
{
    assert(forall|j: int| 0 <= j < cmds.drop_last().len() ==> cmds.drop_last()[j] == cmds[j]);
    if t == cmds.len() - 1 {
        lemma_no_global(cmds.drop_last(), name);
    } else {
        lemma_unique_global(cmds.drop_last(), name, t);
    }
}

proof fn lemma_no_global(cmds: Seq<ValidCommand>, name: Seq<char>)
    requires
        forall|j: int| 0 <= j < cmds.len() ==> !spec_is_global(#[trigger] cmds[j], name),
    ensures
        spec_first_global(cmds, name) is None,
    decreases cmds.len(),
{
    if cmds.len() > 0 {
        assert(forall|j: int|
            0 <= j < cmds.drop_last().len() ==> cmds.drop_last()[j] == cmds[j]);
        lemma_no_global(cmds.drop_last(), name);
    }
}

/// An interaction whose name and scope resolve to a registered leaf, and
/// whose options all materialize, is routed to exactly the handler bound
/// to that leaf, with exactly those materialized arguments.
pub proof fn lemma_dispatch_invokes_bound_handler(
    cmds: Seq<ValidCommand>,
    event: Interaction,
    k: int,
    leaf: Command,
)
    requires
        0 <= k < cmds.len(),
        spec_selected(cmds, event.command@, event.guild) == Option::Some(k),
        cmds[k] == ValidCommand::Command(leaf),
        spec_materialize(event.options@) is Ok,
    ensures
        spec_route(cmds, event) == Option::Some(
            RoutedCall {
                handler: leaf.action,
                context: leaf.arguments.context,
                args: spec_materialize(event.options@)->Ok_0,
            },
        ),
{
}

/// Guild-scoped override precedence, first half: in a well-formed
/// registry holding a name both globally and scoped to guild `g`, an
/// interaction from `g` selects the scoped entry.
pub proof fn lemma_override_prefers_scoped(
    cmds: Seq<ValidCommand>,
    name: Seq<char>,
    s: int,
    t: int,
    g: u64,
)
    requires
        spec_registry_wf(cmds),
        0 <= s < cmds.len(),
        0 <= t < cmds.len(),
        cmds[s].spec_name() == name,
        cmds[t].spec_name() == name,
        cmds[s].spec_guilds() matches Option::Some(gs) && gs@.contains(g),
        cmds[t].spec_guilds() is None,
    ensures
        spec_selected(cmds, name, Option::Some(g)) == Option::Some(s),
{
    assert(spec_is_match(cmds[s], name, Option::Some(g)));
    assert forall|j: int| 0 <= j < cmds.len() && j != s implies !spec_is_match(
        #[trigger] cmds[j],
        name,
        Option::Some(g),
    ) by {
        if cmds[j].spec_name() == name {
            if j < s {
                assert(spec_scopes_disjoint(cmds[j], cmds[s]));
            } else {
                assert(spec_scopes_disjoint(cmds[s], cmds[j]));
            }
        }
    }
    lemma_unique_match(cmds, name, Option::Some(g), s);
}

/// Guild-scoped override precedence, second half: in a well-formed
/// registry holding a name both globally and scoped, an interaction from
/// a guild outside every scope of that name — or from no guild at all —
/// falls back to the global entry.
pub proof fn lemma_override_falls_back_to_global(
    cmds: Seq<ValidCommand>,
    name: Seq<char>,
    t: int,
    guild: Option<u64>,
)
    requires
        spec_registry_wf(cmds),
        0 <= t < cmds.len(),
        cmds[t].spec_name() == name,
        cmds[t].spec_guilds() is None,
        match guild {
            Option::Some(h) => forall|j: int|
                0 <= j < cmds.len() && (#[trigger] cmds[j]).spec_name() == name
                    ==> !spec_scope_matches(cmds[j], Option::Some(h)),
            Option::None => true,
        },
    ensures
        spec_selected(cmds, name, guild) == Option::Some(t),
{
    assert forall|j: int| 0 <= j < cmds.len() && j != t implies !spec_is_global(
        #[trigger] cmds[j],
        name,
    ) by {
        if cmds[j].spec_name() == name && cmds[j].spec_guilds() is None {
            if j < t {
                assert(spec_scopes_disjoint(cmds[j], cmds[t]));
            } else {
                assert(spec_scopes_disjoint(cmds[t], cmds[j]));
            }
        }
    }
    match guild {
        Option::Some(h) => {
            assert(forall|j: int|
                0 <= j < cmds.len() ==> !spec_is_match(#[trigger] cmds[j], name, guild));
            lemma_no_match(cmds, name, guild);
            lemma_unique_global(cmds, name, t);
        },
        Option::None => {
            assert forall|j: int| 0 <= j < cmds.len() && j != t implies !spec_is_match(
                #[trigger] cmds[j],
                name,
                guild,
            ) by {
                if cmds[j].spec_name() == name {
                    assert(!spec_is_global(cmds[j], name));
                }
            }
            assert(spec_is_match(cmds[t], name, guild));
            lemma_unique_match(cmds, name, guild, t);
        },
    }
}

/// Two-level descent: an interaction naming a group, a subgroup in it,
/// and a leaf in the subgroup is routed to that leaf's handler, and the
/// arguments passed are materialized from the leaf's own options alone —
/// not from the group's or the subgroup's option levels.
pub proof fn lemma_two_level_descent(
    cmds: Seq<ValidCommand>,
    event: Interaction,
    k: int,
    j: int,
    l: int,
)
    requires
        0 <= k < cmds.len(),
        spec_selected(cmds, event.command@, event.guild) == Option::Some(k),
        cmds[k] is SubCommands,
        event.options@.len() > 0,
        spec_first_subcommand(
            cmds[k]->SubCommands_0.subcommands@,
            event.options@[0].name@,
        ) == Option::Some(j),
        0 <= j < cmds[k]->SubCommands_0.subcommands@.len(),
        cmds[k]->SubCommands_0.subcommands@[j] is SubCommandGroup,
        event.options@[0].options@.len() > 0,
        spec_first_command(
            cmds[k]->SubCommands_0.subcommands@[j]->SubCommandGroup_0.subcommands@,
            event.options@[0].options@[0].name@,
        ) == Option::Some(l),
        0 <= l < cmds[k]->SubCommands_0.subcommands@[j]->SubCommandGroup_0.subcommands@.len(),
        spec_materialize(event.options@[0].options@[0].options@) is Ok,
    ensures
        spec_route(cmds, event) == Option::Some(
            RoutedCall {
                handler: cmds[k]->SubCommands_0.subcommands@[j]->SubCommandGroup_0.subcommands@[l].action,
                context: cmds[k]->SubCommands_0.subcommands@[j]->SubCommandGroup_0.subcommands@[l].arguments.context,
                args: spec_materialize(event.options@[0].options@[0].options@)->Ok_0,
            },
        ),
{
}

} // verus!
