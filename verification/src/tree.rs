//! Builds the command tree that the completion engine reads from a command
//! definition.

use vstd::prelude::*;
use crate::definition::{command_view_fields, opt_chars, ArgumentDef, ArgumentSpec, CommandDef, CommandSpec, OptionDef, OptionSpec};
use crate::engine::{
    arg_spec, boolean_parser, clone_parser, command_spec, enumeration_parser, free_text_parser,
    integer_parser, new_arg, new_command, parser_spec, path_parser, texts, with_about,
    with_aliases, with_arg, with_global, with_help, with_help_flag_disabled,
    with_help_subcommand_disabled, with_long, with_required, with_short_aliases, with_subcommand,
    with_value_parser, with_version_flag_disabled, ArgSpec, NodeSpec,
};
use crate::conflict::{
    build_verdict, children_without_refusal, definition_flags, option_flags, shape_of_def,
    shape_of_def_fields, tree_refusal, DefinitionError,
};
use crate::engine::{helpers_off, shape_of_node, shape_of_node_fields};
use crate::intern::leak_string;
use crate::validate::check_buildable;
use crate::strategy::{resolve, resolve_strategy, StrategySpec, ValueStrategy};

verus! {

/// The way of parsing that the tree holds for a strategy. Double-precision
/// numbers are parsed by the parser that the caller supplies; `float` is
/// what that parser stands for.
pub open spec fn parser_for(strategy: StrategySpec, float: StrategySpec) -> StrategySpec {
    match strategy {
        StrategySpec::Float => float,
        other => other,
    }
}

/// What the tree holds for an option: the name is both identifier and long
/// name, the short and long names are hidden aliases.
pub open spec fn option_arg(o: OptionSpec, float: StrategySpec) -> ArgSpec {
    ArgSpec {
        id: o.name,
        long: Some(o.name),
        short_aliases: o.short_names,
        aliases: o.long_names,
        required: o.required,
        global: o.global,
        parser: Some(parser_for(resolve(o.possible_values, o.value_type), float)),
        help: Some(o.description),
    }
}

/// What the tree holds for a positional argument.
pub open spec fn positional_arg(a: ArgumentSpec, float: StrategySpec) -> ArgSpec {
    ArgSpec {
        id: a.name,
        long: None,
        short_aliases: Seq::empty(),
        aliases: Seq::empty(),
        required: a.required,
        global: a.global,
        parser: Some(parser_for(resolve(a.possible_values, a.value_type), float)),
        help: Some(a.description),
    }
}

/// The options of a command as the tree holds them, in declaration order.
pub open spec fn option_args(def: CommandSpec, float: StrategySpec) -> Seq<ArgSpec> {
    Seq::new(def.options.len(), |i: int| option_arg(def.options[i], float))
}

/// The positional arguments of a command as the tree holds them, in
/// declaration order.
pub open spec fn positional_args(def: CommandSpec, float: StrategySpec) -> Seq<ArgSpec> {
    Seq::new(def.arguments.len(), |i: int| positional_arg(def.arguments[i], float))
}

/// The tree for a command definition: name and description, no help flag,
/// version flag or help subcommand of the builder's own, the options in
/// declaration order, behind them the positional arguments in declaration
/// order, and the trees of the subcommands in declaration order.
pub open spec fn command_tree(def: CommandSpec, float: StrategySpec) -> NodeSpec
    decreases def,
{
    NodeSpec {
        name: def.name,
        about: Some(def.description),
        help_flag: false,
        version_flag: false,
        help_subcommand: false,
        args: option_args(def, float) + positional_args(def, float),
        subcommands: Seq::new(
            def.subcommands.len(),
            |i: int|
                if 0 <= i < def.subcommands.len() {
                    command_tree(def.subcommands[i], float)
                } else {
                    arbitrary()
                },
        ),
    }
}

/// The tree for a command definition, field by field.
pub proof fn command_tree_fields(def: CommandSpec, float: StrategySpec)
    ensures
        command_tree(def, float).name == def.name,
        command_tree(def, float).about == Some(def.description),
        !command_tree(def, float).help_flag,
        !command_tree(def, float).version_flag,
        !command_tree(def, float).help_subcommand,
        command_tree(def, float).args == option_args(def, float) + positional_args(def, float),
        command_tree(def, float).subcommands.len() == def.subcommands.len(),
        forall|i: int|
            0 <= i < def.subcommands.len() ==> #[trigger] command_tree(def, float).subcommands[i]
                == command_tree(def.subcommands[i], float),
{
    reveal_with_fuel(command_tree, 2);
}

/// Whether no option in the tree has a hyphen among its short names.
pub open spec fn hyphen_free(def: CommandSpec) -> bool
    decreases def,
{
    &&& forall|i: int|
        0 <= i < def.options.len() ==> !(#[trigger] def.options[i]).short_names.contains('-')
    &&& forall|i: int| 0 <= i < def.subcommands.len() ==> hyphen_free(#[trigger] def.subcommands[i])
}

/// The texts with program lifetime, in the same order.
fn leak_texts(values: &Vec<String>) -> (leaked: Vec<&'static str>)
    ensures
        texts(leaked@) == values.deep_view(),
{
    let mut leaked: Vec<&'static str> = Vec::new();
    let mut i: usize = 0;
    while i < values.len()
        invariant
            i <= values.len(),
            leaked@.len() == i,
            forall|k: int| 0 <= k < i ==> leaked@[k]@ == values@[k]@,
        decreases values.len() - i,
    {
        leaked.push(leak_string(values[i].as_str()));
        i += 1;
    }
    assert(texts(leaked@) =~= values.deep_view());
    leaked
}

/// The value parser of the builder for an option or argument, from its
/// allowed literals and its declared type tag. `float_parser` is the
/// builder's parser for double-precision numbers; a copy of it is returned
/// where the strategy is that one.
pub fn make_value_parser(
    settings: (&Vec<String>, &Option<String>),
    float_parser: &clap::builder::ValueParser,
) -> (p: clap::builder::ValueParser)
    ensures
        parser_spec(p) == parser_for(
            resolve(settings.0.deep_view(), opt_chars(*settings.1)),
            parser_spec(*float_parser),
        ),
{
    let (possible_values, value_type) = settings;
    match resolve_strategy(possible_values, value_type) {
        ValueStrategy::Enumeration(values) => enumeration_parser(leak_texts(&values)),
        ValueStrategy::Path => path_parser(),
        ValueStrategy::Boolean => boolean_parser(),
        ValueStrategy::Integer => integer_parser(),
        ValueStrategy::Float => clone_parser(float_parser),
        ValueStrategy::FreeText => free_text_parser(),
    }
}

fn build_option(option: &OptionDef, float_parser: &clap::builder::ValueParser) -> (a: clap::Arg)
    requires
        !option.short_names@.contains('-'),
    ensures
        arg_spec(a) == option_arg(option@, parser_spec(*float_parser)),
{
    let name = leak_string(option.name.as_str());
    let arg = new_arg(name);
    let arg = with_long(arg, name);
    let arg = with_short_aliases(arg, &option.short_names);
    let arg = with_aliases(arg, leak_texts(&option.long_names));
    let arg = with_required(arg, option.required);
    let arg = with_global(arg, option.global);
    let arg = with_value_parser(
        arg,
        make_value_parser((&option.possible_values, &option.value_type), float_parser),
    );
    let arg = with_help(arg, leak_string(option.description.as_str()));
    proof {
        let want = option_arg(option@, parser_spec(*float_parser));
        assert(arg_spec(arg).short_aliases =~= want.short_aliases);
        assert(arg_spec(arg).aliases =~= want.aliases);
    }
    arg
}

fn build_argument(argument: &ArgumentDef, float_parser: &clap::builder::ValueParser) -> (a:
    clap::Arg)
    ensures
        arg_spec(a) == positional_arg(argument@, parser_spec(*float_parser)),
{
    let arg = new_arg(leak_string(argument.name.as_str()));
    let arg = with_value_parser(
        arg,
        make_value_parser((&argument.possible_values, &argument.value_type), float_parser),
    );
    let arg = with_required(arg, argument.required);
    let arg = with_global(arg, argument.global);
    with_help(arg, leak_string(argument.description.as_str()))
}

/// Builds the tree for a definition whose short names hold no hyphen.
pub(crate) fn build_command(def: &CommandDef, float_parser: &clap::builder::ValueParser) -> (c:
    clap::Command)
    requires
        hyphen_free(def@),
    ensures
        command_spec(c) == command_tree(def@, parser_spec(*float_parser)),
    decreases def,
{
    let ghost float = parser_spec(*float_parser);
    let ghost want = command_tree(def@, float);
    let cmd = new_command(leak_string(def.name.as_str()));
    let cmd = with_about(cmd, leak_string(def.description.as_str()));
    let cmd = with_help_flag_disabled(cmd, true);
    let cmd = with_version_flag_disabled(cmd, true);
    let mut cmd = with_help_subcommand_disabled(cmd, true);
    proof {
        command_view_fields(def);
        command_tree_fields(def@, float);
        assert(command_spec(cmd).args =~= option_args(def@, float).take(0));
    }

    let mut i: usize = 0;
    while i < def.options.len()
        invariant
            i <= def.options.len(),
            hyphen_free(def@),
            float == parser_spec(*float_parser),
            want == command_tree(def@, float),
            command_spec(cmd) == (NodeSpec {
                args: option_args(def@, float).take(i as int),
                subcommands: Seq::empty(),
                ..want
            }),
        decreases def.options.len() - i,
    {
        proof {
            command_view_fields(def);
        }
        let arg = build_option(&def.options[i], float_parser);
        cmd = with_arg(cmd, arg);
        assert(option_args(def@, float).take(i as int).push(option_arg(def@.options[i as int], float))
            =~= option_args(def@, float).take(i + 1));
        i += 1;
    }
    assert(option_args(def@, float).take(i as int) =~= option_args(def@, float));

    let mut j: usize = 0;
    while j < def.arguments.len()
        invariant
            j <= def.arguments.len(),
            float == parser_spec(*float_parser),
            want == command_tree(def@, float),
            command_spec(cmd) == (NodeSpec {
                args: option_args(def@, float) + positional_args(def@, float).take(j as int),
                subcommands: Seq::empty(),
                ..want
            }),
        decreases def.arguments.len() - j,
    {
        proof {
            command_view_fields(def);
        }
        let arg = build_argument(&def.arguments[j], float_parser);
        cmd = with_arg(cmd, arg);
        assert((option_args(def@, float) + positional_args(def@, float).take(j as int)).push(
            positional_arg(def@.arguments[j as int], float),
        ) =~= option_args(def@, float) + positional_args(def@, float).take(j + 1));
        j += 1;
    }
    assert(positional_args(def@, float).take(j as int) =~= positional_args(def@, float));
    assert(want.subcommands.take(0) =~= Seq::<NodeSpec>::empty());

    let mut k: usize = 0;
    while k < def.subcommands.len()
        invariant
            k <= def.subcommands.len(),
            hyphen_free(def@),
            float == parser_spec(*float_parser),
            want == command_tree(def@, float),
            command_spec(cmd) == (NodeSpec { subcommands: want.subcommands.take(k as int), ..want }),
        decreases def.subcommands.len() - k,
    {
        proof {
            command_view_fields(def);
            command_tree_fields(def@, float);
            assert(hyphen_free(def@.subcommands[k as int]));
        }
        let sub = build_command(&def.subcommands[k], float_parser);
        cmd = with_subcommand(cmd, sub);
        assert(want.subcommands.take(k as int).push(
            command_tree(def@.subcommands[k as int], float),
        ) =~= want.subcommands.take(k + 1));
        k += 1;
    }
    assert(want.subcommands.take(k as int) =~= want.subcommands);
    cmd
}

/// The names in the tree for a definition are the names in the definition,
/// and the builder adds no help flag, version flag or help subcommand
/// anywhere in it.
pub proof fn tree_keeps_names(def: CommandSpec, float: StrategySpec)
    ensures
        shape_of_node(command_tree(def, float)) == shape_of_def(def),
        helpers_off(command_tree(def, float)),
    decreases def,
{
    let tree = command_tree(def, float);
    command_tree_fields(def, float);
    shape_of_def_fields(def);
    shape_of_node_fields(tree);
    assert forall|i: int| 0 <= i < def.subcommands.len() implies shape_of_node(tree).children[i]
        == shape_of_def(def).children[i] && helpers_off(#[trigger] tree.subcommands[i]) by {
        tree_keeps_names(def.subcommands[i], float);
    }
    assert(shape_of_node(tree).children =~= shape_of_def(def).children);
    assert(shape_of_node(tree).flags =~= definition_flags(def));
}

/// A definition whose tree is built has no hyphen among its short names.
pub proof fn built_is_hyphen_free(def: CommandSpec)
    requires
        tree_refusal(shape_of_def(def)) is None,
    ensures
        hyphen_free(def),
    decreases def,
{
    let shape = shape_of_def(def);
    shape_of_def_fields(def);
    assert forall|i: int| 0 <= i < def.options.len() implies !(
    #[trigger] def.options[i]).short_names.contains('-') by {
        assert(shape.flags[i] == option_flags(def.options[i]));
        assert(!shape.flags[i].shorts.contains('-'));
    }
    assert forall|i: int| 0 <= i < def.subcommands.len() implies hyphen_free(
        #[trigger] def.subcommands[i],
    ) by {
        children_without_refusal(shape, 0, i);
        built_is_hyphen_free(def.subcommands[i]);
    }
}

/// The tree keeps the order of declaration: the option declared at
/// position `i` is the tree's `i`-th entry, the positional arguments follow
/// the options in their order, and the subcommand declared at position `k`
/// is the root of the tree's `k`-th subtree.
pub proof fn tree_preserves_order(def: CommandSpec, float: StrategySpec)
    ensures
        command_tree(def, float).args.len() == def.options.len() + def.arguments.len(),
        command_tree(def, float).subcommands.len() == def.subcommands.len(),
        forall|i: int|
            0 <= i < def.options.len() ==> #[trigger] command_tree(def, float).args[i]
                == option_arg(def.options[i], float),
        forall|j: int|
            0 <= j < def.arguments.len() ==> #[trigger] command_tree(
                def,
                float,
            ).args[def.options.len() + j] == positional_arg(def.arguments[j], float),
        forall|k: int|
            0 <= k < def.subcommands.len() ==> #[trigger] command_tree(def, float).subcommands[k]
                == command_tree(def.subcommands[k], float),
        forall|k: int|
            0 <= k < def.subcommands.len() ==> (#[trigger] command_tree(
                def,
                float,
            ).subcommands[k]).name == def.subcommands[k].name,
{
    command_tree_fields(def, float);
    assert forall|k: int| 0 <= k < def.subcommands.len() implies (#[trigger] command_tree(
        def,
        float,
    ).subcommands[k]).name == def.subcommands[k].name by {
        command_tree_fields(def.subcommands[k], float);
    }
}

/// Builds the command tree for a definition: name and description, the
/// options, then the positional arguments, then the subcommands, each in
/// declaration order and with every setting carried over. No tree is built
/// where a short name is a hyphen, which the builder refuses, or where two
/// options or arguments of one command share a name; the error is the
/// first such reason. `float_parser` is the builder's parser for
/// double-precision numbers.
pub fn make_command(def: &CommandDef, float_parser: &clap::builder::ValueParser) -> (made: Result<
    clap::Command,
    DefinitionError,
>)
    ensures
        match made {
            Ok(c) => build_verdict(def@) is Ok && command_spec(c) == command_tree(
                def@,
                parser_spec(*float_parser),
            ),
            Err(e) => build_verdict(def@) == Err::<(), DefinitionError>(e),
        },
{
    match check_buildable(def) {
        Err(e) => Err(e),
        Ok(()) => {
            proof {
                built_is_hyphen_free(def@);
            }
            Ok(build_command(def, float_parser))
        },
    }
}

} // verus!
