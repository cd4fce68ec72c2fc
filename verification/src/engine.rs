//! The command builder and the completion engine, as far as this library
//! relies on them. Nothing in this file is proved: each function states what
//! the library takes the outside function to do.

use vstd::prelude::*;
use crate::conflict::{fault, FlagSpec, ShapeSpec};
use crate::shell::Shell;
use crate::strategy::StrategySpec;

verus! {

/// `clap::Command`: a command of the builder, carried through unopened.
#[verifier::external_type_specification]
#[verifier::external_body]
pub struct ExCommand(clap::Command);

/// `clap::Arg`: an option or argument of the builder, carried through
/// unopened.
#[verifier::external_type_specification]
#[verifier::external_body]
pub struct ExArg(clap::Arg);

/// `clap::builder::ValueParser`: a value parser of the builder, carried
/// through unopened.
#[verifier::external_type_specification]
#[verifier::external_body]
pub struct ExValueParser(clap::builder::ValueParser);

/// What has been set on an option or argument of the builder.
pub struct ArgSpec {
    pub id: Seq<char>,
    pub long: Option<Seq<char>>,
    /// Hidden short aliases, in the order in which they were added.
    pub short_aliases: Seq<char>,
    /// Hidden long aliases, in the order in which they were added.
    pub aliases: Seq<Seq<char>>,
    pub required: bool,
    pub global: bool,
    pub parser: Option<StrategySpec>,
    pub help: Option<Seq<char>>,
}

/// What has been set on a command of the builder.
pub struct NodeSpec {
    pub name: Seq<char>,
    pub about: Option<Seq<char>>,
    /// Whether the builder adds a help flag of its own.
    pub help_flag: bool,
    /// Whether the builder adds a version flag of its own.
    pub version_flag: bool,
    /// Whether the builder adds a help subcommand of its own.
    pub help_subcommand: bool,
    /// Options and arguments, in the order in which they were added.
    pub args: Seq<ArgSpec>,
    /// Subcommands, in the order in which they were added.
    pub subcommands: Seq<NodeSpec>,
}

/// The way of parsing that a value parser of the builder stands for.
pub uninterp spec fn parser_spec(p: clap::builder::ValueParser) -> StrategySpec;

/// What an option or argument of the builder holds.
pub uninterp spec fn arg_spec(a: clap::Arg) -> ArgSpec;

/// What a command of the builder holds.
pub uninterp spec fn command_spec(c: clap::Command) -> NodeSpec;

/// The completion script that the engine writes for a shell, a command tree
/// and a program name.
pub uninterp spec fn completion_script(shell: Shell, tree: NodeSpec, program: Seq<char>) -> Seq<u8>;

/// The characters of each text.
pub open spec fn texts(v: Seq<&'static str>) -> Seq<Seq<char>> {
    Seq::new(v.len(), |i: int| v[i]@)
}

/// The names by which an option or argument of the builder is known.
pub open spec fn flags_of_arg(a: ArgSpec) -> FlagSpec {
    FlagSpec {
        id: a.id,
        long: a.long,
        aliases: a.aliases,
        shorts: a.short_aliases,
        required: a.required,
        global: a.global,
    }
}

/// The names in a command tree of the builder.
pub open spec fn shape_of_node(n: NodeSpec) -> ShapeSpec
    decreases n,
{
    ShapeSpec {
        name: n.name,
        flags: Seq::new(n.args.len(), |i: int| flags_of_arg(n.args[i])),
        children: Seq::new(
            n.subcommands.len(),
            |i: int|
                if 0 <= i < n.subcommands.len() {
                    shape_of_node(n.subcommands[i])
                } else {
                    arbitrary()
                },
        ),
    }
}

/// The names in a command tree of the builder, field by field.
pub proof fn shape_of_node_fields(n: NodeSpec)
    ensures
        shape_of_node(n).name == n.name,
        shape_of_node(n).flags == Seq::new(n.args.len(), |i: int| flags_of_arg(n.args[i])),
        shape_of_node(n).children.len() == n.subcommands.len(),
        forall|i: int|
            0 <= i < n.subcommands.len() ==> #[trigger] shape_of_node(n).children[i]
                == shape_of_node(n.subcommands[i]),
{
    reveal_with_fuel(shape_of_node, 2);
}

/// Whether no command of the tree gets a help flag, version flag or help
/// subcommand from the builder.
pub open spec fn helpers_off(n: NodeSpec) -> bool
    decreases n,
{
    &&& !n.help_flag
    &&& !n.version_flag
    &&& !n.help_subcommand
    &&& forall|i: int| 0 <= i < n.subcommands.len() ==> helpers_off(#[trigger] n.subcommands[i])
}

/// The trees for which the engine writes a script under the program name
/// `program`: the builder adds nothing of its own and no naming rule is
/// broken.
pub open spec fn engine_accepts(n: NodeSpec, program: Seq<char>) -> bool {
    helpers_off(n) && fault(shape_of_node(n), program) is None
}

/// `ValueParser::from(Vec<&'static str>)`: the parser that accepts exactly
/// the listed values, in the order given.
#[verifier::external_body]
pub(crate) fn enumeration_parser(values: Vec<&'static str>) -> (p: clap::builder::ValueParser)
    ensures
        parser_spec(p) == StrategySpec::Enumeration(texts(values@)),
{
    values.into()
}

/// `ValueParser::path_buf`: the parser for filesystem paths.
#[verifier::external_body]
pub(crate) fn path_parser() -> (p: clap::builder::ValueParser)
    ensures
        parser_spec(p) == StrategySpec::Path,
{
    clap::builder::ValueParser::path_buf()
}

/// `ValueParser::bool`: the parser for `true` and `false`.
#[verifier::external_body]
pub(crate) fn boolean_parser() -> (p: clap::builder::ValueParser)
    ensures
        parser_spec(p) == StrategySpec::Boolean,
{
    clap::builder::ValueParser::bool()
}

/// `RangedI64ValueParser::new`: the parser for the whole range of signed
/// 64-bit integers.
#[verifier::external_body]
pub(crate) fn integer_parser() -> (p: clap::builder::ValueParser)
    ensures
        parser_spec(p) == StrategySpec::Integer,
{
    clap::builder::RangedI64ValueParser::<i64>::new().into()
}

/// `NonEmptyStringValueParser::new`: the parser for any non-empty text.
#[verifier::external_body]
pub(crate) fn free_text_parser() -> (p: clap::builder::ValueParser)
    ensures
        parser_spec(p) == StrategySpec::FreeText,
{
    clap::builder::NonEmptyStringValueParser::new().into()
}

/// `ValueParser::clone`: a parser that parses as the given one does.
#[verifier::external_body]
pub(crate) fn clone_parser(p: &clap::builder::ValueParser) -> (q: clap::builder::ValueParser)
    ensures
        parser_spec(q) == parser_spec(*p),
{
    p.clone()
}

/// `Arg::new`: an argument of the given name with nothing else set.
#[verifier::external_body]
pub(crate) fn new_arg(id: &'static str) -> (a: clap::Arg)
    ensures
        arg_spec(a) == (ArgSpec {
            id: id@,
            long: None,
            short_aliases: Seq::empty(),
            aliases: Seq::empty(),
            required: false,
            global: false,
            parser: None,
            help: None,
        }),
{
    clap::Arg::new(id)
}

/// `Arg::long`: sets the long name and leaves the rest.
#[verifier::external_body]
pub(crate) fn with_long(a: clap::Arg, long: &'static str) -> (b: clap::Arg)
    ensures
        arg_spec(b) == (ArgSpec { long: Some(long@), ..arg_spec(a) }),
{
    a.long(long)
}

/// `Arg::short_aliases`: adds the characters, in order, behind the hidden
/// short aliases that are there. The builder refuses a hyphen.
#[verifier::external_body]
pub(crate) fn with_short_aliases(a: clap::Arg, names: &Vec<char>) -> (b: clap::Arg)
    requires
        !names@.contains('-'),
    ensures
        arg_spec(b) == (ArgSpec {
            short_aliases: arg_spec(a).short_aliases + names@,
            ..arg_spec(a)
        }),
{
    a.short_aliases(names.iter().cloned())
}

/// `Arg::aliases`: adds the names, in order, behind the hidden long aliases
/// that are there.
#[verifier::external_body]
pub(crate) fn with_aliases(a: clap::Arg, names: Vec<&'static str>) -> (b: clap::Arg)
    ensures
        arg_spec(b) == (ArgSpec { aliases: arg_spec(a).aliases + texts(names@), ..arg_spec(a) }),
{
    a.aliases(names)
}

/// `Arg::required`: sets or clears the setting and leaves the rest.
#[verifier::external_body]
pub(crate) fn with_required(a: clap::Arg, yes: bool) -> (b: clap::Arg)
    ensures
        arg_spec(b) == (ArgSpec { required: yes, ..arg_spec(a) }),
{
    a.required(yes)
}

/// `Arg::global`: sets or clears the setting and leaves the rest.
#[verifier::external_body]
pub(crate) fn with_global(a: clap::Arg, yes: bool) -> (b: clap::Arg)
    ensures
        arg_spec(b) == (ArgSpec { global: yes, ..arg_spec(a) }),
{
    a.global(yes)
}

/// `Arg::value_parser`: sets the value parser and leaves the rest.
#[verifier::external_body]
pub(crate) fn with_value_parser(a: clap::Arg, parser: clap::builder::ValueParser) -> (b: clap::Arg)
    ensures
        arg_spec(b) == (ArgSpec { parser: Some(parser_spec(parser)), ..arg_spec(a) }),
{
    a.value_parser(parser)
}

/// `Arg::help`: sets the help text and leaves the rest.
#[verifier::external_body]
pub(crate) fn with_help(a: clap::Arg, help: &'static str) -> (b: clap::Arg)
    ensures
        arg_spec(b) == (ArgSpec { help: Some(help@), ..arg_spec(a) }),
{
    a.help(help)
}

/// `Command::new`: a command of the given name with nothing else set; the
/// builder would add its help flag, version flag and help subcommand.
#[verifier::external_body]
pub(crate) fn new_command(name: &'static str) -> (c: clap::Command)
    ensures
        command_spec(c) == (NodeSpec {
            name: name@,
            about: None,
            help_flag: true,
            version_flag: true,
            help_subcommand: true,
            args: Seq::empty(),
            subcommands: Seq::empty(),
        }),
{
    clap::Command::new(name)
}

/// `Command::about`: sets the description and leaves the rest.
#[verifier::external_body]
pub(crate) fn with_about(c: clap::Command, about: &'static str) -> (d: clap::Command)
    ensures
        command_spec(d) == (NodeSpec { about: Some(about@), ..command_spec(c) }),
{
    c.about(about)
}

/// `Command::disable_help_flag`: switches the builder's own help flag off
/// or on and leaves the rest.
#[verifier::external_body]
pub(crate) fn with_help_flag_disabled(c: clap::Command, yes: bool) -> (d: clap::Command)
    ensures
        command_spec(d) == (NodeSpec { help_flag: !yes, ..command_spec(c) }),
{
    c.disable_help_flag(yes)
}

/// `Command::disable_version_flag`: switches the builder's own version flag
/// off or on and leaves the rest.
#[verifier::external_body]
pub(crate) fn with_version_flag_disabled(c: clap::Command, yes: bool) -> (d: clap::Command)
    ensures
        command_spec(d) == (NodeSpec { version_flag: !yes, ..command_spec(c) }),
{
    c.disable_version_flag(yes)
}

/// `Command::disable_help_subcommand`: switches the builder's own help
/// subcommand off or on and leaves the rest.
#[verifier::external_body]
pub(crate) fn with_help_subcommand_disabled(c: clap::Command, yes: bool) -> (d: clap::Command)
    ensures
        command_spec(d) == (NodeSpec { help_subcommand: !yes, ..command_spec(c) }),
{
    c.disable_help_subcommand(yes)
}

/// `Command::arg`: adds the option or argument behind those that are there.
#[verifier::external_body]
pub(crate) fn with_arg(c: clap::Command, a: clap::Arg) -> (d: clap::Command)
    ensures
        command_spec(d) == (NodeSpec {
            args: command_spec(c).args.push(arg_spec(a)),
            ..command_spec(c)
        }),
{
    c.arg(a)
}

/// `Command::subcommand`: adds the subcommand behind those that are there.
#[verifier::external_body]
pub(crate) fn with_subcommand(c: clap::Command, sub: clap::Command) -> (d: clap::Command)
    ensures
        command_spec(d) == (NodeSpec {
            subcommands: command_spec(c).subcommands.push(command_spec(sub)),
            ..command_spec(c)
        }),
{
    c.subcommand(sub)
}

/// `Command::get_name`: the name that the command was made with.
#[verifier::external_body]
pub(crate) fn name_of(c: &clap::Command) -> (name: String)
    ensures
        name@ == command_spec(*c).name,
{
    c.get_name().to_string()
}

/// `clap_complete::generate`, on a copy of the command: the script of the
/// shell for the tree under the program name, as bytes. The engine builds
/// the tree first and stops the program where a naming rule is broken; the
/// bash script looks subcommands up by the program name and their names.
#[verifier::external_body]
pub(crate) fn generate_script(shell: Shell, c: &clap::Command, program: &str) -> (script: Vec<u8>)
    requires
        engine_accepts(command_spec(*c), program@),
    ensures
        script@ == completion_script(shell, command_spec(*c), program@),
{
    let engine = match shell {
        Shell::Bash => clap_complete::Shell::Bash,
        Shell::Zsh => clap_complete::Shell::Zsh,
        Shell::Fish => clap_complete::Shell::Fish,
        Shell::PowerShell => clap_complete::Shell::PowerShell,
        Shell::Elvish => clap_complete::Shell::Elvish,
    };
    let mut script: Vec<u8> = Vec::new();
    clap_complete::generate(engine, &mut c.clone(), program, &mut script);
    script
}

} // verus!
