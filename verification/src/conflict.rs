//! Which command trees the completion engine can take: the naming rules of
//! a tree, and the first rule that a tree breaks.

use vstd::prelude::*;
use crate::definition::{ArgumentSpec, CommandSpec, OptionSpec};

verus! {

/// Why a definition is turned down.
#[derive(Debug, Clone, Copy, PartialEq, Eq, Structural)]
pub enum DefinitionError {
    /// An option name begins with a hyphen, or a short alias is a hyphen.
    OptionName,
    /// An option or argument is both required and global.
    RequiredGlobal,
    /// Two options or arguments of one command share a name.
    DuplicateName,
    /// Two options that one command sees, its own or handed down from above,
    /// share a long name, a long alias or a short alias.
    DuplicateFlag,
    /// A required positional argument follows one that is not required.
    RequiredAfterOptional,
    /// A command name under which the scripts could not look the command
    /// or its subcommands up.
    CommandName,
    /// Two subcommands of one command share a name.
    DuplicateSubcommand,
}

impl DefinitionError {
    /// What the error says, in words.
    pub open spec fn text(self) -> Seq<char> {
        match self {
            DefinitionError::OptionName => "an option name begins with a hyphen, or a short name is a hyphen"@,
            DefinitionError::RequiredGlobal => "an option or argument is both required and global"@,
            DefinitionError::DuplicateName => "two options or arguments of one command share a name"@,
            DefinitionError::DuplicateFlag => "two options visible in one command share a long name, long alias or short alias"@,
            DefinitionError::RequiredAfterOptional => "a required positional argument follows one that is not required"@,
            DefinitionError::CommandName => "a command name cannot be looked up by the completion scripts"@,
            DefinitionError::DuplicateSubcommand => "two subcommands of one command share a name"@,
        }
    }

    /// What the error says, in words.
    pub fn message(self) -> (m: &'static str)
        ensures
            m@ == self.text(),
    {
        match self {
            DefinitionError::OptionName => "an option name begins with a hyphen, or a short name is a hyphen",
            DefinitionError::RequiredGlobal => "an option or argument is both required and global",
            DefinitionError::DuplicateName => "two options or arguments of one command share a name",
            DefinitionError::DuplicateFlag => "two options visible in one command share a long name, long alias or short alias",
            DefinitionError::RequiredAfterOptional => "a required positional argument follows one that is not required",
            DefinitionError::CommandName => "a command name cannot be looked up by the completion scripts",
            DefinitionError::DuplicateSubcommand => "two subcommands of one command share a name",
        }
    }
}

/// The names by which one option or argument is known, and the two
/// settings that the naming rules depend on.
pub struct FlagSpec {
    pub id: Seq<char>,
    /// The long name; a positional argument has none.
    pub long: Option<Seq<char>>,
    pub aliases: Seq<Seq<char>>,
    pub shorts: Seq<char>,
    pub required: bool,
    pub global: bool,
}

/// The names in a command tree.
pub struct ShapeSpec {
    pub name: Seq<char>,
    pub flags: Seq<FlagSpec>,
    pub children: Seq<ShapeSpec>,
}

/// The text that joins the names on the path to a subcommand.
pub open spec fn separator() -> Seq<char> {
    "__subcmd__"@
}

/// Whether `pattern` occurs in `text` as a run of neighbouring characters.
pub open spec fn occurs_in(pattern: Seq<char>, text: Seq<char>) -> bool {
    exists|i: int|
        0 <= i && i + pattern.len() <= text.len() && #[trigger] text.subrange(
            i,
            i + pattern.len(),
        ) == pattern
}

/// Whether `text` ends with `suffix`.
pub open spec fn ends_with(text: Seq<char>, suffix: Seq<char>) -> bool {
    text.len() >= suffix.len() && text.subrange(text.len() - suffix.len(), text.len() as int)
        == suffix
}

/// Whether a name, with the separator behind it, holds the separator
/// earlier than there: it ends with all of the separator but its last
/// character or its last two.
pub open spec fn runs_into_separator(name: Seq<char>) -> bool {
    ends_with(name, "__subcmd"@) || ends_with(name, "__subcmd_"@)
}

/// Whether a subcommand of this name could not be looked up: a name with a
/// space or the separator in it or, where the subcommand has subcommands
/// of its own, one that runs into the separator.
pub open spec fn bad_subcommand_name(name: Seq<char>, has_subcommands: bool) -> bool {
    name.contains(' ') || occurs_in(separator(), name) || (has_subcommands
        && runs_into_separator(name))
}

/// Whether a program of this name could not be looked up: a name with the
/// separator in it or, where the program has subcommands, an empty name,
/// one with a space in it or one that runs into the separator.
pub open spec fn bad_program_name(name: Seq<char>, has_subcommands: bool) -> bool {
    occurs_in(separator(), name) || (has_subcommands && (name.len() == 0 || name.contains(' ')
        || runs_into_separator(name)))
}

/// Whether the long name begins with a hyphen or a short alias is one.
pub open spec fn bad_flag_name(f: FlagSpec) -> bool {
    (f.long matches Some(l) && l.len() > 0 && l[0] == '-') || f.shorts.contains('-')
}

/// The long name and the long aliases.
pub open spec fn long_flags(f: FlagSpec) -> Seq<Seq<char>> {
    match f.long {
        Some(l) => seq![l] + f.aliases,
        None => f.aliases,
    }
}

/// Whether the two have a long name or long alias in common.
pub open spec fn shares_long(a: FlagSpec, b: FlagSpec) -> bool {
    exists|i: int|
        0 <= i < long_flags(a).len() && long_flags(b).contains(#[trigger] long_flags(a)[i])
}

/// Whether the two have a short alias in common.
pub open spec fn shares_short(a: FlagSpec, b: FlagSpec) -> bool {
    exists|i: int| 0 <= i < a.shorts.len() && b.shorts.contains(#[trigger] a.shorts[i])
}

/// Whether the two have a long name, long alias or short alias in common.
pub open spec fn shares_flag(a: FlagSpec, b: FlagSpec) -> bool {
    shares_long(a, b) || shares_short(a, b)
}

/// Whether one of `flags` goes by the name `id`.
pub open spec fn has_id(flags: Seq<FlagSpec>, id: Seq<char>) -> bool {
    exists|i: int| 0 <= i < flags.len() && #[trigger] flags[i].id == id
}

/// Of what is handed down to a command, the part that it sees: those
/// whose name it does not use itself.
pub open spec fn visible(inherited: Seq<FlagSpec>, own: Seq<FlagSpec>) -> Seq<FlagSpec> {
    inherited.filter(|g: FlagSpec| !has_id(own, g.id))
}

/// The global ones among `flags`.
pub open spec fn globals(flags: Seq<FlagSpec>) -> Seq<FlagSpec> {
    flags.filter(|f: FlagSpec| f.global)
}

/// What a command sees: its own options and arguments, then those handed
/// down from above whose name it does not use itself.
pub open spec fn effective(own: Seq<FlagSpec>, inherited: Seq<FlagSpec>) -> Seq<FlagSpec> {
    own + visible(inherited, own)
}

/// What a command hands down to its subcommands: the global ones of what it
/// sees.
pub open spec fn handed_down(own: Seq<FlagSpec>, inherited: Seq<FlagSpec>) -> Seq<FlagSpec> {
    globals(effective(own, inherited))
}

pub open spec fn some_bad_flag_name(flags: Seq<FlagSpec>) -> bool {
    exists|i: int| 0 <= i < flags.len() && bad_flag_name(#[trigger] flags[i])
}

pub open spec fn some_required_global(flags: Seq<FlagSpec>) -> bool {
    exists|i: int| 0 <= i < flags.len() && (#[trigger] flags[i]).required && flags[i].global
}

pub open spec fn some_duplicate_id(flags: Seq<FlagSpec>) -> bool {
    exists|i: int, j: int|
        0 <= i < j < flags.len() && (#[trigger] flags[i]).id == (#[trigger] flags[j]).id
}

pub open spec fn some_shared_flag(flags: Seq<FlagSpec>) -> bool {
    exists|i: int, j: int|
        0 <= i < j < flags.len() && shares_flag(#[trigger] flags[i], #[trigger] flags[j])
}

pub open spec fn some_required_after_optional(flags: Seq<FlagSpec>) -> bool {
    exists|i: int, j: int|
        0 <= i < j < flags.len() && (#[trigger] flags[i]).long is None && (
        #[trigger] flags[j]).long is None && !flags[i].required && flags[j].required
}

pub open spec fn some_bad_subcommand_name(children: Seq<ShapeSpec>) -> bool {
    exists|k: int|
        0 <= k < children.len() && bad_subcommand_name(
            (#[trigger] children[k]).name,
            children[k].children.len() > 0,
        )
}

pub open spec fn some_duplicate_subcommand(children: Seq<ShapeSpec>) -> bool {
    exists|i: int, j: int|
        0 <= i < j < children.len() && (#[trigger] children[i]).name == (
        #[trigger] children[j]).name
}

/// The first rule that the command itself breaks, given what is handed down
/// to it.
pub open spec fn node_fault(shape: ShapeSpec, inherited: Seq<FlagSpec>) -> Option<
    DefinitionError,
> {
    if some_bad_flag_name(shape.flags) {
        Some(DefinitionError::OptionName)
    } else if some_required_global(shape.flags) {
        Some(DefinitionError::RequiredGlobal)
    } else if some_duplicate_id(shape.flags) {
        Some(DefinitionError::DuplicateName)
    } else if some_shared_flag(effective(shape.flags, inherited)) {
        Some(DefinitionError::DuplicateFlag)
    } else if some_required_after_optional(shape.flags) {
        Some(DefinitionError::RequiredAfterOptional)
    } else if some_bad_subcommand_name(shape.children) {
        Some(DefinitionError::CommandName)
    } else if some_duplicate_subcommand(shape.children) {
        Some(DefinitionError::DuplicateSubcommand)
    } else {
        None
    }
}

/// The first rule broken in the tree, the command before its subcommands
/// and these in order.
pub open spec fn tree_fault(shape: ShapeSpec, inherited: Seq<FlagSpec>) -> Option<
    DefinitionError,
>
    decreases shape, 1nat, 0nat,
{
    match node_fault(shape, inherited) {
        Some(e) => Some(e),
        None => children_fault(shape, handed_down(shape.flags, inherited), 0),
    }
}

/// The first rule broken in the subcommands from position `k` on.
pub open spec fn children_fault(shape: ShapeSpec, down: Seq<FlagSpec>, k: nat) -> Option<
    DefinitionError,
>
    decreases shape, 0nat, shape.children.len() - k,
{
    if k >= shape.children.len() {
        None
    } else {
        match tree_fault(shape.children[k as int], down) {
            Some(e) => Some(e),
            None => children_fault(shape, down, k + 1),
        }
    }
}

/// The first rule that a tree breaks when completions are generated for it
/// under the program name `program`; `None` where it breaks none.
pub open spec fn fault(shape: ShapeSpec, program: Seq<char>) -> Option<DefinitionError> {
    if bad_program_name(program, shape.children.len() > 0) {
        Some(DefinitionError::CommandName)
    } else {
        tree_fault(shape, Seq::empty())
    }
}

/// The names by which an option of a definition is known: its name is
/// identifier and long name, its short and long names are aliases.
pub open spec fn option_flags(o: OptionSpec) -> FlagSpec {
    FlagSpec {
        id: o.name,
        long: Some(o.name),
        aliases: o.long_names,
        shorts: o.short_names,
        required: o.required,
        global: o.global,
    }
}

/// The name by which a positional argument of a definition is known.
pub open spec fn argument_flags(a: ArgumentSpec) -> FlagSpec {
    FlagSpec {
        id: a.name,
        long: None,
        aliases: Seq::empty(),
        shorts: Seq::empty(),
        required: a.required,
        global: a.global,
    }
}

/// The names of a command's options, then of its positional arguments.
pub open spec fn definition_flags(def: CommandSpec) -> Seq<FlagSpec> {
    Seq::new(def.options.len(), |i: int| option_flags(def.options[i])) + Seq::new(
        def.arguments.len(),
        |i: int| argument_flags(def.arguments[i]),
    )
}

/// The names in a command definition.
pub open spec fn shape_of_def(def: CommandSpec) -> ShapeSpec
    decreases def,
{
    ShapeSpec {
        name: def.name,
        flags: definition_flags(def),
        children: Seq::new(
            def.subcommands.len(),
            |i: int|
                if 0 <= i < def.subcommands.len() {
                    shape_of_def(def.subcommands[i])
                } else {
                    arbitrary()
                },
        ),
    }
}

/// The names in a command definition, field by field.
pub proof fn shape_of_def_fields(def: CommandSpec)
    ensures
        shape_of_def(def).name == def.name,
        shape_of_def(def).flags == definition_flags(def),
        shape_of_def(def).children.len() == def.subcommands.len(),
        forall|i: int|
            0 <= i < def.subcommands.len() ==> #[trigger] shape_of_def(def).children[i]
                == shape_of_def(def.subcommands[i]),
{
    reveal_with_fuel(shape_of_def, 2);
}

/// The first rule that a definition breaks when completions are generated
/// for it under the name of its root command; `None` where it breaks none.
pub open spec fn definition_fault(def: CommandSpec) -> Option<DefinitionError> {
    fault(shape_of_def(def), def.name)
}

/// The result of checking a definition: the first rule it breaks as the
/// error, success where it breaks none.
pub open spec fn verdict(def: CommandSpec) -> Result<(), DefinitionError> {
    match definition_fault(def) {
        Some(e) => Err(e),
        None => Ok(()),
    }
}

/// Where no rule is broken from position `k` on, none is broken in any
/// subcommand from there on.
pub proof fn children_without_fault(shape: ShapeSpec, down: Seq<FlagSpec>, k: nat, i: int)
    requires
        children_fault(shape, down, k) is None,
        k <= i < shape.children.len(),
    ensures
        tree_fault(shape.children[i], down) is None,
    decreases shape.children.len() - k,
{
    if k < i {
        children_without_fault(shape, down, k + 1, i);
    }
}

/// Whether a short alias of one of `flags` is a hyphen.
pub open spec fn some_hyphen_short(flags: Seq<FlagSpec>) -> bool {
    exists|i: int| 0 <= i < flags.len() && (#[trigger] flags[i]).shorts.contains('-')
}

/// The first reason for which no tree is built for the command itself: a
/// hyphen as short alias, which the builder refuses, or two options or
/// arguments of one name.
pub open spec fn node_refusal(shape: ShapeSpec) -> Option<DefinitionError> {
    if some_hyphen_short(shape.flags) {
        Some(DefinitionError::OptionName)
    } else if some_duplicate_id(shape.flags) {
        Some(DefinitionError::DuplicateName)
    } else {
        None
    }
}

/// The first reason for which no tree is built, the command before its
/// subcommands and these in order.
pub open spec fn tree_refusal(shape: ShapeSpec) -> Option<DefinitionError>
    decreases shape, 1nat, 0nat,
{
    match node_refusal(shape) {
        Some(e) => Some(e),
        None => children_refusal(shape, 0),
    }
}

/// The first reason for which no tree is built for the subcommands from
/// position `k` on.
pub open spec fn children_refusal(shape: ShapeSpec, k: nat) -> Option<DefinitionError>
    decreases shape, 0nat, shape.children.len() - k,
{
    if k >= shape.children.len() {
        None
    } else {
        match tree_refusal(shape.children[k as int]) {
            Some(e) => Some(e),
            None => children_refusal(shape, k + 1),
        }
    }
}

/// The result of asking for the tree of a definition: success unless a
/// short name is a hyphen or two options or arguments of one command share
/// a name; then the first such reason, as the error.
pub open spec fn build_verdict(def: CommandSpec) -> Result<(), DefinitionError> {
    match tree_refusal(shape_of_def(def)) {
        Some(e) => Err(e),
        None => Ok(()),
    }
}

/// Where a tree is built for the subcommands from position `k` on, one is
/// built for each of them.
pub proof fn children_without_refusal(shape: ShapeSpec, k: nat, i: int)
    requires
        children_refusal(shape, k) is None,
        k <= i < shape.children.len(),
    ensures
        tree_refusal(shape.children[i]) is None,
    decreases shape.children.len() - k,
{
    if k < i {
        children_without_refusal(shape, k + 1, i);
    }
}

/// Where a tree is built for each subcommand from position `k` on, one is
/// built for all of them.
pub proof fn children_all_built(shape: ShapeSpec, k: nat)
    requires
        forall|i: int| k <= i < shape.children.len() ==> tree_refusal(
            #[trigger] shape.children[i],
        ) is None,
    ensures
        children_refusal(shape, k) is None,
    decreases shape.children.len() - k,
{
    if k < shape.children.len() {
        children_all_built(shape, k + 1);
    }
}

/// A tree that breaks no naming rule of the engine is one that is built.
pub proof fn faultless_is_built(shape: ShapeSpec, inherited: Seq<FlagSpec>)
    requires
        tree_fault(shape, inherited) is None,
    ensures
        tree_refusal(shape) is None,
    decreases shape,
{
    let down = handed_down(shape.flags, inherited);
    assert(!some_hyphen_short(shape.flags)) by {
        if some_hyphen_short(shape.flags) {
            let i = choose|i: int|
                0 <= i < shape.flags.len() && (#[trigger] shape.flags[i]).shorts.contains('-');
            assert(bad_flag_name(shape.flags[i]));
        }
    }
    assert forall|i: int| 0 <= i < shape.children.len() implies tree_refusal(
        #[trigger] shape.children[i],
    ) is None by {
        children_without_fault(shape, down, 0, i);
        faultless_is_built(shape.children[i], down);
    }
    children_all_built(shape, 0);
}

/// The engine's rules hold the builder's: for every definition that is
/// accepted for the generation of scripts, the tree is built.
pub proof fn accepted_definitions_are_built(def: CommandSpec)
    requires
        verdict(def) is Ok,
    ensures
        build_verdict(def) is Ok,
{
    faultless_is_built(shape_of_def(def), Seq::empty());
}

} // verus!
