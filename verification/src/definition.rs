//! The declarative description of a command line: a tree of commands with
//! their options and positional arguments.

use vstd::prelude::*;

verus! {

/// A positional argument of a command.
#[derive(Debug, Clone)]
pub struct ArgumentDef {
    pub name: String,
    pub description: String,
    pub value_type: Option<String>,
    pub possible_values: Vec<String>,
    pub required: bool,
    pub global: bool,
}

/// A named option of a command, with its hidden short and long aliases.
#[derive(Debug, Clone)]
pub struct OptionDef {
    pub name: String,
    pub short_names: Vec<char>,
    pub long_names: Vec<String>,
    pub description: String,
    pub value_type: Option<String>,
    pub possible_values: Vec<String>,
    pub required: bool,
    pub global: bool,
}

/// A command with its options, positional arguments and subcommands, each
/// list in declaration order.
#[derive(Debug)]
pub struct CommandDef {
    pub name: String,
    pub description: String,
    pub options: Vec<OptionDef>,
    pub subcommands: Vec<CommandDef>,
    pub arguments: Vec<ArgumentDef>,
}

/// The whole document: one root command.
#[derive(Debug)]
pub struct CliDef {
    pub command: CommandDef,
}

/// Mathematical value of an [`ArgumentDef`].
pub struct ArgumentSpec {
    pub name: Seq<char>,
    pub description: Seq<char>,
    pub value_type: Option<Seq<char>>,
    pub possible_values: Seq<Seq<char>>,
    pub required: bool,
    pub global: bool,
}

/// Mathematical value of an [`OptionDef`].
pub struct OptionSpec {
    pub name: Seq<char>,
    pub short_names: Seq<char>,
    pub long_names: Seq<Seq<char>>,
    pub description: Seq<char>,
    pub value_type: Option<Seq<char>>,
    pub possible_values: Seq<Seq<char>>,
    pub required: bool,
    pub global: bool,
}

/// Mathematical value of a [`CommandDef`].
pub struct CommandSpec {
    pub name: Seq<char>,
    pub description: Seq<char>,
    pub options: Seq<OptionSpec>,
    pub subcommands: Seq<CommandSpec>,
    pub arguments: Seq<ArgumentSpec>,
}

/// The characters of an optional string.
pub open spec fn opt_chars(s: Option<String>) -> Option<Seq<char>> {
    match s {
        Some(t) => Some(t@),
        None => None,
    }
}

impl View for ArgumentDef {
    type V = ArgumentSpec;

    open spec fn view(&self) -> ArgumentSpec {
        ArgumentSpec {
            name: self.name@,
            description: self.description@,
            value_type: opt_chars(self.value_type),
            possible_values: self.possible_values.deep_view(),
            required: self.required,
            global: self.global,
        }
    }
}

impl View for OptionDef {
    type V = OptionSpec;

    open spec fn view(&self) -> OptionSpec {
        OptionSpec {
            name: self.name@,
            short_names: self.short_names@,
            long_names: self.long_names.deep_view(),
            description: self.description@,
            value_type: opt_chars(self.value_type),
            possible_values: self.possible_values.deep_view(),
            required: self.required,
            global: self.global,
        }
    }
}

impl View for CommandDef {
    type V = CommandSpec;

    open spec fn view(&self) -> CommandSpec
        decreases self,
    {
        CommandSpec {
            name: self.name@,
            description: self.description@,
            options: Seq::new(self.options@.len(), |i: int| self.options@[i]@),
            subcommands: Seq::new(
                self.subcommands@.len(),
                |i: int|
                    if 0 <= i < self.subcommands@.len() {
                        self.subcommands@[i].view()
                    } else {
                        arbitrary()
                    },
            ),
            arguments: Seq::new(self.arguments@.len(), |i: int| self.arguments@[i]@),
        }
    }
}

impl View for CliDef {
    type V = CommandSpec;

    open spec fn view(&self) -> CommandSpec {
        self.command@
    }
}

/// The value of a command definition, field by field.
pub proof fn command_view_fields(def: &CommandDef)
    ensures
        def@.name == def.name@,
        def@.description == def.description@,
        def@.options.len() == def.options@.len(),
        def@.arguments.len() == def.arguments@.len(),
        def@.subcommands.len() == def.subcommands@.len(),
        forall|i: int| 0 <= i < def.options@.len() ==> #[trigger] def@.options[i] == def.options@[i]@,
        forall|i: int|
            0 <= i < def.arguments@.len() ==> #[trigger] def@.arguments[i] == def.arguments@[i]@,
        forall|i: int|
            0 <= i < def.subcommands@.len() ==> #[trigger] def@.subcommands[i]
                == def.subcommands@[i]@,
{
    reveal_with_fuel(<CommandDef as View>::view, 2);
}

} // verus!
