//! From a command definition to the table of completion scripts and to the
//! file that holds it.

use vstd::prelude::*;
use crate::conflict::{faultless_is_built, shape_of_def, verdict, DefinitionError};
use crate::definition::{CliDef, CommandDef, CommandSpec};
use crate::encode::{
    decode_encoded_prefix, decode_literals, decode_passes_over_text, encode_bytes,
};
use crate::engine::{
    command_spec, completion_script, engine_accepts, generate_script, name_of, parser_spec,
    NodeSpec,
};
use crate::shell::{all_shells, label_is_plain, shell_at, Shell, SHELL_COUNT};
use crate::strategy::StrategySpec;
use crate::table::{
    ascii, entry_close, entry_offset, entry_open, entry_text, file_holds_each_entry, is_complete,
    source_text, CompletionTable, TableEntry,
};
use crate::tree::{
    build_command, built_is_hyphen_free, command_tree, command_tree_fields, tree_keeps_names,
};
use crate::validate::check_definition;

verus! {

/// The table for a command tree and a program name: for each supported
/// shell, in emission order, the script that the engine writes for it.
pub open spec fn scripts_for(tree: NodeSpec, program: Seq<char>) -> Seq<(Shell, Seq<u8>)> {
    Seq::new(
        SHELL_COUNT as nat,
        |i: int| (shell_at(i), completion_script(shell_at(i), tree, program)),
    )
}

/// The table for a definition: the scripts for its tree under the name of
/// its root command.
pub open spec fn table_for(def: CommandSpec, float: StrategySpec) -> Seq<(Shell, Seq<u8>)> {
    scripts_for(command_tree(def, float), def.name)
}

/// Asks the engine for the script of every shell, in emission order, under
/// the name of the root command.
fn generate_all(cmd: &clap::Command) -> (table: CompletionTable)
    requires
        engine_accepts(command_spec(*cmd), command_spec(*cmd).name),
    ensures
        table@ == scripts_for(command_spec(*cmd), command_spec(*cmd).name),
{
    let ghost tree = command_spec(*cmd);
    let program = name_of(cmd);
    let shells = Shell::all();
    let mut entries: Vec<TableEntry> = Vec::new();
    let mut i: usize = 0;
    while i < shells.len()
        invariant
            i <= shells.len(),
            shells@ == all_shells(),
            tree == command_spec(*cmd),
            program@ == tree.name,
            engine_accepts(tree, tree.name),
            entries@.len() == i,
            forall|k: int|
                0 <= k < i ==> (#[trigger] entries@[k])@ == (
                    shell_at(k),
                    completion_script(shell_at(k), tree, tree.name),
                ),
        decreases shells.len() - i,
    {
        let shell = shells[i];
        let script = generate_script(shell, cmd, program.as_str());
        entries.push(TableEntry { shell, script });
        i += 1;
    }
    let table = CompletionTable { entries };
    assert(table@ =~= scripts_for(tree, tree.name));
    table
}

/// Generates the completion scripts for a definition, one per supported
/// shell and in emission order, each under the name of the root command.
/// The definition is checked against the naming rules of the engine before
/// the tree is built and the engine is asked: one that breaks a rule is
/// turned down with the first rule it breaks, and no script is generated. `float_parser` is the builder's
/// parser for double-precision numbers.
pub fn generate_completions(def: &CommandDef, float_parser: &clap::builder::ValueParser) -> (made:
    Result<CompletionTable, DefinitionError>)
    ensures
        match made {
            Ok(table) => verdict(def@) is Ok && is_complete(table@) && table@ == table_for(
                def@,
                parser_spec(*float_parser),
            ),
            Err(e) => verdict(def@) == Err::<(), DefinitionError>(e),
        },
{
    match check_definition(def) {
        Err(e) => Err(e),
        Ok(()) => {
            proof {
                let float = parser_spec(*float_parser);
                faultless_is_built(shape_of_def(def@), Seq::empty());
                built_is_hyphen_free(def@);
                tree_keeps_names(def@, float);
                command_tree_fields(def@, float);
            }
            let cmd = build_command(def, float_parser);
            Ok(generate_all(&cmd))
        },
    }
}

/// The source file for a command-line definition: the completion scripts of
/// every supported shell as a table of byte literals. A definition that
/// breaks a naming rule is turned down and nothing is produced.
/// `float_parser` is the builder's parser for double-precision numbers.
pub fn render_source(cli: &CliDef, float_parser: &clap::builder::ValueParser) -> (made: Result<
    Vec<u8>,
    DefinitionError,
>)
    ensures
        match made {
            Ok(text) => verdict(cli@) is Ok && text@ == source_text(
                table_for(cli@, parser_spec(*float_parser)),
            ),
            Err(e) => verdict(cli@) == Err::<(), DefinitionError>(e),
        },
{
    match generate_completions(&cli.command, float_parser) {
        Err(e) => Err(e),
        Ok(table) => Ok(table.serialize()),
    }
}

/// The output is determined by the definition and by what the supplied
/// parser stands for: equal inputs give the same file, byte for byte.
pub proof fn equal_definitions_equal_files(
    a: CommandSpec,
    b: CommandSpec,
    float_a: StrategySpec,
    float_b: StrategySpec,
)
    requires
        a == b,
        float_a == float_b,
    ensures
        source_text(table_for(a, float_a)) == source_text(table_for(b, float_b)),
{
}

/// The table for a definition holds exactly one entry per supported shell:
/// five entries, the entry at each position keyed by the shell of that
/// position, so that each shell is the key of one entry and no other.
pub proof fn table_holds_each_shell_once(def: CommandSpec, float: StrategySpec)
    ensures
        is_complete(table_for(def, float)),
        table_for(def, float).len() == 5,
        forall|s: Shell| (#[trigger] table_for(def, float)[s.position()]).0 == s,
        forall|s: Shell, i: int|
            0 <= i < 5 && (#[trigger] table_for(def, float)[i]).0 == s ==> i
                == #[trigger] s.position(),
{
}

/// Reading back the byte literals of an entry gives the script of the
/// entry again, byte for byte.
pub proof fn entry_decodes_to_script(shell: Shell, script: Seq<u8>)
    ensures
        decode_literals(entry_text(shell, script)) == script,
{
    reveal_strlit("{ \"");
    reveal_strlit("\", {\n");
    reveal_strlit("}},\n");
    label_is_plain(shell);
    let open = entry_open(shell);
    let close = entry_close();
    assert forall|i: int| 0 <= i < open.len() implies open[i] != 48u8 by {
        let a = ascii("{ \""@);
        let b = ascii(shell.label());
        let c = ascii("\", {\n"@);
        if i < a.len() {
            assert(open[i] == a[i]);
        } else if i < a.len() + b.len() {
            assert(open[i] == b[i - a.len()]);
        } else {
            assert(open[i] == c[i - a.len() - b.len()]);
        }
    }
    assert forall|i: int| 0 <= i < close.len() implies close[i] != 48u8 by {}
    assert(entry_text(shell, script) =~= open + (encode_bytes(script) + close));
    decode_passes_over_text(open, encode_bytes(script) + close);
    decode_encoded_prefix(script, script.len(), close);
    assert(script.take(script.len() as int) =~= script);
    decode_passes_over_text(close, Seq::empty());
    assert(close + Seq::<u8>::empty() =~= close);
    assert(decode_literals(Seq::<u8>::empty()) =~= Seq::<u8>::empty());
    assert(script + Seq::<u8>::empty() =~= script);
}

/// For every supported shell, the file for a definition holds the entry of
/// that shell, and reading back the byte literals of the entry gives the
/// script that the engine wrote for that shell, the tree of the definition
/// and the name of its root command, byte for byte.
pub proof fn file_decodes_to_engine_scripts(def: CommandSpec, float: StrategySpec, shell: Shell)
    ensures
        ({
            let table = table_for(def, float);
            let file = source_text(table);
            let start = entry_offset(table, shell.position() as nat);
            let entry = entry_text(shell, completion_script(shell, command_tree(def, float), def.name));
            &&& start + entry.len() <= file.len()
            &&& file.subrange(start, start + entry.len()) == entry
            &&& decode_literals(entry) == completion_script(
                shell,
                command_tree(def, float),
                def.name,
            )
        }),
{
    let table = table_for(def, float);
    let i = shell.position();
    assert(table[i] == (shell, completion_script(shell, command_tree(def, float), def.name)));
    file_holds_each_entry(table, i as nat);
    entry_decodes_to_script(shell, table[i].1);
}

} // verus!
