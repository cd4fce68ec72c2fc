use completion_table::conflict::DefinitionError;
use completion_table::definition::{ArgumentDef, CliDef, CommandDef, OptionDef};
use completion_table::generate::{generate_completions, render_source};
use completion_table::shell::Shell;
use completion_table::table::{CompletionTable, TableEntry};

fn strings(items: &[&str]) -> Vec<String> {
    items.iter().map(|s| s.to_string()).collect()
}

fn float_parser() -> clap::builder::ValueParser {
    clap::builder::ValueParser::new(|s: &str| s.parse::<f64>())
}

fn option(name: &str) -> OptionDef {
    OptionDef {
        name: name.to_string(),
        short_names: Vec::new(),
        long_names: Vec::new(),
        description: format!("the {} option", name),
        value_type: None,
        possible_values: Vec::new(),
        required: false,
        global: false,
    }
}

fn argument(name: &str) -> ArgumentDef {
    ArgumentDef {
        name: name.to_string(),
        description: format!("the {} argument", name),
        value_type: None,
        possible_values: Vec::new(),
        required: false,
        global: false,
    }
}

fn command(name: &str) -> CommandDef {
    CommandDef {
        name: name.to_string(),
        description: format!("about {}", name),
        options: Vec::new(),
        subcommands: Vec::new(),
        arguments: Vec::new(),
    }
}

fn scenario() -> CommandDef {
    let mut verbose = option("verbose");
    verbose.short_names = vec!['v'];
    verbose.global = true;
    let mut file = argument("file");
    file.value_type = Some("path".to_string());
    file.required = true;
    let mut format = option("format");
    format.possible_values = strings(&["json", "text"]);
    let mut list = command("list");
    list.options = vec![format];
    let mut tool = command("tool");
    tool.options = vec![verbose];
    tool.arguments = vec![file];
    tool.subcommands = vec![list];
    tool
}

fn rich() -> CommandDef {
    let mut root = scenario();
    let mut level = option("level");
    level.value_type = Some("integer".to_string());
    level.long_names = strings(&["lvl"]);
    let mut ratio = option("ratio");
    ratio.value_type = Some("float".to_string());
    let mut force = option("force");
    force.value_type = Some("boolean".to_string());
    force.description = "it's 'quoted'\nand long".to_string();
    let mut target = argument("target");
    target.value_type = Some("dir".to_string());
    let mut deep = command("deep-er");
    deep.options = vec![level, ratio];
    deep.arguments = vec![target];
    let mut show = command("show");
    show.options = vec![force];
    show.subcommands = vec![deep];
    root.subcommands.push(show);
    root
}

fn leak(s: &str) -> &'static str {
    Box::leak(s.to_string().into_boxed_str())
}

fn direct_parser(values: &[String], tag: &Option<String>) -> clap::builder::ValueParser {
    if !values.is_empty() {
        return values.iter().map(|s| leak(s)).collect::<Vec<_>>().into();
    }
    match tag.as_deref() {
        Some("file") | Some("dir") | Some("path") => clap::builder::ValueParser::path_buf(),
        Some("boolean") => clap::builder::ValueParser::bool(),
        Some("integer") => clap::builder::RangedI64ValueParser::<i64>::new().into(),
        Some("float") => float_parser(),
        _ => clap::builder::NonEmptyStringValueParser::new().into(),
    }
}

fn direct_command(def: &CommandDef) -> clap::Command {
    let mut cmd = clap::Command::new(leak(&def.name))
        .about(leak(&def.description))
        .disable_help_flag(true)
        .disable_version_flag(true)
        .disable_help_subcommand(true);
    for option in &def.options {
        cmd = cmd.arg(
            clap::Arg::new(leak(&option.name))
                .long(leak(&option.name))
                .short_aliases(option.short_names.iter().cloned())
                .aliases(option.long_names.iter().map(|s| leak(s)))
                .required(option.required)
                .global(option.global)
                .value_parser(direct_parser(&option.possible_values, &option.value_type))
                .help(leak(&option.description)),
        );
    }
    for arg in &def.arguments {
        cmd = cmd.arg(
            clap::Arg::new(leak(&arg.name))
                .value_parser(direct_parser(&arg.possible_values, &arg.value_type))
                .required(arg.required)
                .global(arg.global)
                .help(leak(&arg.description)),
        );
    }
    for sub in &def.subcommands {
        cmd = cmd.subcommand(direct_command(sub));
    }
    cmd
}

fn engine_shells() -> [clap_complete::Shell; 5] {
    [
        clap_complete::Shell::Bash,
        clap_complete::Shell::Zsh,
        clap_complete::Shell::Fish,
        clap_complete::Shell::PowerShell,
        clap_complete::Shell::Elvish,
    ]
}

fn direct_scripts(def: &CommandDef) -> Vec<(String, Vec<u8>)> {
    let command = direct_command(def);
    let name = command.get_name().to_string();
    engine_shells()
        .into_iter()
        .map(|shell| {
            let mut buf: Vec<u8> = Vec::new();
            clap_complete::generate(shell, &mut command.clone(), name.clone(), &mut buf);
            (shell.to_string(), buf)
        })
        .collect()
}

fn expected_source(scripts: &[(String, Vec<u8>)]) -> Vec<u8> {
    let mut out = String::new();
    out.push_str("#include <string>\n");
    out.push_str("#include <vector>\n");
    out.push_str("#include <cstdint>\n");
    out.push_str("#include <map>\n");
    out.push('\n');
    out.push_str("#define SHELLS \"bash\",\"zsh\",\"fish\",\"powershell\",\"elvish\"\n");
    out.push_str("const std::map<std::string, std::vector<std::uint8_t>> shell_complete = {\n");
    for (name, script) in scripts {
        out.push_str(&format!("{{ \"{}\", {{\n", name));
        for (i, byte) in script.iter().enumerate() {
            if i % 12 == 0 {
                out.push_str("    ");
            }
            out.push_str(&format!("0x{:02X}, ", byte));
            if i % 12 == 11 || i == script.len() - 1 {
                out.push('\n');
            }
        }
        out.push_str("}},\n");
    }
    out.push_str("};\n");
    out.into_bytes()
}

fn hex_value(c: u8) -> Option<u8> {
    match c {
        b'0'..=b'9' => Some(c - b'0'),
        b'A'..=b'F' => Some(c - b'A' + 10),
        _ => None,
    }
}

fn read_back(text: &[u8]) -> Vec<u8> {
    let mut bytes = Vec::new();
    let mut i = 0;
    while i < text.len() {
        if i + 4 <= text.len() && text[i] == b'0' && text[i + 1] == b'x' {
            if let (Some(hi), Some(lo)) = (hex_value(text[i + 2]), hex_value(text[i + 3])) {
                bytes.push(16 * hi + lo);
                i += 4;
                continue;
            }
        }
        i += 1;
    }
    bytes
}

fn find(haystack: &[u8], needle: &[u8]) -> Option<usize> {
    haystack.windows(needle.len()).position(|w| w == needle)
}

/// The text between the opening line of the shell's entry and the line
/// that closes it.
fn entry_body<'a>(source: &'a [u8], shell: &str) -> &'a [u8] {
    let open = format!("{{ \"{}\", {{\n", shell).into_bytes();
    let start = find(source, &open).expect("the entry is there") + open.len();
    let len = find(&source[start..], b"}},\n").expect("the entry is closed");
    &source[start..start + len]
}

fn contains(haystack: &[u8], needle: &str) -> bool {
    find(haystack, needle.as_bytes()).is_some()
}

fn table(scripts: [&[u8]; 5]) -> CompletionTable {
    let entries = Shell::all()
        .into_iter()
        .zip(scripts)
        .map(|(shell, script)| TableEntry { shell, script: script.to_vec() })
        .collect();
    CompletionTable { entries }
}

#[test]
fn table_of_short_scripts_serializes_to_the_exact_text() {
    let text = table([b"_t", b"", b"0123456789ab", b"0123456789abc", &[0xFF]]).serialize();
    let expected = "#include <string>\n#include <vector>\n#include <cstdint>\n#include <map>\n\n\
#define SHELLS \"bash\",\"zsh\",\"fish\",\"powershell\",\"elvish\"\n\
const std::map<std::string, std::vector<std::uint8_t>> shell_complete = {\n\
{ \"bash\", {\n    0x5F, 0x74, \n}},\n\
{ \"zsh\", {\n}},\n\
{ \"fish\", {\n    0x30, 0x31, 0x32, 0x33, 0x34, 0x35, 0x36, 0x37, 0x38, 0x39, 0x61, 0x62, \n}},\n\
{ \"powershell\", {\n    0x30, 0x31, 0x32, 0x33, 0x34, 0x35, 0x36, 0x37, 0x38, 0x39, 0x61, 0x62, \n    0x63, \n}},\n\
{ \"elvish\", {\n    0xFF, \n}},\n\
};\n";
    assert_eq!(String::from_utf8(text).unwrap(), expected);
}

#[test]
fn table_without_entries_serializes_to_an_empty_mapping() {
    let text = CompletionTable { entries: Vec::new() }.serialize();
    assert_eq!(text, expected_source(&[]));
}

#[test]
fn entries_are_written_in_table_order() {
    let entries = vec![
        TableEntry { shell: Shell::Elvish, script: vec![1] },
        TableEntry { shell: Shell::Bash, script: vec![2] },
    ];
    let text = CompletionTable { entries }.serialize();
    let expected =
        expected_source(&[("elvish".to_string(), vec![1]), ("bash".to_string(), vec![2])]);
    assert_eq!(text, expected);
}

#[test]
fn scenario_table_has_five_non_empty_entries_in_order() {
    let table = generate_completions(&scenario(), &float_parser()).unwrap();
    let shells: Vec<Shell> = table.entries.iter().map(|e| e.shell).collect();
    assert_eq!(shells, Shell::all());
    for entry in &table.entries {
        assert!(!entry.script.is_empty(), "{:?}", entry.shell);
    }
}

#[test]
fn scenario_scripts_are_the_engine_scripts() {
    let table = generate_completions(&scenario(), &float_parser()).unwrap();
    let expected = direct_scripts(&scenario());
    for (entry, (name, script)) in table.entries.iter().zip(&expected) {
        assert_eq!(entry.shell.name(), name);
        assert_eq!(&entry.script, script, "{}", name);
    }
}

#[test]
fn scripts_are_generated_under_the_root_name() {
    let table = generate_completions(&scenario(), &float_parser()).unwrap();
    assert!(contains(&table.entries[0].script, "_tool() {"));
    assert!(contains(&table.entries[0].script, "complete -F _tool "));
    assert!(contains(&table.entries[1].script, "#compdef tool"));
    assert!(contains(&table.entries[2].script, "complete -c tool "));
    assert!(contains(&table.entries[3].script, "-CommandName 'tool'"));
    assert!(contains(&table.entries[4].script, "edit:completion:arg-completer[tool]"));
}

#[test]
fn scenario_source_reads_back_to_the_engine_scripts() {
    let source = render_source(&CliDef { command: scenario() }, &float_parser()).unwrap();
    for (name, script) in direct_scripts(&scenario()) {
        let decoded = read_back(entry_body(&source, &name));
        assert_eq!(decoded, script, "{}", name);
    }
}

#[test]
fn scenario_source_echoes_the_enumerated_values() {
    let source = render_source(&CliDef { command: scenario() }, &float_parser()).unwrap();
    for shell in ["bash", "zsh"] {
        let decoded = read_back(entry_body(&source, shell));
        assert!(contains(&decoded, "json"), "{}", shell);
        assert!(contains(&decoded, "text"), "{}", shell);
        assert!(contains(&decoded, "format"), "{}", shell);
        assert!(contains(&decoded, "list"), "{}", shell);
    }
}

#[test]
fn scenario_source_is_the_expected_file() {
    let source = render_source(&CliDef { command: scenario() }, &float_parser()).unwrap();
    assert_eq!(source, expected_source(&direct_scripts(&scenario())));
}

#[test]
fn rich_source_is_the_expected_file() {
    let source = render_source(&CliDef { command: rich() }, &float_parser()).unwrap();
    assert_eq!(source, expected_source(&direct_scripts(&rich())));
}

#[test]
fn source_serializes_the_generated_table() {
    let table = generate_completions(&rich(), &float_parser()).unwrap();
    let source = render_source(&CliDef { command: rich() }, &float_parser()).unwrap();
    assert_eq!(source, table.serialize());
}

#[test]
fn repeated_runs_give_identical_files() {
    let first = render_source(&CliDef { command: rich() }, &float_parser()).unwrap();
    let second = render_source(&CliDef { command: rich() }, &float_parser()).unwrap();
    assert_eq!(first, second);
}

#[test]
fn empty_tree_still_gives_five_well_formed_entries() {
    let def = command("solo");
    let table = generate_completions(&def, &float_parser()).unwrap();
    assert_eq!(table.entries.len(), 5);
    let shells: Vec<Shell> = table.entries.iter().map(|e| e.shell).collect();
    assert_eq!(shells, Shell::all());
    let source = render_source(&CliDef { command: def }, &float_parser()).unwrap();
    assert_eq!(source, expected_source(&direct_scripts(&command("solo"))));
    for (entry, shell) in table.entries.iter().zip(["bash", "zsh", "fish", "powershell", "elvish"]) {
        assert_eq!(read_back(entry_body(&source, shell)), entry.script);
    }
    assert!(contains(&table.entries[0].script, "_solo() {"));
}

#[test]
fn source_lists_the_shells_once_each() {
    let source = render_source(&CliDef { command: scenario() }, &float_parser()).unwrap();
    let text = String::from_utf8(source).unwrap();
    assert!(text.contains("#define SHELLS \"bash\",\"zsh\",\"fish\",\"powershell\",\"elvish\"\n"));
    for shell in ["bash", "zsh", "fish", "powershell", "elvish"] {
        assert_eq!(text.matches(&format!("{{ \"{}\", {{\n", shell)).count(), 1);
    }
    assert_eq!(text.matches("}},\n").count(), 5);
    assert!(text.ends_with("}},\n};\n"));
}

#[test]
fn broken_definition_gives_no_table_and_no_file() {
    let mut def = scenario();
    def.options.push(option("verbose"));
    assert_eq!(
        generate_completions(&def, &float_parser()).err(),
        Some(DefinitionError::DuplicateName)
    );
    assert_eq!(
        render_source(&CliDef { command: def }, &float_parser()).err(),
        Some(DefinitionError::DuplicateName)
    );
}
