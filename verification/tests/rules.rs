use completion_table::conflict::DefinitionError;
use completion_table::definition::{ArgumentDef, CommandDef, OptionDef};
use completion_table::generate::generate_completions;
use completion_table::validate::{check_buildable, check_definition};

fn strings(items: &[&str]) -> Vec<String> {
    items.iter().map(|s| s.to_string()).collect()
}

fn float_parser() -> clap::builder::ValueParser {
    clap::builder::ValueParser::new(|s: &str| s.parse::<f64>())
}

fn option(name: &str) -> OptionDef {
    OptionDef {
        name: name.to_string(),
        short_names: Vec::new(),
        long_names: Vec::new(),
        description: String::new(),
        value_type: None,
        possible_values: Vec::new(),
        required: false,
        global: false,
    }
}

fn aliased(name: &str, shorts: &[char], longs: &[&str]) -> OptionDef {
    let mut opt = option(name);
    opt.short_names = shorts.to_vec();
    opt.long_names = strings(longs);
    opt
}

fn global(mut opt: OptionDef) -> OptionDef {
    opt.global = true;
    opt
}

fn argument(name: &str, required: bool) -> ArgumentDef {
    ArgumentDef {
        name: name.to_string(),
        description: String::new(),
        value_type: None,
        possible_values: Vec::new(),
        required,
        global: false,
    }
}

fn command(name: &str) -> CommandDef {
    CommandDef {
        name: name.to_string(),
        description: String::new(),
        options: Vec::new(),
        subcommands: Vec::new(),
        arguments: Vec::new(),
    }
}

fn with_options(name: &str, options: Vec<OptionDef>) -> CommandDef {
    let mut cmd = command(name);
    cmd.options = options;
    cmd
}

fn with_children(mut cmd: CommandDef, children: Vec<CommandDef>) -> CommandDef {
    cmd.subcommands = children;
    cmd
}

/// Checks the definition and, where it is accepted, lets the engine run on
/// it for every shell.
fn accepted(def: &CommandDef) -> bool {
    match check_definition(def) {
        Ok(()) => {
            assert_eq!(check_buildable(def), Ok(()));
            let table = generate_completions(def, &float_parser()).expect("accepted");
            assert_eq!(table.entries.len(), 5);
            true
        }
        Err(e) => {
            assert_eq!(generate_completions(def, &float_parser()).err(), Some(e));
            false
        }
    }
}

#[test]
fn plain_definitions_are_accepted() {
    assert!(accepted(&command("tool")));
    assert!(accepted(&with_options(
        "tool",
        vec![aliased("verbose", &['v'], &["loud"]), aliased("quiet", &['q'], &["silent"])]
    )));
}

#[test]
fn option_name_with_leading_hyphen_is_rejected() {
    let def = with_options("tool", vec![option("-x")]);
    assert_eq!(check_definition(&def), Err(DefinitionError::OptionName));
    let def = with_options("tool", vec![option("ok"), option("--long")]);
    assert_eq!(check_definition(&def), Err(DefinitionError::OptionName));
}

#[test]
fn hyphen_inside_an_option_name_is_accepted() {
    assert!(accepted(&with_options("tool", vec![option("dry-run"), option("x-")])));
}

#[test]
fn argument_name_with_leading_hyphen_is_accepted() {
    let mut def = command("tool");
    def.arguments = vec![argument("-file", false)];
    assert!(accepted(&def));
}

#[test]
fn hyphen_as_short_name_is_rejected() {
    let def = with_options("tool", vec![aliased("x", &['a', '-'], &[])]);
    assert_eq!(check_definition(&def), Err(DefinitionError::OptionName));
}

#[test]
fn required_global_is_rejected() {
    let mut opt = option("all");
    opt.required = true;
    opt.global = true;
    assert_eq!(
        check_definition(&with_options("tool", vec![opt])),
        Err(DefinitionError::RequiredGlobal)
    );
    let mut def = command("tool");
    let mut arg = argument("file", true);
    arg.global = true;
    def.arguments = vec![arg];
    assert_eq!(check_definition(&def), Err(DefinitionError::RequiredGlobal));
}

#[test]
fn duplicate_option_names_are_rejected() {
    let def = with_options("tool", vec![option("a"), option("b"), option("a")]);
    assert_eq!(check_definition(&def), Err(DefinitionError::DuplicateName));
}

#[test]
fn duplicate_argument_names_are_rejected() {
    let mut def = command("tool");
    def.arguments = vec![argument("file", false), argument("file", false)];
    assert_eq!(check_definition(&def), Err(DefinitionError::DuplicateName));
}

#[test]
fn option_and_argument_of_one_name_are_rejected() {
    let mut def = with_options("tool", vec![option("file")]);
    def.arguments = vec![argument("file", false)];
    assert_eq!(check_definition(&def), Err(DefinitionError::DuplicateName));
}

#[test]
fn same_names_in_different_commands_are_accepted() {
    let child = with_options("sub", vec![option("file")]);
    let root = with_children(with_options("tool", vec![option("file")]), vec![child]);
    assert!(accepted(&root));
}

#[test]
fn alias_equal_to_another_option_name_is_rejected() {
    let def = with_options("tool", vec![option("out"), aliased("write", &[], &["out"])]);
    assert_eq!(check_definition(&def), Err(DefinitionError::DuplicateFlag));
}

#[test]
fn alias_shared_by_two_options_is_rejected() {
    let def = with_options(
        "tool",
        vec![aliased("a", &[], &["x", "y"]), aliased("b", &[], &["z", "y"])],
    );
    assert_eq!(check_definition(&def), Err(DefinitionError::DuplicateFlag));
}

#[test]
fn short_name_shared_by_two_options_is_rejected() {
    let def = with_options("tool", vec![aliased("a", &['x'], &[]), aliased("b", &['y', 'x'], &[])]);
    assert_eq!(check_definition(&def), Err(DefinitionError::DuplicateFlag));
}

#[test]
fn repeats_within_one_option_are_accepted() {
    let def = with_options("tool", vec![aliased("out", &['o', 'o'], &["out", "w", "w"])]);
    assert!(accepted(&def));
}

#[test]
fn short_and_long_of_one_spelling_do_not_clash() {
    let def = with_options("tool", vec![aliased("a", &['x'], &[]), aliased("b", &[], &["x"])]);
    assert!(accepted(&def));
}

#[test]
fn global_alias_clashing_below_is_rejected() {
    let child = with_options("sub", vec![aliased("speak", &[], &["loud"])]);
    let root = with_children(
        with_options("tool", vec![global(aliased("verbose", &[], &["loud"]))]),
        vec![child],
    );
    assert_eq!(check_definition(&root), Err(DefinitionError::DuplicateFlag));
}

#[test]
fn global_short_name_clashing_two_levels_below_is_rejected() {
    let leaf = with_options("leaf", vec![aliased("vivid", &['v'], &[])]);
    let mid = with_children(command("mid"), vec![leaf]);
    let root = with_children(
        with_options("tool", vec![global(aliased("verbose", &['v'], &[]))]),
        vec![mid],
    );
    assert_eq!(check_definition(&root), Err(DefinitionError::DuplicateFlag));
}

#[test]
fn plain_option_does_not_reach_the_subcommands() {
    let child = with_options("sub", vec![aliased("speak", &['v'], &["loud"])]);
    let root = with_children(
        with_options("tool", vec![aliased("verbose", &['v'], &["loud"])]),
        vec![child],
    );
    assert!(accepted(&root));
}

#[test]
fn global_shadowed_by_a_name_below_is_not_handed_down() {
    let leaf = with_options("leaf", vec![aliased("other", &['v'], &[])]);
    let mid = with_children(with_options("mid", vec![option("verbose")]), vec![leaf]);
    let root = with_children(
        with_options("tool", vec![global(aliased("verbose", &['v'], &[]))]),
        vec![mid],
    );
    assert!(accepted(&root));
}

#[test]
fn global_positional_is_accepted() {
    let mut root = with_children(command("tool"), vec![command("sub")]);
    let mut arg = argument("target", false);
    arg.global = true;
    root.arguments = vec![arg];
    assert!(accepted(&root));
}

#[test]
fn required_positional_after_optional_is_rejected() {
    let mut def = command("tool");
    def.arguments = vec![argument("a", true), argument("b", false), argument("c", true)];
    assert_eq!(check_definition(&def), Err(DefinitionError::RequiredAfterOptional));
}

#[test]
fn required_positionals_first_are_accepted() {
    let mut def = command("tool");
    def.arguments = vec![argument("a", true), argument("b", true), argument("c", false)];
    assert!(accepted(&def));
    let mut opt = option("late");
    opt.required = true;
    def.options = vec![option("early"), opt];
    assert!(accepted(&def));
}

#[test]
fn subcommand_name_with_space_is_rejected() {
    let root = with_children(command("tool"), vec![command("do it")]);
    assert_eq!(check_definition(&root), Err(DefinitionError::CommandName));
}

#[test]
fn subcommand_name_with_separator_is_rejected() {
    let root = with_children(command("tool"), vec![command("a__subcmd__b")]);
    assert_eq!(check_definition(&root), Err(DefinitionError::CommandName));
    let deep = with_children(command("mid"), vec![command("__subcmd__")]);
    let root = with_children(command("tool"), vec![deep]);
    assert_eq!(check_definition(&root), Err(DefinitionError::CommandName));
}

#[test]
fn program_name_with_separator_is_rejected() {
    assert_eq!(check_definition(&command("my__subcmd__tool")), Err(DefinitionError::CommandName));
}

#[test]
fn program_name_with_space_is_rejected_only_with_subcommands() {
    assert!(accepted(&command("my tool")));
    let root = with_children(command("my tool"), vec![command("sub")]);
    assert_eq!(check_definition(&root), Err(DefinitionError::CommandName));
}

#[test]
fn names_near_the_separator_are_accepted() {
    let root = with_children(
        command("tool_subcmd__"),
        vec![command("_subcmd__"), command("__sub__cmd__"), command("a-b_c"), command("subcmd__")],
    );
    assert!(accepted(&root));
    let inner = with_children(command("__subcm"), vec![command("_"), command("__")]);
    assert!(accepted(&with_children(command("tool__"), vec![inner])));
}

#[test]
fn name_that_runs_into_the_separator_is_rejected_above_subcommands() {
    for name in ["tool__subcmd", "tool__subcmd_", "__subcmd", "__subcmd_"] {
        assert!(accepted(&command(name)), "{}", name);
        let root = with_children(command(name), vec![command("sub")]);
        assert_eq!(check_definition(&root), Err(DefinitionError::CommandName), "{}", name);
        let root = with_children(command("tool"), vec![command(name)]);
        assert!(accepted(&root), "{}", name);
        let mid = with_children(command(name), vec![command("leaf")]);
        let root = with_children(command("tool"), vec![mid]);
        assert_eq!(check_definition(&root), Err(DefinitionError::CommandName), "{}", name);
    }
}

#[test]
fn accepted_names_made_of_separator_pieces_reach_every_script() {
    let separator = "__subcmd__";
    let mut pieces: Vec<String> = vec!["x".to_string(), "x_".to_string(), "_x".to_string()];
    for cut in 0..=separator.len() {
        pieces.push(separator[..cut].to_string());
        pieces.push(separator[cut..].to_string());
        pieces.push(format!("a{}", &separator[..cut]));
        pieces.push(format!("{}b", &separator[cut..]));
    }
    let mut accepted_count = 0;
    for top in &pieces {
        for mid in &pieces {
            let leaf = with_options("leaf", vec![option("deep")]);
            let root = with_children(command(top), vec![with_children(command(mid), vec![leaf])]);
            if accepted(&root) {
                accepted_count += 1;
            }
        }
    }
    assert!(accepted_count > 100);
}

#[test]
fn empty_program_name_is_rejected_only_with_subcommands() {
    assert!(accepted(&command("")));
    let root = with_children(command(""), vec![command("sub")]);
    assert_eq!(check_definition(&root), Err(DefinitionError::CommandName));
}

#[test]
fn duplicate_subcommand_names_are_rejected() {
    let root = with_children(command("tool"), vec![command("a"), command("b"), command("a")]);
    assert_eq!(check_definition(&root), Err(DefinitionError::DuplicateSubcommand));
}

#[test]
fn same_subcommand_name_under_different_parents_is_accepted() {
    let left = with_children(command("left"), vec![command("leaf")]);
    let right = with_children(command("right"), vec![command("leaf")]);
    assert!(accepted(&with_children(command("tool"), vec![left, right])));
}

#[test]
fn subcommand_named_like_its_parent_or_help_is_accepted() {
    let root = with_children(command("tool"), vec![command("tool"), command("help")]);
    assert!(accepted(&root));
    let root = with_options("tool", vec![aliased("help", &['h'], &[]), aliased("version", &['V'], &[])]);
    assert!(accepted(&root));
}

#[test]
fn empty_names_below_the_program_are_accepted() {
    let inner = with_children(command(""), vec![command(""), command("x")]);
    let mut root = with_children(with_options("tool", vec![option("")]), vec![inner]);
    root.arguments = vec![argument("", false)];
    root.options.pop();
    assert!(accepted(&root));
    let root = with_children(with_options("tool", vec![option("")]), vec![command("")]);
    assert!(accepted(&root));
}

#[test]
fn four_levels_of_subcommands_are_accepted() {
    let d = with_options("d", vec![option("deep")]);
    let c = with_children(command("c"), vec![d]);
    let b = with_children(command("b"), vec![c]);
    let a = with_children(command("a"), vec![b]);
    let root = with_children(
        with_options("tool", vec![global(aliased("verbose", &['v'], &["loud"]))]),
        vec![a],
    );
    assert!(accepted(&root));
}

#[test]
fn earlier_rule_wins_within_a_command() {
    let mut bad_name = option("-x");
    bad_name.required = true;
    bad_name.global = true;
    let def = with_options("tool", vec![bad_name, option("dup"), option("dup")]);
    assert_eq!(check_definition(&def), Err(DefinitionError::OptionName));

    let mut both = option("x");
    both.required = true;
    both.global = true;
    let def = with_options("tool", vec![both, option("dup"), option("dup")]);
    assert_eq!(check_definition(&def), Err(DefinitionError::RequiredGlobal));

    let mut def = with_options("tool", vec![aliased("a", &['s'], &[]), aliased("b", &['s'], &[])]);
    def.arguments = vec![argument("p", false), argument("q", true)];
    def.subcommands = vec![command("same"), command("same")];
    assert_eq!(check_definition(&def), Err(DefinitionError::DuplicateFlag));
    def.options.pop();
    assert_eq!(check_definition(&def), Err(DefinitionError::RequiredAfterOptional));
    def.arguments.pop();
    def.subcommands[0].name = "bad name".to_string();
    assert_eq!(check_definition(&def), Err(DefinitionError::CommandName));
    def.subcommands[0].name = "same".to_string();
    assert_eq!(check_definition(&def), Err(DefinitionError::DuplicateSubcommand));
}

#[test]
fn parent_is_checked_before_children_and_children_in_order() {
    let first = with_options("first", vec![option("a"), option("a")]);
    let mut second = command("second");
    second.arguments = vec![argument("p", false), argument("q", true)];
    let root = with_children(command("tool"), vec![first, second]);
    assert_eq!(check_definition(&root), Err(DefinitionError::DuplicateName));

    let mut root = root;
    root.subcommands.swap(0, 1);
    assert_eq!(check_definition(&root), Err(DefinitionError::RequiredAfterOptional));

    root.subcommands.push(command("second"));
    assert_eq!(check_definition(&root), Err(DefinitionError::DuplicateSubcommand));
}

#[test]
fn every_error_has_its_own_message() {
    let errors = [
        DefinitionError::OptionName,
        DefinitionError::RequiredGlobal,
        DefinitionError::DuplicateName,
        DefinitionError::DuplicateFlag,
        DefinitionError::RequiredAfterOptional,
        DefinitionError::CommandName,
        DefinitionError::DuplicateSubcommand,
    ];
    for (i, a) in errors.iter().enumerate() {
        assert!(!a.message().is_empty());
        for b in &errors[i + 1..] {
            assert_ne!(a.message(), b.message());
        }
    }
    assert_eq!(
        DefinitionError::DuplicateName.message(),
        "two options or arguments of one command share a name"
    );
}

struct Dice(u64);

impl Dice {
    fn roll(&mut self, sides: usize) -> usize {
        self.0 = self.0.wrapping_mul(6364136223846793005).wrapping_add(1442695040888963407);
        ((self.0 >> 33) as usize) % sides
    }

    fn pick<'a>(&mut self, pool: &[&'a str]) -> &'a str {
        pool[self.roll(pool.len())]
    }
}

fn drawn_command(dice: &mut Dice, name: &str, depth: usize) -> CommandDef {
    let option_names = ["a", "b", "c", "d-e", "help", "al"];
    let alias_names = ["a", "al", "be", "ce", ""];
    let shorts = ['a', 'b', 'c', 'v'];
    let argument_names = ["a", "p", "q", "r"];
    let child_names = ["s", "t", "u", "u__subcmd", "", "help", "v_"];
    let mut cmd = command(name);
    for _ in 0..dice.roll(4) {
        let mut opt = option(dice.pick(&option_names));
        for _ in 0..dice.roll(3) {
            opt.short_names.push(shorts[dice.roll(shorts.len())]);
        }
        for _ in 0..dice.roll(3) {
            opt.long_names.push(dice.pick(&alias_names).to_string());
        }
        opt.required = dice.roll(4) == 0;
        opt.global = dice.roll(3) == 0;
        if dice.roll(2) == 0 {
            opt.possible_values = strings(&["x", "y z", "'q'"]);
        }
        cmd.options.push(opt);
    }
    for _ in 0..dice.roll(3) {
        let mut arg = argument(dice.pick(&argument_names), dice.roll(3) == 0);
        arg.global = dice.roll(4) == 0;
        arg.value_type = Some(dice.pick(&["path", "boolean", "integer", "float", "other"]).to_string());
        cmd.arguments.push(arg);
    }
    if depth > 0 {
        for _ in 0..dice.roll(3) {
            let child = dice.pick(&child_names);
            cmd.subcommands.push(drawn_command(dice, child, depth - 1));
        }
    }
    cmd
}

#[test]
fn every_accepted_definition_of_a_large_sample_reaches_every_script() {
    let mut dice = Dice(2024);
    let mut accepted_count = 0;
    let mut rejected_count = 0;
    for _ in 0..1500 {
        let root = dice.pick(&["tool", "my-tool", "t", "tool_"]);
        let def = drawn_command(&mut dice, root, 3);
        if accepted(&def) {
            accepted_count += 1;
        } else {
            rejected_count += 1;
        }
    }
    assert!(accepted_count >= 100, "{} accepted", accepted_count);
    assert!(rejected_count >= 100, "{} rejected", rejected_count);
}

#[test]
fn engine_rules_do_not_stop_the_builder() {
    let mut both = option("o");
    both.required = true;
    both.global = true;
    let def = with_options("t", vec![both]);
    assert_eq!(check_definition(&def), Err(DefinitionError::RequiredGlobal));
    assert_eq!(check_buildable(&def), Ok(()));

    let def = with_options("t", vec![option("-x")]);
    assert_eq!(check_definition(&def), Err(DefinitionError::OptionName));
    assert_eq!(check_buildable(&def), Ok(()));

    let def = with_options("t", vec![aliased("a", &['s'], &["l"]), aliased("b", &['s'], &["l"])]);
    assert_eq!(check_definition(&def), Err(DefinitionError::DuplicateFlag));
    assert_eq!(check_buildable(&def), Ok(()));

    let mut def = command("t");
    def.arguments = vec![argument("a", false), argument("b", true)];
    assert_eq!(check_definition(&def), Err(DefinitionError::RequiredAfterOptional));
    assert_eq!(check_buildable(&def), Ok(()));

    let def = with_children(command("my tool"), vec![command("do it")]);
    assert_eq!(check_definition(&def), Err(DefinitionError::CommandName));
    assert_eq!(check_buildable(&def), Ok(()));

    let def = with_children(command("t"), vec![command("s"), command("s")]);
    assert_eq!(check_definition(&def), Err(DefinitionError::DuplicateSubcommand));
    assert_eq!(check_buildable(&def), Ok(()));
}

#[test]
fn builder_refusals_are_engine_refusals_too() {
    let def = with_options("t", vec![aliased("x", &['-'], &[])]);
    assert_eq!(check_buildable(&def), Err(DefinitionError::OptionName));
    assert_eq!(check_definition(&def), Err(DefinitionError::OptionName));
    let def = with_options("t", vec![option("x"), option("x")]);
    assert_eq!(check_buildable(&def), Err(DefinitionError::DuplicateName));
    assert_eq!(check_definition(&def), Err(DefinitionError::DuplicateName));
}
