//! Checks a command definition against the naming rules before a tree is
//! built from it.

use vstd::prelude::*;
use crate::conflict::{
    argument_flags, bad_flag_name, bad_program_name, bad_subcommand_name, children_fault,
    definition_flags, handed_down, has_id, long_flags, node_fault, option_flags,
    runs_into_separator, shape_of_def,
    shape_of_def_fields, some_bad_subcommand_name, some_duplicate_subcommand, tree_fault,
    build_verdict, children_refusal, node_refusal, some_hyphen_short, tree_refusal, verdict,
    DefinitionError, effective, globals, shares_flag, shares_long, shares_short, some_bad_flag_name,
    some_duplicate_id, some_required_after_optional, some_required_global, some_shared_flag,
    visible, FlagSpec,
};
use crate::definition::{command_view_fields, opt_chars, ArgumentDef, CommandDef, OptionDef};
use crate::strategy::copy_texts;
use crate::text::{chars_of, contains_char, contains_text, has_suffix};

verus! {

/// The names by which one option or argument is known.
struct Flag {
    id: String,
    long: Option<String>,
    aliases: Vec<String>,
    shorts: Vec<char>,
    required: bool,
    global: bool,
}

impl View for Flag {
    type V = FlagSpec;

    closed spec fn view(&self) -> FlagSpec {
        FlagSpec {
            id: self.id@,
            long: opt_chars(self.long),
            aliases: self.aliases.deep_view(),
            shorts: self.shorts@,
            required: self.required,
            global: self.global,
        }
    }
}

/// The value of each flag.
spec fn flag_views(flags: Seq<Flag>) -> Seq<FlagSpec> {
    Seq::new(flags.len(), |i: int| flags[i]@)
}

fn copy_chars(chars: &Vec<char>) -> (copy: Vec<char>)
    ensures
        copy@ == chars@,
{
    let mut copy: Vec<char> = Vec::new();
    let mut i: usize = 0;
    while i < chars.len()
        invariant
            i <= chars.len(),
            copy@ == chars@.take(i as int),
        decreases chars.len() - i,
    {
        copy.push(chars[i]);
        assert(copy@ =~= chars@.take(i + 1));
        i += 1;
    }
    assert(chars@.take(i as int) =~= chars@);
    copy
}

fn copy_flag(f: &Flag) -> (g: Flag)
    ensures
        g@ == f@,
{
    let long = match &f.long {
        Some(l) => Some(l.clone()),
        None => None,
    };
    Flag {
        id: f.id.clone(),
        long,
        aliases: copy_texts(&f.aliases),
        shorts: copy_chars(&f.shorts),
        required: f.required,
        global: f.global,
    }
}

fn flag_of_option(o: &OptionDef) -> (f: Flag)
    ensures
        f@ == option_flags(o@),
{
    Flag {
        id: o.name.clone(),
        long: Some(o.name.clone()),
        aliases: copy_texts(&o.long_names),
        shorts: copy_chars(&o.short_names),
        required: o.required,
        global: o.global,
    }
}

fn flag_of_argument(a: &ArgumentDef) -> (f: Flag)
    ensures
        f@ == argument_flags(a@),
{
    let f = Flag {
        id: a.name.clone(),
        long: None,
        aliases: Vec::new(),
        shorts: Vec::new(),
        required: a.required,
        global: a.global,
    };
    assert(f@.aliases =~= Seq::<Seq<char>>::empty());
    f
}

/// The names of a command's options, then of its positional arguments.
fn own_flags(def: &CommandDef) -> (flags: Vec<Flag>)
    ensures
        flag_views(flags@) == definition_flags(def@),
{
    proof {
        command_view_fields(def);
    }
    let ghost options = Seq::new(def@.options.len(), |i: int| option_flags(def@.options[i]));
    let ghost arguments = Seq::new(def@.arguments.len(), |i: int| argument_flags(def@.arguments[i]));
    let mut flags: Vec<Flag> = Vec::new();
    let mut i: usize = 0;
    while i < def.options.len()
        invariant
            i <= def.options.len(),
            def@.options.len() == def.options@.len(),
            forall|k: int| 0 <= k < def.options@.len() ==> #[trigger] def@.options[k] == def.options@[k]@,
            options == Seq::new(def@.options.len(), |i: int| option_flags(def@.options[i])),
            flags@.len() == i,
            flag_views(flags@) == options.take(i as int),
        decreases def.options.len() - i,
    {
        let ghost before = flags@;
        flags.push(flag_of_option(&def.options[i]));
        proof {
            assert(def@.options[i as int] == def.options@[i as int]@);
            assert(flags@[i as int]@ == options[i as int]);
            assert forall|k: int| 0 <= k < i implies flag_views(flags@)[k] == options[k] by {
                assert(flag_views(before)[k] == options.take(i as int)[k]);
            }
            assert(flag_views(flags@) =~= options.take(i + 1));
        }
        i += 1;
    }
    assert(options.take(i as int) =~= options);
    let mut j: usize = 0;
    while j < def.arguments.len()
        invariant
            j <= def.arguments.len(),
            def@.arguments.len() == def.arguments@.len(),
            forall|k: int|
                0 <= k < def.arguments@.len() ==> #[trigger] def@.arguments[k] == def.arguments@[k]@,
            arguments == Seq::new(def@.arguments.len(), |i: int| argument_flags(def@.arguments[i])),
            flags@.len() == options.len() + j,
            flag_views(flags@) == options + arguments.take(j as int),
        decreases def.arguments.len() - j,
    {
        let ghost before = flags@;
        flags.push(flag_of_argument(&def.arguments[j]));
        proof {
            let n = options.len() as int;
            assert(def@.arguments[j as int] == def.arguments@[j as int]@);
            assert(flag_views(before).len() == n + j);
            assert(flags@[n + j]@ == arguments[j as int]);
            assert forall|k: int| 0 <= k < n + j implies flag_views(flags@)[k] == (options
                + arguments.take(j as int))[k] by {
                assert(flag_views(before)[k] == (options + arguments.take(j as int))[k]);
            }
            assert(flag_views(flags@) =~= options + arguments.take(j + 1));
        }
        j += 1;
    }
    assert(arguments.take(j as int) =~= arguments);
    flags
}

fn has_bad_name(f: &Flag) -> (bad: bool)
    ensures
        bad == bad_flag_name(f@),
{
    let hyphen_first = match &f.long {
        Some(l) => {
            let chars = chars_of(l.as_str());
            chars.len() > 0 && chars[0] == '-'
        },
        None => false,
    };
    hyphen_first || contains_char(&f.shorts, '-')
}

fn any_bad_flag_name(flags: &Vec<Flag>) -> (found: bool)
    ensures
        found == some_bad_flag_name(flag_views(flags@)),
{
    let mut i: usize = 0;
    while i < flags.len()
        invariant
            i <= flags.len(),
            forall|k: int| 0 <= k < i ==> !bad_flag_name(#[trigger] flag_views(flags@)[k]),
        decreases flags.len() - i,
    {
        if has_bad_name(&flags[i]) {
            assert(bad_flag_name(flag_views(flags@)[i as int]));
            return true;
        }
        i += 1;
    }
    false
}

fn any_required_global(flags: &Vec<Flag>) -> (found: bool)
    ensures
        found == some_required_global(flag_views(flags@)),
{
    let mut i: usize = 0;
    while i < flags.len()
        invariant
            i <= flags.len(),
            forall|k: int|
                0 <= k < i ==> !((#[trigger] flag_views(flags@)[k]).required && flag_views(
                    flags@,
                )[k].global),
        decreases flags.len() - i,
    {
        if flags[i].required && flags[i].global {
            assert(flag_views(flags@)[i as int].required && flag_views(flags@)[i as int].global);
            return true;
        }
        i += 1;
    }
    false
}

fn any_duplicate_id(flags: &Vec<Flag>) -> (found: bool)
    ensures
        found == some_duplicate_id(flag_views(flags@)),
{
    let ghost views = flag_views(flags@);
    let mut j: usize = 0;
    while j < flags.len()
        invariant
            j <= flags.len(),
            views == flag_views(flags@),
            forall|a: int, b: int|
                0 <= a < b < j ==> (#[trigger] views[a]).id != (#[trigger] views[b]).id,
        decreases flags.len() - j,
    {
        let mut i: usize = 0;
        while i < j
            invariant
                i <= j < flags.len(),
                views == flag_views(flags@),
                forall|a: int| 0 <= a < i ==> (#[trigger] views[a]).id != views[j as int].id,
            decreases j - i,
        {
            if flags[i].id == flags[j].id {
                assert(views[i as int].id == views[j as int].id);
                return true;
            }
            i += 1;
        }
        j += 1;
    }
    false
}

fn any_required_after_optional(flags: &Vec<Flag>) -> (found: bool)
    ensures
        found == some_required_after_optional(flag_views(flags@)),
{
    let ghost views = flag_views(flags@);
    let mut optional_seen = false;
    let ghost mut witness: int = 0;
    let mut j: usize = 0;
    while j < flags.len()
        invariant
            j <= flags.len(),
            views == flag_views(flags@),
            optional_seen ==> 0 <= witness < j && views[witness].long is None
                && !views[witness].required,
            !optional_seen ==> forall|a: int|
                0 <= a < j ==> !((#[trigger] views[a]).long is None && !views[a].required),
            forall|a: int, b: int|
                0 <= a < b < j ==> !((#[trigger] views[a]).long is None && (
                #[trigger] views[b]).long is None && !views[a].required && views[b].required),
        decreases flags.len() - j,
    {
        let positional = flags[j].long.is_none();
        if positional && flags[j].required && optional_seen {
            assert(views[witness].long is None && views[j as int].long is None
                && !views[witness].required && views[j as int].required);
            return true;
        }
        if positional && !flags[j].required {
            optional_seen = true;
            proof {
                witness = j as int;
            }
        }
        j += 1;
    }
    false
}

fn text_among(x: &String, texts: &Vec<String>) -> (found: bool)
    ensures
        found == texts.deep_view().contains(x@),
{
    let mut i: usize = 0;
    while i < texts.len()
        invariant
            i <= texts.len(),
            forall|k: int| 0 <= k < i ==> texts.deep_view()[k] != x@,
        decreases texts.len() - i,
    {
        if texts[i] == *x {
            assert(texts.deep_view()[i as int] == x@);
            return true;
        }
        i += 1;
    }
    false
}

/// Whether `x` is the long name or a long alias of `b`.
fn long_known(x: &String, b: &Flag) -> (found: bool)
    ensures
        found == long_flags(b@).contains(x@),
{
    let aliased = text_among(x, &b.aliases);
    match &b.long {
        Some(l) => {
            let named = *l == *x;
            proof {
                let longs = long_flags(b@);
                assert(longs =~= seq![l@] + b@.aliases);
                if named {
                    assert(longs[0] == x@);
                } else if aliased {
                    let k = choose|k: int| 0 <= k < b@.aliases.len() && b@.aliases[k] == x@;
                    assert(longs[k + 1] == x@);
                } else {
                    assert forall|k: int| 0 <= k < longs.len() implies longs[k] != x@ by {
                        if k > 0 {
                            assert(longs[k] == b@.aliases[k - 1]);
                        }
                    }
                }
            }
            named || aliased
        },
        None => aliased,
    }
}

fn have_common_long(a: &Flag, b: &Flag) -> (found: bool)
    ensures
        found == shares_long(a@, b@),
{
    let ghost longs = long_flags(a@);
    let ghost shift: int = if a@.long is Some { 1 } else { 0 };
    proof {
        assert(longs.len() == a@.aliases.len() + shift);
        assert forall|k: int| 0 <= k < a@.aliases.len() implies longs[k + shift]
            == a@.aliases[k] by {}
    }
    match &a.long {
        Some(l) => {
            if long_known(l, b) {
                assert(long_flags(b@).contains(longs[0]));
                return true;
            }
        },
        None => {},
    }
    let mut i: usize = 0;
    while i < a.aliases.len()
        invariant
            i <= a.aliases.len(),
            longs == long_flags(a@),
            shift == if a@.long is Some { 1int } else { 0int },
            longs.len() == a@.aliases.len() + shift,
            a@.aliases == a.aliases.deep_view(),
            forall|k: int| 0 <= k < a@.aliases.len() ==> longs[k + shift] == a@.aliases[k],
            forall|k: int| 0 <= k < i + shift ==> !long_flags(b@).contains(#[trigger] longs[k]),
        decreases a.aliases.len() - i,
    {
        if long_known(&a.aliases[i], b) {
            assert(longs[i + shift] == a.aliases@[i as int]@);
            assert(long_flags(b@).contains(longs[i + shift]));
            return true;
        }
        assert(longs[i + shift] == a.aliases@[i as int]@);
        i += 1;
    }
    false
}

fn have_common_short(a: &Flag, b: &Flag) -> (found: bool)
    ensures
        found == shares_short(a@, b@),
{
    let mut i: usize = 0;
    while i < a.shorts.len()
        invariant
            i <= a.shorts.len(),
            a@.shorts == a.shorts@,
            b@.shorts == b.shorts@,
            forall|k: int| 0 <= k < i ==> !b@.shorts.contains(#[trigger] a@.shorts[k]),
        decreases a.shorts.len() - i,
    {
        if contains_char(&b.shorts, a.shorts[i]) {
            assert(b@.shorts.contains(a@.shorts[i as int]));
            return true;
        }
        i += 1;
    }
    false
}

fn any_shared_flag(flags: &Vec<Flag>) -> (found: bool)
    ensures
        found == some_shared_flag(flag_views(flags@)),
{
    let ghost views = flag_views(flags@);
    let mut j: usize = 0;
    while j < flags.len()
        invariant
            j <= flags.len(),
            views == flag_views(flags@),
            forall|a: int, b: int|
                0 <= a < b < j ==> !shares_flag(#[trigger] views[a], #[trigger] views[b]),
        decreases flags.len() - j,
    {
        let mut i: usize = 0;
        while i < j
            invariant
                i <= j < flags.len(),
                views == flag_views(flags@),
                forall|a: int| 0 <= a < i ==> !shares_flag(#[trigger] views[a], views[j as int]),
            decreases j - i,
        {
            if have_common_long(&flags[i], &flags[j]) || have_common_short(&flags[i], &flags[j]) {
                assert(shares_flag(views[i as int], views[j as int]));
                return true;
            }
            i += 1;
        }
        j += 1;
    }
    false
}

fn knows_id(flags: &Vec<Flag>, id: &String) -> (found: bool)
    ensures
        found == has_id(flag_views(flags@), id@),
{
    let mut i: usize = 0;
    while i < flags.len()
        invariant
            i <= flags.len(),
            forall|k: int| 0 <= k < i ==> (#[trigger] flag_views(flags@)[k]).id != id@,
        decreases flags.len() - i,
    {
        if flags[i].id == *id {
            assert(flag_views(flags@)[i as int].id == id@);
            return true;
        }
        i += 1;
    }
    false
}

/// One step of a filter: the element at `i` is kept or passed over.
proof fn filter_step(s: Seq<FlagSpec>, keep: spec_fn(FlagSpec) -> bool, i: int)
    requires
        0 <= i < s.len(),
    ensures
        s.take(0).filter(keep) == Seq::<FlagSpec>::empty(),
        s.take(i + 1).filter(keep) == if keep(s[i]) {
            s.take(i).filter(keep).push(s[i])
        } else {
            s.take(i).filter(keep)
        },
{
    reveal(Seq::filter);
    assert(s.take(i + 1).drop_last() =~= s.take(i));
    assert(s.take(0).filter(keep) =~= Seq::<FlagSpec>::empty());
}

/// Pushing a flag adds its value to the values.
proof fn flag_views_push(flags: Seq<Flag>, f: Flag)
    ensures
        flag_views(flags.push(f)) == flag_views(flags).push(f@),
{
    assert(flag_views(flags.push(f)) =~= flag_views(flags).push(f@));
}

/// Copies of the flags handed down that the command sees, in order.
fn visible_flags(inherited: &Vec<Flag>, own: &Vec<Flag>) -> (seen: Vec<Flag>)
    ensures
        flag_views(seen@) == visible(flag_views(inherited@), flag_views(own@)),
{
    let ghost all = flag_views(inherited@);
    let ghost mine = flag_views(own@);
    let ghost keep = |g: FlagSpec| !has_id(mine, g.id);
    let mut seen: Vec<Flag> = Vec::new();
    let mut i: usize = 0;
    proof {
        reveal(Seq::filter);
        assert(all.take(0).filter(keep) =~= Seq::<FlagSpec>::empty());
        assert(flag_views(seen@) =~= Seq::<FlagSpec>::empty());
    }
    while i < inherited.len()
        invariant
            i <= inherited.len(),
            all == flag_views(inherited@),
            mine == flag_views(own@),
            keep == |g: FlagSpec| !has_id(mine, g.id),
            flag_views(seen@) == all.take(i as int).filter(keep),
        decreases inherited.len() - i,
    {
        proof {
            filter_step(all, keep, i as int);
        }
        if !knows_id(own, &inherited[i].id) {
            let ghost before = seen@;
            let copy = copy_flag(&inherited[i]);
            seen.push(copy);
            proof {
                flag_views_push(before, copy);
            }
        }
        i += 1;
    }
    assert(all.take(i as int) =~= all);
    seen
}

/// Copies of the global ones among the flags, in order.
fn global_flags(flags: &Vec<Flag>) -> (down: Vec<Flag>)
    ensures
        flag_views(down@) == globals(flag_views(flags@)),
{
    let ghost all = flag_views(flags@);
    let ghost keep = |f: FlagSpec| f.global;
    let mut down: Vec<Flag> = Vec::new();
    let mut i: usize = 0;
    proof {
        reveal(Seq::filter);
        assert(all.take(0).filter(keep) =~= Seq::<FlagSpec>::empty());
        assert(flag_views(down@) =~= Seq::<FlagSpec>::empty());
    }
    while i < flags.len()
        invariant
            i <= flags.len(),
            all == flag_views(flags@),
            keep == |f: FlagSpec| f.global,
            flag_views(down@) == all.take(i as int).filter(keep),
        decreases flags.len() - i,
    {
        proof {
            filter_step(all, keep, i as int);
        }
        if flags[i].global {
            let ghost before = down@;
            let copy = copy_flag(&flags[i]);
            down.push(copy);
            proof {
                flag_views_push(before, copy);
            }
        }
        i += 1;
    }
    assert(all.take(i as int) =~= all);
    down
}

/// What a command sees: its own flags, then the visible ones of those
/// handed down.
fn effective_flags(own: Vec<Flag>, inherited: &Vec<Flag>) -> (eff: Vec<Flag>)
    ensures
        flag_views(eff@) == effective(flag_views(own@), flag_views(inherited@)),
{
    let ghost mine = flag_views(own@);
    let mut seen = visible_flags(inherited, &own);
    let ghost added = flag_views(seen@);
    let mut eff = own;
    eff.append(&mut seen);
    assert(flag_views(eff@) =~= mine + added);
    eff
}

fn runs_into(chars: &Vec<char>) -> (found: bool)
    ensures
        found == runs_into_separator(chars@),
{
    let short = chars_of("__subcmd");
    let long = chars_of("__subcmd_");
    has_suffix(chars, &short) || has_suffix(chars, &long)
}

fn is_bad_subcommand_name(name: &str, has_subcommands: bool) -> (bad: bool)
    ensures
        bad == bad_subcommand_name(name@, has_subcommands),
{
    let chars = chars_of(name);
    let separator = chars_of("__subcmd__");
    contains_char(&chars, ' ') || contains_text(&chars, &separator) || (has_subcommands
        && runs_into(&chars))
}

fn is_bad_program_name(name: &str, has_subcommands: bool) -> (bad: bool)
    ensures
        bad == bad_program_name(name@, has_subcommands),
{
    let chars = chars_of(name);
    let separator = chars_of("__subcmd__");
    contains_text(&chars, &separator) || (has_subcommands && (chars.len() == 0 || contains_char(
        &chars,
        ' ',
    ) || runs_into(&chars)))
}

fn any_bad_subcommand_name(def: &CommandDef) -> (found: bool)
    ensures
        found == some_bad_subcommand_name(shape_of_def(def@).children),
{
    let ghost children = shape_of_def(def@).children;
    proof {
        command_view_fields(def);
        shape_of_def_fields(def@);
        assert forall|i: int| 0 <= i < def.subcommands@.len() implies (#[trigger] children[i]).name
            == def.subcommands@[i].name@ && children[i].children.len()
            == def.subcommands@[i].subcommands@.len() by {
            command_view_fields(&def.subcommands@[i]);
            shape_of_def_fields(def.subcommands@[i]@);
        }
    }
    let mut k: usize = 0;
    while k < def.subcommands.len()
        invariant
            k <= def.subcommands.len(),
            children == shape_of_def(def@).children,
            children.len() == def.subcommands@.len(),
            forall|i: int|
                0 <= i < def.subcommands@.len() ==> (#[trigger] children[i]).name
                    == def.subcommands@[i].name@ && children[i].children.len()
                    == def.subcommands@[i].subcommands@.len(),
            forall|i: int|
                0 <= i < k ==> !bad_subcommand_name(
                    (#[trigger] children[i]).name,
                    children[i].children.len() > 0,
                ),
        decreases def.subcommands.len() - k,
    {
        let sub = &def.subcommands[k];
        if is_bad_subcommand_name(sub.name.as_str(), sub.subcommands.len() > 0) {
            assert(bad_subcommand_name(children[k as int].name, children[k as int].children.len() > 0));
            return true;
        }
        k += 1;
    }
    false
}

fn any_duplicate_subcommand(def: &CommandDef) -> (found: bool)
    ensures
        found == some_duplicate_subcommand(shape_of_def(def@).children),
{
    let ghost children = shape_of_def(def@).children;
    proof {
        command_view_fields(def);
        shape_of_def_fields(def@);
    }
    let mut j: usize = 0;
    while j < def.subcommands.len()
        invariant
            j <= def.subcommands.len(),
            children == shape_of_def(def@).children,
            children.len() == def.subcommands@.len(),
            forall|i: int|
                0 <= i < def.subcommands@.len() ==> (#[trigger] children[i]).name
                    == def.subcommands@[i].name@,
            forall|a: int, b: int|
                0 <= a < b < j ==> (#[trigger] children[a]).name != (#[trigger] children[b]).name,
        decreases def.subcommands.len() - j,
    {
        let mut i: usize = 0;
        while i < j
            invariant
                i <= j < def.subcommands.len(),
                children == shape_of_def(def@).children,
                children.len() == def.subcommands@.len(),
                forall|i: int|
                    0 <= i < def.subcommands@.len() ==> (#[trigger] children[i]).name
                        == def.subcommands@[i].name@,
                forall|a: int| 0 <= a < i ==> (#[trigger] children[a]).name != children[j as int].name,
            decreases j - i,
        {
            if def.subcommands[i].name == def.subcommands[j].name {
                assert(children[i as int].name == children[j as int].name);
                return true;
            }
            i += 1;
        }
        j += 1;
    }
    false
}

/// The first rule broken in the tree of `def`, given what is handed down to
/// its root.
fn tree_check(def: &CommandDef, inherited: &Vec<Flag>) -> (found: Option<DefinitionError>)
    ensures
        found == tree_fault(shape_of_def(def@), flag_views(inherited@)),
    decreases def,
{
    let ghost shape = shape_of_def(def@);
    let ghost above = flag_views(inherited@);
    proof {
        command_view_fields(def);
        shape_of_def_fields(def@);
    }
    let own = own_flags(def);
    if any_bad_flag_name(&own) {
        return Some(DefinitionError::OptionName);
    }
    if any_required_global(&own) {
        return Some(DefinitionError::RequiredGlobal);
    }
    if any_duplicate_id(&own) {
        return Some(DefinitionError::DuplicateName);
    }
    let order_broken = any_required_after_optional(&own);
    let seen = effective_flags(own, inherited);
    if any_shared_flag(&seen) {
        return Some(DefinitionError::DuplicateFlag);
    }
    if order_broken {
        return Some(DefinitionError::RequiredAfterOptional);
    }
    if any_bad_subcommand_name(def) {
        return Some(DefinitionError::CommandName);
    }
    if any_duplicate_subcommand(def) {
        return Some(DefinitionError::DuplicateSubcommand);
    }
    let down = global_flags(&seen);
    assert(node_fault(shape, above) is None);
    assert(flag_views(down@) == handed_down(shape.flags, above));
    let mut k: usize = 0;
    while k < def.subcommands.len()
        invariant
            k <= def.subcommands.len(),
            shape == shape_of_def(def@),
            above == flag_views(inherited@),
            shape.children.len() == def.subcommands@.len(),
            forall|i: int|
                0 <= i < def.subcommands@.len() ==> #[trigger] shape.children[i] == shape_of_def(
                    def.subcommands@[i]@,
                ),
            tree_fault(shape, above) == children_fault(shape, flag_views(down@), k as nat),
        decreases def.subcommands.len() - k,
    {
        let below = tree_check(&def.subcommands[k], &down);
        proof {
            assert(shape.children[k as int] == shape_of_def(def.subcommands@[k as int]@));
            assert(below == tree_fault(shape.children[k as int], flag_views(down@)));
            assert(children_fault(shape, flag_views(down@), k as nat) == match below {
                Some(e) => Some(e),
                None => children_fault(shape, flag_views(down@), (k + 1) as nat),
            });
        }
        match below {
            Some(e) => {
                return Some(e);
            },
            None => {},
        }
        k += 1;
    }
    None
}

/// Checks a definition against the naming rules, the root command before
/// its subcommands and these in declaration order. The error is the first
/// rule that is broken.
pub fn check_definition(def: &CommandDef) -> (checked: Result<(), DefinitionError>)
    ensures
        checked == verdict(def@),
{
    proof {
        command_view_fields(def);
        shape_of_def_fields(def@);
    }
    if is_bad_program_name(def.name.as_str(), def.subcommands.len() > 0) {
        return Err(DefinitionError::CommandName);
    }
    let none: Vec<Flag> = Vec::new();
    assert(flag_views(none@) =~= Seq::<FlagSpec>::empty());
    match tree_check(def, &none) {
        Some(e) => Err(e),
        None => Ok(()),
    }
}

fn any_hyphen_short(flags: &Vec<Flag>) -> (found: bool)
    ensures
        found == some_hyphen_short(flag_views(flags@)),
{
    let mut i: usize = 0;
    while i < flags.len()
        invariant
            i <= flags.len(),
            forall|k: int| 0 <= k < i ==> !(#[trigger] flag_views(flags@)[k]).shorts.contains('-'),
        decreases flags.len() - i,
    {
        if contains_char(&flags[i].shorts, '-') {
            assert(flag_views(flags@)[i as int].shorts.contains('-'));
            return true;
        }
        i += 1;
    }
    false
}

/// The first reason for which no tree is built for `def`.
fn refusal_check(def: &CommandDef) -> (found: Option<DefinitionError>)
    ensures
        found == tree_refusal(shape_of_def(def@)),
    decreases def,
{
    let ghost shape = shape_of_def(def@);
    proof {
        command_view_fields(def);
        shape_of_def_fields(def@);
    }
    let own = own_flags(def);
    if any_hyphen_short(&own) {
        return Some(DefinitionError::OptionName);
    }
    if any_duplicate_id(&own) {
        return Some(DefinitionError::DuplicateName);
    }
    assert(node_refusal(shape) is None);
    let mut k: usize = 0;
    while k < def.subcommands.len()
        invariant
            k <= def.subcommands.len(),
            shape == shape_of_def(def@),
            shape.children.len() == def.subcommands@.len(),
            forall|i: int|
                0 <= i < def.subcommands@.len() ==> #[trigger] shape.children[i] == shape_of_def(
                    def.subcommands@[i]@,
                ),
            tree_refusal(shape) == children_refusal(shape, k as nat),
        decreases def.subcommands.len() - k,
    {
        let below = refusal_check(&def.subcommands[k]);
        proof {
            assert(shape.children[k as int] == shape_of_def(def.subcommands@[k as int]@));
            assert(below == tree_refusal(shape.children[k as int]));
            assert(children_refusal(shape, k as nat) == match below {
                Some(e) => Some(e),
                None => children_refusal(shape, (k + 1) as nat),
            });
        }
        match below {
            Some(e) => {
                return Some(e);
            },
            None => {},
        }
        k += 1;
    }
    None
}

/// Checks whether the tree of a definition is built: the error is the
/// first short name that is a hyphen or the first name shared by two
/// options or arguments of one command, the root command before its
/// subcommands and these in declaration order.
pub fn check_buildable(def: &CommandDef) -> (checked: Result<(), DefinitionError>)
    ensures
        checked == build_verdict(def@),
{
    match refusal_check(def) {
        Some(e) => Err(e),
        None => Ok(()),
    }
}

} // verus!
