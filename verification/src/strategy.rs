//! Chooses how a value of an option or argument is parsed.

use vstd::prelude::*;

verus! {

/// The way a raw value is validated and interpreted.
#[derive(Debug, Clone, PartialEq, Eq)]
pub enum ValueStrategy {
    /// The value must equal one of the listed literals.
    Enumeration(Vec<String>),
    /// A filesystem path; nothing is checked on disk.
    Path,
    /// `true` or `false`.
    Boolean,
    /// A signed 64-bit integer.
    Integer,
    /// A double-precision number.
    Float,
    /// Any non-empty text.
    FreeText,
}

/// Mathematical value of a [`ValueStrategy`].
pub enum StrategySpec {
    Enumeration(Seq<Seq<char>>),
    Path,
    Boolean,
    Integer,
    Float,
    FreeText,
}

impl View for ValueStrategy {
    type V = StrategySpec;

    open spec fn view(&self) -> StrategySpec {
        match self {
            ValueStrategy::Enumeration(values) => StrategySpec::Enumeration(values.deep_view()),
            ValueStrategy::Path => StrategySpec::Path,
            ValueStrategy::Boolean => StrategySpec::Boolean,
            ValueStrategy::Integer => StrategySpec::Integer,
            ValueStrategy::Float => StrategySpec::Float,
            ValueStrategy::FreeText => StrategySpec::FreeText,
        }
    }
}

/// The strategy that a declared type tag stands for; unknown tags and a
/// missing tag mean free text.
pub open spec fn strategy_of_tag(tag: Option<Seq<char>>) -> StrategySpec {
    match tag {
        Some(t) => {
            if t == "file"@ || t == "dir"@ || t == "path"@ {
                StrategySpec::Path
            } else if t == "boolean"@ {
                StrategySpec::Boolean
            } else if t == "integer"@ {
                StrategySpec::Integer
            } else if t == "float"@ {
                StrategySpec::Float
            } else {
                StrategySpec::FreeText
            }
        },
        None => StrategySpec::FreeText,
    }
}

/// The strategy for an option or argument: a non-empty list of allowed
/// literals wins over the declared type tag.
pub open spec fn resolve(possible_values: Seq<Seq<char>>, tag: Option<Seq<char>>) -> StrategySpec {
    if possible_values.len() > 0 {
        StrategySpec::Enumeration(possible_values)
    } else {
        strategy_of_tag(tag)
    }
}

/// Whether `tag` is one of the type tags with a meaning of its own.
pub open spec fn is_known_tag(tag: Seq<char>) -> bool {
    tag == "file"@ || tag == "dir"@ || tag == "path"@ || tag == "boolean"@ || tag == "integer"@
        || tag == "float"@
}

/// A copy of the texts.
pub fn copy_texts(texts: &Vec<String>) -> (copy: Vec<String>)
    ensures
        copy.deep_view() == texts.deep_view(),
{
    let mut copy: Vec<String> = Vec::new();
    let mut i: usize = 0;
    while i < texts.len()
        invariant
            i <= texts.len(),
            copy@.len() == i,
            forall|k: int| 0 <= k < i ==> copy@[k]@ == texts@[k]@,
        decreases texts.len() - i,
    {
        copy.push(texts[i].clone());
        i += 1;
    }
    assert(copy.deep_view() =~= texts.deep_view());
    copy
}

/// The strategy that a declared type tag stands for.
pub fn strategy_for_tag(tag: &str) -> (s: ValueStrategy)
    ensures
        s@ == strategy_of_tag(Some(tag@)),
{
    let t = tag.to_owned();
    if t == "file".to_owned() || t == "dir".to_owned() || t == "path".to_owned() {
        ValueStrategy::Path
    } else if t == "boolean".to_owned() {
        ValueStrategy::Boolean
    } else if t == "integer".to_owned() {
        ValueStrategy::Integer
    } else if t == "float".to_owned() {
        ValueStrategy::Float
    } else {
        ValueStrategy::FreeText
    }
}

/// Resolves the strategy for an option or argument from its allowed
/// literals and its declared type tag. Never fails: a tag without a meaning
/// of its own gives free text.
pub fn resolve_strategy(possible_values: &Vec<String>, value_type: &Option<String>) -> (s:
    ValueStrategy)
    ensures
        s@ == resolve(possible_values.deep_view(), crate::definition::opt_chars(*value_type)),
{
    if possible_values.len() > 0 {
        ValueStrategy::Enumeration(copy_texts(possible_values))
    } else {
        match value_type {
            Some(tag) => strategy_for_tag(tag.as_str()),
            None => ValueStrategy::FreeText,
        }
    }
}

/// Allowed literals take precedence: where the list is not empty, the
/// strategy is the enumeration of exactly these literals, whatever the
/// declared type tag.
pub proof fn enumeration_takes_precedence(possible_values: Seq<Seq<char>>, tag: Option<Seq<char>>)
    requires
        possible_values.len() > 0,
    ensures
        resolve(possible_values, tag) == StrategySpec::Enumeration(possible_values),
{
}

/// Without allowed literals, a type tag that is none of the known ones
/// resolves to free text, as a missing tag does.
pub proof fn unknown_tag_is_free_text(tag: Seq<char>)
    requires
        !is_known_tag(tag),
    ensures
        resolve(Seq::empty(), Some(tag)) == StrategySpec::FreeText,
        resolve(Seq::empty(), None) == StrategySpec::FreeText,
{
}

/// Without allowed literals, each known type tag resolves to the strategy
/// it names.
pub proof fn known_tags_resolve()
    ensures
        resolve(Seq::empty(), Some("file"@)) == StrategySpec::Path,
        resolve(Seq::empty(), Some("dir"@)) == StrategySpec::Path,
        resolve(Seq::empty(), Some("path"@)) == StrategySpec::Path,
        resolve(Seq::empty(), Some("boolean"@)) == StrategySpec::Boolean,
        resolve(Seq::empty(), Some("integer"@)) == StrategySpec::Integer,
        resolve(Seq::empty(), Some("float"@)) == StrategySpec::Float,
{
    reveal_strlit("file");
    reveal_strlit("dir");
    reveal_strlit("path");
    reveal_strlit("boolean");
    reveal_strlit("integer");
    reveal_strlit("float");
    assert("file"@.len() == 4 && "dir"@.len() == 3 && "path"@.len() == 4);
    assert("boolean"@.len() == 7 && "integer"@.len() == 7 && "float"@.len() == 5);
    assert("dir"@[0] == 'd' && "file"@[0] == 'f' && "path"@[0] == 'p');
    assert("boolean"@[0] == 'b' && "integer"@[0] == 'i' && "float"@[0] == 'f');
}

} // verus!
