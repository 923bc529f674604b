//! What the annotations on a provider's source declare.
//!
//! A provider may describe itself and its actions by annotations on its
//! source: one on the provider, with `name = "..."` and
//! `provider_type = "..."`, and one on each action, either with a bare
//! description or with `description = "..."` and one `param(...)` for each
//! parameter. Reading the annotations off the source is not done here; this
//! module holds what they mean once their arguments are at hand as plain
//! texts.

use crate::schema::{ActionDefinition, ActionParameter, ParamType, ParameterModel};
use crate::text::{names_in, same_text};
use crate::value::Value;
use vstd::prelude::*;
use vstd::string::*;

verus! {

/// One argument of an annotation. `key` is the identifier that the argument
/// begins with, or empty where it begins with anything else.
#[derive(Debug, PartialEq, Eq)]
pub enum MetaItem {
    /// `key = value`; `text` is what the value holds where it is a string
    /// literal, and `None` where it is anything else.
    NameValue { key: String, text: Option<String> },
    /// `key(...)`.
    List { key: String },
    /// `key` alone.
    Path { key: String },
}

/// The mathematical model of a `MetaItem`.
pub enum MetaItemModel {
    NameValue { key: Seq<char>, text: Option<Seq<char>> },
    List { key: Seq<char> },
    Path { key: Seq<char> },
}

impl View for MetaItem {
    type V = MetaItemModel;

    open spec fn view(&self) -> MetaItemModel {
        match self {
            MetaItem::NameValue { key, text } => MetaItemModel::NameValue {
                key: key@,
                text: match text {
                    Some(t) => Some(t@),
                    None => None,
                },
            },
            MetaItem::List { key } => MetaItemModel::List { key: key@ },
            MetaItem::Path { key } => MetaItemModel::Path { key: key@ },
        }
    }
}

/// The models of a sequence of arguments.
pub open spec fn items_model(items: Seq<MetaItem>) -> Seq<MetaItemModel> {
    items.map_values(|item: MetaItem| item@)
}

/// An argument that has no place in its annotation: where it stands among
/// the arguments, and what to tell the author.
#[derive(Debug, PartialEq, Eq)]
pub struct Unexpected {
    pub index: usize,
    pub message: String,
}

/// What the annotation on a provider declares.
#[derive(Debug, PartialEq, Eq)]
pub struct ExtensionMeta {
    pub name: String,
    pub provider_type: String,
}

/// What the annotation on an action declares: its description, and where
/// among the arguments its parameters stand, in order.
#[derive(Debug, PartialEq, Eq)]
pub struct ActionMeta {
    pub description: String,
    pub params: Vec<usize>,
}

/// Whether `item` is `key = ...`.
pub open spec fn sets(item: MetaItemModel, key: Seq<char>) -> bool {
    item matches MetaItemModel::NameValue { key: k, .. } && k == key
}

/// Whether `item` is `key(...)`.
pub open spec fn lists(item: MetaItemModel, key: Seq<char>) -> bool {
    item matches MetaItemModel::List { key: k } && k == key
}

/// The text that the last `key = "..."` among `items` gives, if any does. A
/// value that is no string literal gives none and takes none away.
pub open spec fn last_text(items: Seq<MetaItemModel>, key: Seq<char>) -> Option<Seq<char>>
    decreases items.len(),
{
    if items.len() == 0 {
        None
    } else {
        match items.last() {
            MetaItemModel::NameValue { key: k, text: Some(t) } if k == key => Some(t),
            _ => last_text(items.drop_last(), key),
        }
    }
}

/// Where the `key(...)` arguments stand among `items`, in order.
pub open spec fn positions_of(items: Seq<MetaItemModel>, key: Seq<char>) -> Seq<int>
    decreases items.len(),
{
    if items.len() == 0 {
        Seq::empty()
    } else if lists(items.last(), key) {
        positions_of(items.drop_last(), key).push(items.len() - 1)
    } else {
        positions_of(items.drop_last(), key)
    }
}

/// Whether `item` has a place in the annotation on a provider.
pub open spec fn fits_extension(item: MetaItemModel) -> bool {
    sets(item, "name"@) || sets(item, "provider_type"@)
}

/// Whether `item` has a place in the annotation on an action.
pub open spec fn fits_action(item: MetaItemModel) -> bool {
    sets(item, "description"@) || lists(item, "param"@)
}

/// The text of an optional string, or `fallback` where there is none.
pub open spec fn text_or(text: Option<Seq<char>>, fallback: Seq<char>) -> Seq<char> {
    match text {
        Some(t) => t,
        None => fallback,
    }
}

spec fn held(text: Option<String>) -> Option<Seq<char>> {
    match text {
        Some(t) => Some(t@),
        None => None,
    }
}

proof fn lemma_keys_differ()
    ensures
        "name"@ != "provider_type"@,
{
    reveal_strlit("name");
    reveal_strlit("provider_type");
    assert("name"@.len() == 4);
    assert("provider_type"@.len() == 13);
}

/// Reads the annotation on a provider. Every argument has to be
/// `name = ...` or `provider_type = ...`; the first that is neither is
/// handed back. Of several texts for one key the last counts; a provider
/// without a name has the empty name, and one without a category is of the
/// category `"command"`.
pub fn extension_meta(items: &Vec<MetaItem>) -> (r: Result<ExtensionMeta, Unexpected>)
    ensures
        match r {
            Ok(meta) => {
                &&& forall|j: int| 0 <= j < items.len() ==> fits_extension(#[trigger] items[j]@)
                &&& meta.name@ == text_or(last_text(items_model(items@), "name"@), ""@)
                &&& meta.provider_type@ == text_or(
                    last_text(items_model(items@), "provider_type"@),
                    "command"@,
                )
            },
            Err(unexpected) => {
                &&& unexpected.index < items.len()
                &&& !fits_extension(items[unexpected.index as int]@)
                &&& forall|j: int| 0 <= j < unexpected.index ==> fits_extension(#[trigger] items[j]@)
                &&& unexpected.message@ == "Expected 'name' or 'provider_type'"@
            },
        },
{
    let ghost models = items_model(items@);
    let mut name: Option<String> = None;
    let mut provider_type: Option<String> = None;
    let mut i: usize = 0;
    assert(models.take(0) =~= Seq::<MetaItemModel>::empty());
    while i < items.len()
        invariant
            i <= items.len(),
            models == items_model(items@),
            forall|j: int| 0 <= j < i ==> fits_extension(#[trigger] items[j]@),
            held(name) == last_text(models.take(i as int), "name"@),
            held(provider_type) == last_text(models.take(i as int), "provider_type"@),
        decreases items.len() - i,
    {
        proof {
            lemma_keys_differ();
            assert(models.take(i + 1).drop_last() =~= models.take(i as int));
            assert(models.take(i + 1).last() == items[i as int]@);
        }
        match &items[i] {
            MetaItem::NameValue { key, text } => {
                if same_text(key.as_str(), "name") {
                    match text {
                        Some(t) => {
                            name = Some(t.clone());
                        },
                        None => {},
                    }
                } else if same_text(key.as_str(), "provider_type") {
                    match text {
                        Some(t) => {
                            provider_type = Some(t.clone());
                        },
                        None => {},
                    }
                } else {
                    return Err(
                        Unexpected {
                            index: i,
                            message: "Expected 'name' or 'provider_type'".to_owned(),
                        },
                    );
                }
            },
            _ => {
                return Err(
                    Unexpected {
                        index: i,
                        message: "Expected 'name' or 'provider_type'".to_owned(),
                    },
                );
            },
        }
        i += 1;
    }
    assert(models.take(i as int) =~= models);
    Ok(
        ExtensionMeta {
            name: match name {
                Some(n) => n,
                None => "".to_owned(),
            },
            provider_type: match provider_type {
                Some(p) => p,
                None => "command".to_owned(),
            },
        },
    )
}

/// Reads the annotation on an action. Every argument has to be
/// `description = ...` or `param(...)`; the first that is neither is handed
/// back. Of several descriptions the last counts, and an action without one
/// has the empty description.
pub fn action_meta(items: &Vec<MetaItem>) -> (r: Result<ActionMeta, Unexpected>)
    ensures
        match r {
            Ok(meta) => {
                &&& forall|j: int| 0 <= j < items.len() ==> fits_action(#[trigger] items[j]@)
                &&& meta.description@ == text_or(
                    last_text(items_model(items@), "description"@),
                    ""@,
                )
                &&& meta.params@.map_values(|p: usize| p as int) == positions_of(
                    items_model(items@),
                    "param"@,
                )
            },
            Err(unexpected) => {
                &&& unexpected.index < items.len()
                &&& !fits_action(items[unexpected.index as int]@)
                &&& forall|j: int| 0 <= j < unexpected.index ==> fits_action(#[trigger] items[j]@)
                &&& unexpected.message@ == "Expected 'description' or 'param'"@
            },
        },
{
    let ghost models = items_model(items@);
    let mut description: Option<String> = None;
    let mut params: Vec<usize> = Vec::new();
    let mut i: usize = 0;
    assert(models.take(0) =~= Seq::<MetaItemModel>::empty());
    assert(params@.map_values(|p: usize| p as int) =~= positions_of(models.take(0), "param"@));
    while i < items.len()
        invariant
            i <= items.len(),
            models == items_model(items@),
            forall|j: int| 0 <= j < i ==> fits_action(#[trigger] items[j]@),
            held(description) == last_text(models.take(i as int), "description"@),
            params@.map_values(|p: usize| p as int) == positions_of(
                models.take(i as int),
                "param"@,
            ),
        decreases items.len() - i,
    {
        proof {
            assert(models.take(i + 1).drop_last() =~= models.take(i as int));
            assert(models.take(i + 1).last() == items[i as int]@);
        }
        let ghost before = params@;
        match &items[i] {
            MetaItem::NameValue { key, text } => {
                if same_text(key.as_str(), "description") {
                    match text {
                        Some(t) => {
                            description = Some(t.clone());
                        },
                        None => {},
                    }
                } else {
                    return Err(
                        Unexpected {
                            index: i,
                            message: "Expected 'description' or 'param'".to_owned(),
                        },
                    );
                }
            },
            MetaItem::List { key } => {
                if same_text(key.as_str(), "param") {
                    params.push(i);
                    assert(params@.map_values(|p: usize| p as int) =~= before.map_values(
                        |p: usize| p as int,
                    ).push(i as int));
                } else {
                    return Err(
                        Unexpected {
                            index: i,
                            message: "Expected 'description' or 'param'".to_owned(),
                        },
                    );
                }
            },
            MetaItem::Path { .. } => {
                return Err(
                    Unexpected {
                        index: i,
                        message: "Expected 'description' or 'param'".to_owned(),
                    },
                );
            },
        }
        i += 1;
    }
    assert(models.take(i as int) =~= models);
    Ok(
        ActionMeta {
            description: match description {
                Some(d) => d,
                None => "".to_owned(),
            },
            params,
        },
    )
}

/// `text` without the characters `c` that it begins with.
pub open spec fn strip_leading(text: Seq<char>, c: char) -> Seq<char>
    decreases text.len(),
{
    if text.len() > 0 && text[0] == c {
        strip_leading(text.drop_first(), c)
    } else {
        text
    }
}

/// `text` without the characters `c` that it ends with.
pub open spec fn strip_trailing(text: Seq<char>, c: char) -> Seq<char>
    decreases text.len(),
{
    if text.len() > 0 && text.last() == c {
        strip_trailing(text.drop_last(), c)
    } else {
        text
    }
}

/// `text` without the double quotes around it, however many there are.
pub open spec fn unquoted(text: Seq<char>) -> Seq<char> {
    strip_trailing(strip_leading(text, '"'), '"')
}

/// The description of an action that is annotated with `attribute`: the
/// attribute without the quotes around it, or, for an empty attribute,
/// "Action" and the name of the function.
pub open spec fn action_description_model(function: Seq<char>, attribute: Seq<char>) -> Seq<char> {
    if attribute.len() == 0 {
        "Action "@ + function
    } else {
        unquoted(attribute)
    }
}

/// The parameter that stands for an argument of an annotated function of
/// which only the name is known: a required string.
pub open spec fn plain_parameter_model(argument: Seq<char>) -> ParameterModel {
    ParameterModel {
        name: argument,
        description: "Parameter "@ + argument,
        required: true,
        param_type: ParamType::String,
        default_value: None,
    }
}

/// The parameters that stand for the arguments of an annotated function;
/// the receiver `self` is none of them.
pub open spec fn plain_parameters_model(arguments: Seq<Seq<char>>) -> Seq<ParameterModel> {
    arguments.filter(|a: Seq<char>| a != "self"@).map_values(
        |a: Seq<char>| plain_parameter_model(a),
    )
}

proof fn lemma_plain_parameters_push(arguments: Seq<Seq<char>>, last: Seq<char>)
    ensures
        plain_parameters_model(arguments.push(last)) == if last != "self"@ {
            plain_parameters_model(arguments).push(plain_parameter_model(last))
        } else {
            plain_parameters_model(arguments)
        },
{
    reveal(Seq::filter);
    assert(arguments.push(last).drop_last() =~= arguments);
    if last != "self"@ {
        assert(plain_parameters_model(arguments.push(last)) =~= plain_parameters_model(
            arguments,
        ).push(plain_parameter_model(last)));
    }
}

/// `text` without the double quotes around it.
pub fn unquote(text: &str) -> (r: &str)
    ensures
        r@ == unquoted(text@),
{
    let n = text.unicode_len();
    let mut start: usize = 0;
    assert(text@.subrange(0, n as int) =~= text@);
    while start < n && text.get_char(start) == '"'
        invariant
            start <= n,
            n == text@.len(),
            strip_leading(text@, '"') == strip_leading(text@.subrange(start as int, n as int), '"'),
        decreases n - start,
    {
        proof {
            let rest = text@.subrange(start as int, n as int);
            assert(rest.drop_first() =~= text@.subrange(start + 1, n as int));
        }
        start += 1;
    }
    let ghost rest = text@.subrange(start as int, n as int);
    assert(strip_leading(text@, '"') == rest);
    let mut end: usize = n;
    while end > start && text.get_char(end - 1) == '"'
        invariant
            start <= end <= n,
            n == text@.len(),
            rest == text@.subrange(start as int, n as int),
            strip_trailing(rest, '"') == strip_trailing(
                text@.subrange(start as int, end as int),
                '"',
            ),
        decreases end - start,
    {
        proof {
            let kept = text@.subrange(start as int, end as int);
            assert(kept.drop_last() =~= text@.subrange(start as int, end - 1));
        }
        end -= 1;
    }
    text.substring_char(start, end)
}

/// The description of an action that is annotated with `attribute`.
pub fn action_description(function: &str, attribute: &str) -> (r: String)
    ensures
        r@ == action_description_model(function@, attribute@),
{
    if attribute.is_empty() {
        let mut description = String::from_str("Action ");
        description.append(function);
        description
    } else {
        unquote(attribute).to_owned()
    }
}

/// The name of the function that hands out the schema of the action
/// `function`.
pub fn metadata_function_name(function: &str) -> (r: String)
    ensures
        r@ == function@ + "_metadata"@,
{
    let mut name = function.to_owned();
    name.append("_metadata");
    name
}

/// The schema of an action of which only the function, its attribute and
/// the names of its arguments are known: it is called as the function is,
/// and every argument but the receiver is a required string.
pub fn action_definition(function: &str, attribute: &str, arguments: &[&str]) -> (r:
    ActionDefinition)
    ensures
        r@.name == function@,
        r@.description == action_description_model(function@, attribute@),
        r@.parameters == plain_parameters_model(names_in(arguments@)),
{
    let ghost names = names_in(arguments@);
    let mut parameters: Vec<ActionParameter> = Vec::new();
    let mut i: usize = 0;
    proof {
        reveal(Seq::filter);
        assert(names.take(0) =~= Seq::<Seq<char>>::empty());
        assert(parameters@.map_values(|p: ActionParameter| p@) =~= plain_parameters_model(
            names.take(0),
        ));
    }
    while i < arguments.len()
        invariant
            i <= arguments.len(),
            names == names_in(arguments@),
            parameters@.map_values(|p: ActionParameter| p@) == plain_parameters_model(
                names.take(i as int),
            ),
        decreases arguments.len() - i,
    {
        proof {
            assert(names.take(i + 1) =~= names.take(i as int).push(arguments[i as int]@));
            lemma_plain_parameters_push(names.take(i as int), arguments[i as int]@);
        }
        let ghost before = parameters@;
        if !same_text(arguments[i], "self") {
            let mut description = String::from_str("Parameter ");
            description.append(arguments[i]);
            parameters.push(
                ActionParameter::required(arguments[i], description.as_str(), ParamType::String),
            );
            assert(parameters@.map_values(|p: ActionParameter| p@) =~= before.map_values(
                |p: ActionParameter| p@,
            ).push(plain_parameter_model(arguments[i as int]@)));
        }
        i += 1;
    }
    assert(names.take(i as int) =~= names);
    ActionDefinition {
        name: function.to_owned(),
        description: action_description(function, attribute),
        parameters,
    }
}

/// The parameter that `param(name, "description", Type, flag)` declares,
/// with the default that a fifth argument gives: it is required where the
/// flag is `required`, and optional for any other flag.
pub fn declared_parameter(
    name: &str,
    description: &str,
    param_type: ParamType,
    flag: &str,
    default_value: Option<Value>,
) -> (r: ActionParameter)
    ensures
        r@ == (ParameterModel {
            name: name@,
            description: description@,
            required: flag@ == "required"@,
            param_type,
            default_value: match default_value {
                Some(v) => Some(v@),
                None => None,
            },
        }),
{
    ActionParameter {
        name: name.to_owned(),
        description: description.to_owned(),
        required: same_text(flag, "required"),
        param_type,
        default_value,
    }
}

} // verus!
