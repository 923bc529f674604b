//! The schema of an action: its name, and the parameters it takes.

use crate::text::names_in;
use crate::value::{ArgumentMap, Json, Value};
use vstd::prelude::*;

verus! {

/// How an argument is type-checked.
#[derive(Debug, Clone, Copy, PartialEq, Eq)]
pub enum ParamType {
    String,
    Number,
    Boolean,
    Object,
    Array,
}

/// One formal parameter of an action.
///
/// `default_value` is documentation: nothing in this library puts it into an
/// argument map.
#[derive(Debug, PartialEq, Eq)]
pub struct ActionParameter {
    pub name: String,
    pub description: String,
    pub required: bool,
    pub param_type: ParamType,
    pub default_value: Option<Value>,
}

/// One named action and its parameters, in the order in which they are
/// documented.
#[derive(Debug, PartialEq, Eq)]
pub struct ActionDefinition {
    pub name: String,
    pub description: String,
    pub parameters: Vec<ActionParameter>,
}

/// The mathematical model of an `ActionParameter`.
pub struct ParameterModel {
    pub name: Seq<char>,
    pub description: Seq<char>,
    pub required: bool,
    pub param_type: ParamType,
    pub default_value: Option<Json>,
}

/// The mathematical model of an `ActionDefinition`.
pub struct DefinitionModel {
    pub name: Seq<char>,
    pub description: Seq<char>,
    pub parameters: Seq<ParameterModel>,
}

impl ParamType {
    /// Whether a value passes as an argument of this type: an object or an
    /// array whatever it holds, a number whether integral or floating.
    pub open spec fn allows(self, value: Json) -> bool {
        match self {
            ParamType::String => value is String,
            ParamType::Number => value is Int || value is Float,
            ParamType::Boolean => value is Bool,
            ParamType::Object => value is Object,
            ParamType::Array => value is Array,
        }
    }

    /// Whether `value` passes as an argument of this type.
    pub fn accepts(&self, value: &Value) -> (r: bool)
        ensures
            r == self.allows(value@),
    {
        match self {
            ParamType::String => value.is_string(),
            ParamType::Number => value.is_number(),
            ParamType::Boolean => value.is_boolean(),
            ParamType::Object => value.is_object(),
            ParamType::Array => value.is_array(),
        }
    }
}

impl ParameterModel {
    /// Whether `args` meets this parameter: an argument of that name has
    /// the parameter's type, and a required parameter has an argument.
    pub open spec fn met_by(self, args: Map<Seq<char>, Json>) -> bool {
        if args.contains_key(self.name) {
            self.param_type.allows(args[self.name])
        } else {
            !self.required
        }
    }
}

impl DefinitionModel {
    /// Whether no two parameters share a name.
    pub open spec fn well_formed(self) -> bool {
        forall|i: int, j: int|
            0 <= i < j < self.parameters.len() ==> self.parameters[i].name
                != self.parameters[j].name
    }

    /// The names of the required parameters, in the order of the schema.
    pub open spec fn required_names(self) -> Seq<Seq<char>> {
        required_names_of(self.parameters)
    }

    /// Whether `args` meets every parameter of the schema. Arguments that
    /// the schema does not declare are of no account.
    pub open spec fn conforms(self, args: Map<Seq<char>, Json>) -> bool {
        forall|i: int| 0 <= i < self.parameters.len() ==> (#[trigger] self.parameters[i]).met_by(args)
    }
}

/// The names of those of `parameters` that are required, in order.
pub open spec fn required_names_of(parameters: Seq<ParameterModel>) -> Seq<Seq<char>> {
    parameters.filter(|p: ParameterModel| p.required).map_values(|p: ParameterModel| p.name)
}

/// A required parameter adds its name at the end; another adds nothing.
pub proof fn lemma_required_names_push(parameters: Seq<ParameterModel>, last: ParameterModel)
    ensures
        required_names_of(parameters.push(last)) == if last.required {
            required_names_of(parameters).push(last.name)
        } else {
            required_names_of(parameters)
        },
{
    reveal(Seq::filter);
    assert(parameters.push(last).drop_last() =~= parameters);
    if last.required {
        assert(required_names_of(parameters.push(last)) =~= required_names_of(parameters).push(
            last.name,
        ));
    }
}

impl View for ActionParameter {
    type V = ParameterModel;

    open spec fn view(&self) -> ParameterModel {
        ParameterModel {
            name: self.name@,
            description: self.description@,
            required: self.required,
            param_type: self.param_type,
            default_value: match self.default_value {
                Some(v) => Some(v@),
                None => None,
            },
        }
    }
}

impl View for ActionDefinition {
    type V = DefinitionModel;

    open spec fn view(&self) -> DefinitionModel {
        DefinitionModel {
            name: self.name@,
            description: self.description@,
            parameters: self.parameters@.map_values(|p: ActionParameter| p@),
        }
    }
}

impl Clone for ActionParameter {
    fn clone(&self) -> (r: Self)
        ensures
            r@ == self@,
    {
        ActionParameter {
            name: self.name.clone(),
            description: self.description.clone(),
            required: self.required,
            param_type: self.param_type,
            default_value: match &self.default_value {
                Some(v) => Some(v.clone()),
                None => None,
            },
        }
    }
}

impl Clone for ActionDefinition {
    fn clone(&self) -> (r: Self)
        ensures
            r@ == self@,
    {
        let mut parameters: Vec<ActionParameter> = Vec::new();
        let mut i: usize = 0;
        while i < self.parameters.len()
            invariant
                i <= self.parameters.len(),
                parameters.len() == i,
                forall|j: int| 0 <= j < i ==> parameters@[j]@ == self.parameters@[j]@,
            decreases self.parameters.len() - i,
        {
            parameters.push(self.parameters[i].clone());
            i += 1;
        }
        let r = ActionDefinition {
            name: self.name.clone(),
            description: self.description.clone(),
            parameters,
        };
        assert(r@.parameters =~= self@.parameters);
        r
    }
}

impl ActionParameter {
    /// A parameter that every invocation has to supply.
    pub fn required(name: &str, description: &str, param_type: ParamType) -> (r: Self)
        ensures
            r@ == (ParameterModel {
                name: name@,
                description: description@,
                required: true,
                param_type,
                default_value: None,
            }),
    {
        ActionParameter {
            name: name.to_owned(),
            description: description.to_owned(),
            required: true,
            param_type,
            default_value: None,
        }
    }

    /// A parameter that an invocation may leave out, without a documented
    /// default.
    pub fn optional(name: &str, description: &str, param_type: ParamType) -> (r: Self)
        ensures
            r@ == (ParameterModel {
                name: name@,
                description: description@,
                required: false,
                param_type,
                default_value: None,
            }),
    {
        ActionParameter {
            name: name.to_owned(),
            description: description.to_owned(),
            required: false,
            param_type,
            default_value: None,
        }
    }

    /// A parameter that an invocation may leave out, with the default that
    /// the schema documents for it.
    pub fn optional_with_default(
        name: &str,
        description: &str,
        param_type: ParamType,
        default_value: Value,
    ) -> (r: Self)
        ensures
            r@ == (ParameterModel {
                name: name@,
                description: description@,
                required: false,
                param_type,
                default_value: Some(default_value@),
            }),
    {
        ActionParameter {
            name: name.to_owned(),
            description: description.to_owned(),
            required: false,
            param_type,
            default_value: Some(default_value),
        }
    }

    /// Whether `args` meets this parameter.
    pub fn accepts(&self, args: &ArgumentMap) -> (r: bool)
        ensures
            r == self@.met_by(args@),
    {
        match args.get(self.name.as_str()) {
            Some(value) => self.param_type.accepts(value),
            None => !self.required,
        }
    }
}

impl ActionDefinition {
    /// The first parameter called `name`, if there is one.
    pub fn parameter(&self, name: &str) -> (r: Option<&ActionParameter>)
        ensures
            match r {
                Some(p) => exists|i: int|
                    0 <= i < self@.parameters.len() && #[trigger] self@.parameters[i] == p@
                        && p@.name == name@ && forall|j: int|
                        0 <= j < i ==> (#[trigger] self@.parameters[j]).name != name@,
                None => forall|i: int|
                    0 <= i < self@.parameters.len() ==> (#[trigger] self@.parameters[i]).name
                        != name@,
            },
    {
        let wanted = name.to_owned();
        let mut i: usize = 0;
        while i < self.parameters.len()
            invariant
                i <= self.parameters.len(),
                wanted@ == name@,
                forall|j: int| 0 <= j < i ==> (#[trigger] self@.parameters[j]).name != name@,
            decreases self.parameters.len() - i,
        {
            if self.parameters[i].name == wanted {
                assert(self@.parameters[i as int] == self.parameters[i as int]@);
                return Some(&self.parameters[i]);
            }
            i += 1;
        }
        None
    }

    /// The names of the required parameters, in the order of the schema.
    pub fn required_parameters(&self) -> (r: Vec<&str>)
        ensures
            names_in(r@) == self@.required_names(),
    {
        let mut names: Vec<&str> = Vec::new();
        let mut i: usize = 0;
        let ghost models = self@.parameters;
        assert(models.take(0) =~= Seq::<ParameterModel>::empty());
        assert(names_in(names@) =~= required_names_of(models.take(0)));
        while i < self.parameters.len()
            invariant
                i <= self.parameters.len(),
                models == self@.parameters,
                names_in(names@) == required_names_of(models.take(i as int)),
            decreases self.parameters.len() - i,
        {
            proof {
                assert(models.take(i + 1) =~= models.take(i as int).push(
                    self.parameters[i as int]@,
                ));
                lemma_required_names_push(models.take(i as int), self.parameters[i as int]@);
            }
            let ghost before = names@;
            if self.parameters[i].required {
                names.push(self.parameters[i].name.as_str());
                assert(names_in(names@) =~= names_in(before).push(self.parameters[i as int].name@));
            }
            i += 1;
        }
        assert(models.take(i as int) =~= models);
        names
    }

    /// Whether no two parameters share a name.
    pub fn is_well_formed(&self) -> (r: bool)
        ensures
            r == self@.well_formed(),
    {
        let mut j: usize = 0;
        while j < self.parameters.len()
            invariant
                j <= self.parameters.len(),
                forall|a: int, b: int|
                    0 <= a < b < j ==> self@.parameters[a].name != self@.parameters[b].name,
            decreases self.parameters.len() - j,
        {
            let mut i: usize = 0;
            while i < j
                invariant
                    i <= j < self.parameters.len(),
                    forall|a: int|
                        0 <= a < i ==> self@.parameters[a].name != self@.parameters[j as int].name,
                decreases j - i,
            {
                if self.parameters[i].name == self.parameters[j].name {
                    assert(self@.parameters[i as int].name == self@.parameters[j as int].name);
                    return false;
                }
                i += 1;
            }
            j += 1;
        }
        true
    }

    /// Whether `args` meets every parameter of the schema.
    pub fn accepts(&self, args: &ArgumentMap) -> (r: bool)
        ensures
            r == self@.conforms(args@),
    {
        let mut i: usize = 0;
        while i < self.parameters.len()
            invariant
                i <= self.parameters.len(),
                forall|j: int| 0 <= j < i ==> (#[trigger] self@.parameters[j]).met_by(args@),
            decreases self.parameters.len() - i,
        {
            if !self.parameters[i].accepts(args) {
                assert(self@.parameters[i as int] == self.parameters[i as int]@);
                return false;
            }
            assert(self@.parameters[i as int] == self.parameters[i as int]@);
            i += 1;
        }
        true
    }
}

} // verus!
