//! The actions of one provider: their schemas by name, and the decision
//! whether an invocation reaches its handler.

use crate::schema::{
    lemma_required_names_push, required_names_of, ActionDefinition, DefinitionModel,
    ParameterModel,
};
use crate::text::{lemma_mentions_middle, lemma_mentions_within, mentions};
use crate::validation::{law_presence_iff_all_held, presence_outcome, validate_params};
use crate::value::{ArgumentMap, Json};
use vstd::prelude::*;
use vstd::string::*;

verus! {

/// The message for an action that the provider does not offer.
pub open spec fn not_found_message(action: Seq<char>) -> Seq<char> {
    "Action '"@ + action + "' not found"@
}

/// Whether an invocation reaches its handler: the schema of the action
/// where it does, else the message that the caller gets. An action is looked
/// up by its name, and what it requires has to be there; the kinds of the
/// arguments are the handler's to check.
pub open spec fn resolution(
    actions: Map<Seq<char>, DefinitionModel>,
    action: Seq<char>,
    args: Map<Seq<char>, Json>,
) -> Result<DefinitionModel, Seq<char>> {
    if !actions.contains_key(action) {
        Err(not_found_message(action))
    } else {
        match presence_outcome(args, actions[action].required_names()) {
            Ok(()) => Ok(actions[action]),
            Err(message) => Err(message),
        }
    }
}

/// The schemas of a provider's actions, by action name. No name occurs
/// twice.
pub struct ActionRegistry {
    definitions: Vec<ActionDefinition>,
}

/// The mapping that a sequence of definitions builds up, one by one.
spec fn definitions_model(definitions: Seq<ActionDefinition>) -> Map<Seq<char>, DefinitionModel>
    decreases definitions.len(),
{
    if definitions.len() == 0 {
        Map::empty()
    } else {
        definitions_model(definitions.drop_last()).insert(
            definitions.last().name@,
            definitions.last()@,
        )
    }
}

/// The names of a sequence of definitions, in order.
spec fn action_names(definitions: Seq<ActionDefinition>) -> Seq<Seq<char>> {
    Seq::new(definitions.len(), |i: int| definitions[i].name@)
}

/// What `definitions_model` yields in terms of the definitions.
proof fn lemma_definitions_model(definitions: Seq<ActionDefinition>)
    ensures
        definitions_model(definitions).dom() =~= action_names(definitions).to_set(),
        forall|name: Seq<char>| #[trigger]
            definitions_model(definitions).contains_key(name) ==> definitions_model(
                definitions,
            )[name].name == name,
        action_names(definitions).no_duplicates() ==> forall|i: int|
            0 <= i < definitions.len() ==> definitions_model(definitions)[#[trigger] action_names(
                definitions,
            )[i]] == definitions[i]@,
    decreases definitions.len(),
{
    if definitions.len() > 0 {
        let front = definitions.drop_last();
        let last = definitions.last();
        let n = front.len() as int;
        let names = action_names(definitions);
        lemma_definitions_model(front);
        assert(action_names(front) =~= names.drop_last());
        assert(names[n] == last.name@);
        assert(definitions_model(definitions) == definitions_model(front).insert(
            last.name@,
            last@,
        ));
        assert forall|k: Seq<char>| definitions_model(definitions).dom().contains(
            k,
        ) implies names.contains(k) by {
            if k != last.name@ {
                assert(action_names(front).contains(k));
                let i = choose|i: int| 0 <= i < n && action_names(front)[i] == k;
                assert(names[i] == k);
            }
        }
        assert forall|k: Seq<char>| names.contains(k) implies definitions_model(
            definitions,
        ).dom().contains(k) by {
            let i = choose|i: int| 0 <= i < names.len() && names[i] == k;
            if i < n {
                assert(action_names(front)[i] == k);
                assert(action_names(front).contains(k));
            }
        }
        if names.no_duplicates() {
            assert forall|i: int| 0 <= i < definitions.len() implies definitions_model(
                definitions,
            )[#[trigger] names[i]] == definitions[i]@ by {
                if i < n {
                    assert(action_names(front)[i] == names[i]);
                    assert(names[i] != names[n]);
                    assert(front[i] == definitions[i]);
                }
            }
        }
    }
}

impl View for ActionRegistry {
    type V = Map<Seq<char>, DefinitionModel>;

    /// The schema of each action, by its name.
    closed spec fn view(&self) -> Map<Seq<char>, DefinitionModel> {
        definitions_model(self.definitions@)
    }
}

/// The message for an action that the provider does not offer.
pub fn not_found(action: &str) -> (message: String)
    ensures
        message@ == not_found_message(action@),
{
    let mut message = String::from_str("Action '");
    message.append(action);
    message.append("' not found");
    message
}

impl ActionRegistry {
    #[verifier::type_invariant]
    spec fn names_are_distinct(self) -> bool {
        action_names(self.definitions@).no_duplicates()
    }

    /// The names of the actions, in the order in which they were first
    /// registered.
    pub closed spec fn names(&self) -> Seq<Seq<char>> {
        action_names(self.definitions@)
    }

    /// A registry without actions.
    pub fn new() -> (r: Self)
        ensures
            r@ == Map::<Seq<char>, DefinitionModel>::empty(),
            r.names() == Seq::<Seq<char>>::empty(),
    {
        let r = ActionRegistry { definitions: Vec::new() };
        assert(r.names() =~= Seq::<Seq<char>>::empty());
        r
    }

    /// Where the definition of `action` stands, if there is one.
    fn position(&self, action: &str) -> (r: Option<usize>)
        ensures
            match r {
                Some(i) => i < self.definitions.len() && action_names(self.definitions@)[i as int]
                    == action@,
                None => !action_names(self.definitions@).contains(action@),
            },
    {
        let wanted = action.to_owned();
        let mut i: usize = 0;
        while i < self.definitions.len()
            invariant
                i <= self.definitions.len(),
                wanted@ == action@,
                forall|j: int| 0 <= j < i ==> action_names(self.definitions@)[j] != action@,
            decreases self.definitions.len() - i,
        {
            if self.definitions[i].name == wanted {
                return Some(i);
            }
            i += 1;
        }
        None
    }

    /// Registers `definition` under its name, in place of what the name
    /// stood for before, and hands that back if there was any. A name that
    /// is new comes last; one that was there keeps its place.
    pub fn register(&mut self, definition: ActionDefinition) -> (previous: Option<
        ActionDefinition,
    >)
        ensures
            final(self)@ == old(self)@.insert(definition@.name, definition@),
            match previous {
                Some(p) => old(self)@.contains_key(definition@.name) && p@ == old(
                    self,
                )@[definition@.name],
                None => !old(self)@.contains_key(definition@.name),
            },
            final(self).names() == if old(self)@.contains_key(definition@.name) {
                old(self).names()
            } else {
                old(self).names().push(definition@.name)
            },
    {
        proof {
            use_type_invariant(&*self);
            lemma_definitions_model(self.definitions@);
        }
        let ghost before = self.definitions@;
        let ghost name = definition.name@;
        let found = self.position(definition.name.as_str());
        let mut definitions: Vec<ActionDefinition> = Vec::new();
        assert(action_names(definitions@) =~= Seq::<Seq<char>>::empty());
        std::mem::swap(&mut self.definitions, &mut definitions);
        match found {
            Some(i) => {
                let replaced = definitions.remove(i);
                definitions.insert(i, definition);
                proof {
                    let after = definitions@;
                    assert(after =~= before.update(i as int, definition));
                    assert(action_names(after) =~= action_names(before));
                    lemma_definitions_model(after);
                    assert forall|k: Seq<char>| #[trigger]
                        definitions_model(after).contains_key(k) implies definitions_model(
                        after,
                    )[k] == definitions_model(before).insert(name, definition@)[k] by {
                        let j = choose|j: int|
                            0 <= j < after.len() && action_names(after)[j] == k;
                        assert(definitions_model(after)[action_names(after)[j]] == after[j]@);
                        if j != i {
                            assert(definitions_model(before)[action_names(before)[j]]
                                == before[j]@);
                        }
                    }
                    assert(definitions_model(after) =~= definitions_model(before).insert(
                        name,
                        definition@,
                    ));
                    assert(definitions_model(before)[action_names(before)[i as int]]
                        == before[i as int]@);
                }
                self.definitions = definitions;
                Some(replaced)
            },
            None => {
                definitions.push(definition);
                proof {
                    let after = definitions@;
                    assert(after.drop_last() =~= before);
                    assert(action_names(after) =~= action_names(before).push(name));
                }
                self.definitions = definitions;
                None
            },
        }
    }

    /// The names of all actions, in the order of `names`. No name is given
    /// twice, and the names are those that the registry maps.
    pub fn list_actions(&self) -> (r: Vec<String>)
        ensures
            r@.map_values(|name: String| name@) == self.names(),
            self.names().no_duplicates(),
            self.names().to_set() == self@.dom(),
    {
        proof {
            use_type_invariant(self);
            lemma_definitions_model(self.definitions@);
        }
        let mut names: Vec<String> = Vec::new();
        let mut i: usize = 0;
        while i < self.definitions.len()
            invariant
                i <= self.definitions.len(),
                names.len() == i,
                forall|j: int| 0 <= j < i ==> names@[j]@ == self.definitions@[j].name@,
            decreases self.definitions.len() - i,
        {
            names.push(self.definitions[i].name.clone());
            i += 1;
        }
        assert(names@.map_values(|name: String| name@) =~= self.names());
        names
    }

    /// The schema of the action called `action`, if there is one.
    pub fn definition(&self, action: &str) -> (r: Option<&ActionDefinition>)
        ensures
            match r {
                Some(definition) => self@.contains_key(action@) && definition@ == self@[action@]
                    && definition@.name == action@,
                None => !self@.contains_key(action@),
            },
    {
        proof {
            use_type_invariant(self);
            lemma_definitions_model(self.definitions@);
        }
        match self.position(action) {
            Some(i) => Some(&self.definitions[i]),
            None => None,
        }
    }

    /// A copy of the schema of the action called `action`, if there is one.
    pub fn get_action_definition(&self, action: &str) -> (r: Option<ActionDefinition>)
        ensures
            match r {
                Some(definition) => self@.contains_key(action@) && definition@ == self@[action@]
                    && definition@.name == action@,
                None => !self@.contains_key(action@),
            },
    {
        match self.definition(action) {
            Some(definition) => Some(definition.clone()),
            None => None,
        }
    }

    /// Decides whether an invocation reaches its handler, and says why not
    /// where it does not.
    pub fn resolve(&self, action: &str, params: &ArgumentMap) -> (r: Result<
        &ActionDefinition,
        String,
    >)
        ensures
            match resolution(self@, action@, params@) {
                Ok(schema) => r matches Ok(definition) && definition@ == schema,
                Err(message) => r matches Err(e) && e@ == message,
            },
    {
        match self.definition(action) {
            None => Err(not_found(action)),
            Some(definition) => {
                let required = definition.required_parameters();
                match validate_params(params, required.as_slice()) {
                    Ok(()) => Ok(definition),
                    Err(message) => Err(message),
                }
            },
        }
    }

    /// Every name that `list_actions` gives stands for a schema of that
    /// name, and the registry maps no other name.
    pub proof fn law_listed_actions_have_schemas(self)
        ensures
            self.names().to_set() == self@.dom(),
            forall|i: int|
                0 <= i < self.names().len() ==> self@.contains_key(#[trigger] self.names()[i])
                    && self@[self.names()[i]].name == self.names()[i],
            forall|name: Seq<char>| #[trigger]
                self@.contains_key(name) ==> self.names().contains(name) && self@[name].name
                    == name,
    {
        lemma_definitions_model(self.definitions@);
        assert forall|i: int| 0 <= i < self.names().len() implies self@.contains_key(
            #[trigger] self.names()[i],
        ) by {
            assert(self.names().contains(self.names()[i]));
        }
    }

    /// An action that `list_actions` does not give has no schema, and an
    /// invocation of it ends in the message that says so and names it,
    /// whatever the arguments.
    pub proof fn law_unlisted_action_is_not_found(
        self,
        action: Seq<char>,
        args: Map<Seq<char>, Json>,
    )
        requires
            !self.names().contains(action),
        ensures
            !self@.contains_key(action),
            resolution(self@, action, args) == Err::<DefinitionModel, Seq<char>>(
                not_found_message(action),
            ),
            mentions(not_found_message(action), "not found"@),
            mentions(not_found_message(action), action),
    {
        self.law_listed_actions_have_schemas();
        lemma_not_found_message(action);
    }
}

/// A "not found" message says so, and names the action.
pub proof fn lemma_not_found_message(action: Seq<char>)
    ensures
        mentions(not_found_message(action), "not found"@),
        mentions(not_found_message(action), action),
{
    reveal_strlit("' not found");
    reveal_strlit("not found");
    let tail = "' not found"@;
    assert(tail.subrange(2, 2 + "not found"@.len() as int) =~= "not found"@);
    assert(mentions(tail, "not found"@));
    lemma_mentions_within("Action '"@ + action, tail, Seq::empty(), "not found"@);
    assert("Action '"@ + action + tail + Seq::<char>::empty() =~= not_found_message(action));
    lemma_mentions_middle("Action '"@, action, tail);
}

/// Whether `name` is the name of a required one of `parameters`.
spec fn names_required_parameter(parameters: Seq<ParameterModel>, name: Seq<char>) -> bool {
    exists|i: int|
        0 <= i < parameters.len() && (#[trigger] parameters[i]).required && parameters[i].name
            == name
}

/// Each of the required names is the name of a required parameter.
proof fn lemma_required_names_are_required(parameters: Seq<ParameterModel>)
    ensures
        forall|k: int|
            0 <= k < required_names_of(parameters).len() ==> names_required_parameter(
                parameters,
                #[trigger] required_names_of(parameters)[k],
            ),
    decreases parameters.len(),
{
    if parameters.len() == 0 {
        reveal(Seq::filter);
    } else {
        let front = parameters.drop_last();
        let last = parameters.last();
        lemma_required_names_are_required(front);
        lemma_required_names_push(front, last);
        assert(front.push(last) =~= parameters);
        assert forall|k: int|
            0 <= k < required_names_of(parameters).len() implies names_required_parameter(
            parameters,
            #[trigger] required_names_of(parameters)[k],
        ) by {
            if k < required_names_of(front).len() {
                assert(names_required_parameter(front, required_names_of(front)[k]));
                let i = choose|i: int|
                    0 <= i < front.len() && (#[trigger] front[i]).required && front[i].name
                        == required_names_of(front)[k];
                assert(parameters[i] == front[i]);
            } else {
                assert(parameters[parameters.len() - 1] == last);
            }
        }
    }
}

/// An invocation of a known action with arguments that meet its schema
/// reaches the handler: it ends neither in "not found" nor in "not
/// provided".
pub proof fn law_conforming_invocation_reaches_handler(
    actions: Map<Seq<char>, DefinitionModel>,
    action: Seq<char>,
    args: Map<Seq<char>, Json>,
)
    requires
        actions.contains_key(action),
        actions[action].conforms(args),
    ensures
        resolution(actions, action, args) == Ok::<DefinitionModel, Seq<char>>(actions[action]),
{
    let schema = actions[action];
    let required = schema.required_names();
    lemma_required_names_are_required(schema.parameters);
    assert forall|k: int| 0 <= k < required.len() implies args.contains_key(
        #[trigger] required[k],
    ) by {
        assert(names_required_parameter(schema.parameters, required[k]));
        let i = choose|i: int|
            0 <= i < schema.parameters.len() && (#[trigger] schema.parameters[i]).required
                && schema.parameters[i].name == required[k];
        assert(schema.parameters[i].met_by(args));
    }
    law_presence_iff_all_held(args, required);
}

/// An invocation reaches the handler if and only if the action is known and
/// the arguments hold every parameter that its schema requires.
pub proof fn law_resolution(
    actions: Map<Seq<char>, DefinitionModel>,
    action: Seq<char>,
    args: Map<Seq<char>, Json>,
)
    ensures
        resolution(actions, action, args) is Ok <==> actions.contains_key(action) && forall|
            i: int,
        |
            0 <= i < actions[action].required_names().len() ==> args.contains_key(
                #[trigger] actions[action].required_names()[i],
            ),
        resolution(actions, action, args) matches Ok(schema) ==> schema == actions[action],
{
    if actions.contains_key(action) {
        law_presence_iff_all_held(args, actions[action].required_names());
    }
}

} // verus!
