//! A provider made of a registry of schemas and one handler that performs
//! the actions.

use crate::extension::{ActionResult, CpiExtension};
use crate::registry::{resolution, ActionRegistry};
use crate::schema::{ActionDefinition, DefinitionModel};
use crate::value::{ArgumentMap, Json};
use vstd::prelude::*;

verus! {

/// Whether `handler` may be called with every invocation that reaches it:
/// a known action, with all the arguments that its schema requires.
pub open spec fn handles<H: Fn(&str, &ArgumentMap) -> ActionResult>(
    handler: H,
    actions: Map<Seq<char>, DefinitionModel>,
) -> bool {
    forall|action: &str, params: &ArgumentMap|
        resolution(actions, action@, params@) is Ok ==> call_requires(handler, (action, params))
}

/// What an outcome stands for: the value of a success, or the message of
/// a failure.
pub open spec fn outcome_model(result: ActionResult) -> Result<Json, Seq<char>> {
    match result {
        Ok(value) => Ok(value@),
        Err(message) => Err(message@),
    }
}

/// Whether `result` may come of an invocation: where the invocation
/// reaches the handler, what the handler may answer to the very action and
/// arguments that were given; otherwise the message that says why it did
/// not.
pub open spec fn executes<H: Fn(&str, &ArgumentMap) -> ActionResult>(
    actions: Map<Seq<char>, DefinitionModel>,
    handler: H,
    action: &str,
    params: &ArgumentMap,
    result: ActionResult,
) -> bool {
    match resolution(actions, action@, params@) {
        Ok(_) => call_ensures(handler, (action, params), result),
        Err(message) => result matches Err(e) && e@ == message,
    }
}

/// With a handler whose answer depends on nothing but the action and the
/// arguments, two executions of one invocation end alike, whichever comes
/// first and whatever was executed in between.
pub proof fn law_same_invocation_same_outcome<H: Fn(&str, &ArgumentMap) -> ActionResult>(
    actions: Map<Seq<char>, DefinitionModel>,
    handler: H,
    action: &str,
    params: &ArgumentMap,
    first: ActionResult,
    second: ActionResult,
)
    requires
        executes(actions, handler, action, params, first),
        executes(actions, handler, action, params, second),
        forall|a: ActionResult, b: ActionResult|
            call_ensures(handler, (action, params), a) && call_ensures(
                handler,
                (action, params),
                b,
            ) ==> outcome_model(a) == outcome_model(b),
    ensures
        outcome_model(first) == outcome_model(second),
{
}

/// A provider whose actions are those of a registry, built once and read
/// only thereafter. Its handler is given the name of the action and the
/// arguments, after both have passed.
pub struct Provider<H: Fn(&str, &ArgumentMap) -> ActionResult> {
    name: String,
    provider_type: String,
    registry: ActionRegistry,
    handler: H,
}

impl<H: Fn(&str, &ArgumentMap) -> ActionResult> Provider<H> {
    #[verifier::type_invariant]
    spec fn handler_takes_what_passes(self) -> bool {
        handles(self.handler, self.registry@)
    }

    /// The identifier that the provider was made with.
    pub closed spec fn identifier(&self) -> Seq<char> {
        self.name@
    }

    /// The category that the provider was made with.
    pub closed spec fn category(&self) -> Seq<char> {
        self.provider_type@
    }

    /// The registry that the provider was made with.
    pub closed spec fn registry(&self) -> ActionRegistry {
        self.registry
    }

    /// The handler that the provider was made with.
    pub closed spec fn handler(&self) -> H {
        self.handler
    }

    /// A provider called `name`, of the category `provider_type`, that
    /// offers the actions of `registry` and performs them with `handler`.
    pub fn new(name: &str, provider_type: &str, registry: ActionRegistry, handler: H) -> (r: Self)
        requires
            handles(handler, registry@),
        ensures
            r.identifier() == name@,
            r.category() == provider_type@,
            r.registry() == registry,
            r.handler() == handler,
    {
        Provider {
            name: name.to_owned(),
            provider_type: provider_type.to_owned(),
            registry,
            handler,
        }
    }
}

impl<H: Fn(&str, &ArgumentMap) -> ActionResult + Send + Sync> CpiExtension for Provider<H> {
    fn name(&self) -> (r: &str)
        ensures
            r@ == self.identifier(),
    {
        self.name.as_str()
    }

    fn provider_type(&self) -> (r: &str)
        ensures
            r@ == self.category(),
    {
        self.provider_type.as_str()
    }

    /// The names of the registry, in its order.
    fn list_actions(&self) -> (r: Vec<String>)
        ensures
            r@.map_values(|name: String| name@) == self.registry().names(),
            self.registry().names().no_duplicates(),
            self.registry().names().to_set() == self.registry()@.dom(),
    {
        self.registry.list_actions()
    }

    /// A copy of the schema that the registry holds for `action`.
    fn get_action_definition(&self, action: &str) -> (r: Option<ActionDefinition>)
        ensures
            match r {
                Some(definition) => self.registry()@.contains_key(action@) && definition@
                    == self.registry()@[action@] && definition@.name == action@,
                None => !self.registry()@.contains_key(action@),
            },
    {
        self.registry.get_action_definition(action)
    }

    /// Hands the invocation to the handler where the action is known and
    /// what it requires is there; otherwise says which of the two failed,
    /// and the handler is not called.
    fn execute_action(&self, action: &str, params: &ArgumentMap) -> (result: ActionResult)
        ensures
            executes(self.registry()@, self.handler(), action, params, result),
    {
        proof {
            use_type_invariant(self);
        }
        match self.registry.resolve(action, params) {
            Ok(_) => (self.handler)(action, params),
            Err(message) => Err(message),
        }
    }
}

} // verus!
