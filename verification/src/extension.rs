//! The contract that every provider fulfils.

use crate::schema::ActionDefinition;
use crate::value::{ArgumentMap, Json, Object, Value};
use vstd::prelude::*;

verus! {

/// The outcome of an action: a structured value, or a message that says
/// what went wrong.
pub type ActionResult = Result<Value, String>;

/// What `test_install` reports where a provider has no check of its own.
pub open spec fn installed_model() -> Json {
    Json::Object(Map::<Seq<char>, Json>::empty().insert("status"@, Json::String("ok"@)))
}

/// The capabilities of a provider. A host reaches a provider through these
/// methods and through nothing else; it may call them from several threads
/// at once.
pub trait CpiExtension: Send + Sync {
    /// The identifier of the provider.
    fn name(&self) -> &str;

    /// The category of the provider, by which a host groups providers.
    fn provider_type(&self) -> &str;

    /// The names of all actions that the provider offers.
    fn list_actions(&self) -> Vec<String>;

    /// The schema of the action called `action`, or `None` for a name that
    /// `list_actions` does not give.
    fn get_action_definition(&self, action: &str) -> Option<ActionDefinition>;

    /// Performs the action called `action`. An unknown name, and arguments
    /// that do not pass, end in `Err`.
    fn execute_action(&self, action: &str, params: &ArgumentMap) -> ActionResult;

    /// The settings that the provider suggests; none unless it says so.
    fn default_settings(&self) -> (settings: ArgumentMap)
        default_ensures
            settings@ == Map::<Seq<char>, Json>::empty(),
    {
        ArgumentMap::new()
    }

    /// Checks that what the provider needs is in place; all is well unless
    /// it says otherwise.
    fn test_install(&self) -> (result: ActionResult)
        default_ensures
            result matches Ok(report) && report@ == installed_model(),
    {
        let mut report = Object::new();
        report.insert("status".to_owned(), Value::String("ok".to_owned()));
        Ok(Value::Object(report))
    }

    /// The provider's own version, or `"NONE"` where it states none.
    fn version(&self) -> (version: String)
        default_ensures
            version@ == "NONE"@,
    {
        "NONE".to_owned()
    }
}

} // verus!
