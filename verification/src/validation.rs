//! Typed extraction of arguments from an argument map.
//!
//! Every function here is total and leaves the map as it is. A failure is a
//! message for people; it tells an absent argument ("not provided") from one
//! of the wrong type ("must be ...").

use crate::text::{lemma_mentions_middle, lemma_mentions_within, mentions, names_in};
use crate::value::{ArgumentMap, Json, Number, Value};
use vstd::prelude::*;
use vstd::string::*;

verus! {

/// The message for a required argument that the map does not hold.
pub open spec fn not_provided_message(name: Seq<char>) -> Seq<char> {
    "Required parameter '"@ + name + "' not provided"@
}

/// The message for an argument that is not of the expected kind; `kind` is
/// the kind with its article, as in "a string".
pub open spec fn must_be_message(name: Seq<char>, kind: Seq<char>) -> Seq<char> {
    "Parameter '"@ + name + "' must be "@ + kind
}

/// What `extract_string` yields.
pub open spec fn string_outcome(args: Map<Seq<char>, Json>, name: Seq<char>) -> Result<
    Seq<char>,
    Seq<char>,
> {
    match args.get(name) {
        Some(Json::String(s)) => Ok(s),
        Some(_) => Err(must_be_message(name, "a string"@)),
        None => Err(not_provided_message(name)),
    }
}

/// What `extract_string_opt` yields.
pub open spec fn optional_string_outcome(args: Map<Seq<char>, Json>, name: Seq<char>) -> Result<
    Option<Seq<char>>,
    Seq<char>,
> {
    match args.get(name) {
        Some(Json::String(s)) => Ok(Some(s)),
        Some(_) => Err(must_be_message(name, "a string"@)),
        None => Ok(None),
    }
}

/// What `extract_int` yields. An integer outside the range of `i64` does
/// not count as one.
pub open spec fn int_outcome(args: Map<Seq<char>, Json>, name: Seq<char>) -> Result<
    i64,
    Seq<char>,
> {
    match args.get(name) {
        Some(Json::Int(i)) if i64::MIN <= i <= i64::MAX => Ok(i as i64),
        Some(_) => Err(must_be_message(name, "an integer"@)),
        None => Err(not_provided_message(name)),
    }
}

/// What `extract_int_opt` yields.
pub open spec fn optional_int_outcome(args: Map<Seq<char>, Json>, name: Seq<char>) -> Result<
    Option<i64>,
    Seq<char>,
> {
    match args.get(name) {
        Some(Json::Int(i)) if i64::MIN <= i <= i64::MAX => Ok(Some(i as i64)),
        Some(_) => Err(must_be_message(name, "an integer"@)),
        None => Ok(None),
    }
}

/// What `extract_number` yields: any number, integral or floating.
pub open spec fn number_outcome(args: Map<Seq<char>, Json>, name: Seq<char>) -> Result<
    Json,
    Seq<char>,
> {
    match args.get(name) {
        Some(Json::Int(i)) => Ok(Json::Int(i)),
        Some(Json::Float(bits)) => Ok(Json::Float(bits)),
        Some(_) => Err(must_be_message(name, "a number"@)),
        None => Err(not_provided_message(name)),
    }
}

/// What `extract_bool` yields.
pub open spec fn bool_outcome(args: Map<Seq<char>, Json>, name: Seq<char>) -> Result<
    bool,
    Seq<char>,
> {
    match args.get(name) {
        Some(Json::Bool(b)) => Ok(b),
        Some(_) => Err(must_be_message(name, "a boolean"@)),
        None => Err(not_provided_message(name)),
    }
}

/// What `extract_json` yields: the argument as it is.
pub open spec fn json_outcome(args: Map<Seq<char>, Json>, name: Seq<char>) -> Result<
    Json,
    Seq<char>,
> {
    match args.get(name) {
        Some(value) => Ok(value),
        None => Err(not_provided_message(name)),
    }
}

/// Those of `required` that `args` does not hold, in order.
pub open spec fn missing_names(args: Map<Seq<char>, Json>, required: Seq<Seq<char>>) -> Seq<
    Seq<char>,
> {
    required.filter(|name: Seq<char>| !args.contains_key(name))
}

/// What `validate_params` yields: success when nothing is missing, else the
/// message for the first name that is.
pub open spec fn presence_outcome(args: Map<Seq<char>, Json>, required: Seq<Seq<char>>) -> Result<
    (),
    Seq<char>,
> {
    let missing = missing_names(args, required);
    if missing.len() == 0 {
        Ok(())
    } else {
        Err(not_provided_message(missing[0]))
    }
}

fn not_provided(name: &str) -> (message: String)
    ensures
        message@ == not_provided_message(name@),
{
    let mut message = String::from_str("Required parameter '");
    message.append(name);
    message.append("' not provided");
    message
}

fn must_be(name: &str, kind: &str) -> (message: String)
    ensures
        message@ == must_be_message(name@, kind@),
{
    let mut message = String::from_str("Parameter '");
    message.append(name);
    message.append("' must be ");
    message.append(kind);
    message
}

/// The string called `name`.
pub fn extract_string(params: &ArgumentMap, name: &str) -> (r: Result<String, String>)
    ensures
        match string_outcome(params@, name@) {
            Ok(s) => r matches Ok(v) && v@ == s,
            Err(m) => r matches Err(e) && e@ == m,
        },
{
    match params.get(name) {
        Some(Value::String(s)) => Ok(s.clone()),
        Some(_) => Err(must_be(name, "a string")),
        None => Err(not_provided(name)),
    }
}

/// The string called `name`, or `None` where the map holds no such
/// argument.
pub fn extract_string_opt(params: &ArgumentMap, name: &str) -> (r: Result<Option<String>, String>)
    ensures
        match optional_string_outcome(params@, name@) {
            Ok(Some(s)) => r matches Ok(Some(v)) && v@ == s,
            Ok(None) => r matches Ok(None),
            Err(m) => r matches Err(e) && e@ == m,
        },
{
    match params.get(name) {
        Some(Value::String(s)) => Ok(Some(s.clone())),
        Some(_) => Err(must_be(name, "a string")),
        None => Ok(None),
    }
}

/// The integer called `name`.
pub fn extract_int(params: &ArgumentMap, name: &str) -> (r: Result<i64, String>)
    ensures
        match int_outcome(params@, name@) {
            Ok(i) => r == Ok::<i64, String>(i),
            Err(m) => r matches Err(e) && e@ == m,
        },
{
    match params.get(name) {
        Some(value) => match value.as_i64() {
            Some(i) => Ok(i),
            None => Err(must_be(name, "an integer")),
        },
        None => Err(not_provided(name)),
    }
}

/// The integer called `name`, or `None` where the map holds no such
/// argument.
pub fn extract_int_opt(params: &ArgumentMap, name: &str) -> (r: Result<Option<i64>, String>)
    ensures
        match optional_int_outcome(params@, name@) {
            Ok(i) => r == Ok::<Option<i64>, String>(i),
            Err(m) => r matches Err(e) && e@ == m,
        },
{
    match params.get(name) {
        Some(value) => match value.as_i64() {
            Some(i) => Ok(Some(i)),
            None => Err(must_be(name, "an integer")),
        },
        None => Ok(None),
    }
}

/// The number called `name`, integral or floating.
pub fn extract_number(params: &ArgumentMap, name: &str) -> (r: Result<Number, String>)
    ensures
        match number_outcome(params@, name@) {
            Ok(n) => r matches Ok(v) && v@ == n,
            Err(m) => r matches Err(e) && e@ == m,
        },
{
    match params.get(name) {
        Some(Value::Number(n)) => Ok(*n),
        Some(_) => Err(must_be(name, "a number")),
        None => Err(not_provided(name)),
    }
}

/// The boolean called `name`.
pub fn extract_bool(params: &ArgumentMap, name: &str) -> (r: Result<bool, String>)
    ensures
        match bool_outcome(params@, name@) {
            Ok(b) => r == Ok::<bool, String>(b),
            Err(m) => r matches Err(e) && e@ == m,
        },
{
    match params.get(name) {
        Some(Value::Bool(b)) => Ok(*b),
        Some(_) => Err(must_be(name, "a boolean")),
        None => Err(not_provided(name)),
    }
}

/// The argument called `name`, whatever it is.
pub fn extract_json(params: &ArgumentMap, name: &str) -> (r: Result<Value, String>)
    ensures
        match json_outcome(params@, name@) {
            Ok(value) => r matches Ok(v) && v@ == value,
            Err(m) => r matches Err(e) && e@ == m,
        },
{
    match params.get(name) {
        Some(value) => Ok(value.clone()),
        None => Err(not_provided(name)),
    }
}

/// Checks that the map holds an argument for every name in `required`,
/// whatever the arguments are.
pub fn validate_params(params: &ArgumentMap, required: &[&str]) -> (r: Result<(), String>)
    ensures
        match presence_outcome(params@, names_in(required@)) {
            Ok(()) => r is Ok,
            Err(m) => r matches Err(e) && e@ == m,
        },
{
    let ghost names = names_in(required@);
    let mut i: usize = 0;
    while i < required.len()
        invariant
            i <= required.len(),
            names == names_in(required@),
            forall|j: int| 0 <= j < i ==> params@.contains_key(#[trigger] names[j]),
        decreases required.len() - i,
    {
        if !params.contains_key(required[i]) {
            proof {
                lemma_first_missing(params@, names, i as int);
            }
            return Err(not_provided(required[i]));
        }
        i += 1;
    }
    proof {
        lemma_nothing_missing(params@, names);
    }
    Ok(())
}

/// Where every name is held, none is missing.
pub proof fn lemma_nothing_missing(args: Map<Seq<char>, Json>, required: Seq<Seq<char>>)
    requires
        forall|j: int| 0 <= j < required.len() ==> args.contains_key(#[trigger] required[j]),
    ensures
        missing_names(args, required).len() == 0,
    decreases required.len(),
{
    reveal(Seq::filter);
    if required.len() > 0 {
        lemma_nothing_missing(args, required.drop_last());
    }
}

/// The first of the missing names is the first name that is not held.
pub proof fn lemma_first_missing(args: Map<Seq<char>, Json>, required: Seq<Seq<char>>, i: int)
    requires
        0 <= i < required.len(),
        !args.contains_key(required[i]),
        forall|j: int| 0 <= j < i ==> args.contains_key(#[trigger] required[j]),
    ensures
        missing_names(args, required).len() > 0,
        missing_names(args, required)[0] == required[i],
    decreases required.len(),
{
    reveal(Seq::filter);
    let front = required.drop_last();
    if i == required.len() - 1 {
        lemma_nothing_missing(args, front);
    } else {
        lemma_first_missing(args, front, i);
    }
}

/// A "not provided" message says so, and names the parameter.
pub proof fn lemma_not_provided_message(name: Seq<char>)
    ensures
        mentions(not_provided_message(name), "not provided"@),
        mentions(not_provided_message(name), name),
{
    reveal_strlit("' not provided");
    reveal_strlit("not provided");
    let tail = "' not provided"@;
    assert(tail.subrange(2, 2 + "not provided"@.len() as int) =~= "not provided"@);
    assert(mentions(tail, "not provided"@));
    lemma_mentions_within("Required parameter '"@ + name, tail, Seq::empty(), "not provided"@);
    assert("Required parameter '"@ + name + tail + Seq::<char>::empty() =~= not_provided_message(
        name,
    ));
    lemma_mentions_middle("Required parameter '"@, name, tail);
}

/// A "must be" message for a kind that begins with the article says
/// "must be a", and names the parameter.
pub proof fn lemma_must_be_message(name: Seq<char>, kind: Seq<char>)
    requires
        kind.len() > 0,
        kind[0] == 'a',
    ensures
        mentions(must_be_message(name, kind), "must be a"@),
        mentions(must_be_message(name, kind), name),
{
    reveal_strlit("' must be ");
    reveal_strlit("must be a");
    let tail = "' must be "@ + kind;
    assert(tail.subrange(2, 2 + "must be a"@.len() as int) =~= "must be a"@);
    assert(mentions(tail, "must be a"@));
    lemma_mentions_within("Parameter '"@ + name, tail, Seq::empty(), "must be a"@);
    assert("Parameter '"@ + name + tail + Seq::<char>::empty() =~= must_be_message(name, kind));
    lemma_mentions_middle("Parameter '"@, name, tail);
    assert("Parameter '"@ + name + tail =~= must_be_message(name, kind));
}

/// Whether an outcome is a failure whose message mentions `part`.
pub open spec fn fails_mentioning<T>(outcome: Result<T, Seq<char>>, part: Seq<char>) -> bool {
    outcome matches Err(message) && mentions(message, part)
}

/// Whether `value` is an integer in the range of `i64`.
pub open spec fn is_i64(value: Json) -> bool {
    value matches Json::Int(i) && i64::MIN <= i <= i64::MAX
}

/// An argument that is present and of the right kind is extracted as it is.
pub proof fn law_right_kind_is_extracted(args: Map<Seq<char>, Json>, name: Seq<char>)
    requires
        args.contains_key(name),
    ensures
        args[name] is String ==> string_outcome(args, name) == Ok::<Seq<char>, Seq<char>>(
            args[name]->String_0,
        ),
        args[name] is String ==> optional_string_outcome(args, name) == Ok::<
            Option<Seq<char>>,
            Seq<char>,
        >(Some(args[name]->String_0)),
        is_i64(args[name]) ==> int_outcome(args, name) == Ok::<i64, Seq<char>>(
            args[name]->Int_0 as i64,
        ),
        is_i64(args[name]) ==> optional_int_outcome(args, name) == Ok::<Option<i64>, Seq<char>>(
            Some(args[name]->Int_0 as i64),
        ),
        args[name] is Bool ==> bool_outcome(args, name) == Ok::<bool, Seq<char>>(
            args[name]->Bool_0,
        ),
        args[name] is Int || args[name] is Float ==> number_outcome(args, name) == Ok::<
            Json,
            Seq<char>,
        >(args[name]),
        json_outcome(args, name) == Ok::<Json, Seq<char>>(args[name]),
{
}

/// An argument that is present and of another kind is refused with a
/// message that says "must be a", whether or not the argument is optional.
pub proof fn law_wrong_kind_is_refused(args: Map<Seq<char>, Json>, name: Seq<char>)
    requires
        args.contains_key(name),
    ensures
        !(args[name] is String) ==> fails_mentioning(string_outcome(args, name), "must be a"@),
        !(args[name] is String) ==> fails_mentioning(
            optional_string_outcome(args, name),
            "must be a"@,
        ),
        !is_i64(args[name]) ==> fails_mentioning(int_outcome(args, name), "must be a"@),
        !is_i64(args[name]) ==> fails_mentioning(optional_int_outcome(args, name), "must be a"@),
        !(args[name] is Bool) ==> fails_mentioning(bool_outcome(args, name), "must be a"@),
        !(args[name] is Int || args[name] is Float) ==> fails_mentioning(
            number_outcome(args, name),
            "must be a"@,
        ),
{
    reveal_strlit("a string");
    reveal_strlit("an integer");
    reveal_strlit("a boolean");
    reveal_strlit("a number");
    lemma_must_be_message(name, "a string"@);
    lemma_must_be_message(name, "an integer"@);
    lemma_must_be_message(name, "a boolean"@);
    lemma_must_be_message(name, "a number"@);
}

/// An absent argument is refused with a message that says "not provided"
/// where it is required, and is no failure where it is optional.
pub proof fn law_absent_is_told_apart(args: Map<Seq<char>, Json>, name: Seq<char>)
    requires
        !args.contains_key(name),
    ensures
        fails_mentioning(string_outcome(args, name), "not provided"@),
        fails_mentioning(int_outcome(args, name), "not provided"@),
        fails_mentioning(bool_outcome(args, name), "not provided"@),
        fails_mentioning(number_outcome(args, name), "not provided"@),
        fails_mentioning(json_outcome(args, name), "not provided"@),
        optional_string_outcome(args, name) == Ok::<Option<Seq<char>>, Seq<char>>(None),
        optional_int_outcome(args, name) == Ok::<Option<i64>, Seq<char>>(None),
{
    lemma_not_provided_message(name);
}

/// The check for required names succeeds if and only if the map holds every
/// one of them.
pub proof fn law_presence_iff_all_held(args: Map<Seq<char>, Json>, required: Seq<Seq<char>>)
    ensures
        presence_outcome(args, required) is Ok <==> forall|i: int|
            0 <= i < required.len() ==> args.contains_key(#[trigger] required[i]),
{
    if forall|i: int| 0 <= i < required.len() ==> args.contains_key(#[trigger] required[i]) {
        lemma_nothing_missing(args, required);
    } else {
        let i = first_not_held(args, required, required.len() as int);
        lemma_first_missing(args, required, i);
    }
}

/// Where the check for required names fails, its message is the one for the
/// first name, in the order given, that the map does not hold.
pub proof fn law_presence_reports_first_missing(
    args: Map<Seq<char>, Json>,
    required: Seq<Seq<char>>,
)
    requires
        presence_outcome(args, required) is Err,
    ensures
        exists|i: int|
            0 <= i < required.len() && !args.contains_key(#[trigger] required[i]) && (forall|j: int|
                0 <= j < i ==> args.contains_key(#[trigger] required[j])) && presence_outcome(
                args,
                required,
            ) == Err::<(), Seq<char>>(not_provided_message(required[i])),
{
    law_presence_iff_all_held(args, required);
    let i = first_not_held(args, required, required.len() as int);
    lemma_first_missing(args, required, i);
}

/// The check for required names looks at the names that the map holds and
/// at nothing else: two maps with the same names fare alike, whatever their
/// values.
pub proof fn law_presence_ignores_values(
    a: Map<Seq<char>, Json>,
    b: Map<Seq<char>, Json>,
    required: Seq<Seq<char>>,
)
    requires
        a.dom() == b.dom(),
    ensures
        presence_outcome(a, required) == presence_outcome(b, required),
{
    lemma_missing_names_by_domain(a, b, required);
}

proof fn lemma_missing_names_by_domain(
    a: Map<Seq<char>, Json>,
    b: Map<Seq<char>, Json>,
    required: Seq<Seq<char>>,
)
    requires
        a.dom() == b.dom(),
    ensures
        missing_names(a, required) == missing_names(b, required),
    decreases required.len(),
{
    reveal(Seq::filter);
    if required.len() > 0 {
        lemma_missing_names_by_domain(a, b, required.drop_last());
        assert(a.contains_key(required.last()) == b.contains_key(required.last()));
    }
}

/// The least index below `bound` whose name the map does not hold.
proof fn first_not_held(args: Map<Seq<char>, Json>, required: Seq<Seq<char>>, bound: int) -> (i:
    int)
    requires
        0 <= bound <= required.len(),
        exists|k: int| 0 <= k < bound && !args.contains_key(#[trigger] required[k]),
    ensures
        0 <= i < bound,
        !args.contains_key(required[i]),
        forall|j: int| 0 <= j < i ==> args.contains_key(#[trigger] required[j]),
    decreases bound,
{
    if exists|k: int| 0 <= k < bound - 1 && !args.contains_key(#[trigger] required[k]) {
        first_not_held(args, required, bound - 1)
    } else {
        bound - 1
    }
}

} // verus!
