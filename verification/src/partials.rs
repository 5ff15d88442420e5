//! The computed content behind the HTML fragment handlers; rendering and
//! escaping stay with the web layer.

use vstd::prelude::*;

verus! {

/// Query parameters of the greeting fragment.
pub struct GreetingQuery {
    pub name: Option<String>,
}

/// The name a greeting addresses: the one supplied, or `World`.
pub fn greeting_name(query: GreetingQuery) -> (name: String)
    ensures
        match query.name {
            Some(given) => name@ == given@,
            None => name@ == "World"@,
        },
{
    match query.name {
        Some(given) => given,
        None => "World".to_owned(),
    }
}

} // verus!
