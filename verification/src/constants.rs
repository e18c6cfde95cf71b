//! The built-in constants of the default context.

use crate::fbits::{F_EULER, F_PI};
use crate::value::Value;
use vstd::prelude::*;

verus! {

/// The bindings of the default constant registry: the doubles nearest to
/// pi and to Euler's number.
pub open spec fn spec_builtin_consts() -> Seq<(Seq<char>, Value)> {
    seq![("pi"@, Value::Float(F_PI)), ("e"@, Value::Float(F_EULER))]
}

/// The default constant registry: `pi` and `e`.
pub fn builtin_consts() -> (r: Vec<(String, Value)>)
    ensures
        crate::context::bindings_view(r@) =~= spec_builtin_consts(),
{
    let mut v: Vec<(String, Value)> = Vec::new();
    v.push(("pi".to_owned(), Value::Float(F_PI)));
    v.push(("e".to_owned(), Value::Float(F_EULER)));
    v
}

} // verus!
