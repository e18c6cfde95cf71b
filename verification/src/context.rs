//! The evaluation context: a read-only registry of named constants and
//! named built-in functions, plus the policy flag that admits bitwise
//! operations on floating operands.
//!
//! Lookups are case-insensitive in the ASCII range: the queried name is
//! lower-cased before it is matched against the stored keys, which are
//! kept as registered. A name registered twice shadows its earlier entry.

use crate::value::Value;
use vstd::prelude::*;

verus! {

/// A built-in function handle: the closed set of native functions a
/// context can bind a name to.
#[derive(Debug, Clone, Copy, PartialEq, Eq, Structural)]
pub enum BuiltinFn {
    Sin,
    Cos,
    Tan,
    Min,
    Max,
    Avg,
    Ceil,
    Floor,
    Log,
    Deg,
    Rad,
    Fact,
    Ncr,
    Npr,
}

/// The registry: constants, functions, and the bitwise-coercion policy.
pub struct Context {
    pub consts: Vec<(String, Value)>,
    pub funcs: Vec<(String, BuiltinFn)>,
    pub allow_floating_bitwise_operations: bool,
}

/// The mathematical shape of a context: names as character sequences.
pub struct CtxView {
    pub consts: Seq<(Seq<char>, Value)>,
    pub funcs: Seq<(Seq<char>, BuiltinFn)>,
    pub allow_floating_bitwise_operations: bool,
}

/// The views of a list of bindings, pointwise.
pub open spec fn bindings_view<T>(v: Seq<(String, T)>) -> Seq<(Seq<char>, T)> {
    Seq::new(v.len(), |i: int| (v[i].0@, v[i].1))
}

impl View for Context {
    type V = CtxView;

    open spec fn view(&self) -> CtxView {
        CtxView {
            consts: bindings_view(self.consts@),
            funcs: bindings_view(self.funcs@),
            allow_floating_bitwise_operations: self.allow_floating_bitwise_operations,
        }
    }
}

/// The code point of a character with any ASCII upper-case letter taken to
/// its lower-case form.
pub open spec fn char_lower(c: char) -> int {
    if 65 <= c as u32 <= 90 {
        c as u32 + 32
    } else {
        c as u32 as int
    }
}

/// The ASCII lower-casing of `query` spells exactly `key`.
pub open spec fn lower_matches(query: Seq<char>, key: Seq<char>) -> bool {
    query.len() == key.len() && forall|i: int|
        0 <= i < query.len() ==> char_lower(query[i]) == key[i] as u32 as int
}

/// The value bound to a name, matched case-insensitively against the
/// stored keys; the latest registration wins.
pub open spec fn spec_lookup<T>(bindings: Seq<(Seq<char>, T)>, name: Seq<char>) -> Option<T>
    decreases bindings.len(),
{
    if bindings.len() == 0 {
        None
    } else if lower_matches(name, bindings.last().0) {
        Some(bindings.last().1)
    } else {
        spec_lookup(bindings.drop_last(), name)
    }
}

/// Whether the ASCII lower-casing of `query` spells exactly `key`.
pub fn name_matches(query: &str, key: &str) -> (r: bool)
    ensures
        r == lower_matches(query@, key@),
{
    let qlen = query.unicode_len();
    let klen = key.unicode_len();
    if qlen != klen {
        return false;
    }
    let mut i: usize = 0;
    while i < qlen
        invariant
            0 <= i <= qlen,
            qlen == query@.len(),
            qlen == key@.len(),
            forall|j: int| 0 <= j < i ==> char_lower(query@[j]) == key@[j] as u32 as int,
        decreases qlen - i,
    {
        let qc = query.get_char(i) as u32;
        let kc = key.get_char(i) as u32;
        let ql = if 65 <= qc && qc <= 90 {
            qc + 32
        } else {
            qc
        };
        if ql != kc {
            return false;
        }
        i += 1;
    }
    true
}

/// The value bound to a name in a binding list, latest registration first.
pub fn lookup<T: Copy>(bindings: &Vec<(String, T)>, name: &str) -> (r: Option<T>)
    ensures
        r == spec_lookup(bindings_view(bindings@), name@),
{
    let ghost bv = bindings_view(bindings@);
    let mut i: usize = bindings.len();
    proof {
        assert(bv.subrange(0, i as int) =~= bv);
    }
    while i > 0
        invariant
            0 <= i <= bindings.len(),
            bv == bindings_view(bindings@),
            bv.len() == bindings.len(),
            spec_lookup(bv, name@) == spec_lookup(bv.subrange(0, i as int), name@),
        decreases i,
    {
        i -= 1;
        proof {
            assert(bv.subrange(0, i + 1).drop_last() =~= bv.subrange(0, i as int));
            assert(bv.subrange(0, i + 1).last() == bv[i as int]);
        }
        if name_matches(name, bindings[i].0.as_str()) {
            return Some(bindings[i].1);
        }
    }
    proof {
        assert(bv.subrange(0, 0) =~= Seq::<(Seq<char>, T)>::empty());
    }
    None
}

impl Context {
    /// A context from its constant and function registries; the bitwise
    /// policy flag starts unset.
    pub fn new(consts: Vec<(String, Value)>, funcs: Vec<(String, BuiltinFn)>) -> (r: Context)
        ensures
            r@.consts == bindings_view(consts@),
            r@.funcs == bindings_view(funcs@),
            !r@.allow_floating_bitwise_operations,
    {
        Context { consts, funcs, allow_floating_bitwise_operations: false }
    }

    /// Bind a name to a constant value; a later registration shadows an
    /// earlier one of the same name.
    pub fn register_constant(&mut self, name: String, value: Value)
        ensures
            final(self)@.consts == old(self)@.consts.push((name@, value)),
            final(self)@.funcs == old(self)@.funcs,
            final(self)@.allow_floating_bitwise_operations == old(
                self,
            )@.allow_floating_bitwise_operations,
    {
        let ghost before = self@.consts;
        self.consts.push((name, value));
        proof {
            assert(self@.consts =~= before.push((self.consts@.last().0@, self.consts@.last().1)));
        }
    }

    /// Bind a name to a built-in function handle; a later registration
    /// shadows an earlier one of the same name.
    pub fn register_function(&mut self, name: String, handle: BuiltinFn)
        ensures
            final(self)@.funcs == old(self)@.funcs.push((name@, handle)),
            final(self)@.consts == old(self)@.consts,
            final(self)@.allow_floating_bitwise_operations == old(
                self,
            )@.allow_floating_bitwise_operations,
    {
        let ghost before = self@.funcs;
        self.funcs.push((name, handle));
        proof {
            assert(self@.funcs =~= before.push((self.funcs@.last().0@, self.funcs@.last().1)));
        }
    }

    /// Set the policy on bitwise operations over floating operands.
    pub fn set_allow_floating_bitwise_operations(&mut self, allow: bool)
        ensures
            final(self)@.consts == old(self)@.consts,
            final(self)@.funcs == old(self)@.funcs,
            final(self)@.allow_floating_bitwise_operations == allow,
    {
        self.allow_floating_bitwise_operations = allow;
    }

    /// The constant bound to a name, matched case-insensitively.
    pub fn lookup_const(&self, name: &str) -> (r: Option<Value>)
        ensures
            r == spec_lookup(self@.consts, name@),
    {
        lookup(&self.consts, name)
    }

    /// The function handle bound to a name, matched case-insensitively.
    pub fn lookup_func(&self, name: &str) -> (r: Option<BuiltinFn>)
        ensures
            r == spec_lookup(self@.funcs, name@),
    {
        lookup(&self.funcs, name)
    }
}

} // verus!
