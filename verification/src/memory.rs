//! The symbol table: one flat mapping from names to the expressions bound
//! to them.

use crate::ast::{Expr, ExprModel, Var};
use crate::error::LookupError;
use vstd::hash_map::StringHashMap;
use vstd::prelude::*;

verus! {

/// What a symbol table holds: for each bound name, the model of the
/// expression bound to it.
pub type Bindings = Map<Seq<char>, ExprModel>;

/// A table of variables. It stores expressions, not values: a name is
/// evaluated again each time it is looked up.
pub struct Memory {
    vars: StringHashMap<Expr>,
}

impl View for Memory {
    type V = Bindings;

    closed spec fn view(&self) -> Bindings {
        self.vars@.map_values(|e: Expr| e@)
    }
}

impl Memory {
    /// An empty table.
    pub fn new() -> (m: Self)
        ensures
            m@ == Map::<Seq<char>, ExprModel>::empty(),
    {
        let m = Memory { vars: StringHashMap::new() };
        assert(m@ =~= Map::<Seq<char>, ExprModel>::empty());
        m
    }

    /// Binds the name of `v` to a copy of its expression, replacing what
    /// the name was bound to before. Every other binding stays.
    pub fn add(&mut self, v: &Var)
        ensures
            final(self)@ == old(self)@.insert(v.name@, v.expr@),
    {
        self.vars.insert(v.name.clone(), v.expr.clone());
        assert(self@ =~= old(self)@.insert(v.name@, v.expr@));
    }

    /// The expression that `name` is bound to, or `NotFound` if it is not
    /// bound.
    pub fn find(&self, name: &str) -> (r: Result<&Expr, LookupError>)
        ensures
            match r {
                Ok(e) => self@.contains_key(name@) && e@ == self@[name@],
                Err(e) => !self@.contains_key(name@) && e == LookupError::NotFound,
            },
    {
        match self.vars.get(name) {
            Some(e) => Ok(e),
            None => Err(LookupError::NotFound),
        }
    }

    /// The number of bound names.
    pub fn len(&self) -> (n: usize)
        ensures
            n == self@.dom().len(),
    {
        assert(self@.dom() =~= self.vars@.dom());
        self.vars.len()
    }
}

} // verus!
