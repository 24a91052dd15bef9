//! The register store: which registers hold a value, and which value. An
//! empty register is not a register that holds zero.

use vstd::prelude::*;
use std::collections::HashMap;
use crate::types::Reg;

verus! {

broadcast use vstd::std_specs::hash::group_hash_axioms;

/// A sparse mapping from registers to the values they hold.
#[derive(Debug)]
pub struct RegisterStore {
    cells: HashMap<u8, i32>,
}

impl View for RegisterStore {
    type V = Map<Reg, i32>;

    closed spec fn view(&self) -> Map<Reg, i32> {
        Map::new(|r: Reg| self.cells@.contains_key(r.0), |r: Reg| self.cells@[r.0])
    }
}

impl RegisterStore {
    /// The store in which every register is empty.
    pub fn new() -> (store: RegisterStore)
        ensures
            store@ == Map::<Reg, i32>::empty(),
    {
        let store = RegisterStore { cells: HashMap::new() };
        assert(store@ =~= Map::<Reg, i32>::empty());
        store
    }

    /// The value that a register holds, `None` for an empty register.
    pub fn get(&self, reg: Reg) -> (value: Option<i32>)
        ensures
            value == (if self@.contains_key(reg) {
                Some(self@[reg])
            } else {
                None
            }),
    {
        match self.cells.get(&reg.0) {
            Some(v) => Some(*v),
            None => None,
        }
    }

    /// Whether a register holds a value.
    pub fn contains(&self, reg: Reg) -> (full: bool)
        ensures
            full == self@.contains_key(reg),
    {
        self.cells.contains_key(&reg.0)
    }

    /// Puts a value into a register and returns the value that it held
    /// before, `None` if it was empty.
    pub fn insert(&mut self, reg: Reg, value: i32) -> (before: Option<i32>)
        ensures
            final(self)@ == old(self)@.insert(reg, value),
            before == (if old(self)@.contains_key(reg) {
                Some(old(self)@[reg])
            } else {
                None
            }),
    {
        let before = self.cells.insert(reg.0, value);
        assert(self@ =~= old(self)@.insert(reg, value));
        before
    }

    /// Empties every register.
    pub fn clear(&mut self)
        ensures
            final(self)@ == Map::<Reg, i32>::empty(),
    {
        self.cells.clear();
        assert(self@ =~= Map::<Reg, i32>::empty());
    }
}

} // verus!
