use vstd::prelude::*;

verus! {

// Identifiers of the definitions of a program, handed out in order from 1, and the
// records that carry them.

/// The identifier of a definition.
#[derive(Debug, Clone, Copy, PartialEq, Eq, Structural, Hash)]
pub struct DefId(usize);

impl DefId {
    /// The number of the identifier.
    pub closed spec fn value(&self) -> usize {
        self.0
    }

    pub fn as_usize(&self) -> (r: usize)
        ensures
            r == self.value(),
    {
        self.0
    }
}

#[derive(Debug, Clone, PartialEq, Eq, Hash)]
pub struct DefDecorationFile {
    pub id: DefId,
}

#[derive(Debug, Clone, PartialEq, Eq, Hash)]
pub struct DefDecorationTypeDef {
    pub name: String,
    pub id: DefId,
}

#[derive(Debug, Clone, PartialEq, Eq, Hash)]
pub struct DefFormulaForall {
    pub name: String,
    pub id: DefId,
}

#[derive(Debug, Clone, PartialEq, Eq, Hash)]
pub struct DefDecorationFnDef {
    pub name: String,
    pub id: DefId,
}

#[derive(Debug, Clone, PartialEq, Eq, Hash)]
pub struct DefDecorationProcDef {
    pub name: String,
    pub id: DefId,
}

#[derive(Debug, Clone, PartialEq, Eq, Hash)]
pub struct DefTheoremDef {
    pub name: String,
    pub id: DefId,
}

#[derive(Debug, Clone, PartialEq, Eq, Hash)]
pub struct DefVariant {
    pub name: String,
    pub id: DefId,
}

#[derive(Debug, Clone, PartialEq, Eq, Hash)]
pub struct DefTypeDependentMap {
    pub name: String,
    pub id: DefId,
}

#[derive(Debug, Clone, PartialEq, Eq, Hash)]
pub struct DefStatementLet {
    pub name: String,
    pub id: DefId,
}

#[derive(Debug, Clone, PartialEq, Eq, Hash)]
pub struct DefTypedArg {
    pub name: String,
    pub id: DefId,
}

#[derive(Debug, Clone, PartialEq, Eq, Hash)]
pub struct DefDecorationExprNumber {
    pub id: DefId,
}

#[derive(Debug, Clone, PartialEq, Eq, Hash)]
pub struct DefDecorationExprString {
    pub id: DefId,
}

/// The names that a match pattern binds, each with its identifier.
#[derive(Debug, Clone, PartialEq, Eq, Hash)]
pub struct DefExprMatchPattern {
    pub ids: Vec<(String, DefId)>,
}

/// Hands out definition identifiers: 1, 2, 3, ...
pub struct RenameDefContext {
    pub next_id: DefId,
}

impl RenameDefContext {
    pub fn new() -> (c: RenameDefContext)
        ensures
            c.next_id.value() == 1,
    {
        RenameDefContext { next_id: DefId(1) }
    }

    /// A fresh identifier: the next one, after which the counter moves on by one.
    pub fn new_id(&mut self) -> (id: DefId)
        requires
            old(self).next_id.value() < usize::MAX,
        ensures
            id == old(self).next_id,
            final(self).next_id.value() == old(self).next_id.value() + 1,
    {
        let res = self.next_id;
        self.next_id = DefId(self.next_id.0 + 1);
        res
    }

    /// How many identifiers have been handed out.
    pub fn def_count(&self) -> (r: usize)
        requires
            self.next_id.value() >= 1,
        ensures
            r == self.next_id.value() - 1,
    {
        self.next_id.0 - 1
    }
}

impl Default for RenameDefContext {
    fn default() -> (c: RenameDefContext)
        ensures
            c.next_id.value() == 1,
    {
        RenameDefContext::new()
    }
}

} // verus!
