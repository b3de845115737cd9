use std::collections::HashMap;
use std::rc::Rc;
use vstd::prelude::*;
use vstd::string::*;

use crate::id::Id;
use crate::inductive::{InductiveEnvironment, SInductive};
use crate::term::{STerm, Term};
use crate::text::{concat3, id_text, id_to_string};

verus! {

broadcast use vstd::std_specs::hash::group_hash_axioms;

/// Definition of a global constant: an axiom (no body) or a definition (with a body).
#[derive(Debug)]
pub struct ConstantDefinition {
    /// Name of the constant
    pub name: Id,
    /// Type of the constant
    pub ty: Rc<Term>,
    /// Optional body (if this is a definition, not an axiom)
    pub body: Option<Rc<Term>>,
}

/// The value of a constant definition.
pub struct SConstant {
    pub name: Id,
    pub ty: STerm,
    pub body: Option<STerm>,
}

impl ConstantDefinition {
    pub open spec fn view(&self) -> SConstant {
        SConstant {
            name: self.name,
            ty: (*self.ty)@,
            body: match self.body {
                Some(b) => Some((*b)@),
                None => None,
            },
        }
    }

    /// Creates a new axiom.
    pub fn new_axiom(name: Id, ty: Rc<Term>) -> (c: ConstantDefinition)
        ensures
            c@ == (SConstant { name, ty: ty@, body: None }),
    {
        ConstantDefinition { name, ty, body: None }
    }

    /// Creates a new definition.
    pub fn new_definition(name: Id, ty: Rc<Term>, body: Rc<Term>) -> (c: ConstantDefinition)
        ensures
            c@ == (SConstant { name, ty: ty@, body: Some(body@) }),
    {
        ConstantDefinition { name, ty, body: Some(body) }
    }

    /// Checks if this is an axiom (no body).
    pub fn is_axiom(&self) -> (r: bool)
        ensures
            r == self@.body is None,
    {
        self.body.is_none()
    }

    /// Checks if this is a definition (has a body).
    pub fn is_definition(&self) -> (r: bool)
        ensures
            r == self@.body is Some,
    {
        self.body.is_some()
    }
}

/// The message with which a second constant of the same name is refused.
pub open spec fn duplicate_constant_message(name: Id) -> Seq<char> {
    "Constant "@ + id_text(name) + " already defined"@
}

/// The global environment: constants and inductive types.
pub struct GlobalEnvironment {
    /// Constant definitions (axioms, definitions), by the number of their name
    pub constants: HashMap<usize, ConstantDefinition>,
    /// Inductive type definitions
    pub inductives: InductiveEnvironment,
}

impl GlobalEnvironment {
    /// The definition of each constant, by its name.
    pub closed spec fn constants(&self) -> Map<Id, SConstant> {
        Map::new(|k: Id| self.constants@.contains_key(k.0), |k: Id| self.constants@[k.0]@)
    }

    /// Each stored constant is stored under its own name.
    pub closed spec fn wf(&self) -> bool {
        &&& forall|k: usize| #[trigger] self.constants@.contains_key(k) ==> self.constants@[k].name == Id(k)
        &&& self.inductives.wf()
    }

    /// Creates an empty global environment.
    pub fn new() -> (e: GlobalEnvironment)
        ensures
            e.wf(),
            e.constants() == Map::<Id, SConstant>::empty(),
            e.inductives.inductives() == Map::<Id, SInductive>::empty(),
            e.inductives.owners() == Map::<Id, Id>::empty(),
            e.inductives.names() == Seq::<Id>::empty(),
    {
        let e = GlobalEnvironment { constants: HashMap::new(), inductives: InductiveEnvironment::new() };
        assert(e.constants() =~= Map::<Id, SConstant>::empty());
        e
    }

    /// Adds a constant definition; refuses a name that is taken.
    pub fn add_constant(&mut self, def: ConstantDefinition) -> (r: Result<(), String>)
        ensures
            old(self).constants().contains_key(def.name) ==> {
                &&& r matches Err(msg) && msg@ == duplicate_constant_message(def.name)
                &&& final(self).constants() == old(self).constants()
            },
            !old(self).constants().contains_key(def.name) ==> {
                &&& r is Ok
                &&& final(self).constants() == old(self).constants().insert(def.name, def@)
            },
            final(self).inductives == old(self).inductives,
            old(self).wf() ==> final(self).wf(),
    {
        if self.constants.contains_key(&def.name.0) {
            assert(old(self).constants().contains_key(def.name));
            let n = id_to_string(def.name);
            proof {
                reveal_strlit("Constant ");
                reveal_strlit(" already defined");
            }
            return Err(concat3("Constant ", n.as_str(), " already defined"));
        }
        let name = def.name;
        let ghost d = def@;
        self.constants.insert(name.0, def);
        assert(self.constants() =~= old(self).constants().insert(name, d));
        Ok(())
    }

    /// The definition of the constant `name`.
    pub fn get_constant(&self, name: Id) -> (r: Option<&ConstantDefinition>)
        ensures
            match r {
                Some(d) => self.constants().contains_key(name) && d@ == self.constants()[name],
                None => !self.constants().contains_key(name),
            },
    {
        self.constants.get(&name.0)
    }

    /// Adds an axiom (a constant without body).
    pub fn add_axiom(&mut self, name: Id, ty: Rc<Term>) -> (r: Result<(), String>)
        ensures
            old(self).constants().contains_key(name) ==> {
                &&& r matches Err(msg) && msg@ == duplicate_constant_message(name)
                &&& final(self).constants() == old(self).constants()
            },
            !old(self).constants().contains_key(name) ==> {
                &&& r is Ok
                &&& final(self).constants() == old(self).constants().insert(
                    name,
                    SConstant { name, ty: ty@, body: None },
                )
            },
            final(self).inductives == old(self).inductives,
            old(self).wf() ==> final(self).wf(),
    {
        let def = ConstantDefinition::new_axiom(name, ty);
        self.add_constant(def)
    }

    /// Adds a definition (a constant with a body).
    pub fn add_definition(&mut self, name: Id, ty: Rc<Term>, body: Rc<Term>) -> (r: Result<(), String>)
        ensures
            old(self).constants().contains_key(name) ==> {
                &&& r matches Err(msg) && msg@ == duplicate_constant_message(name)
                &&& final(self).constants() == old(self).constants()
            },
            !old(self).constants().contains_key(name) ==> {
                &&& r is Ok
                &&& final(self).constants() == old(self).constants().insert(
                    name,
                    SConstant { name, ty: ty@, body: Some(body@) },
                )
            },
            final(self).inductives == old(self).inductives,
            old(self).wf() ==> final(self).wf(),
    {
        let def = ConstantDefinition::new_definition(name, ty, body);
        self.add_constant(def)
    }
}

impl Default for GlobalEnvironment {
    fn default() -> (e: GlobalEnvironment)
        ensures
            e.wf(),
            e.constants() == Map::<Id, SConstant>::empty(),
    {
        GlobalEnvironment::new()
    }
}

} // verus!
