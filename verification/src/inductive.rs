use std::collections::HashMap;
use std::rc::Rc;
use vstd::prelude::*;
use vstd::string::*;

use crate::id::{Id, IdGenerator};
use crate::term::{Sort, STerm, Term, TermConstant, TermProduct, TermSort};
use crate::text::{concat3, id_text, id_to_string};

verus! {

broadcast use {
    vstd::std_specs::hash::group_hash_axioms,
    vstd::std_specs::vec::group_vec_axioms,
};

/// Definition of an inductive type,
/// e.g. `Inductive nat : Set := O : nat | S : nat -> nat`.
#[derive(Debug)]
pub struct InductiveDefinition {
    /// Name of the inductive type
    pub name: Id,
    /// Parameters of the inductive type (for parametric types like `List A`)
    pub parameters: Vec<Parameter>,
    /// Sort that this inductive type lives in (Set, Prop, Type(i))
    pub sort: Rc<Term>,
    /// Constructors of this inductive type
    pub constructors: Vec<ConstructorDefinition>,
}

/// A parameter of an inductive type.
#[derive(Debug)]
pub struct Parameter {
    pub name: Id,
    pub ty: Rc<Term>,
}

/// Definition of a constructor.
#[derive(Debug)]
pub struct ConstructorDefinition {
    /// Name of the constructor
    pub name: Id,
    /// Type of the constructor
    pub ty: Rc<Term>,
    /// Number of arguments this constructor takes
    pub arity: usize,
}

/// The value of a constructor definition.
pub struct SConstructor {
    pub name: Id,
    pub ty: STerm,
    pub arity: nat,
}

/// The value of an inductive definition.
pub struct SInductive {
    pub name: Id,
    pub params: Seq<(Id, STerm)>,
    pub sort: STerm,
    pub ctors: Seq<SConstructor>,
}

impl ConstructorDefinition {
    pub open spec fn view(&self) -> SConstructor {
        SConstructor { name: self.name, ty: (*self.ty)@, arity: self.arity as nat }
    }

    /// Creates a new constructor definition.
    pub fn new(name: Id, ty: Rc<Term>, arity: usize) -> (c: ConstructorDefinition)
        ensures
            c.name == name,
            c.ty@ == ty@,
            c.arity == arity,
    {
        ConstructorDefinition { name, ty, arity }
    }
}

/// `Π p1 : T1. ... Π pn : Tn. body` for the parameters `params`.
pub open spec fn pi_telescope(params: Seq<(Id, STerm)>, body: STerm) -> STerm
    decreases params.len(),
{
    if params.len() == 0 {
        body
    } else {
        STerm::Prod(params[0].0, Box::new(params[0].1), Box::new(pi_telescope(params.drop_first(), body)))
    }
}

/// The position of the first constructor named `name`, if any.
pub open spec fn first_ctor(ctors: Seq<SConstructor>, name: Id) -> Option<int>
    decreases ctors.len(),
{
    if ctors.len() == 0 {
        None
    } else if ctors[0].name == name {
        Some(0)
    } else {
        match first_ctor(ctors.drop_first(), name) {
            Some(i) => Some(i + 1),
            None => None,
        }
    }
}

pub proof fn lemma_first_ctor(ctors: Seq<SConstructor>, name: Id)
    ensures
        match first_ctor(ctors, name) {
            Some(i) => 0 <= i < ctors.len() && ctors[i].name == name && forall|j: int|
                0 <= j < i ==> ctors[j].name != name,
            None => forall|j: int| 0 <= j < ctors.len() ==> ctors[j].name != name,
        },
    decreases ctors.len(),
{
    if ctors.len() > 0 {
        lemma_first_ctor(ctors.drop_first(), name);
        if ctors[0].name != name {
            assert forall|j: int| 1 <= j < ctors.len() implies ctors[j] == ctors.drop_first()[j - 1] by {}
        }
    }
}

impl InductiveDefinition {
    pub open spec fn view(&self) -> SInductive {
        SInductive {
            name: self.name,
            params: self.parameters@.map_values(|p: Parameter| (p.name, (*p.ty)@)),
            sort: (*self.sort)@,
            ctors: self.constructors@.map_values(|c: ConstructorDefinition| c@),
        }
    }

    /// Creates a new inductive definition.
    pub fn new(
        name: Id,
        parameters: Vec<Parameter>,
        sort: Rc<Term>,
        constructors: Vec<ConstructorDefinition>,
    ) -> (d: InductiveDefinition)
        ensures
            d.name == name,
            d.parameters@ == parameters@,
            d.sort@ == sort@,
            d.constructors@ == constructors@,
    {
        InductiveDefinition { name, parameters, sort, constructors }
    }

    /// The type of the inductive type itself: `Π p1 : T1. ... Π pn : Tn. sort`.
    pub fn get_type(&self) -> (r: Rc<Term>)
        ensures
            (*r)@ == pi_telescope(self@.params, self@.sort),
    {
        let ghost params = self@.params;
        let mut result = crate::term::clone_term(&self.sort);
        let mut i = self.parameters.len();
        assert(params.skip(i as int) =~= Seq::<(Id, STerm)>::empty());
        while i > 0
            invariant
                i <= self.parameters@.len(),
                params == self@.params,
                params.len() == self.parameters@.len(),
                result@ == pi_telescope(params.skip(i as int), self@.sort),
            decreases i,
        {
            i = i - 1;
            let param = &self.parameters[i];
            assert(params.skip(i as int).drop_first() =~= params.skip(i + 1));
            assert(params.skip(i as int)[0] == params[i as int]);
            result = Term::Product(
                TermProduct {
                    var: param.name,
                    source: Rc::new(crate::term::clone_term(&param.ty)),
                    target: Rc::new(result),
                },
            );
        }
        assert(params.skip(0) =~= params);
        Rc::new(result)
    }

    /// The first constructor named `name`.
    pub fn find_constructor(&self, name: Id) -> (r: Option<&ConstructorDefinition>)
        ensures
            match first_ctor(self@.ctors, name) {
                Some(i) => r matches Some(c) && c@ == self@.ctors[i],
                None => r is None,
            },
    {
        proof {
            lemma_first_ctor(self@.ctors, name);
            assert(forall|j: int| 0 <= j < self.constructors@.len() ==> self@.ctors[j] == self.constructors@[j]@);
        }
        let mut i: usize = 0;
        while i < self.constructors.len()
            invariant
                i <= self.constructors@.len(),
                forall|j: int| 0 <= j < i ==> self.constructors@[j].name != name,
            decreases self.constructors@.len() - i,
        {
            if self.constructors[i].name == name {
                assert(self@.ctors[i as int] == self.constructors@[i as int]@);
                assert(forall|j: int| 0 <= j < i ==> self@.ctors[j] == self.constructors@[j]@);
                assert(self@.ctors[i as int].name == name);
                proof {
                    lemma_first_ctor(self@.ctors, name);
                }
                return Some(&self.constructors[i]);
            }
            i = i + 1;
        }
        None
    }

    /// The number of constructors.
    pub fn constructor_count(&self) -> (r: usize)
        ensures
            r == self@.ctors.len(),
    {
        self.constructors.len()
    }
}

/// The message with which a second inductive type of the same name is refused.
pub open spec fn duplicate_inductive_message(name: Id) -> Seq<char> {
    "Inductive type "@ + id_text(name) + " already defined"@
}

/// The message with which a second constructor of the same name is refused.
pub open spec fn duplicate_constructor_message(name: Id) -> Seq<char> {
    "Constructor "@ + id_text(name) + " already defined"@
}

/// Registers the constructors `ctors` as belonging to `ind`, front to back, and stops at
/// the first one that is already registered; returns the new registry and that constructor.
pub open spec fn register_ctors(owners: Map<Id, Id>, ctors: Seq<Id>, ind: Id) -> (Map<Id, Id>, Option<Id>)
    decreases ctors.len(),
{
    if ctors.len() == 0 {
        (owners, None)
    } else if owners.contains_key(ctors[0]) {
        (owners, Some(ctors[0]))
    } else {
        register_ctors(owners.insert(ctors[0], ind), ctors.drop_first(), ind)
    }
}

/// The names of the constructors of `d`.
pub open spec fn ctor_names(d: SInductive) -> Seq<Id> {
    d.ctors.map_values(|c: SConstructor| c.name)
}

/// The definitions of the names in `names` that `defs` holds, in the order of `names`.
pub open spec fn listed(names: Seq<Id>, defs: Map<Id, SInductive>) -> Seq<SInductive>
    decreases names.len(),
{
    if names.len() == 0 {
        Seq::empty()
    } else {
        let rest = listed(names.drop_last(), defs);
        if defs.contains_key(names.last()) {
            rest.push(defs[names.last()])
        } else {
            rest
        }
    }
}

/// What adding the definition `d` to `before` gives: `after`, and the result `r`.
pub open spec fn add_outcome(
    before: InductiveEnvironment,
    after: InductiveEnvironment,
    r: Result<(), String>,
    d: SInductive,
) -> bool {
    if before.inductives().contains_key(d.name) {
        &&& r matches Err(msg) && msg@ == duplicate_inductive_message(d.name)
        &&& after.inductives() == before.inductives()
        &&& after.owners() == before.owners()
        &&& after.names() == before.names()
    } else {
        let (owners, clash) = register_ctors(before.owners(), ctor_names(d), d.name);
        &&& after.owners() == owners
        &&& match clash {
            Some(c) => {
                &&& r matches Err(msg) && msg@ == duplicate_constructor_message(c)
                &&& after.inductives() == before.inductives()
                &&& after.names() == before.names()
            },
            None => {
                &&& r is Ok
                &&& after.inductives() == before.inductives().insert(d.name, d)
                &&& after.names() == before.names().push(d.name)
            },
        }
    }
}

proof fn lemma_register_ctors_owns(owners: Map<Id, Id>, ctors: Seq<Id>, ind: Id)
    requires
        register_ctors(owners, ctors, ind).1 is None,
    ensures
        forall|i: int| 0 <= i < ctors.len() ==> #[trigger] register_ctors(owners, ctors, ind).0.contains_key(ctors[i])
            && register_ctors(owners, ctors, ind).0[ctors[i]] == ind,
    decreases ctors.len(),
{
    if ctors.len() > 0 {
        let rest = ctors.drop_first();
        lemma_register_ctors_owns(owners.insert(ctors[0], ind), rest, ind);
        lemma_register_ctors_keeps(owners.insert(ctors[0], ind), rest, ind, ctors[0]);
        assert forall|i: int| 0 <= i < ctors.len() implies #[trigger] register_ctors(owners, ctors, ind).0.contains_key(ctors[i])
            && register_ctors(owners, ctors, ind).0[ctors[i]] == ind by {
            assert(register_ctors(owners, ctors, ind) == register_ctors(owners.insert(ctors[0], ind), rest, ind));
            if i > 0 {
                assert(ctors[i] == rest[i - 1]);
                assert(register_ctors(owners.insert(ctors[0], ind), rest, ind).0.contains_key(rest[i - 1]));
            }
        }
    }
}

proof fn lemma_register_ctors_keeps(owners: Map<Id, Id>, ctors: Seq<Id>, ind: Id, k: Id)
    requires
        owners.contains_key(k),
    ensures
        register_ctors(owners, ctors, ind).0.contains_key(k),
        register_ctors(owners, ctors, ind).0[k] == owners[k],
    decreases ctors.len(),
{
    if ctors.len() > 0 && !owners.contains_key(ctors[0]) {
        lemma_register_ctors_keeps(owners.insert(ctors[0], ind), ctors.drop_first(), ind, k);
    }
}

/// Once a definition has been added, it is found under its name, and each of its
/// constructors leads back to it.
pub proof fn lemma_added_inductive_is_found(before: InductiveEnvironment, after: InductiveEnvironment, d: SInductive)
    requires
        add_outcome(before, after, Ok(()), d),
    ensures
        after.inductives().contains_key(d.name),
        after.inductives()[d.name] == d,
        forall|i: int| 0 <= i < d.ctors.len() ==> after.owners().contains_key(#[trigger] d.ctors[i].name)
            && after.owners()[d.ctors[i].name] == d.name,
{
    lemma_register_ctors_owns(before.owners(), ctor_names(d), d.name);
    assert forall|i: int| 0 <= i < d.ctors.len() implies after.owners().contains_key(#[trigger] d.ctors[i].name)
        && after.owners()[d.ctors[i].name] == d.name by {
        assert(ctor_names(d)[i] == d.ctors[i].name);
        assert(register_ctors(before.owners(), ctor_names(d), d.name).0.contains_key(ctor_names(d)[i]));
    }
}

/// The value of the inductive type `Bool` with the constructors `True` and `False`.
pub open spec fn bool_definition(bool_id: Id, true_id: Id, false_id: Id) -> SInductive {
    SInductive {
        name: bool_id,
        params: Seq::empty(),
        sort: STerm::Sort(Sort::SetSort),
        ctors: seq![
            SConstructor { name: true_id, ty: STerm::Const(bool_id), arity: 0 },
            SConstructor { name: false_id, ty: STerm::Const(bool_id), arity: 0 },
        ],
    }
}

/// The value of the inductive type `Nat` with the constructors `O : Nat` and `S : Nat -> Nat`
/// (the binder of `S`'s type is `Id(0)`).
pub open spec fn nat_definition(nat_id: Id, zero_id: Id, succ_id: Id) -> SInductive {
    SInductive {
        name: nat_id,
        params: Seq::empty(),
        sort: STerm::Sort(Sort::SetSort),
        ctors: seq![
            SConstructor { name: zero_id, ty: STerm::Const(nat_id), arity: 0 },
            SConstructor {
                name: succ_id,
                ty: STerm::Prod(Id(0), Box::new(STerm::Const(nat_id)), Box::new(STerm::Const(nat_id))),
                arity: 1,
            },
        ],
    }
}

/// A collection of inductive type definitions.
pub struct InductiveEnvironment {
    definitions: HashMap<usize, InductiveDefinition>,
    constructor_to_inductive: HashMap<usize, Id>,
    names: Vec<Id>,
}

impl InductiveEnvironment {
    /// The definition of each inductive type, by its name.
    pub closed spec fn inductives(&self) -> Map<Id, SInductive> {
        Map::new(|k: Id| self.definitions@.contains_key(k.0), |k: Id| self.definitions@[k.0]@)
    }

    /// The inductive type of each registered constructor.
    pub closed spec fn owners(&self) -> Map<Id, Id> {
        Map::new(|k: Id| self.constructor_to_inductive@.contains_key(k.0), |k: Id| self.constructor_to_inductive@[k.0])
    }

    /// The names of the inductive types, in the order in which they were added.
    pub closed spec fn names(&self) -> Seq<Id> {
        self.names@
    }

    /// Each stored definition is stored under its own name, and `names` lists each of them once.
    pub closed spec fn wf(&self) -> bool {
        &&& self.names@.no_duplicates()
        &&& forall|k: usize| #[trigger] self.definitions@.contains_key(k) ==> self.names@.contains(Id(k)) && self.definitions@[k].name == Id(k)
        &&& forall|i: int| 0 <= i < self.names@.len() ==> self.definitions@.contains_key(#[trigger] self.names@[i].0)
    }

    /// Creates an empty inductive environment.
    pub fn new() -> (e: InductiveEnvironment)
        ensures
            e.wf(),
            e.inductives() == Map::<Id, SInductive>::empty(),
            e.owners() == Map::<Id, Id>::empty(),
            e.names() == Seq::<Id>::empty(),
    {
        let e = InductiveEnvironment {
            definitions: HashMap::new(),
            constructor_to_inductive: HashMap::new(),
            names: Vec::new(),
        };
        assert(e.inductives() =~= Map::<Id, SInductive>::empty());
        assert(e.owners() =~= Map::<Id, Id>::empty());
        e
    }

    /// Adds an inductive definition; refuses a name that is taken and a constructor
    /// name that is registered already (the constructors before it stay registered).
    pub fn add_inductive(&mut self, def: InductiveDefinition) -> (r: Result<(), String>)
        ensures
            add_outcome(*old(self), *final(self), r, def@),
            old(self).wf() ==> final(self).wf(),
    {
        if self.definitions.contains_key(&def.name.0) {
            assert(old(self).inductives().contains_key(def.name));
            let n = id_to_string(def.name);
            proof {
                reveal_strlit("Inductive type ");
                reveal_strlit(" already defined");
            }
            return Err(concat3("Inductive type ", n.as_str(), " already defined"));
        }
        assert(!old(self).inductives().contains_key(def.name));
        let ghost names = ctor_names(def@);
        assert(names.skip(0) =~= names);
        let mut i: usize = 0;
        while i < def.constructors.len()
            invariant
                i <= def.constructors@.len(),
                names == ctor_names(def@),
                names.len() == def.constructors@.len(),
                register_ctors(self.owners(), names.skip(i as int), def.name) == register_ctors(
                    old(self).owners(),
                    names,
                    def.name,
                ),
                self.definitions@ == old(self).definitions@,
                self.names@ == old(self).names@,
                !old(self).inductives().contains_key(def.name),
            decreases def.constructors@.len() - i,
        {
            let c = def.constructors[i].name;
            assert(def@.ctors[i as int] == def.constructors@[i as int]@);
            assert(names.skip(i as int)[0] == c);
            assert(names.skip(i as int).drop_first() =~= names.skip(i + 1));
            if self.constructor_to_inductive.contains_key(&c.0) {
                assert(self.owners().contains_key(c));
                let n = id_to_string(c);
                proof {
                    reveal_strlit("Constructor ");
                    reveal_strlit(" already defined");
                }
                return Err(concat3("Constructor ", n.as_str(), " already defined"));
            }
            let ghost before = self.owners();
            self.constructor_to_inductive.insert(c.0, def.name);
            assert(self.owners() =~= before.insert(c, def.name));
            i = i + 1;
        }
        assert(names.skip(i as int) =~= Seq::<Id>::empty());
        let name = def.name;
        let ghost d = def@;
        self.definitions.insert(name.0, def);
        self.names.push(name);
        assert(self.inductives() =~= old(self).inductives().insert(name, d));
        proof {
            if old(self).wf() {
                assert forall|k: usize| #[trigger] self.definitions@.contains_key(k) implies self.names@.contains(Id(k)) && self.definitions@[k].name == Id(k) by {
                    if k != name.0 {
                        assert(old(self).names@.contains(Id(k)));
                        let j = choose|j: int| 0 <= j < old(self).names@.len() && old(self).names@[j] == Id(k);
                        assert(self.names@[j] == Id(k));
                    } else {
                        assert(self.names@[self.names@.len() - 1] == Id(k));
                    }
                }
                assert forall|x: int, y: int| 0 <= x < y < self.names@.len() implies self.names@[x] != self.names@[y] by {
                    if y == self.names@.len() - 1 {
                        assert(old(self).definitions@.contains_key(old(self).names@[x].0));
                    }
                }
            }
        }
        Ok(())
    }

    /// The definition of the inductive type `name`.
    pub fn get_inductive(&self, name: Id) -> (r: Option<&InductiveDefinition>)
        ensures
            match r {
                Some(d) => self.inductives().contains_key(name) && d@ == self.inductives()[name],
                None => !self.inductives().contains_key(name),
            },
    {
        self.definitions.get(&name.0)
    }

    /// The inductive type that `constructor` belongs to.
    pub fn get_inductive_for_constructor(&self, constructor: Id) -> (r: Option<Id>)
        ensures
            match r {
                Some(i) => self.owners().contains_key(constructor) && i == self.owners()[constructor],
                None => !self.owners().contains_key(constructor),
            },
    {
        match self.constructor_to_inductive.get(&constructor.0) {
            Some(i) => Some(*i),
            None => None,
        }
    }

    /// The definition of `constructor`, found through the inductive type it belongs to.
    pub fn get_constructor(&self, constructor: Id) -> (r: Option<&ConstructorDefinition>)
        ensures
            r matches Some(c) <==> (self.owners().contains_key(constructor) && self.inductives().contains_key(
                self.owners()[constructor],
            ) && first_ctor(self.inductives()[self.owners()[constructor]].ctors, constructor) is Some),
            r matches Some(c) ==> c@ == self.inductives()[self.owners()[constructor]].ctors[first_ctor(
                self.inductives()[self.owners()[constructor]].ctors,
                constructor,
            )->0],
    {
        let inductive_id = match self.get_inductive_for_constructor(constructor) {
            Some(i) => i,
            None => return None,
        };
        let inductive_def = match self.get_inductive(inductive_id) {
            Some(d) => d,
            None => return None,
        };
        inductive_def.find_constructor(constructor)
    }

    /// The inductive types, in the order in which they were added.
    pub fn list_inductives(&self) -> (r: Vec<&InductiveDefinition>)
        ensures
            r@.map_values(|d: &InductiveDefinition| d@) == listed(self.names(), self.inductives()),
    {
        let mut r: Vec<&InductiveDefinition> = Vec::new();
        let mut i: usize = 0;
        while i < self.names.len()
            invariant
                i <= self.names@.len(),
                r@.map_values(|d: &InductiveDefinition| d@) == listed(self.names@.take(i as int), self.inductives()),
            decreases self.names@.len() - i,
        {
            let id = self.names[i];
            assert(self.names@.take(i + 1).drop_last() =~= self.names@.take(i as int));
            let ghost prev = r@;
            match self.definitions.get(&id.0) {
                Some(d) => {
                    r.push(d);
                    assert(r@.map_values(|d: &InductiveDefinition| d@) =~= prev.map_values(
                        |d: &InductiveDefinition| d@,
                    ).push(self.inductives()[id]));
                },
                None => {},
            }
            i = i + 1;
        }
        assert(self.names@.take(self.names@.len() as int) =~= self.names@);
        r
    }
}

impl InductiveEnvironment {
    /// Adds the standard type `Inductive Bool : Set := True : Bool | False : Bool`.
    pub fn add_bool(&mut self, bool_id: Id, true_id: Id, false_id: Id) -> (r: Result<(), String>)
        ensures
            add_outcome(*old(self), *final(self), r, bool_definition(bool_id, true_id, false_id)),
            old(self).wf() ==> final(self).wf(),
    {
        let set = Rc::new(Term::Sort(TermSort { sort: Sort::SetSort }));
        let true_constructor = ConstructorDefinition::new(
            true_id,
            Rc::new(Term::Constant(TermConstant { id: bool_id })),
            0,
        );
        let false_constructor = ConstructorDefinition::new(
            false_id,
            Rc::new(Term::Constant(TermConstant { id: bool_id })),
            0,
        );
        let mut ctors: Vec<ConstructorDefinition> = Vec::new();
        ctors.push(true_constructor);
        ctors.push(false_constructor);
        let bool_def = InductiveDefinition::new(bool_id, Vec::new(), set, ctors);
        assert(bool_def@.params =~= Seq::<(Id, STerm)>::empty());
        assert(bool_def@.ctors =~= bool_definition(bool_id, true_id, false_id).ctors);
        self.add_inductive(bool_def)
    }

    /// Adds the standard type `Inductive Nat : Set := O : Nat | S : Nat -> Nat`.
    pub fn add_nat(&mut self, nat_id: Id, zero_id: Id, succ_id: Id) -> (r: Result<(), String>)
        ensures
            add_outcome(*old(self), *final(self), r, nat_definition(nat_id, zero_id, succ_id)),
            old(self).wf() ==> final(self).wf(),
    {
        let set = Rc::new(Term::Sort(TermSort { sort: Sort::SetSort }));
        let zero_constructor = ConstructorDefinition::new(
            zero_id,
            Rc::new(Term::Constant(TermConstant { id: nat_id })),
            0,
        );
        let mut id_gen = IdGenerator::new();
        let dummy = id_gen.generate_id();
        let succ_type = Rc::new(
            Term::Product(
                TermProduct {
                    var: dummy,
                    source: Rc::new(Term::Constant(TermConstant { id: nat_id })),
                    target: Rc::new(Term::Constant(TermConstant { id: nat_id })),
                },
            ),
        );
        let succ_constructor = ConstructorDefinition::new(succ_id, succ_type, 1);
        let mut ctors: Vec<ConstructorDefinition> = Vec::new();
        ctors.push(zero_constructor);
        ctors.push(succ_constructor);
        let nat_def = InductiveDefinition::new(nat_id, Vec::new(), set, ctors);
        assert(nat_def@.params =~= Seq::<(Id, STerm)>::empty());
        assert(nat_def@.ctors =~= nat_definition(nat_id, zero_id, succ_id).ctors);
        self.add_inductive(nat_def)
    }
}

impl Default for InductiveEnvironment {
    fn default() -> (e: InductiveEnvironment)
        ensures
            e.wf(),
            e.inductives() == Map::<Id, SInductive>::empty(),
            e.owners() == Map::<Id, Id>::empty(),
            e.names() == Seq::<Id>::empty(),
    {
        InductiveEnvironment::new()
    }
}

} // verus!
