use vstd::prelude::*;

verus! {

broadcast use vstd::std_specs::vec::group_vec_axioms;

/// `f a1 ... an` in a procedure body.
#[derive(Debug)]
pub struct ProcTermApply {
    pub f: Box<ProcTerm>,
    pub args: Vec<ProcTerm>,
}

#[derive(Debug)]
pub struct ProcTermVariable {
    pub variable: String,
}

/// A number literal, with the IEEE single-precision bits of the values that its text
/// reads as: the whole text (`float_bits`), the text without one trailing `f32`
/// (`suffix_float_bits`, `None` without that suffix), and the text without all trailing
/// `f32` (`trimmed_float_bits`); `None` where the text is no float.
#[derive(Debug)]
pub struct ProcTermNumber {
    pub number: String,
    pub float_bits: Option<u32>,
    pub suffix_float_bits: Option<u32>,
    pub trimmed_float_bits: Option<u32>,
}

/// `object.field` or `object.field index`.
#[derive(Debug)]
pub struct ProcTermFieldAccess {
    pub object: String,
    pub field: String,
    pub index: Option<Box<ProcTerm>>,
}

impl ProcTermFieldAccess {
    pub fn object_name(&self) -> (r: &str)
        ensures
            r@ == self.object@,
    {
        self.object.as_str()
    }

    pub fn field_name(&self) -> (r: &str)
        ensures
            r@ == self.field@,
    {
        self.field.as_str()
    }
}

/// `Type::method args`.
#[derive(Debug)]
pub struct ProcTermConstructorCall {
    pub array_type: String,
    pub method: String,
    pub args: Vec<ProcTerm>,
}

/// `term.*`.
#[derive(Debug)]
pub struct ProcTermDereference {
    pub term: Box<ProcTerm>,
}

/// `#if condition { then_body } #else { else_body }`.
#[derive(Debug)]
pub struct ProcTermIf {
    pub condition: Box<Statements>,
    pub then_body: Box<Statements>,
    pub else_clause: Option<ProcTermIfElse>,
}

#[derive(Debug)]
pub struct ProcTermIfElse {
    pub else_body: Box<Statements>,
}

#[derive(Debug)]
pub struct ProcTermParen {
    pub proc_term: Box<ProcTerm>,
}

/// `()`.
#[derive(Debug)]
pub struct ProcTermUnit {}

#[derive(Debug)]
pub enum ProcTerm {
    Apply(ProcTermApply),
    Variable(ProcTermVariable),
    Number(ProcTermNumber),
    FieldAccess(ProcTermFieldAccess),
    ConstructorCall(ProcTermConstructorCall),
    Dereference(ProcTermDereference),
    If(ProcTermIf),
    Paren(ProcTermParen),
    Unit(ProcTermUnit),
}

/// `#let x = value;`
#[derive(Debug)]
pub struct StatementLet {
    pub variable: String,
    pub value: Box<ProcTerm>,
}

impl StatementLet {
    pub fn variable_name(&self) -> (r: &str)
        ensures
            r@ == self.variable@,
    {
        self.variable.as_str()
    }
}

/// `#let mut x @ x_ref = value;`
#[derive(Debug)]
pub struct StatementLetMut {
    pub variable: String,
    pub reference_variable: String,
    pub value: Box<ProcTerm>,
}

impl StatementLetMut {
    pub fn variable_name(&self) -> (r: &str)
        ensures
            r@ == self.variable@,
    {
        self.variable.as_str()
    }

    pub fn reference_variable_name(&self) -> (r: &str)
        ensures
            r@ == self.reference_variable@,
    {
        self.reference_variable.as_str()
    }
}

/// `x <- value;`
#[derive(Debug)]
pub struct StatementAssign {
    pub variable: String,
    pub value: Box<ProcTerm>,
}

/// `object.field index <- value;`
#[derive(Debug)]
pub struct StatementFieldAssign {
    pub field_access: ProcTermFieldAccess,
    pub value: Box<ProcTerm>,
}

/// `#loop { body }`
#[derive(Debug)]
pub struct StatementLoop {
    pub body: Box<Statements>,
}

/// `#break;`
#[derive(Debug)]
pub struct StatementBreak {}

/// `#return value;`
#[derive(Debug)]
pub struct StatementReturn {
    pub value: Box<ProcTerm>,
}

/// `#call_ptx f args grid block;`
#[derive(Debug)]
pub struct StatementCallPtx {
    pub function_name: String,
    pub args: Vec<ProcTerm>,
    pub grid_dim_x: String,
    pub grid_dim_y: String,
    pub grid_dim_z: String,
    pub block_dim_x: String,
    pub block_dim_y: String,
    pub block_dim_z: String,
}

#[derive(Debug)]
pub enum Statement {
    Let(StatementLet),
    LetMut(StatementLetMut),
    Assign(StatementAssign),
    FieldAssign(StatementFieldAssign),
    Loop(StatementLoop),
    Break(StatementBreak),
    Return(StatementReturn),
    CallPtx(StatementCallPtx),
    Expr(ProcTerm),
}

/// `head; tail`
#[derive(Debug)]
pub struct StatementsThen {
    pub head: Box<Statement>,
    pub tail: Box<Statements>,
}

#[derive(Debug)]
pub enum Statements {
    Then(StatementsThen),
    Statement(Box<Statement>),
    Nil,
}

#[derive(Debug)]
pub struct TermVariable {
    pub variable: String,
}

/// A number literal of the type language; `float_bits` and `suffix_float_bits` as for
/// procedure terms.
#[derive(Debug)]
pub struct TermNumber {
    pub number: String,
    pub float_bits: Option<u32>,
    pub suffix_float_bits: Option<u32>,
}

/// `(term)`
#[derive(Debug)]
pub struct TermParen {
    pub term: Box<Term>,
}

/// `(x : ty)`
#[derive(Debug)]
pub struct TermVariableTyped {
    pub variable: String,
    pub ty: Box<Term>,
}

/// `(x : A) -> B`
#[derive(Debug)]
pub struct TermArrowDep {
    pub from: TermVariableTyped,
    pub to: Box<Term>,
}

/// `A -> B`
#[derive(Debug)]
pub struct TermArrowNodep {
    pub from: Box<Term>,
    pub to: Box<Term>,
}

#[derive(Debug)]
pub struct TermUnit {}

#[derive(Debug)]
pub struct TermStructField {
    pub name: String,
    pub ty: Box<Term>,
}

/// `#struct { name : ty, ... }`
#[derive(Debug)]
pub struct TermStruct {
    pub fields: Vec<TermStructField>,
}

impl TermStruct {
    pub fn fields(&self) -> (r: &Vec<TermStructField>)
        ensures
            r@ == self.fields@,
    {
        &self.fields
    }
}

#[derive(Debug)]
pub struct TermApply {
    pub f: Box<Term>,
    pub args: Vec<Term>,
}

/// Terms of the type language.
#[derive(Debug)]
pub enum Term {
    ArrowDep(TermArrowDep),
    ArrowNodep(TermArrowNodep),
    Unit(TermUnit),
    Variable(TermVariable),
    Number(TermNumber),
    Struct(TermStruct),
    Apply(TermApply),
    Paren(TermParen),
}

#[derive(Debug)]
pub struct ItemEntrypoint {
    pub name: String,
}

/// `#use_builtin "builtin_name" #as name;`
#[derive(Debug)]
pub struct ItemUseBuiltin {
    pub name: String,
    pub builtin_name: String,
}

#[derive(Debug)]
pub struct ItemProcBlock {
    pub statements: Statements,
}

/// `#proc name : ty { proc_block }`
#[derive(Debug)]
pub struct ItemProc {
    pub name: String,
    pub ty: Term,
    pub proc_block: ItemProcBlock,
}

/// `keyword: value` inside an array definition.
#[derive(Debug)]
pub struct ItemArrayField {
    pub keyword: String,
    pub value: Box<Term>,
}

/// `#array Name { item: #struct { ... }, dimension: n, ... }`
#[derive(Debug)]
pub struct ItemArray {
    pub name: String,
    pub fields: Vec<ItemArrayField>,
}

impl ItemArray {
    pub fn name(&self) -> (r: &str)
        ensures
            r@ == self.name@,
    {
        self.name.as_str()
    }

    pub fn fields(&self) -> (r: &Vec<ItemArrayField>)
        ensures
            r@ == self.fields@,
    {
        &self.fields
    }
}

/// A definition of the logic part of the language, which the assembler does not compile.
#[derive(Debug)]
pub struct ItemDefinition {
    pub name: String,
}

#[derive(Debug)]
pub enum Item {
    Entrypoint(ItemEntrypoint),
    UseBuiltin(ItemUseBuiltin),
    Proc(ItemProc),
    Array(ItemArray),
    Definition(ItemDefinition),
}

#[derive(Debug)]
pub struct File {
    pub items: Vec<Item>,
}

impl File {
    pub fn items(&self) -> (r: &Vec<Item>)
        ensures
            r@ == self.items@,
    {
        &self.items
    }
}

/// The name of the kind of a procedure term, as error messages give it.
pub open spec fn proc_term_kind(t: ProcTerm) -> Seq<char> {
    match t {
        ProcTerm::Apply(_) => "Apply"@,
        ProcTerm::Variable(_) => "Variable"@,
        ProcTerm::Number(_) => "Number"@,
        ProcTerm::FieldAccess(_) => "FieldAccess"@,
        ProcTerm::ConstructorCall(_) => "ConstructorCall"@,
        ProcTerm::Dereference(_) => "Dereference"@,
        ProcTerm::If(_) => "If"@,
        ProcTerm::Paren(_) => "Paren"@,
        ProcTerm::Unit(_) => "Unit"@,
    }
}

pub fn proc_term_kind_text(t: &ProcTerm) -> (r: &'static str)
    ensures
        r@ == proc_term_kind(*t),
{
    match t {
        ProcTerm::Apply(_) => "Apply",
        ProcTerm::Variable(_) => "Variable",
        ProcTerm::Number(_) => "Number",
        ProcTerm::FieldAccess(_) => "FieldAccess",
        ProcTerm::ConstructorCall(_) => "ConstructorCall",
        ProcTerm::Dereference(_) => "Dereference",
        ProcTerm::If(_) => "If",
        ProcTerm::Paren(_) => "Paren",
        ProcTerm::Unit(_) => "Unit",
    }
}

/// The name of the kind of a type term, as error messages give it.
pub open spec fn term_kind(t: Term) -> Seq<char> {
    match t {
        Term::ArrowDep(_) => "ArrowDep"@,
        Term::ArrowNodep(_) => "ArrowNodep"@,
        Term::Unit(_) => "Unit"@,
        Term::Variable(_) => "Variable"@,
        Term::Number(_) => "Number"@,
        Term::Struct(_) => "Struct"@,
        Term::Apply(_) => "Apply"@,
        Term::Paren(_) => "Paren"@,
    }
}

pub fn term_kind_text(t: &Term) -> (r: &'static str)
    ensures
        r@ == term_kind(*t),
{
    match t {
        Term::ArrowDep(_) => "ArrowDep",
        Term::ArrowNodep(_) => "ArrowNodep",
        Term::Unit(_) => "Unit",
        Term::Variable(_) => "Variable",
        Term::Number(_) => "Number",
        Term::Struct(_) => "Struct",
        Term::Apply(_) => "Apply",
        Term::Paren(_) => "Paren",
    }
}

/// The name of the kind of a statement, as error messages give it.
pub open spec fn statement_kind(s: Statement) -> Seq<char> {
    match s {
        Statement::Let(_) => "Let"@,
        Statement::LetMut(_) => "LetMut"@,
        Statement::Assign(_) => "Assign"@,
        Statement::FieldAssign(_) => "FieldAssign"@,
        Statement::Loop(_) => "Loop"@,
        Statement::Break(_) => "Break"@,
        Statement::Return(_) => "Return"@,
        Statement::CallPtx(_) => "CallPtx"@,
        Statement::Expr(_) => "Expr"@,
    }
}

pub fn statement_kind_text(s: &Statement) -> (r: &'static str)
    ensures
        r@ == statement_kind(*s),
{
    match s {
        Statement::Let(_) => "Let",
        Statement::LetMut(_) => "LetMut",
        Statement::Assign(_) => "Assign",
        Statement::FieldAssign(_) => "FieldAssign",
        Statement::Loop(_) => "Loop",
        Statement::Break(_) => "Break",
        Statement::Return(_) => "Return",
        Statement::CallPtx(_) => "CallPtx",
        Statement::Expr(_) => "Expr",
    }
}

/// The name of the kind of a statement sequence, as error messages give it.
pub open spec fn statements_kind(s: Statements) -> Seq<char> {
    match s {
        Statements::Then(_) => "Then"@,
        Statements::Statement(_) => "Statement"@,
        Statements::Nil => "Nil"@,
    }
}

pub fn statements_kind_text(s: &Statements) -> (r: &'static str)
    ensures
        r@ == statements_kind(*s),
{
    match s {
        Statements::Then(_) => "Then",
        Statements::Statement(_) => "Statement",
        Statements::Nil => "Nil",
    }
}

/// The name of the kind of an item, as error messages give it.
pub open spec fn item_kind(i: Item) -> Seq<char> {
    match i {
        Item::Entrypoint(_) => "Entrypoint"@,
        Item::UseBuiltin(_) => "UseBuiltin"@,
        Item::Proc(_) => "Proc"@,
        Item::Array(_) => "Array"@,
        Item::Definition(_) => "Definition"@,
    }
}

pub fn item_kind_text(i: &Item) -> (r: &'static str)
    ensures
        r@ == item_kind(*i),
{
    match i {
        Item::Entrypoint(_) => "Entrypoint",
        Item::UseBuiltin(_) => "UseBuiltin",
        Item::Proc(_) => "Proc",
        Item::Array(_) => "Array",
        Item::Definition(_) => "Definition",
    }
}

} // verus!
