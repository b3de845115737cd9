use vstd::prelude::*;
use vstd::string::*;

use crate::text::{decimal, int_text, int_to_string};

verus! {

broadcast use vstd::std_specs::vec::group_vec_axioms;

/// Errors of the assembly compiler.
#[derive(Debug)]
pub enum CompileError {
    EntrypointNotFound,
    UnsupportedConstruct(String),
    InvalidSyscall,
}

/// The value of a compile error.
pub enum SCompileError {
    EntrypointNotFound,
    UnsupportedConstruct(Seq<char>),
    InvalidSyscall,
}

impl CompileError {
    pub open spec fn view(&self) -> SCompileError {
        match self {
            CompileError::EntrypointNotFound => SCompileError::EntrypointNotFound,
            CompileError::UnsupportedConstruct(m) => SCompileError::UnsupportedConstruct(m@),
            CompileError::InvalidSyscall => SCompileError::InvalidSyscall,
        }
    }
}

/// The value of a compilation result.
pub open spec fn result_view(r: Result<(), CompileError>) -> Result<(), SCompileError> {
    match r {
        Ok(_) => Ok(()),
        Err(e) => Err(e@),
    }
}

/// What the compiler knows of an array type: the fields of its elements, each with a type.
#[derive(Debug)]
pub struct ArrayInfo {
    pub element_type: String,
    pub field_names: Vec<String>,
    pub field_types: Vec<String>,
    pub dimension: usize,
    pub size: Option<usize>,
}

/// The texts of a vector of strings.
pub open spec fn texts(v: Seq<String>) -> Seq<Seq<char>> {
    v.map_values(|s: String| s@)
}

/// The value of an array description.
pub struct SArrayInfo {
    pub element_type: Seq<char>,
    pub field_names: Seq<Seq<char>>,
    pub field_types: Seq<Seq<char>>,
    pub dimension: usize,
    pub size: Option<usize>,
}

impl ArrayInfo {
    pub open spec fn view(&self) -> SArrayInfo {
        SArrayInfo {
            element_type: self.element_type@,
            field_names: texts(self.field_names@),
            field_types: texts(self.field_types@),
            dimension: self.dimension,
            size: self.size,
        }
    }

    /// A copy of this description.
    pub fn duplicate(&self) -> (r: ArrayInfo)
        ensures
            r@ == self@,
    {
        ArrayInfo {
            element_type: self.element_type.clone(),
            field_names: copy_texts(&self.field_names),
            field_types: copy_texts(&self.field_types),
            dimension: self.dimension,
            size: self.size,
        }
    }
}

/// A copy of a vector of strings.
pub fn copy_texts(v: &Vec<String>) -> (r: Vec<String>)
    ensures
        texts(r@) == texts(v@),
        r@.len() == v@.len(),
{
    let mut r: Vec<String> = Vec::new();
    let mut i: usize = 0;
    while i < v.len()
        invariant
            i <= v@.len(),
            r@.len() == i,
            forall|j: int| 0 <= j < i ==> #[trigger] r@[j]@ == v@[j]@,
        decreases v@.len() - i,
    {
        r.push(v[i].clone());
        i = i + 1;
    }
    assert(texts(r@) =~= texts(v@));
    r
}

/// The counters from which the labels of conditionals and loops take their numbers.
#[derive(Debug, Clone, Copy, PartialEq, Eq, Structural)]
pub struct LabelCounters {
    pub if_labels: usize,
    pub loop_labels: usize,
    pub break_if_labels: usize,
}

impl LabelCounters {
    pub fn new() -> (c: LabelCounters)
        ensures
            c.if_labels == 0 && c.loop_labels == 0 && c.break_if_labels == 0,
    {
        LabelCounters { if_labels: 0, loop_labels: 0, break_if_labels: 0 }
    }
}

/// The successor of a label counter; it wraps around as an atomic counter does.
pub open spec fn next_label(n: usize) -> usize {
    if n == usize::MAX {
        0
    } else {
        (n + 1) as usize
    }
}

pub fn next_label_exec(n: usize) -> (r: usize)
    ensures
        r == next_label(n),
{
    if n == usize::MAX {
        0
    } else {
        n + 1
    }
}

/// The stack slot at `offset`: `qword ptr [rbp - 8 - (offset - 8)]`.
pub open spec fn slot(offset: i32) -> Seq<char> {
    "qword ptr [rbp - 8 - "@ + int_text(offset - 8) + "]"@
}

pub fn slot_text(offset: i32) -> (r: String)
    ensures
        r@ == slot(offset),
{
    let mut r = String::from_str("qword ptr [rbp - 8 - ");
    let d = int_to_string(offset as i128 - 8);
    r.append(d.as_str());
    r.append("]");
    proof {
        reveal_strlit("qword ptr [rbp - 8 - ");
        reveal_strlit("]");
    }
    r
}

/// The text of an instruction line: four spaces, the instruction, a newline.
pub open spec fn line(s: Seq<char>) -> Seq<char> {
    "    "@ + s + "\n"@
}

/// Appends an instruction line.
pub fn emit(out: &mut String, s: &str)
    ensures
        final(out)@ == old(out)@ + line(s@),
{
    out.append("    ");
    out.append(s);
    out.append("\n");
    proof {
        reveal_strlit("    ");
        reveal_strlit("\n");
    }
}

/// Appends a label line `name:`.
pub fn emit_label(out: &mut String, name: &str)
    ensures
        final(out)@ == old(out)@ + name@ + ":\n"@,
{
    out.append(name);
    out.append(":\n");
    proof {
        reveal_strlit(":\n");
    }
}

/// `a` followed by `b`.
pub fn join2(a: &str, b: &str) -> (r: String)
    ensures
        r@ == a@ + b@,
{
    let mut r = String::from_str(a);
    r.append(b);
    r
}

/// `a`, `b` and `c` in a row.
pub fn join3(a: &str, b: &str, c: &str) -> (r: String)
    ensures
        r@ == a@ + b@ + c@,
{
    let mut r = String::from_str(a);
    r.append(b);
    r.append(c);
    r
}

/// `a`, `b`, `c` and `d` in a row.
pub fn join4(a: &str, b: &str, c: &str, d: &str) -> (r: String)
    ensures
        r@ == a@ + b@ + c@ + d@,
{
    let mut r = String::from_str(a);
    r.append(b);
    r.append(c);
    r.append(d);
    r
}

/// An error `UnsupportedConstruct(a ++ b)`.
pub fn unsupported(a: &str, b: &str) -> (r: CompileError)
    ensures
        r@ == SCompileError::UnsupportedConstruct(a@ + b@),
{
    CompileError::UnsupportedConstruct(join2(a, b))
}

/// The message of a call with the wrong number of arguments.
pub open spec fn arity_message(name: Seq<char>, expected: Seq<char>, got: nat) -> Seq<char> {
    name + " expects "@ + expected + ", got "@ + decimal(got)
}

pub fn arity_error(name: &str, expected: &str, got: usize) -> (r: CompileError)
    ensures
        r@ == SCompileError::UnsupportedConstruct(arity_message(name@, expected@, got as nat)),
{
    let g = crate::text::nat_to_string(got as u128);
    let mut m = String::from_str(name);
    m.append(" expects ");
    m.append(expected);
    m.append(", got ");
    m.append(g.as_str());
    proof {
        reveal_strlit(" expects ");
        reveal_strlit(", got ");
    }
    CompileError::UnsupportedConstruct(m)
}

/// The `m` characters of `s` from position `i` on.
pub open spec fn window(s: Seq<char>, i: int, m: int) -> Seq<char> {
    s.subrange(i, i + m)
}

/// Whether `s` holds `sub` somewhere.
pub open spec fn contains_text(s: Seq<char>, sub: Seq<char>) -> bool {
    exists|i: int| 0 <= i && i + sub.len() <= s.len() && #[trigger] window(s, i, sub.len() as int) == sub
}

pub fn contains_exec(s: &str, sub: &str) -> (r: bool)
    ensures
        r == contains_text(s@, sub@),
{
    let n = s.unicode_len();
    let m = sub.unicode_len();
    if m > n {
        assert(!contains_text(s@, sub@));
        return false;
    }
    if m == 0 {
        assert(window(s@, 0, 0) =~= sub@);
        return true;
    }
    let mut i: usize = 0;
    while i <= n - m
        invariant
            n == s@.len(),
            m == sub@.len(),
            0 < m <= n,
            i <= n - m + 1,
            forall|k: int| 0 <= k < i ==> #[trigger] window(s@, k, m as int) != sub@,
        decreases n - m + 1 - i,
    {
        let part = s.substring_char(i, i + m);
        if text_matches(part, sub) {
            assert(window(s@, i as int, sub@.len() as int) == sub@);
            return true;
        }
        i = i + 1;
    }
    assert forall|k: int| 0 <= k && k + sub@.len() <= s@.len() implies #[trigger] window(s@, k, sub@.len() as int) != sub@ by {
        assert(k < i);
    }
    false
}

fn text_matches(a: &str, b: &str) -> (r: bool)
    ensures
        r == (a@ == b@),
{
    crate::names::text_eq(a, b)
}

/// Whether a string holds exactly the text `lit`.
pub fn is_text(s: &str, lit: &str) -> (r: bool)
    ensures
        r == (s@ == lit@),
{
    crate::names::text_eq(s, lit)
}

} // verus!
