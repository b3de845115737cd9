use vstd::prelude::*;
use vstd::string::*;

use crate::codegen::{
    emit, join2, join3, join4, line, result_view, slot, slot_text, texts, ArrayInfo, CompileError,
    SCompileError,
};
use crate::compile_text::{
    first_alpha, has_suffix, hex8, hex8_text, lemma_first_alpha, parse_usize, parse_usize_text,
    usize_text, ends_with,
};
use crate::lowering::{
    err, element_size, field_type, lemma_position, names_of, offset_overflow, position,
    soa_allocation, soa_comment, soa_field_body, soa_fields, soa_head, soa_mmap, soa_size_load,
    soa_size_store, soa_tail, strip_type_suffix, type_size, types_of, Alloc,
};
use crate::names::NameMap;
use crate::syntax::{
    proc_term_kind, proc_term_kind_text, term_kind, term_kind_text, ItemArray, ItemArrayField,
    ProcTerm, Statement, StatementFieldAssign, Statements, Term, TermStructField,
};
use crate::syscall::{emit_mov, mov, unknown_variable};
use crate::text::decimal;

verus! {

broadcast use vstd::std_specs::vec::group_vec_axioms;

/// Array pointers in a sequence of statements: none is counted.
pub fn count_array_pointers_in_statements(statements: &Statements) -> (r: i32)
    ensures
        r == 0,
    decreases statements,
{
    match statements {
        Statements::Then(then) => {
            let head_count = count_array_pointers_in_statement(&then.head);
            let tail_count = count_array_pointers_in_statements(&then.tail);
            head_count + tail_count
        },
        Statements::Statement(statement) => count_array_pointers_in_statement(statement),
        Statements::Nil => 0,
    }
}

pub fn count_array_pointers_in_statement(statement: &Statement) -> (r: i32)
    ensures
        r == 0,
    decreases statement,
{
    match statement {
        Statement::Let(let_stmt) => count_array_pointers_in_proc_term(&let_stmt.value),
        Statement::LetMut(let_mut_stmt) => count_array_pointers_in_proc_term(&let_mut_stmt.value),
        Statement::Assign(_) => 0,
        Statement::FieldAssign(_) => 0,
        Statement::Loop(loop_stmt) => count_array_pointers_in_statements(&loop_stmt.body),
        Statement::Break(_) => 0,
        Statement::Return(return_stmt) => count_array_pointers_in_proc_term(&return_stmt.value),
        Statement::CallPtx(_) => 0,
        Statement::Expr(proc_term) => count_array_pointers_in_proc_term(proc_term),
    }
}

pub fn count_array_pointers_in_proc_term(proc_term: &ProcTerm) -> (r: i32)
    ensures
        r == 0,
{
    0
}

pub fn count_array_pointers_in_term(term: &Term) -> (r: i32)
    ensures
        r == 0,
    decreases term,
{
    match term {
        Term::Apply(apply) => {
            let mut count = count_array_pointers_in_term(&apply.f);
            let mut i: usize = 0;
            while i < apply.args.len()
                invariant
                    count == 0,
                    i <= apply.args@.len(),
                    *term == Term::Apply(*apply),
                decreases apply.args@.len() - i,
            {
                proof {
                    assert(decreases_to!(*term => (*term)->Apply_0));
                    assert(decreases_to!(*apply => apply.args));
                    assert(decreases_to!(apply.args => apply.args@));
                    assert(decreases_to!(apply.args@ => apply.args@[i as int]));
                }
                count = count + count_array_pointers_in_term(&apply.args[i]);
                i = i + 1;
            }
            count
        },
        _ => 0,
    }
}

/// The fields of the element struct, after the fields `sf[j..]` are added.
pub open spec fn struct_fields(sf: Seq<TermStructField>, j: int, names: Seq<Seq<char>>, types: Seq<Seq<char>>) -> Result<
    (Seq<Seq<char>>, Seq<Seq<char>>),
    SCompileError,
>
    decreases sf.len() - j,
{
    if j < 0 || j >= sf.len() {
        Ok((names, types))
    } else {
        match *sf[j].ty {
            Term::Variable(v) => struct_fields(sf, j + 1, names.push(sf[j].name@), types.push(v.variable@)),
            _ => Err(err("Unsupported type term: "@ + term_kind(*sf[j].ty))),
        }
    }
}

/// The description that the fields `fs[i..]` of an array definition add to.
pub open spec fn array_fields(
    fs: Seq<ItemArrayField>,
    i: int,
    names: Seq<Seq<char>>,
    types: Seq<Seq<char>>,
    dimension: usize,
) -> Result<(Seq<Seq<char>>, Seq<Seq<char>>, usize), SCompileError>
    decreases fs.len() - i,
{
    if i < 0 || i >= fs.len() {
        Ok((names, types, dimension))
    } else if fs[i].keyword@ == "item"@ {
        match *fs[i].value {
            Term::Struct(st) => match struct_fields(st.fields@, 0, names, types) {
                Err(e) => Err(e),
                Ok((n2, t2)) => array_fields(fs, i + 1, n2, t2, dimension),
            },
            _ => array_fields(fs, i + 1, names, types, dimension),
        }
    } else if fs[i].keyword@ == "dimension"@ {
        match *fs[i].value {
            Term::Number(num) => array_fields(
                fs,
                i + 1,
                names,
                types,
                match parse_usize(num.number@) {
                    Some(d) => d,
                    None => 1,
                },
            ),
            _ => array_fields(fs, i + 1, names, types, dimension),
        }
    } else {
        array_fields(fs, i + 1, names, types, dimension)
    }
}

/// The name of the type that a field declares.
pub fn extract_type_from_term(term: &Term) -> (r: Result<String, CompileError>)
    ensures
        match *term {
            Term::Variable(v) => r matches Ok(t) && t@ == v.variable@,
            _ => r matches Err(e) && e@ == err("Unsupported type term: "@ + term_kind(*term)),
        },
{
    match term {
        Term::Variable(var) => Ok(var.variable.clone()),
        _ => {
            proof {
                reveal_strlit("Unsupported type term: ");
            }
            Err(CompileError::UnsupportedConstruct(join2("Unsupported type term: ", term_kind_text(term))))
        },
    }
}

/// Records the array type that an `#array` item defines.
pub fn compile_array(array: &ItemArray, arrays: &mut NameMap<ArrayInfo>) -> (r: Result<(), CompileError>)
    ensures
        match array_fields(array.fields@, 0, Seq::empty(), Seq::empty(), 1) {
            Err(e) => r matches Err(x) && x@ == e && final(arrays)@ == old(arrays)@,
            Ok(parts) => r is Ok && final(arrays)@.dom() == old(arrays)@.dom().insert(array.name@)
                && (forall|k: Seq<char>| k != array.name@ && old(arrays)@.contains_key(k) ==> #[trigger] final(arrays)@[k]
                == old(arrays)@[k]) && final(arrays)@[array.name@]@ == (crate::codegen::SArrayInfo {
                element_type: "struct"@,
                field_names: parts.0,
                field_types: parts.1,
                dimension: parts.2,
                size: None,
            }),
        },
{
    let array_name = array.name().to_owned();
    let mut field_names: Vec<String> = Vec::new();
    let mut field_types: Vec<String> = Vec::new();
    let mut dimension: usize = 1;
    let fields = array.fields();
    let mut i: usize = 0;
    proof {
        reveal_strlit("item");
        reveal_strlit("dimension");
        reveal_strlit("struct");
        assert(texts(field_names@) =~= Seq::<Seq<char>>::empty());
        assert(texts(field_types@) =~= Seq::<Seq<char>>::empty());
    }
    while i < fields.len()
        invariant
            fields@ == array.fields@,
            i <= fields@.len(),
            array_fields(fields@, 0, Seq::empty(), Seq::empty(), 1) == array_fields(
                fields@,
                i as int,
                texts(field_names@),
                texts(field_types@),
                dimension,
            ),
            arrays@ == old(arrays)@,
        decreases fields@.len() - i,
    {
        let field = &fields[i];
        if crate::codegen::is_text(field.keyword.as_str(), "item") {
            match &*field.value {
                Term::Struct(item_struct) => {
                    let sf = item_struct.fields();
                    let ghost names0 = texts(field_names@);
                    let ghost types0 = texts(field_types@);
                    let mut j: usize = 0;
                    while j < sf.len()
                        invariant
                            sf@ == item_struct.fields@,
                            j <= sf@.len(),
                            struct_fields(sf@, 0, names0, types0) == struct_fields(
                                sf@,
                                j as int,
                                texts(field_names@),
                                texts(field_types@),
                            ),
                            fields@ == array.fields@,
                            i < fields@.len(),
                            fields@[i as int] == *field,
                            field.keyword@ == "item"@,
                            *field.value == Term::Struct(*item_struct),
                            arrays@ == old(arrays)@,
                            array_fields(fields@, 0, Seq::empty(), Seq::empty(), 1) == array_fields(
                                fields@,
                                i as int,
                                names0,
                                types0,
                                dimension,
                            ),
                        decreases sf@.len() - j,
                    {
                        let struct_field = &sf[j];
                        let ghost n_before = field_names@;
                        let ghost t_before = field_types@;
                        field_names.push(struct_field.name.clone());
                        match extract_type_from_term(&struct_field.ty) {
                            Ok(t) => {
                                field_types.push(t);
                            },
                            Err(e) => {
                                return Err(e);
                            },
                        }
                        proof {
                            assert(texts(field_names@) =~= texts(n_before).push(struct_field.name@));
                            assert(texts(field_types@) =~= texts(t_before).push(field_types@.last()@));
                        }
                        j = j + 1;
                    }
                },
                _ => {},
            }
        } else if crate::codegen::is_text(field.keyword.as_str(), "dimension") {
            match &*field.value {
                Term::Number(num) => {
                    dimension = match parse_usize_text(num.number.as_str()) {
                        Some(d) => d,
                        None => 1,
                    };
                },
                _ => {},
            }
        }
        i = i + 1;
    }
    let info = ArrayInfo {
        element_type: String::from_str("struct"),
        field_names,
        field_types,
        dimension,
        size: None,
    };
    arrays.insert(array_name, info);
    Ok(())
}

/// The size in bytes of a value of the named type; 8 for a type it does not know.
pub fn get_type_size(type_text: &str) -> (r: usize)
    ensures
        r == type_size(type_text@),
{
    proof {
        reveal_strlit("f32");
        reveal_strlit("f64");
        reveal_strlit("u64");
        reveal_strlit("i64");
        reveal_strlit("u32");
        reveal_strlit("i32");
        reveal_strlit("u16");
        reveal_strlit("i16");
        reveal_strlit("u8");
        reveal_strlit("i8");
    }
    if crate::codegen::is_text(type_text, "f32") {
        4
    } else if crate::codegen::is_text(type_text, "f64") {
        8
    } else if crate::codegen::is_text(type_text, "u64") || crate::codegen::is_text(type_text, "i64") {
        8
    } else if crate::codegen::is_text(type_text, "u32") || crate::codegen::is_text(type_text, "i32") {
        4
    } else if crate::codegen::is_text(type_text, "u16") || crate::codegen::is_text(type_text, "i16") {
        2
    } else if crate::codegen::is_text(type_text, "u8") || crate::codegen::is_text(type_text, "i8") {
        1
    } else {
        8
    }
}

/// The position of `name` among the field names.
fn find_field(field_names: &[String], field_name: &str) -> (r: Option<usize>)
    ensures
        match position(texts(field_names@), field_name@) {
            Some(i) => r == Some(i as usize),
            None => r is None,
        },
{
    proof {
        lemma_position(texts(field_names@), field_name@);
    }
    let mut i: usize = 0;
    while i < field_names.len()
        invariant
            i <= field_names@.len(),
            forall|j: int| 0 <= j < i ==> texts(field_names@)[j] != field_name@,
        decreases field_names@.len() - i,
    {
        assert(texts(field_names@)[i as int] == field_names@[i as int]@);
        if crate::names::text_eq(field_names[i].as_str(), field_name) {
            proof {
                lemma_position(texts(field_names@), field_name@);
                let p = position(texts(field_names@), field_name@);
                if p is Some {
                    let k = p->0;
                    assert(k == i);
                }
            }
            return Some(i);
        }
        i = i + 1;
    }
    None
}

/// The size in bytes of an element of the field `field_name`.
pub fn get_element_size(field_types: &[String], field_names: &[String], field_name: &str) -> (r: Result<
    usize,
    CompileError,
>)
    requires
        field_names@.len() <= field_types@.len(),
    ensures
        match element_size(texts(field_names@), texts(field_types@), field_name@) {
            Ok(n) => r matches Ok(v) && v == n,
            Err(e) => r matches Err(x) && x@ == e,
        },
{
    match find_field(field_names, field_name) {
        Some(pos) => {
            proof {
                lemma_position(texts(field_names@), field_name@);
            }
            Ok(get_type_size(field_types[pos].as_str()))
        },
        None => {
            proof {
                reveal_strlit("Unknown field: ");
            }
            Err(CompileError::UnsupportedConstruct(join2("Unknown field: ", field_name)))
        },
    }
}

/// The type of the field `field_name`.
pub fn get_field_type(field_types: &[String], field_names: &[String], field_name: &str) -> (r: Result<
    String,
    CompileError,
>)
    requires
        field_names@.len() <= field_types@.len(),
    ensures
        match field_type(texts(field_names@), texts(field_types@), field_name@) {
            Ok(t) => r matches Ok(v) && v@ == t,
            Err(e) => r matches Err(x) && x@ == e,
        },
{
    match find_field(field_names, field_name) {
        Some(pos) => {
            proof {
                lemma_position(texts(field_names@), field_name@);
            }
            Ok(field_types[pos].clone())
        },
        None => {
            proof {
                reveal_strlit("Unknown field: ");
            }
            Err(CompileError::UnsupportedConstruct(join2("Unknown field: ", field_name)))
        },
    }
}

/// A numeral without the type suffix that starts at its first letter.
pub fn parse_number(number_str: &str) -> (r: String)
    ensures
        r@ == strip_type_suffix(number_str@),
{
    proof {
        lemma_first_alpha(number_str@);
    }
    let n = number_str.unicode_len();
    let mut i: usize = 0;
    while i < n
        invariant
            n == number_str@.len(),
            i <= n,
            forall|j: int| 0 <= j < i ==> !crate::compile_text::is_ascii_alpha(number_str@[j]),
        decreases n - i,
    {
        let c = number_str.get_char(i);
        if ('a' <= c && c <= 'z') || ('A' <= c && c <= 'Z') {
            proof {
                lemma_first_alpha(number_str@);
                if first_alpha(number_str@) is Some {
                    let k = first_alpha(number_str@)->0;
                    assert(k == i);
                }
            }
            return number_str.substring_char(0, i).to_owned();
        }
        i = i + 1;
    }
    number_str.to_owned()
}

fn emit_soa_comment(output: &mut String, field_name: &str, field_type: &str, with_var: bool)
    ensures
        final(output)@ == old(output)@ + soa_comment(field_name@, field_type@, with_var),
{
    let es = usize_text(get_type_size(field_type));
    let mut comment = String::new();
    if with_var {
        comment.append("# Field '");
        comment.append(field_name);
        comment.append("': ");
        comment.append(field_type);
        comment.append(" array (");
        comment.append(es.as_str());
        comment.append(" bytes per element)");
        proof {
            reveal_strlit("# Field '");
            reveal_strlit("': ");
            reveal_strlit(" array (");
            reveal_strlit(" bytes per element)");
        }
    } else {
        comment.append("# Allocating array for field '");
        comment.append(field_name);
        comment.append("' of type '");
        comment.append(field_type);
        comment.append("' (element size: ");
        comment.append(es.as_str());
        comment.append(" bytes)");
        proof {
            reveal_strlit("# Allocating array for field '");
            reveal_strlit("' of type '");
            reveal_strlit("' (element size: ");
            reveal_strlit(" bytes)");
        }
    }
    emit(output, comment.as_str());
}

fn emit_soa_size_load(output: &mut String, size: &str)
    ensures
        final(output)@ == old(output)@ + soa_size_load(size@),
{
    proof {
        reveal_strlit("rsi");
        reveal_strlit("mov rsi, ");
        reveal_strlit("        # Load array size");
    }
    if !crate::codegen::is_text(size, "rsi") {
        let load = join3("mov rsi, ", size, "        # Load array size");
        emit(output, load.as_str());
    } else {
        assert(output@ =~= old(output)@ + soa_size_load(size@));
    }
}

fn emit_soa_mmap(output: &mut String, field_type: &str, with_var: bool)
    ensures
        final(output)@ == old(output)@ + soa_mmap(field_type@, with_var),
{
    let ghost before = output@;
    let es = usize_text(get_type_size(field_type));
    let load_es = join3("mov rax, ", es.as_str(), "   # Load element size");
    proof {
        reveal_strlit("mov rax, ");
        reveal_strlit("   # Load element size");
    }
    emit(output, load_es.as_str());
    emit(output, "mul rsi                  # rax = element_size * array_length");
    if with_var {
        emit(output, "mov rsi, rax             # rsi = total_size for field array");
    } else {
        emit(output, "mov rsi, rax             # rsi = total_size for this field array");
    }
    emit(output, "mov rax, 9               # sys_mmap");
    if with_var {
        emit(output, "mov rdi, 0               # addr = NULL");
    } else {
        emit(output, "mov rdi, 0               # addr = NULL (let kernel choose)");
    }
    emit(output, "mov rdx, 3               # prot = PROT_READ | PROT_WRITE");
    emit(output, "mov r10, 34              # flags = MAP_PRIVATE | MAP_ANONYMOUS");
    if with_var {
        emit(output, "mov r8, -1               # fd = -1");
    } else {
        emit(output, "mov r8, -1               # fd = -1 (anonymous mapping)");
    }
    emit(output, "mov r9, 0                # offset = 0");
    emit(output, "syscall");
    assert(output@ =~= before + soa_mmap(field_type@, with_var));
}

/// Appends the code that allocates the array of one field.
fn emit_soa_field_body(output: &mut String, field_name: &str, field_type: &str, size: &str, with_var: bool)
    ensures
        final(output)@ == old(output)@ + soa_field_body(field_name@, field_type@, size@, with_var),
{
    let ghost before = output@;
    emit_soa_comment(output, field_name, field_type, with_var);
    emit_soa_size_load(output, size);
    emit_soa_mmap(output, field_type, with_var);
    assert(output@ =~= before + soa_field_body(field_name@, field_type@, size@, with_var));
}

/// The field arrays `i..` of a Structure-of-Arrays allocation.
fn soa_fields_exec(
    name: &str,
    array_info: &ArrayInfo,
    size: &str,
    with_var: bool,
    output: &mut String,
    stack_offset: &mut i32,
    variables: &mut NameMap<i32>,
) -> (r: Result<(), CompileError>)
    requires
        array_info.field_names@.len() <= array_info.field_types@.len(),
    ensures
        ({
            let a = soa_fields(
                name@,
                names_of(*array_info),
                types_of(*array_info),
                size@,
                with_var,
                old(output)@,
                *old(stack_offset),
                old(variables)@,
                0,
            );
            &&& final(output)@ == a.out
            &&& *final(stack_offset) == a.offset
            &&& final(variables)@ == a.vars
            &&& result_view(r) == a.result
        }),
{
    let ghost names = names_of(*array_info);
    let ghost types = types_of(*array_info);
    let ghost total = soa_fields(name@, names, types, size@, with_var, old(output)@, *old(stack_offset), old(variables)@, 0);
    proof {
        reveal_strlit("_");
        reveal_strlit("_ptr");
        reveal_strlit("mov ");
        reveal_strlit(", rax  # Store ");
    }
    let n = array_info.field_names.len();
    let mut i: usize = 0;
    while i < n
        invariant
            n == array_info.field_names@.len(),
            n <= array_info.field_types@.len(),
            i <= n,
            names == names_of(*array_info),
            types == types_of(*array_info),
            total == soa_fields(name@, names, types, size@, with_var, output@, *stack_offset, variables@, i as int),
            total == soa_fields(name@, names, types, size@, with_var, old(output)@, *old(stack_offset), old(variables)@, 0),
        decreases n - i,
    {
        let ghost before = output@;
        let field_name = &array_info.field_names[i];
        let field_type = &array_info.field_types[i];
        assert(names[i as int] == field_name@);
        assert(types[i as int] == field_type@);
        emit_soa_field_body(output, field_name.as_str(), field_type.as_str(), size, with_var);
        if *stack_offset > i32::MAX - 8 {
            proof {
                reveal_strlit("Stack offset overflow");
            }
            return Err(CompileError::UnsupportedConstruct(String::from_str("Stack offset overflow")));
        }
        *stack_offset = *stack_offset + 8;
        let ptr_offset = *stack_offset;
        let mut ptr = String::from_str(name);
        ptr.append("_");
        ptr.append(field_name.as_str());
        ptr.append("_ptr");
        let st = slot_text(ptr_offset);
        let store = join4("mov ", st.as_str(), ", rax  # Store ", ptr.as_str());
        let ghost mid = output@;
        variables.insert(ptr, ptr_offset);
        emit(output, store.as_str());
        assert(output@ =~= mid + line("mov "@ + slot(ptr_offset) + ", rax  # Store "@ + (name@ + "_"@ + field_name@ + "_ptr"@)));
        i = i + 1;
    }
    Ok(())
}

fn emit_soa_head(output: &mut String, name: &str, n: usize, with_var: bool)
    ensures
        final(output)@ == old(output)@ + soa_head(name@, n as nat, with_var),
{
    let ghost before = output@;
    let count = usize_text(n);
    proof {
        reveal_strlit("# SoA allocation for variable '");
        reveal_strlit("'");
        reveal_strlit("# Allocating ");
        reveal_strlit(" separate field arrays");
        reveal_strlit("# Structure of Arrays allocation for ");
        reveal_strlit(" separate arrays for each field");
    }
    if with_var {
        let a = join3("# SoA allocation for variable '", name, "'");
        emit(output, a.as_str());
        let b = join3("# Allocating ", count.as_str(), " separate field arrays");
        emit(output, b.as_str());
    } else {
        let a = join2("# Structure of Arrays allocation for ", name);
        emit(output, a.as_str());
        let b = join3("# Allocating ", count.as_str(), " separate arrays for each field");
        emit(output, b.as_str());
    }
    assert(output@ =~= before + soa_head(name@, n as nat, with_var));
}

fn emit_soa_size_store(output: &mut String, off: i32, name: &str, size: &str)
    ensures
        final(output)@ == old(output)@ + soa_size_store(off, name@, size@),
{
    let ghost before = output@;
    proof {
        reveal_strlit("_size");
        reveal_strlit("rsi");
        reveal_strlit("mov ");
        reveal_strlit(", rsi  # Store ");
        reveal_strlit("mov rax, ");
        reveal_strlit("        # Load array size");
        reveal_strlit(", rax  # Store ");
    }
    let size_var = join2(name, "_size");
    let st = slot_text(off);
    if crate::codegen::is_text(size, "rsi") {
        let a = join4("mov ", st.as_str(), ", rsi  # Store ", size_var.as_str());
        emit(output, a.as_str());
    } else {
        let a = join3("mov rax, ", size, "        # Load array size");
        emit(output, a.as_str());
        let b = join4("mov ", st.as_str(), ", rax  # Store ", size_var.as_str());
        emit(output, b.as_str());
    }
    assert(output@ =~= before + soa_size_store(off, name@, size@));
}

fn emit_soa_tail(output: &mut String, name: &str, with_var: bool)
    ensures
        final(output)@ == old(output)@ + soa_tail(name@, with_var),
{
    let ghost before = output@;
    proof {
        reveal_strlit("# SoA allocation complete for variable '");
        reveal_strlit("'");
        reveal_strlit("# SoA allocation complete for ");
        reveal_strlit("\n");
    }
    if with_var {
        let a = join3("# SoA allocation complete for variable '", name, "'");
        emit(output, a.as_str());
    } else {
        let a = join2("# SoA allocation complete for ", name);
        emit(output, a.as_str());
    }
    output.append("\n");
    assert(output@ =~= before + soa_tail(name@, with_var));
}

/// A Structure-of-Arrays allocation of `name`.
fn soa_exec(
    name: &str,
    array_info: &ArrayInfo,
    size: &str,
    with_var: bool,
    output: &mut String,
    stack_offset: &mut i32,
    variables: &mut NameMap<i32>,
) -> (r: Result<(), CompileError>)
    requires
        array_info.field_names@.len() <= array_info.field_types@.len(),
    ensures
        ({
            let a = soa_allocation(name@, *array_info, size@, with_var, old(output)@, *old(stack_offset), old(variables)@);
            &&& final(output)@ == a.out
            &&& *final(stack_offset) == a.offset
            &&& final(variables)@ == a.vars
            &&& result_view(r) == a.result
        }),
{
    proof {
        reveal_strlit("Stack offset overflow");
        reveal_strlit("_size");
    }
    emit_soa_head(output, name, array_info.field_names.len(), with_var);
    if *stack_offset > i32::MAX - 8 {
        return Err(CompileError::UnsupportedConstruct(String::from_str("Stack offset overflow")));
    }
    *stack_offset = *stack_offset + 8;
    let size_offset = *stack_offset;
    emit_soa_size_store(output, size_offset, name, size);
    let size_var = join2(name, "_size");
    variables.insert(size_var, size_offset);
    match soa_fields_exec(name, array_info, size, with_var, output, stack_offset, variables) {
        Ok(()) => {},
        Err(e) => return Err(e),
    }
    emit_soa_tail(output, name, with_var);
    Ok(())
}

/// The description of an array once its size is known: a numeral size is recorded.
pub open spec fn sized(info: crate::codegen::SArrayInfo, size: Seq<char>) -> crate::codegen::SArrayInfo {
    crate::codegen::SArrayInfo {
        element_type: info.element_type,
        field_names: info.field_names,
        field_types: info.field_types,
        dimension: info.dimension,
        size: match parse_usize(size) {
            Some(n) => Some(n),
            None => info.size,
        },
    }
}

/// Allocates the arrays of the fields of `array_name` and records the size, when it is a
/// numeral, in the array's description.
pub fn generate_soa_allocation(
    array_name: &str,
    array_info: &ArrayInfo,
    size: &str,
    output: &mut String,
    stack_offset: &mut i32,
    variables: &mut NameMap<i32>,
    arrays: &mut NameMap<ArrayInfo>,
) -> (r: Result<(), CompileError>)
    requires
        array_info.field_names@.len() <= array_info.field_types@.len(),
    ensures
        ({
            let a = soa_allocation(array_name@, *array_info, size@, false, old(output)@, *old(stack_offset), old(variables)@);
            &&& final(output)@ == a.out
            &&& *final(stack_offset) == a.offset
            &&& final(variables)@ == a.vars
            &&& result_view(r) == a.result
        }),
        r is Err ==> final(arrays)@ == old(arrays)@,
        r is Ok ==> {
            &&& final(arrays)@.dom() == old(arrays)@.dom().insert(array_name@)
            &&& forall|k: Seq<char>| k != array_name@ && old(arrays)@.contains_key(k) ==> #[trigger] final(arrays)@[k] == old(arrays)@[k]
            &&& final(arrays)@[array_name@]@ == sized(array_info@, size@)
        },
{
    let mut updated = array_info.duplicate();
    match soa_exec(array_name, array_info, size, false, output, stack_offset, variables) {
        Ok(()) => {},
        Err(e) => return Err(e),
    }
    match parse_usize_text(size) {
        Some(n) => {
            updated.size = Some(n);
        },
        None => {},
    }
    arrays.insert(array_name.to_owned(), updated);
    Ok(())
}

/// Allocates the arrays of the fields of the array that the variable `var_name` holds.
pub fn generate_soa_allocation_with_var(
    var_name: &str,
    array_info: &ArrayInfo,
    size: &str,
    output: &mut String,
    stack_offset: &mut i32,
    variables: &mut NameMap<i32>,
) -> (r: Result<(), CompileError>)
    requires
        array_info.field_names@.len() <= array_info.field_types@.len(),
    ensures
        ({
            let a = soa_allocation(var_name@, *array_info, size@, true, old(output)@, *old(stack_offset), old(variables)@);
            &&& final(output)@ == a.out
            &&& *final(stack_offset) == a.offset
            &&& final(variables)@ == a.vars
            &&& result_view(r) == a.result
        }),
{
    soa_exec(var_name, array_info, size, true, output, stack_offset, variables)
}

/// The bits of an `f32` literal without its suffix; 0 where the text reads as no float.
pub open spec fn suffix_bits(n: crate::syntax::ProcTermNumber) -> u32 {
    match n.suffix_float_bits {
        Some(b) => b,
        None => 0,
    }
}

/// The address offset of an element index: the index numeral times the element size.
pub open spec fn index_offset(n: crate::syntax::ProcTermNumber, es: nat) -> nat {
    match parse_usize(strip_type_suffix(n.number@)) {
        Some(k) => k as nat * es,
        None => 0,
    }
}

/// The byte offset of a named field in the layout without array information.
pub open spec fn stub_field_offset(field: Seq<char>) -> nat {
    if field == "x"@ {
        0
    } else if field == "y"@ {
        4
    } else if field == "z"@ {
        8
    } else {
        0
    }
}

/// The store of an `f32` literal at `target`, through `ebx`; nothing for another literal.
pub open spec fn f32_store(n: crate::syntax::ProcTermNumber, target: Seq<char>) -> Seq<char> {
    if has_suffix(n.number@, "f32"@) {
        line("mov ebx, "@ + hex8(suffix_bits(n))) + line("mov "@ + target + ", ebx"@)
    } else {
        Seq::empty()
    }
}

/// The place of a field in the layout without array information.
pub open spec fn stub_target(field: Seq<char>) -> Seq<char> {
    let fo = stub_field_offset(field);
    if fo == 0 {
        "dword ptr [rax]"@
    } else {
        "dword ptr [rax + "@ + decimal(fo) + "]"@
    }
}

/// The value part of an assignment to an array element: a numeral (stored by the field's
/// type) or a variable.
pub open spec fn element_store(info: ArrayInfo, vars: Map<Seq<char>, i32>, field: Seq<char>, value: ProcTerm) -> (Seq<
    char,
>, Result<(), SCompileError>) {
    match value {
        ProcTerm::Number(n) => match field_type(names_of(info), types_of(info), field) {
            Err(e) => (Seq::empty(), Err(e)),
            Ok(ft) => (
                if ft == "f32"@ {
                    f32_store(n, "dword ptr [rax]"@)
                } else {
                    mov("qword ptr [rax]"@, strip_type_suffix(n.number@))
                },
                Ok(()),
            ),
        },
        ProcTerm::Variable(v) => (
            if vars.contains_key(v.variable@) {
                mov("rbx"@, slot(vars[v.variable@])) + line("mov qword ptr [rax], rbx"@)
            } else {
                Seq::empty()
            },
            Ok(()),
        ),
        _ => (Seq::empty(), Err(err("Unsupported assignment value: "@ + proc_term_kind(value)))),
    }
}

/// The address part of an assignment to an array element.
pub open spec fn element_address(vars: Map<Seq<char>, i32>, es: nat, index: ProcTerm) -> Result<Seq<char>, SCompileError> {
    match index {
        ProcTerm::Number(n) => Ok(line("add rax, "@ + decimal(index_offset(n, es)))),
        ProcTerm::Variable(v) => Ok(
            if vars.contains_key(v.variable@) {
                mov("rbx"@, slot(vars[v.variable@])) + mov("rcx"@, decimal(es)) + line("mul rbx, rcx"@) + line(
                    "add rax, rbx"@,
                )
            } else {
                Seq::empty()
            },
        ),
        _ => Err(err("Unsupported index type: "@ + proc_term_kind(index))),
    }
}

/// An assignment to an element of a Structure of Arrays whose pointer slot is `ptr_offset`.
pub open spec fn element_assign(
    info: ArrayInfo,
    vars: Map<Seq<char>, i32>,
    ptr_offset: i32,
    field: Seq<char>,
    index: ProcTerm,
    value: ProcTerm,
) -> (Seq<char>, Result<(), SCompileError>) {
    let head = mov("rax"@, slot(ptr_offset));
    match element_size(names_of(info), types_of(info), field) {
        Err(e) => (head, Err(e)),
        Ok(es) => match element_address(vars, es, index) {
            Err(e) => (head, Err(e)),
            Ok(addr) => {
                let st = element_store(info, vars, field, value);
                (head + addr + st.0, st.1)
            },
        },
    }
}

/// The code of `object.field index <- value` for an element of a Structure of Arrays.
pub open spec fn array_field_assign_code(
    arrays: Map<Seq<char>, ArrayInfo>,
    vars: Map<Seq<char>, i32>,
    varr: Map<Seq<char>, String>,
    fa: StatementFieldAssign,
) -> (Seq<char>, Result<(), SCompileError>) {
    let obj = fa.field_access.object@;
    let field = fa.field_access.field@;
    let ptr = obj + "_"@ + field + "_ptr"@;
    if varr.contains_key(obj) && arrays.contains_key(varr[obj]@) && fa.field_access.index is Some
        && vars.contains_key(ptr) {
        element_assign(arrays[varr[obj]@], vars, vars[ptr], field, *fa.field_access.index->0, *fa.value)
    } else if vars.contains_key(obj) {
        (
            mov("rax"@, slot(vars[obj])) + match *fa.value {
                ProcTerm::Number(n) => f32_store(n, stub_target(field)),
                _ => Seq::empty(),
            },
            Ok(()),
        )
    } else {
        (Seq::empty(), Err(err("Unknown field assignment: "@ + obj + "."@ + field)))
    }
}

fn emit_index_address(
    output: &mut String,
    index: &ProcTerm,
    es: usize,
    variables: &NameMap<i32>,
) -> (r: Result<(), CompileError>)
    ensures
        match element_address(variables@, es as nat, *index) {
            Ok(addr) => r is Ok && final(output)@ == old(output)@ + addr,
            Err(e) => r matches Err(x) && x@ == e && final(output)@ == old(output)@,
        },
{
    let ghost before = output@;
    proof {
        reveal_strlit("add rax, ");
        reveal_strlit("rbx");
        reveal_strlit("rcx");
        reveal_strlit("mul rbx, rcx");
        reveal_strlit("add rax, rbx");
        reveal_strlit("Unsupported index type: ");
    }
    match index {
        ProcTerm::Number(num) => {
            let idx_text = parse_number(num.number.as_str());
            let k: u128 = match parse_usize_text(idx_text.as_str()) {
                Some(v) => v as u128,
                None => 0,
            };
            assert(k * es <= u128::MAX) by (nonlinear_arith)
                requires
                    k <= usize::MAX,
                    es <= usize::MAX,
            ;
            let product = k * (es as u128);
            let t = crate::text::nat_to_string(product);
            let a = join2("add rax, ", t.as_str());
            emit(output, a.as_str());
            Ok(())
        },
        ProcTerm::Variable(var) => {
            match variables.get(var.variable.as_str()) {
                Some(off) => {
                    let st = slot_text(*off);
                    emit_mov(output, "rbx", st.as_str());
                    let e = usize_text(es);
                    emit_mov(output, "rcx", e.as_str());
                    emit(output, "mul rbx, rcx");
                    emit(output, "add rax, rbx");
                    assert(output@ =~= before + mov("rbx"@, slot(variables@[var.variable@])) + mov("rcx"@, decimal(es as nat)) + line("mul rbx, rcx"@)
                    + line("add rax, rbx"@));
                },
                None => {
                    assert(output@ =~= before + Seq::<char>::empty());
                },
            }
            Ok(())
        },
        _ => Err(CompileError::UnsupportedConstruct(join2("Unsupported index type: ", proc_term_kind_text(index)))),
    }
}

fn emit_f32_store(output: &mut String, n: &crate::syntax::ProcTermNumber, target: &str)
    ensures
        final(output)@ == old(output)@ + f32_store(*n, target@),
{
    let ghost before = output@;
    proof {
        reveal_strlit("f32");
        reveal_strlit("mov ebx, ");
        reveal_strlit("mov ");
        reveal_strlit(", ebx");
    }
    if ends_with(n.number.as_str(), "f32") {
        let bits: u32 = match n.suffix_float_bits {
            Some(b) => b,
            None => 0,
        };
        let h = hex8_text(bits);
        let a = join2("mov ebx, ", h.as_str());
        emit(output, a.as_str());
        let b = join3("mov ", target, ", ebx");
        emit(output, b.as_str());
    } else {
        assert(output@ =~= before + Seq::<char>::empty());
    }
}

fn emit_element_store(
    output: &mut String,
    array_info: &ArrayInfo,
    variables: &NameMap<i32>,
    field_name: &str,
    value: &ProcTerm,
) -> (r: Result<(), CompileError>)
    requires
        array_info.field_names@.len() <= array_info.field_types@.len(),
    ensures
        final(output)@ == old(output)@ + element_store(*array_info, variables@, field_name@, *value).0,
        result_view(r) == element_store(*array_info, variables@, field_name@, *value).1,
{
    let ghost before = output@;
    proof {
        reveal_strlit("f32");
        reveal_strlit("rbx");
        reveal_strlit("qword ptr [rax]");
        reveal_strlit("dword ptr [rax]");
        reveal_strlit("mov qword ptr [rax], rbx");
        reveal_strlit("Unsupported assignment value: ");
    }
    match value {
        ProcTerm::Number(num) => {
            let field_type = match get_field_type(
                array_info.field_types.as_slice(),
                array_info.field_names.as_slice(),
                field_name,
            ) {
                Ok(t) => t,
                Err(e) => return Err(e),
            };
            if crate::codegen::is_text(field_type.as_str(), "f32") {
                emit_f32_store(output, num, "dword ptr [rax]");
            } else {
                let v = parse_number(num.number.as_str());
                emit_mov(output, "qword ptr [rax]", v.as_str());
            }
            Ok(())
        },
        ProcTerm::Variable(var) => {
            match variables.get(var.variable.as_str()) {
                Some(off) => {
                    let st2 = slot_text(*off);
                    emit_mov(output, "rbx", st2.as_str());
                    emit(output, "mov qword ptr [rax], rbx");
                },
                None => {
                    assert(output@ =~= before + Seq::<char>::empty());
                },
            }
            Ok(())
        },
        _ => Err(
            CompileError::UnsupportedConstruct(join2("Unsupported assignment value: ", proc_term_kind_text(value))),
        ),
    }
}

fn emit_element_assign(
    output: &mut String,
    array_info: &ArrayInfo,
    variables: &NameMap<i32>,
    ptr_offset: i32,
    field_name: &str,
    index: &ProcTerm,
    value: &ProcTerm,
) -> (r: Result<(), CompileError>)
    requires
        array_info.field_names@.len() <= array_info.field_types@.len(),
    ensures
        final(output)@ == old(output)@ + element_assign(*array_info, variables@, ptr_offset, field_name@, *index, *value).0,
        result_view(r) == element_assign(*array_info, variables@, ptr_offset, field_name@, *index, *value).1,
{
    proof {
        reveal_strlit("rax");
    }
    let st = slot_text(ptr_offset);
    emit_mov(output, "rax", st.as_str());
    let element_size = match get_element_size(
        array_info.field_types.as_slice(),
        array_info.field_names.as_slice(),
        field_name,
    ) {
        Ok(es) => es,
        Err(e) => return Err(e),
    };
    match emit_index_address(output, index, element_size, variables) {
        Ok(()) => {},
        Err(e) => return Err(e),
    }
    emit_element_store(output, array_info, variables, field_name, value)
}

/// Compiles `object.field index <- value` for an element of a Structure of Arrays; without
/// array information, it stores an `f32` at a fixed offset of the field.
pub fn compile_field_assign(
    field_assign: &StatementFieldAssign,
    output: &mut String,
    variables: &NameMap<i32>,
    variable_arrays: &NameMap<String>,
    arrays: &NameMap<ArrayInfo>,
) -> (r: Result<(), CompileError>)
    requires
        crate::lowering::arrays_wf(arrays@),
    ensures
        final(output)@ == old(output)@ + array_field_assign_code(arrays@, variables@, variable_arrays@, *field_assign).0,
        result_view(r) == array_field_assign_code(arrays@, variables@, variable_arrays@, *field_assign).1,
{
    let ghost before = output@;
    let obj_name = field_assign.field_access.object_name();
    let field_name = field_assign.field_access.field_name();
    let mut ptr = String::from_str(obj_name);
    ptr.append("_");
    ptr.append(field_name);
    ptr.append("_ptr");
    proof {
        reveal_strlit("_");
        reveal_strlit("_ptr");
        assert(ptr@ =~= obj_name@ + "_"@ + field_name@ + "_ptr"@);
        reveal_strlit("rax");
        reveal_strlit("Unknown field assignment: ");
        reveal_strlit(".");
    }
    match variable_arrays.get(obj_name) {
        Some(array_type) => match arrays.get(array_type.as_str()) {
            Some(array_info) => match &field_assign.field_access.index {
                Some(index_term) => match variables.get(ptr.as_str()) {
                    Some(ptr_offset) => {
                        return emit_element_assign(
                            output,
                            array_info,
                            variables,
                            *ptr_offset,
                            field_name,
                            index_term,
                            &field_assign.value,
                        );
                    },
                    None => {},
                },
                None => {},
            },
            None => {},
        },
        None => {},
    }
    match variables.get(obj_name) {
        Some(var_offset) => {
            let st = slot_text(*var_offset);
            emit_mov(output, "rax", st.as_str());
            match &*field_assign.value {
                ProcTerm::Number(num) => {
                    proof {
                        reveal_strlit("dword ptr [rax + 4]");
                        reveal_strlit("dword ptr [rax + 8]");
                        reveal_strlit("dword ptr [rax + ");
                        reveal_strlit("dword ptr [rax]");
                        reveal_strlit("]");
                        reveal_strlit("x");
                        reveal_strlit("y");
                        reveal_strlit("z");
                        assert(decimal(4) =~= seq!['4']);
                        assert(decimal(8) =~= seq!['8']);
                        assert("y"@[0] != "x"@[0]);
                        assert("z"@[0] != "x"@[0]);
                        assert("z"@[0] != "y"@[0]);
                    }
                    if crate::codegen::is_text(field_name, "y") {
                        assert(stub_target(field_name@) =~= "dword ptr [rax + 4]"@);
                        emit_f32_store(output, num, "dword ptr [rax + 4]");
                    } else if crate::codegen::is_text(field_name, "z") {
                        assert(stub_target(field_name@) =~= "dword ptr [rax + 8]"@);
                        emit_f32_store(output, num, "dword ptr [rax + 8]");
                    } else {
                        assert(stub_target(field_name@) =~= "dword ptr [rax]"@);
                        emit_f32_store(output, num, "dword ptr [rax]");
                    }
                },
                _ => {},
            }
            proof {
                assert(output@ =~= before + array_field_assign_code(arrays@, variables@, variable_arrays@, *field_assign).0);
            }
            Ok(())
        },
        None => {
            let mut m = String::from_str("Unknown field assignment: ");
            m.append(obj_name);
            m.append(".");
            m.append(field_name);
            Err(CompileError::UnsupportedConstruct(m))
        },
    }
}

} // verus!
