use neco::arrays::{
    compile_array, extract_type_from_term, generate_soa_allocation, get_element_size, get_field_type, get_type_size,
    parse_number,
};
use neco::codegen::{ArrayInfo, CompileError};
use neco::names::NameMap;
use neco::syntax::{ItemArray, ItemArrayField, Term, TermNumber, TermStruct, TermStructField, TermUnit, TermVariable};

fn tvar(s: &str) -> Term {
    Term::Variable(TermVariable { variable: s.to_string() })
}

fn strings(v: &[&str]) -> Vec<String> {
    v.iter().map(|s| s.to_string()).collect()
}

fn points_array() -> ItemArray {
    ItemArray {
        name: "Points".to_string(),
        fields: vec![
            ItemArrayField {
                keyword: "item".to_string(),
                value: Box::new(Term::Struct(TermStruct {
                    fields: vec![
                        TermStructField { name: "x".to_string(), ty: Box::new(tvar("f32")) },
                        TermStructField { name: "id".to_string(), ty: Box::new(tvar("u64")) },
                    ],
                })),
            },
            ItemArrayField {
                keyword: "dimension".to_string(),
                value: Box::new(Term::Number(TermNumber {
                    number: "2".to_string(),
                    float_bits: None,
                    suffix_float_bits: None,
                })),
            },
        ],
    }
}

#[test]
fn type_sizes_follow_the_type_names() {
    assert_eq!(get_type_size("f32"), 4);
    assert_eq!(get_type_size("f64"), 8);
    assert_eq!(get_type_size("u64"), 8);
    assert_eq!(get_type_size("i32"), 4);
    assert_eq!(get_type_size("u16"), 2);
    assert_eq!(get_type_size("i8"), 1);
    assert_eq!(get_type_size("Point"), 8);
}

#[test]
fn element_size_and_type_of_a_field() {
    let names = strings(&["x", "flag"]);
    let types = strings(&["f32", "u8"]);
    assert_eq!(get_element_size(&types, &names, "flag").unwrap(), 1);
    assert_eq!(get_field_type(&types, &names, "x").unwrap(), "f32");
    match get_element_size(&types, &names, "y") {
        Err(CompileError::UnsupportedConstruct(m)) => assert_eq!(m, "Unknown field: y"),
        other => panic!("unexpected {:?}", other),
    }
    match get_field_type(&types, &names, "z") {
        Err(CompileError::UnsupportedConstruct(m)) => assert_eq!(m, "Unknown field: z"),
        other => panic!("unexpected {:?}", other),
    }
}

#[test]
fn parse_number_drops_the_type_suffix() {
    assert_eq!(parse_number("42u64"), "42");
    assert_eq!(parse_number("1000"), "1000");
    assert_eq!(parse_number("7i32"), "7");
}

#[test]
fn extract_type_from_term_takes_a_type_name() {
    assert_eq!(extract_type_from_term(&tvar("u32")).unwrap(), "u32");
    match extract_type_from_term(&Term::Unit(TermUnit {})) {
        Err(CompileError::UnsupportedConstruct(m)) => assert!(m.starts_with("Unsupported type term: ")),
        other => panic!("unexpected {:?}", other),
    }
}

#[test]
fn compile_array_records_the_fields_and_dimension() {
    let mut arrays: NameMap<ArrayInfo> = NameMap::new();
    compile_array(&points_array(), &mut arrays).unwrap();
    let info = arrays.get("Points").unwrap();
    assert_eq!(info.element_type, "struct");
    assert_eq!(info.field_names, strings(&["x", "id"]));
    assert_eq!(info.field_types, strings(&["f32", "u64"]));
    assert_eq!(info.dimension, 2);
    assert_eq!(info.size, None);
}

#[test]
fn compile_array_refuses_a_field_type_that_is_not_a_name() {
    let array = ItemArray {
        name: "Bad".to_string(),
        fields: vec![ItemArrayField {
            keyword: "item".to_string(),
            value: Box::new(Term::Struct(TermStruct {
                fields: vec![TermStructField { name: "x".to_string(), ty: Box::new(Term::Unit(TermUnit {})) }],
            })),
        }],
    };
    let mut arrays: NameMap<ArrayInfo> = NameMap::new();
    assert!(compile_array(&array, &mut arrays).is_err());
    assert!(arrays.get("Bad").is_none());
}

#[test]
fn soa_allocation_text_for_one_field() {
    let info = ArrayInfo {
        element_type: "struct".to_string(),
        field_names: strings(&["x"]),
        field_types: strings(&["f32"]),
        dimension: 1,
        size: None,
    };
    let mut output = String::new();
    let mut stack_offset: i32 = 0;
    let mut variables: NameMap<i32> = NameMap::new();
    let mut arrays: NameMap<ArrayInfo> = NameMap::new();
    generate_soa_allocation("Points", &info, "10", &mut output, &mut stack_offset, &mut variables, &mut arrays)
        .unwrap();
    let expected = [
        "    # Structure of Arrays allocation for Points\n",
        "    # Allocating 1 separate arrays for each field\n",
        "    mov rax, 10        # Load array size\n",
        "    mov qword ptr [rbp - 8 - 0], rax  # Store Points_size\n",
        "    # Allocating array for field 'x' of type 'f32' (element size: 4 bytes)\n",
        "    mov rsi, 10        # Load array size\n",
        "    mov rax, 4   # Load element size\n",
        "    mul rsi                  # rax = element_size * array_length\n",
        "    mov rsi, rax             # rsi = total_size for this field array\n",
        "    mov rax, 9               # sys_mmap\n",
        "    mov rdi, 0               # addr = NULL (let kernel choose)\n",
        "    mov rdx, 3               # prot = PROT_READ | PROT_WRITE\n",
        "    mov r10, 34              # flags = MAP_PRIVATE | MAP_ANONYMOUS\n",
        "    mov r8, -1               # fd = -1 (anonymous mapping)\n",
        "    mov r9, 0                # offset = 0\n",
        "    syscall\n",
        "    mov qword ptr [rbp - 8 - 8], rax  # Store Points_x_ptr\n",
        "    # SoA allocation complete for Points\n\n",
    ]
    .concat();
    assert_eq!(output, expected);
    assert_eq!(stack_offset, 16);
    assert_eq!(variables.get("Points_size"), Some(&8));
    assert_eq!(variables.get("Points_x_ptr"), Some(&16));
    assert_eq!(arrays.get("Points").unwrap().size, Some(10));
}
