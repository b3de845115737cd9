use neco::rename::{
    rename_file, LogicFile, LogicItem, LogicMatchBranch, LogicTerm, Pattern, RenamedItem, RenamedTerm,
    VariableId,
};

fn var(name: &str) -> LogicTerm {
    LogicTerm::Variable(name.to_string())
}

// A variable as the parser writes it: an application without arguments.
fn applied(name: &str) -> Box<LogicTerm> {
    Box::new(LogicTerm::Apply { f: Box::new(var(name)), args: vec![] })
}

fn definition(name: &str, type_: Box<LogicTerm>, body: Box<LogicTerm>) -> LogicFile {
    LogicFile { items: vec![LogicItem::Definition { name: name.to_string(), type_, body }] }
}

fn variable_id(t: &RenamedTerm) -> (String, VariableId) {
    match t {
        RenamedTerm::Variable { variable, id } => (variable.clone(), *id),
        RenamedTerm::Apply { f, args } if args.is_empty() => variable_id(f),
        _ => panic!("Expected a variable"),
    }
}

#[test]
fn test_rename_simple_variable() {
    // #definition x : nat { y }
    let renamed_file = rename_file(definition("x", applied("nat"), applied("y")));
    assert_eq!(renamed_file.items.len(), 1);
    if let RenamedItem::Definition { body, .. } = &renamed_file.items[0] {
        if let RenamedTerm::Apply { f, .. } = body.as_ref() {
            if let RenamedTerm::Variable { variable, id } = f.as_ref() {
                let VariableId(file_id, var_id) = *id;
                assert_eq!(file_id, 0);
                assert!(var_id > 0);
                assert_eq!(variable, "y");
            } else {
                panic!("Expected variable in apply function position");
            }
        } else {
            panic!("Expected apply in definition body");
        }
    } else {
        panic!("Expected definition item");
    }
}

#[test]
fn test_rename_shadowing() {
    // #definition f : (x : nat) -> nat { (y : nat) -> x }
    let type_ = Box::new(LogicTerm::ArrowDep { from: "x".to_string(), from_ty: applied("nat"), to: applied("nat") });
    let body = Box::new(LogicTerm::ArrowDep { from: "y".to_string(), from_ty: applied("nat"), to: applied("x") });
    let renamed_file = rename_file(definition("f", type_, body));
    assert_eq!(renamed_file.items.len(), 1);
}

#[test]
fn test_rename_match_pattern() {
    // #definition test : nat { #match x { y => y } }
    let body = Box::new(LogicTerm::Match {
        scrutinee: "x".to_string(),
        branches: vec![LogicMatchBranch { pattern: Pattern::Variable("y".to_string()), body: applied("y") }],
    });
    let renamed_file = rename_file(definition("test", applied("nat"), body));
    assert_eq!(renamed_file.items.len(), 1);
}

#[test]
fn rename_numbers_binders_and_free_variables_in_order() {
    // #definition x : nat { y }: x is 0, nat is 1, y is 2.
    let renamed_file = rename_file(definition("x", applied("nat"), applied("y")));
    match &renamed_file.items[0] {
        RenamedItem::Definition { type_, body, .. } => {
            assert_eq!(variable_id(type_), ("nat".to_string(), VariableId(0, 1)));
            assert_eq!(variable_id(body), ("y".to_string(), VariableId(0, 2)));
        },
        _ => panic!("Expected definition item"),
    }
}

#[test]
fn rename_bound_variable_refers_to_its_binder() {
    // #definition f : (x : nat) -> x { f }
    let type_ = Box::new(LogicTerm::ArrowDep { from: "x".to_string(), from_ty: applied("nat"), to: applied("x") });
    let renamed_file = rename_file(definition("f", type_, applied("f")));
    match &renamed_file.items[0] {
        RenamedItem::Definition { type_, body, .. } => {
            match type_.as_ref() {
                RenamedTerm::ArrowDep { from, from_id, from_ty, to } => {
                    assert_eq!(from, "x");
                    assert_eq!(*from_id, VariableId(0, 1));
                    assert_eq!(variable_id(from_ty), ("nat".to_string(), VariableId(0, 2)));
                    assert_eq!(variable_id(to), ("x".to_string(), VariableId(0, 1)));
                },
                _ => panic!("Expected a dependent arrow"),
            }
            // The definition's own name is bound while its body is renamed.
            assert_eq!(variable_id(body), ("f".to_string(), VariableId(0, 0)));
        },
        _ => panic!("Expected definition item"),
    }
}

#[test]
fn rename_binding_ends_with_its_scope() {
    // #definition f : (x : nat) -> nat { x }: the x of the body is not the arrow's.
    let type_ = Box::new(LogicTerm::ArrowDep { from: "x".to_string(), from_ty: applied("nat"), to: applied("nat") });
    let renamed_file = rename_file(definition("f", type_, applied("x")));
    match &renamed_file.items[0] {
        RenamedItem::Definition { body, .. } => {
            assert_eq!(variable_id(body), ("x".to_string(), VariableId(0, 4)));
        },
        _ => panic!("Expected definition item"),
    }
}

#[test]
fn rename_inner_binding_shadows_outer() {
    // #definition f : (x : nat) -> (x : nat) -> x { f }
    let inner = Box::new(LogicTerm::ArrowDep { from: "x".to_string(), from_ty: applied("nat"), to: applied("x") });
    let type_ = Box::new(LogicTerm::ArrowDep { from: "x".to_string(), from_ty: applied("nat"), to: inner });
    let renamed_file = rename_file(definition("f", type_, applied("f")));
    match &renamed_file.items[0] {
        RenamedItem::Definition { type_, .. } => match type_.as_ref() {
            RenamedTerm::ArrowDep { from_id, to, .. } => {
                assert_eq!(*from_id, VariableId(0, 1));
                match to.as_ref() {
                    RenamedTerm::ArrowDep { from_id: inner_id, to: inner_to, .. } => {
                        assert_eq!(*inner_id, VariableId(0, 3));
                        assert_eq!(variable_id(inner_to), ("x".to_string(), VariableId(0, 3)));
                    },
                    _ => panic!("Expected a dependent arrow"),
                }
            },
            _ => panic!("Expected a dependent arrow"),
        },
        _ => panic!("Expected definition item"),
    }
}

#[test]
fn rename_match_pattern_binds_its_names() {
    // #definition test : nat { #match x { succ n m => n } }
    let body = Box::new(LogicTerm::Match {
        scrutinee: "x".to_string(),
        branches: vec![LogicMatchBranch {
            pattern: Pattern::Constructor("succ".to_string(), vec!["n".to_string(), "m".to_string()]),
            body: applied("n"),
        }],
    });
    let renamed_file = rename_file(definition("test", applied("nat"), body));
    match &renamed_file.items[0] {
        RenamedItem::Definition { body, .. } => match body.as_ref() {
            RenamedTerm::Match { scrutinee, branches } => {
                assert_eq!(scrutinee, "x");
                assert_eq!(branches.len(), 1);
                // test is 0, nat is 1, n is 2, m is 3.
                assert_eq!(variable_id(&branches[0].body), ("n".to_string(), VariableId(0, 2)));
            },
            _ => panic!("Expected a match"),
        },
        _ => panic!("Expected definition item"),
    }
}

#[test]
fn rename_inductive_constructors_see_the_type_name() {
    // #inductive nat : Type { zero : nat, }
    let file = LogicFile {
        items: vec![LogicItem::Inductive {
            name: "nat".to_string(),
            ty: applied("Type"),
            branches: vec![neco::rename::LogicInductiveBranch { name: "zero".to_string(), ty: applied("nat") }],
        }],
    };
    let renamed_file = rename_file(file);
    match &renamed_file.items[0] {
        RenamedItem::Inductive { ty, branches, .. } => {
            assert_eq!(variable_id(ty), ("Type".to_string(), VariableId(0, 1)));
            assert_eq!(branches.len(), 1);
            assert_eq!(branches[0].name, "zero");
            assert_eq!(variable_id(&branches[0].ty), ("nat".to_string(), VariableId(0, 0)));
        },
        _ => panic!("Expected inductive item"),
    }
}
