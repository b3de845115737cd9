use neco::rename_defs::{DefDecorationTypeDef, RenameDefContext};

#[test]
fn definition_ids_count_up_from_one() {
    let mut c = RenameDefContext::new();
    assert_eq!(c.def_count(), 0);
    let a = c.new_id();
    let b = c.new_id();
    assert_eq!(a.as_usize(), 1);
    assert_eq!(b.as_usize(), 2);
    assert_ne!(a, b);
    assert_eq!(c.def_count(), 2);
    let d = DefDecorationTypeDef { name: "A".to_string(), id: a };
    assert_eq!(d.id.as_usize(), 1);
    assert_eq!(RenameDefContext::default().def_count(), 0);
}
