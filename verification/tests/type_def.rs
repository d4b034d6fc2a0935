use grat::type_def::{format_type_def, TypeDef};

#[test]
fn plain_types_by_name() {
    assert_eq!(format_type_def(&TypeDef::Val), "Val");
    assert_eq!(format_type_def(&TypeDef::Str), "String");
    assert_eq!(format_type_def(&TypeDef::Timepoint), "Timepoint");
    assert_eq!(format_type_def(&TypeDef::I256), "I256");
}

#[test]
fn nested_types() {
    let t = TypeDef::MapOf(
        Box::new(TypeDef::Symbol),
        Box::new(TypeDef::VecOf(Box::new(TypeDef::OptionOf(Box::new(TypeDef::U64))))),
    );
    assert_eq!(format_type_def(&t), "Map<Symbol, Vec<Option<U64>>>");
    let r = TypeDef::ResultOf(Box::new(TypeDef::Void), Box::new(TypeDef::Udt("MyError".to_string())));
    assert_eq!(format_type_def(&r), "Result<Void, MyError>");
}

#[test]
fn tuples_and_fixed_bytes() {
    let t = TypeDef::Tuple(vec![TypeDef::U32, TypeDef::BytesN(32), TypeDef::Bool]);
    assert_eq!(format_type_def(&t), "(U32, BytesN<32>, Bool)");
    assert_eq!(format_type_def(&TypeDef::Tuple(vec![])), "()");
    assert_eq!(format_type_def(&TypeDef::Tuple(vec![TypeDef::Address])), "(Address)");
    assert_eq!(format_type_def(&TypeDef::BytesN(0)), "BytesN<0>");
    assert_eq!(format_type_def(&TypeDef::BytesN(4294967295)), "BytesN<4294967295>");
}

#[test]
fn clones_show_alike() {
    let t = TypeDef::Tuple(vec![
        TypeDef::OptionOf(Box::new(TypeDef::Udt("Asset".to_string()))),
        TypeDef::MapOf(Box::new(TypeDef::Symbol), Box::new(TypeDef::BytesN(8))),
    ]);
    let c = t.clone();
    assert_eq!(format_type_def(&c), format_type_def(&t));
    assert_eq!(format_type_def(&c), "(Option<Asset>, Map<Symbol, BytesN<8>>)");
}
