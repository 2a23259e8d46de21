use jettison::derive::{
    args_fields, lifetime_generic, parse_attributes, parse_rename, primop_constructor, primop_docs, primop_name,
    try_from_value_fields, try_from_value_plan, AttributeError, AttributePosition, DeriveAttribute, FieldInit,
    FieldsShape, GenericParamKind, ItemShape, MacroKey, MacroValue, Meta, MetaValue, PrimOpConstructor,
    check_attrset_entries,
};
use jettison::naming::Rename;

fn s(x: &str) -> String {
    x.to_string()
}

fn named(names: &[&str]) -> ItemShape {
    ItemShape::Struct(FieldsShape::Named(names.iter().map(|n| s(n)).collect()))
}

fn meta(path: &str, value: Option<MetaValue>) -> Meta {
    Meta { path: s(path), value }
}

fn try_from(metas: Vec<Meta>) -> DeriveAttribute {
    DeriveAttribute { path: s("try_from"), metas }
}

fn message_of(e: AttributeError) -> String {
    match e {
        AttributeError::Message(m) => m,
        _ => panic!("expected a message"),
    }
}

#[test]
fn primop_names_start_in_lower_case() {
    assert_eq!(primop_name("VendorDeps"), Ok(s("vendorDeps")));
    assert_eq!(primop_name("BuildPackage"), Ok(s("buildPackage")));
    assert_eq!(primop_name("vendorDeps"), Err(s("PrimOp struct name must UpperCamelCase")));
    assert_eq!(primop_name("Éclair"), Err(s("PrimOp struct name must UpperCamelCase")));
    assert_eq!(primop_name(""), Err(s("PrimOp struct name must UpperCamelCase")));
}

#[test]
fn primop_structs_have_no_fields() {
    assert_eq!(primop_constructor(&ItemShape::Struct(FieldsShape::Unit)), Ok(PrimOpConstructor::Unit));
    assert_eq!(primop_constructor(&named(&[])), Ok(PrimOpConstructor::EmptyNamed));
    assert_eq!(primop_constructor(&ItemShape::Struct(FieldsShape::Unnamed(0))), Ok(PrimOpConstructor::EmptyTuple));
    let fields_err = s(
        "PrimOp can only be derived for structs with no fields (unit structs, empty named structs, or empty tuple structs)",
    );
    assert_eq!(primop_constructor(&named(&["a"])), Err(fields_err.clone()));
    assert_eq!(primop_constructor(&ItemShape::Struct(FieldsShape::Unnamed(2))), Err(fields_err));
    assert_eq!(primop_constructor(&ItemShape::Enum), Err(s("PrimOp cannot be derived for enums")));
    assert_eq!(primop_constructor(&ItemShape::Union), Err(s("PrimOp cannot be derived for unions")));
}

#[test]
fn primop_docs_join_the_doc_comment() {
    let lines = vec![s(" Vendors the dependencies"), s(" of a Rust package."), s("  Indented.")];
    assert_eq!(primop_docs(&lines), Ok(s("Vendors the dependencies\nof a Rust package.\n Indented.")));
    assert_eq!(primop_docs(&vec![s(" "), s(" Text")]), Ok(s("Text")));
    assert_eq!(primop_docs(&vec![]), Err(s("PrimOp derive requires a doc comment on the struct")));
    assert_eq!(primop_docs(&vec![s(" "), s("")]), Err(s("PrimOp derive requires a doc comment on the struct")));
    assert_eq!(
        primop_docs(&vec![s(" ok"), s(" bad\0line")]),
        Err(s("PrimOp doc comment cannot contain NUL byte"))
    );
}

#[test]
fn fields_of_derived_structs() {
    let item = named(&["pkgs", "cargo_lock"]);
    assert_eq!(try_from_value_fields(&item).unwrap(), &vec![s("pkgs"), s("cargo_lock")]);
    assert_eq!(try_from_value_fields(&named(&[])), Err(s("struct must have at least one field")));
    assert_eq!(
        try_from_value_fields(&ItemShape::Struct(FieldsShape::Unit)),
        Err(s("TryFromValue can only be derived for structs with named fields"))
    );
    assert_eq!(try_from_value_fields(&ItemShape::Enum), Err(s("TryFromValue cannot be derived for enums")));

    assert_eq!(args_fields(&item).unwrap().len(), 2);
    let nine = named(&["a", "b", "c", "d", "e", "f", "g", "h", "i"]);
    assert_eq!(
        args_fields(&nine),
        Err(s("In Nix, functions can have at most 8 arguments, but this struct has 9 fields"))
    );
    let eight = named(&["a", "b", "c", "d", "e", "f", "g", "h"]);
    assert_eq!(args_fields(&eight).unwrap().len(), 8);
    assert_eq!(args_fields(&named(&[])), Err(s("Args can only be derived for structs with at least one named field")));
    assert_eq!(
        args_fields(&ItemShape::Struct(FieldsShape::Unnamed(1))),
        Err(s("Args can only be derived for structs with named fields"))
    );
    assert_eq!(args_fields(&ItemShape::Union), Err(s("Args cannot be derived for unions")));

    assert_eq!(lifetime_generic(&vec![]), Ok(false));
    assert_eq!(lifetime_generic(&vec![GenericParamKind::Lifetime]), Ok(true));
    let too_many = Err(s("Args can only have zero or one lifetime generic parameter"));
    assert_eq!(lifetime_generic(&vec![GenericParamKind::Type]), too_many.clone());
    assert_eq!(lifetime_generic(&vec![GenericParamKind::Lifetime, GenericParamKind::Lifetime]), too_many);
}

#[test]
fn renames_in_attributes() {
    let camel = Some(MetaValue::Ident(s("camelCase")));
    assert!(matches!(parse_rename(&camel, AttributePosition::Struct), Ok(Rename::CamelCase)));
    let other = Some(MetaValue::Ident(s("snake_case")));
    assert_eq!(message_of(parse_rename(&other, AttributePosition::Struct).err().unwrap()), "unsupported rename value: snake_case");
    let lit = Some(MetaValue::Literal(s("\"dependencies\"")));
    match parse_rename(&lit, AttributePosition::Field) {
        Ok(Rename::Replace(name)) => assert_eq!(name, "dependencies"),
        _ => panic!("expected a replacement"),
    }
    assert_eq!(
        message_of(parse_rename(&lit, AttributePosition::Struct).err().unwrap()),
        "literal string renames are only allowed on struct fields"
    );
    assert!(matches!(
        parse_rename(&Some(MetaValue::Expr(s("1 + 1"))), AttributePosition::Field),
        Err(AttributeError::ExpectedLiteral)
    ));
    assert!(matches!(parse_rename(&None, AttributePosition::Field), Err(AttributeError::MissingValue)));
}

#[test]
fn try_from_attributes() {
    let attrs = vec![
        DeriveAttribute { path: s("doc"), metas: vec![meta("anything", None)] },
        try_from(vec![meta("rename_all", Some(MetaValue::Ident(s("camelCase")))), meta("default", None)]),
    ];
    let parsed = parse_attributes(&attrs, AttributePosition::Struct).unwrap();
    assert!(matches!(parsed.rename, Some(Rename::CamelCase)));
    assert!(parsed.default);
    assert!(parsed.with.is_none());

    let field = vec![try_from(vec![meta("with", Some(MetaValue::Ident(s("get_vendor_dir"))))])];
    let parsed = parse_attributes(&field, AttributePosition::Field).unwrap();
    assert_eq!(parsed.with, Some(s("get_vendor_dir")));

    let both = vec![try_from(vec![meta("default", None)]), try_from(vec![meta("with", Some(MetaValue::Expr(s("f"))))])];
    assert_eq!(
        message_of(parse_attributes(&both, AttributePosition::Field).err().unwrap()),
        "`with` and `default` attributes cannot be used together"
    );
    let rename_on_struct = vec![try_from(vec![meta("rename", Some(MetaValue::Literal(s("\"x\""))))])];
    assert_eq!(
        message_of(parse_attributes(&rename_on_struct, AttributePosition::Struct).err().unwrap()),
        "`rename` attribute is only allowed on struct fields"
    );
    let rename_all_on_field = vec![try_from(vec![meta("rename_all", Some(MetaValue::Ident(s("camelCase"))))])];
    assert_eq!(
        message_of(parse_attributes(&rename_all_on_field, AttributePosition::Field).err().unwrap()),
        "`rename_all` attribute is only allowed on structs"
    );
    let with_on_struct = vec![try_from(vec![meta("with", Some(MetaValue::Expr(s("f"))))])];
    assert_eq!(
        message_of(parse_attributes(&with_on_struct, AttributePosition::Struct).err().unwrap()),
        "`with` attribute is only allowed on struct fields"
    );
    let unknown = vec![try_from(vec![meta("flatten", None), meta("default", None)])];
    assert_eq!(message_of(parse_attributes(&unknown, AttributePosition::Field).err().unwrap()), "unsupported attribute");
    let valued_default = vec![try_from(vec![meta("default", Some(MetaValue::Ident(s("true"))))])];
    assert!(matches!(
        parse_attributes(&valued_default, AttributePosition::Field),
        Err(AttributeError::UnexpectedValue)
    ));
    let bare_with = vec![try_from(vec![meta("with", None)])];
    assert!(matches!(parse_attributes(&bare_with, AttributePosition::Field), Err(AttributeError::MissingValue)));
}

#[test]
fn try_from_value_fields_are_planned() {
    let struct_attrs = vec![try_from(vec![meta("rename_all", Some(MetaValue::Ident(s("camelCase"))))])];
    let item = named(&["pkgs", "cargo_lock", "vendor_dir", "r#type"]);
    let field_attrs = vec![
        vec![],
        vec![],
        vec![try_from(vec![meta("with", Some(MetaValue::Ident(s("get_vendor_dir"))))])],
        vec![try_from(vec![meta("rename", Some(MetaValue::Literal(s("\"type\""))))]), try_from(vec![meta("default", None)])],
    ];
    let plans = try_from_value_plan(&struct_attrs, &item, &field_attrs).unwrap();
    assert_eq!(plans.len(), 4);
    assert_eq!(plans[0].key, "pkgs");
    assert!(matches!(plans[0].init, FieldInit::Get));
    assert_eq!(plans[1].name, "cargo_lock");
    assert_eq!(plans[1].key, "cargoLock");
    assert_eq!(plans[2].key, "vendorDir");
    assert!(matches!(&plans[2].init, FieldInit::With(f) if f == "get_vendor_dir"));
    assert_eq!(plans[3].key, "type");
    assert!(matches!(plans[3].init, FieldInit::GetOrDefault));

    let defaults = vec![try_from(vec![meta("default", None)])];
    let plans = try_from_value_plan(&defaults, &named(&["a"]), &vec![vec![]]).unwrap();
    assert!(matches!(plans[0].init, FieldInit::GetOrDefault));
    assert_eq!(plans[0].key, "a");

    let nul = vec![vec![try_from(vec![meta("rename", Some(MetaValue::Literal(s("\"a\0b\""))))])]];
    assert!(matches!(try_from_value_plan(&vec![], &named(&["a"]), &nul), Err(AttributeError::NulInName)));
    assert_eq!(
        message_of(try_from_value_plan(&vec![], &ItemShape::Enum, &vec![]).err().unwrap()),
        "TryFromValue cannot be derived for enums"
    );
    let bad_field = vec![vec![], vec![try_from(vec![meta("nope", None)])]];
    assert_eq!(
        message_of(try_from_value_plan(&vec![], &named(&["a", "b"]), &bad_field).err().unwrap()),
        "unsupported attribute"
    );
}

#[test]
fn attrset_macro_entries() {
    let ok = vec![
        (MacroKey::Name(s("name")), MacroValue::Str(s("config.toml"))),
        (MacroKey::Expr(s("key")), MacroValue::Expr(s("drv"))),
    ];
    assert_eq!(check_attrset_entries(&ok), Ok(()));
    let bad_value = vec![
        (MacroKey::Name(s("name")), MacroValue::Str(s("a\0b"))),
        (MacroKey::Name(s("b\0")), MacroValue::Expr(s("x"))),
    ];
    assert_eq!(check_attrset_entries(&bad_value), Err(s("string literal cannot contain NUL byte")));
    let bad_key = vec![(MacroKey::Name(s("b\0")), MacroValue::Str(s("a\0b")))];
    assert_eq!(check_attrset_entries(&bad_key), Err(s("attrset key cannot contain NUL byte")));
    assert_eq!(check_attrset_entries(&vec![(MacroKey::Expr(s("k\0")), MacroValue::Expr(s("\0")))]), Ok(()));
}
