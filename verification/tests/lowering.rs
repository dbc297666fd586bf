use ts2rust::ir::{RSEnum, RSEnumVariant, RSPrimitive, RSReference, RSType};
use ts2rust::lower::{make_optional, make_rs_type, make_union_or_option_type};
use ts2rust::source_ast::{
    TsLiteral, TsTupleElement, TsType, UnsupportedKind, UnsupportedLiteralKind,
};

fn prim(p: RSPrimitive) -> RSType {
    RSType::Primitive(p)
}

#[test]
fn lowers_keywords_to_fixed_primitives() {
    assert_eq!(make_rs_type(&TsType::TSBooleanKeyword), prim(RSPrimitive::Bool));
    assert_eq!(make_rs_type(&TsType::TSNumberKeyword), prim(RSPrimitive::F64));
    assert_eq!(make_rs_type(&TsType::TSStringKeyword), prim(RSPrimitive::String));
    assert_eq!(make_rs_type(&TsType::TSSymbolKeyword), prim(RSPrimitive::String));
    assert_eq!(make_rs_type(&TsType::TSBigIntKeyword), prim(RSPrimitive::I128));
}

#[test]
fn lowers_dynamic_keywords_to_json_value() {
    assert_eq!(make_rs_type(&TsType::TSAnyKeyword), RSType::JSONValue);
    assert_eq!(make_rs_type(&TsType::TSUnknownKeyword), RSType::JSONValue);
    assert_eq!(make_rs_type(&TsType::TSObjectKeyword), RSType::JSONValue);
    assert_eq!(make_rs_type(&TsType::TSMappedType), RSType::JSONValue);
    assert_eq!(make_rs_type(&TsType::TSTypeLiteral), RSType::JSONValue);
}

#[test]
fn lowers_null_undefined_and_unit_keywords() {
    assert_eq!(make_rs_type(&TsType::TSNullKeyword), RSType::NullOrUndefined);
    assert_eq!(make_rs_type(&TsType::TSUndefinedKeyword), RSType::NullOrUndefined);
    assert_eq!(make_rs_type(&TsType::TSNeverKeyword), RSType::Unit);
    assert_eq!(make_rs_type(&TsType::TSVoidKeyword), RSType::Unit);
}

#[test]
fn lowers_array_to_container() {
    let t = TsType::TSArrayType(Box::new(TsType::TSNumberKeyword));
    assert_eq!(make_rs_type(&t), RSType::Vec(Box::new(prim(RSPrimitive::F64))));
}

#[test]
fn lowers_literal_types() {
    assert_eq!(
        make_rs_type(&TsType::TSLiteralType(TsLiteral::BooleanLiteral(true))),
        RSType::EnumVariant(RSEnumVariant::BooleanLiteral(true))
    );
    assert_eq!(
        make_rs_type(&TsType::TSLiteralType(TsLiteral::StringLiteral(String::from("on")))),
        RSType::EnumVariant(RSEnumVariant::StringLiteral(String::from("on")))
    );
    assert_eq!(
        make_rs_type(&TsType::TSLiteralType(TsLiteral::NumericLiteral(String::from("42")))),
        RSType::EnumVariant(RSEnumVariant::NumericLiteral(String::from("42")))
    );
    assert_eq!(
        make_rs_type(&TsType::TSLiteralType(TsLiteral::BigIntLiteral(String::from("42n")))),
        RSType::EnumVariant(RSEnumVariant::NumericLiteral(String::from("42n")))
    );
    assert_eq!(
        make_rs_type(&TsType::TSLiteralType(TsLiteral::NullLiteral)),
        RSType::EnumVariant(RSEnumVariant::NullLiteral)
    );
}

#[test]
fn lowers_unsupported_literal_with_construct_name_and_snippet() {
    let t = TsType::TSLiteralType(TsLiteral::Unsupported(
        UnsupportedLiteralKind::Template,
        String::from("`a${b}`"),
    ));
    assert_eq!(
        make_rs_type(&t),
        RSType::EnumVariant(RSEnumVariant::Unimplemented(
            String::from("TemplateLiteral"),
            String::from("`a${b}`"),
        ))
    );
}

#[test]
fn lowers_unsupported_construct_with_exact_snippet() {
    let t = TsType::Unsupported(
        UnsupportedKind::Conditional,
        String::from("A extends B ? C : D"),
    );
    assert_eq!(
        make_rs_type(&t),
        RSType::Unimplemented(
            String::from("TSConditionalType"),
            String::from("A extends B ? C : D"),
        )
    );
    let q = TsType::Unsupported(UnsupportedKind::TypeQuery, String::from("typeof x"));
    assert_eq!(
        make_rs_type(&q),
        RSType::Unimplemented(String::from("TSTypeQuery"), String::from("typeof x"))
    );
}

#[test]
fn reference_without_arguments_stays_symbolic() {
    let t = TsType::TSTypeReference { name: String::from("Foo"), type_arguments: None };
    assert_eq!(
        make_rs_type(&t),
        RSType::Reference(RSReference::Unresolved {
            name: String::from("Foo"),
            module_specifier: None,
        })
    );
}

#[test]
fn reference_with_arguments_becomes_union_of_arguments() {
    let t = TsType::TSTypeReference {
        name: String::from("Promise"),
        type_arguments: Some(vec![TsType::TSStringKeyword, TsType::TSNullKeyword]),
    };
    assert_eq!(
        make_rs_type(&t),
        RSType::Enum(RSEnum { option: true, variants: vec![prim(RSPrimitive::String)] })
    );
}

// A module declaring `type A = string | null;` lowers `A` to a choice of
// string with the none flag set.
#[test]
fn union_of_string_and_null_keyword() {
    let t = TsType::TSUnionType(vec![TsType::TSStringKeyword, TsType::TSNullKeyword]);
    assert_eq!(
        make_rs_type(&t),
        RSType::Enum(RSEnum { option: true, variants: vec![prim(RSPrimitive::String)] })
    );
}

// `type T = [string, number];` lowers to a container of the union of the
// element shapes, with no none flag.
#[test]
fn tuple_of_string_and_number() {
    let t = TsType::TSTupleType(vec![
        TsTupleElement::TSType(TsType::TSStringKeyword),
        TsTupleElement::TSType(TsType::TSNumberKeyword),
    ]);
    assert_eq!(
        make_rs_type(&t),
        RSType::Vec(Box::new(RSType::Enum(RSEnum {
            option: false,
            variants: vec![prim(RSPrimitive::String), prim(RSPrimitive::F64)],
        })))
    );
}

#[test]
fn tuple_skips_optional_and_rest_elements() {
    let t = TsType::TSTupleType(vec![
        TsTupleElement::TSType(TsType::TSBooleanKeyword),
        TsTupleElement::TSOptionalType(Box::new(TsType::TSStringKeyword)),
        TsTupleElement::TSRestType(Box::new(TsType::TSNumberKeyword)),
    ]);
    assert_eq!(
        make_rs_type(&t),
        RSType::Vec(Box::new(RSType::Enum(RSEnum {
            option: false,
            variants: vec![prim(RSPrimitive::Bool)],
        })))
    );
}

#[test]
fn named_tuple_member_wraps_its_element() {
    let t = TsType::TSNamedTupleMember(Box::new(TsType::TSNumberKeyword));
    assert_eq!(
        make_rs_type(&t),
        RSType::EnumVariant(RSEnumVariant::RSType(Box::new(prim(RSPrimitive::F64))))
    );
}

// `normalize_union([Primitive(String), NullLiteral])` yields the choice of
// string alone with the none flag, and the variant count is the input count
// minus the none-signaling members.
#[test]
fn normalize_union_extracts_none_signals() {
    let input = vec![
        prim(RSPrimitive::String),
        RSType::EnumVariant(RSEnumVariant::NullLiteral),
    ];
    let input_len = input.len();
    let r = make_union_or_option_type(input);
    match r {
        RSType::Enum(e) => {
            assert!(e.option);
            assert_eq!(e.variants, vec![prim(RSPrimitive::String)]);
            assert_eq!(e.variants.len(), input_len - 1);
        }
        other => panic!("expected an Enum, got {:?}", other),
    }
}

#[test]
fn normalize_union_keeps_duplicates_and_order() {
    let input = vec![
        prim(RSPrimitive::String),
        prim(RSPrimitive::Bool),
        prim(RSPrimitive::String),
    ];
    let r = make_union_or_option_type(input);
    assert_eq!(
        r,
        RSType::Enum(RSEnum {
            option: false,
            variants: vec![
                prim(RSPrimitive::String),
                prim(RSPrimitive::Bool),
                prim(RSPrimitive::String),
            ],
        })
    );
}

#[test]
fn normalize_union_treats_unit_as_none_signal() {
    let input = vec![prim(RSPrimitive::String), RSType::Unit];
    let r = make_union_or_option_type(input);
    assert_eq!(
        r,
        RSType::Enum(RSEnum { option: true, variants: vec![prim(RSPrimitive::String)] })
    );
}

#[test]
fn normalize_union_of_nothing_is_empty_choice() {
    let r = make_union_or_option_type(Vec::new());
    assert_eq!(r, RSType::Enum(RSEnum { option: false, variants: Vec::new() }));
}

// Constructing an optional of an optional collapses to a single optional.
#[test]
fn optional_wrapping_never_nests() {
    let once = make_optional(prim(RSPrimitive::Bool));
    let twice = make_optional(make_optional(prim(RSPrimitive::Bool)));
    assert_eq!(once, twice);
    assert_eq!(twice, RSType::Option(Box::new(prim(RSPrimitive::Bool))));
}
