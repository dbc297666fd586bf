use ts2rust::ir::{RSEnum, RSPrimitive, RSReference, RSType};
use ts2rust::options::TypeScriptOptions;
use ts2rust::source_ast::{
    ExportNamedDeclaration, ExportSpecifier, ImportDeclaration, ImportSpecifier,
    TSInterfaceDeclaration, TSTypeAliasDeclaration, TsSignature, TsType, UnsupportedKind,
};
use ts2rust::visitor::{OriginalName, TypeScriptToRustVisitor};

fn new_visitor() -> TypeScriptToRustVisitor {
    TypeScriptToRustVisitor::new(
        String::from("/src/mod.ts"),
        String::new(),
        TypeScriptOptions::default(),
    )
}

fn property(name: &str, optional: bool, ty: TsType) -> TsSignature {
    TsSignature::TSPropertySignature {
        computed: false,
        optional,
        key_name: Some(String::from(name)),
        type_annotation: Some(ty),
    }
}

fn get<'a>(v: &'a TypeScriptToRustVisitor, name: &str) -> Option<&'a RSType> {
    for (k, t) in v.types.entries.iter() {
        if k == name {
            return Some(t);
        }
    }
    None
}

#[test]
fn type_alias_is_stored_under_its_name() {
    let mut v = new_visitor();
    v.visit_ts_type_alias_declaration(&TSTypeAliasDeclaration {
        name: String::from("Flag"),
        type_annotation: TsType::TSBooleanKeyword,
    });
    assert_eq!(get(&v, "Flag"), Some(&RSType::Primitive(RSPrimitive::Bool)));
}

// An interface `interface P { x: number; y?: Foo; }` lowers to a record with
// a plain number field and an optional, still-symbolic reference field.
#[test]
fn interface_with_plain_and_optional_fields() {
    let mut v = new_visitor();
    v.visit_ts_interface_declaration(&TSInterfaceDeclaration {
        name: String::from("P"),
        body: vec![
            property("x", false, TsType::TSNumberKeyword),
            property(
                "y",
                true,
                TsType::TSTypeReference { name: String::from("Foo"), type_arguments: None },
            ),
        ],
    });
    let record = get(&v, "P").expect("P should be stored");
    match record {
        RSType::Struct(s) => {
            assert_eq!(s.fields.entries.len(), 2);
            assert_eq!(s.fields.entries[0].0, "x");
            assert_eq!(s.fields.entries[0].1, RSType::Primitive(RSPrimitive::F64));
            assert_eq!(s.fields.entries[1].0, "y");
            assert_eq!(
                s.fields.entries[1].1,
                RSType::Option(Box::new(RSType::Reference(RSReference::Unresolved {
                    name: String::from("Foo"),
                    module_specifier: None,
                })))
            );
        }
        other => panic!("expected a record, got {:?}", other),
    }
}

// An interface whose only members are unsupported or non-property signatures
// is absent from the table, not stored with zero fields.
#[test]
fn interface_with_no_representable_fields_is_absent() {
    let mut v = new_visitor();
    v.visit_ts_interface_declaration(&TSInterfaceDeclaration {
        name: String::from("Empty"),
        body: vec![
            TsSignature::Other,
            property(
                "f",
                false,
                TsType::Unsupported(UnsupportedKind::Function, String::from("() => void")),
            ),
        ],
    });
    assert!(get(&v, "Empty").is_none());
    assert_eq!(v.types.entries.len(), 0);
}

#[test]
fn interface_skips_computed_unnamed_and_unannotated_members() {
    let mut v = new_visitor();
    v.visit_ts_interface_declaration(&TSInterfaceDeclaration {
        name: String::from("Q"),
        body: vec![
            TsSignature::TSPropertySignature {
                computed: true,
                optional: false,
                key_name: Some(String::from("computed_key")),
                type_annotation: Some(TsType::TSNumberKeyword),
            },
            TsSignature::TSPropertySignature {
                computed: false,
                optional: false,
                key_name: None,
                type_annotation: Some(TsType::TSNumberKeyword),
            },
            TsSignature::TSPropertySignature {
                computed: false,
                optional: false,
                key_name: Some(String::from("untyped")),
                type_annotation: None,
            },
            property("kept", false, TsType::TSStringKeyword),
        ],
    });
    let record = get(&v, "Q").expect("Q should be stored");
    match record {
        RSType::Struct(s) => {
            assert_eq!(s.fields.entries.len(), 1);
            assert_eq!(s.fields.entries[0].0, "kept");
        }
        other => panic!("expected a record, got {:?}", other),
    }
}

#[test]
fn interface_field_with_none_union_is_wrapped_optional() {
    let mut v = new_visitor();
    v.visit_ts_interface_declaration(&TSInterfaceDeclaration {
        name: String::from("R"),
        body: vec![property(
            "maybe",
            false,
            TsType::TSUnionType(vec![TsType::TSStringKeyword, TsType::TSNullKeyword]),
        )],
    });
    let record = get(&v, "R").expect("R should be stored");
    match record {
        RSType::Struct(s) => {
            assert_eq!(
                s.fields.entries[0].1,
                RSType::Option(Box::new(RSType::Enum(RSEnum {
                    option: true,
                    variants: vec![RSType::Primitive(RSPrimitive::String)],
                })))
            );
        }
        other => panic!("expected a record, got {:?}", other),
    }
}

#[test]
fn unsupported_field_is_kept_when_not_ignored() {
    let mut v = TypeScriptToRustVisitor::new(
        String::from("/src/mod.ts"),
        String::new(),
        TypeScriptOptions { ignore_unimplemented: false },
    );
    v.visit_ts_interface_declaration(&TSInterfaceDeclaration {
        name: String::from("Kept"),
        body: vec![property(
            "f",
            false,
            TsType::Unsupported(UnsupportedKind::Function, String::from("() => void")),
        )],
    });
    let record = get(&v, "Kept").expect("Kept should be stored");
    match record {
        RSType::Struct(s) => {
            assert_eq!(
                s.fields.entries[0].1,
                RSType::Unimplemented(String::from("TSFunctionType"), String::from("() => void"))
            );
        }
        other => panic!("expected a record, got {:?}", other),
    }
}

#[test]
fn import_specifiers_build_alias_records() {
    let mut v = new_visitor();
    v.visit_import_declaration(&ImportDeclaration {
        source_path: String::from("/src/dep.ts"),
        specifiers: Some(vec![
            ImportSpecifier::ImportSpecifier {
                imported: String::from("Foo"),
                local: String::from("Bar"),
            },
            ImportSpecifier::ImportDefaultSpecifier { local: String::from("Dflt") },
            ImportSpecifier::ImportNamespaceSpecifier { local: String::from("NS") },
        ]),
    });
    assert_eq!(v.type_mappings.entries.len(), 3);
    let (k, m) = &v.type_mappings.entries[0];
    assert_eq!(k, "Bar");
    assert_eq!(m.original_module, Some(String::from("/src/dep.ts")));
    assert_eq!(m.original_name, OriginalName::Named(String::from("Foo")));
    assert_eq!(m.local_name, "Bar");
    assert_eq!(m.public_name, "Bar");
    let (_, d) = &v.type_mappings.entries[1];
    assert_eq!(d.original_name, OriginalName::Default);
    let (_, n) = &v.type_mappings.entries[2];
    assert_eq!(n.original_name, OriginalName::Namespace);
}

#[test]
fn export_specifier_records_public_name() {
    let mut v = new_visitor();
    v.visit_export_named_declaration(&ExportNamedDeclaration {
        source_path: None,
        specifiers: vec![ExportSpecifier {
            local: String::from("Inner"),
            exported: String::from("Outer"),
        }],
    });
    let (k, m) = &v.type_mappings.entries[0];
    assert_eq!(k, "Inner");
    assert_eq!(m.original_module, None);
    assert_eq!(m.original_name, OriginalName::Named(String::from("Inner")));
    assert_eq!(m.public_name, "Outer");
}

#[test]
fn reexport_carries_resolved_source_path() {
    let mut v = new_visitor();
    v.visit_export_named_declaration(&ExportNamedDeclaration {
        source_path: Some(String::from("/src/other.ts")),
        specifiers: vec![ExportSpecifier {
            local: String::from("X"),
            exported: String::from("X"),
        }],
    });
    let (_, m) = &v.type_mappings.entries[0];
    assert_eq!(m.original_module, Some(String::from("/src/other.ts")));
}

#[test]
fn later_alias_record_overwrites_earlier_for_same_local_name() {
    let mut v = new_visitor();
    v.visit_import_declaration(&ImportDeclaration {
        source_path: String::from("/src/a.ts"),
        specifiers: Some(vec![ImportSpecifier::ImportSpecifier {
            imported: String::from("T"),
            local: String::from("T"),
        }]),
    });
    v.visit_import_declaration(&ImportDeclaration {
        source_path: String::from("/src/b.ts"),
        specifiers: Some(vec![ImportSpecifier::ImportSpecifier {
            imported: String::from("T"),
            local: String::from("T"),
        }]),
    });
    assert_eq!(v.type_mappings.entries.len(), 1);
    let (_, m) = &v.type_mappings.entries[0];
    assert_eq!(m.original_module, Some(String::from("/src/b.ts")));
}
