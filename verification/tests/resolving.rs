use ts2rust::ir::{RSEnum, RSEnumVariant, RSPrimitive, RSReference, RSStruct, RSType, RSTypeMap};
use ts2rust::options::TypeScriptOptions;
use ts2rust::resolver::{ReferenceGraph, resolve_references, resolve_type};
use ts2rust::source_ast::{ModuleItem, Program, TSTypeAliasDeclaration, TsType};
use ts2rust::table::KeyedMap;
use ts2rust::visitor::TypeScriptToRustVisitor;

fn unresolved(name: &str) -> RSType {
    RSType::Reference(RSReference::Unresolved {
        name: String::from(name),
        module_specifier: None,
    })
}

fn resolved(name: &str, module: &str) -> RSType {
    RSType::Reference(RSReference::Resolved {
        name: String::from(name),
        module: String::from(module),
    })
}

fn table_with(names: &[&str]) -> RSTypeMap {
    let mut t: RSTypeMap = KeyedMap { entries: Vec::new() };
    for n in names {
        t.entries.push((String::from(*n), RSType::Unit));
    }
    t
}

#[test]
fn known_name_resolves_to_this_module() {
    let types = table_with(&["Foo"]);
    let module = String::from("/m.ts");
    let mut refs = ReferenceGraph { references: Vec::new() };
    let r = resolve_type(&unresolved("Foo"), &types, &module, &mut refs);
    assert_eq!(r, resolved("Foo", "/m.ts"));
    assert_eq!(refs.references.len(), 1);
}

#[test]
fn unknown_name_stays_unresolved_and_is_recorded() {
    let types = table_with(&[]);
    let module = String::from("/m.ts");
    let mut refs = ReferenceGraph { references: Vec::new() };
    let r = resolve_type(&unresolved("Missing"), &types, &module, &mut refs);
    assert_eq!(r, unresolved("Missing"));
    assert_eq!(
        refs.references,
        vec![RSReference::Unresolved { name: String::from("Missing"), module_specifier: None }]
    );
}

#[test]
fn resolution_descends_through_all_shapes() {
    let types = table_with(&["A"]);
    let module = String::from("/m.ts");
    let mut refs = ReferenceGraph { references: Vec::new() };
    let mut fields: RSTypeMap = KeyedMap { entries: Vec::new() };
    fields.entries.push((String::from("f"), unresolved("A")));
    let tree = RSType::Vec(Box::new(RSType::Option(Box::new(RSType::Enum(RSEnum {
        option: false,
        variants: vec![
            RSType::Struct(RSStruct { fields }),
            RSType::EnumVariant(RSEnumVariant::RSType(Box::new(unresolved("A")))),
        ],
    })))));
    let r = resolve_type(&tree, &types, &module, &mut refs);
    let mut expected_fields: RSTypeMap = KeyedMap { entries: Vec::new() };
    expected_fields.entries.push((String::from("f"), resolved("A", "/m.ts")));
    let expected = RSType::Vec(Box::new(RSType::Option(Box::new(RSType::Enum(RSEnum {
        option: false,
        variants: vec![
            RSType::Struct(RSStruct { fields: expected_fields }),
            RSType::EnumVariant(RSEnumVariant::RSType(Box::new(resolved("A", "/m.ts")))),
        ],
    })))));
    assert_eq!(r, expected);
    // the same reference was met twice but is recorded once
    assert_eq!(refs.references.len(), 1);
}

#[test]
fn already_resolved_reference_passes_through_unrecorded() {
    let types = table_with(&[]);
    let module = String::from("/m.ts");
    let mut refs = ReferenceGraph { references: Vec::new() };
    let r = resolve_type(&resolved("Foo", "/elsewhere.ts"), &types, &module, &mut refs);
    assert_eq!(r, resolved("Foo", "/elsewhere.ts"));
    assert!(refs.references.is_empty());
}

#[test]
fn leaf_nodes_pass_through_unchanged() {
    let types = table_with(&[]);
    let module = String::from("/m.ts");
    let mut refs = ReferenceGraph { references: Vec::new() };
    assert_eq!(
        resolve_type(&RSType::Primitive(RSPrimitive::I32), &types, &module, &mut refs),
        RSType::Primitive(RSPrimitive::I32)
    );
    assert_eq!(
        resolve_type(&RSType::JSONValue, &types, &module, &mut refs),
        RSType::JSONValue
    );
    assert_eq!(
        resolve_type(
            &RSType::Unimplemented(String::from("TSThisType"), String::from("this")),
            &types,
            &module,
            &mut refs,
        ),
        RSType::Unimplemented(String::from("TSThisType"), String::from("this"))
    );
    assert!(refs.references.is_empty());
}

#[test]
fn resolve_references_rewrites_each_declaration_in_place() {
    let mut types = table_with(&["Base"]);
    types.entries.push((String::from("Uses"), unresolved("Base")));
    let module = String::from("/m.ts");
    let graph = resolve_references(&mut types, &module);
    assert_eq!(types.entries[0].1, RSType::Unit);
    assert_eq!(types.entries[1].1, resolved("Base", "/m.ts"));
    assert_eq!(graph.references.len(), 1);
}

#[test]
fn reference_graph_deduplicates() {
    let mut g = ReferenceGraph { references: Vec::new() };
    g.insert(RSReference::Unresolved { name: String::from("X"), module_specifier: None });
    g.insert(RSReference::Unresolved { name: String::from("X"), module_specifier: None });
    g.insert(RSReference::Resolved { name: String::from("X"), module: String::from("/m.ts") });
    assert_eq!(g.references.len(), 2);
}

#[test]
fn visitor_resolves_its_own_table() {
    let mut v = TypeScriptToRustVisitor::new(
        String::from("/self.ts"),
        String::new(),
        TypeScriptOptions::default(),
    );
    let program = Program {
        body: vec![
            ModuleItem::TypeAlias(TSTypeAliasDeclaration {
                name: String::from("N"),
                type_annotation: TsType::TSNumberKeyword,
            }),
            ModuleItem::TypeAlias(TSTypeAliasDeclaration {
                name: String::from("M"),
                type_annotation: TsType::TSTypeReference {
                    name: String::from("N"),
                    type_arguments: None,
                },
            }),
        ],
    };
    v.visit_program(&program);
    let graph = v.resolve_references();
    assert_eq!(v.types.entries[1].1, resolved("N", "/self.ts"));
    assert_eq!(graph.references.len(), 1);
}
