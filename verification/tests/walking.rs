use ts2rust::builder::TypeScriptToRustBuilder;
use ts2rust::ir::{RSPrimitive, RSReference, RSType, RSTypeMap};
use ts2rust::options::TypeScriptOptions;
use ts2rust::source_ast::{
    ImportDeclaration, ImportSpecifier, ModuleItem, Program, TSTypeAliasDeclaration, TsType,
};

fn module_a() -> Program {
    Program {
        body: vec![
            ModuleItem::Import(ImportDeclaration {
                source_path: String::from("/src/b.ts"),
                specifiers: Some(vec![ImportSpecifier::ImportSpecifier {
                    imported: String::from("Foo"),
                    local: String::from("Foo"),
                }]),
            }),
            ModuleItem::TypeAlias(TSTypeAliasDeclaration {
                name: String::from("UseFoo"),
                type_annotation: TsType::TSTypeReference {
                    name: String::from("Foo"),
                    type_arguments: None,
                },
            }),
        ],
    }
}

fn module_b() -> Program {
    Program {
        body: vec![ModuleItem::TypeAlias(TSTypeAliasDeclaration {
            name: String::from("Foo"),
            type_annotation: TsType::TSStringKeyword,
        })],
    }
}

fn table<'a>(b: &'a TypeScriptToRustBuilder, path: &str) -> &'a RSTypeMap {
    for (k, t) in b.modules.entries.iter() {
        if k == path {
            return t;
        }
    }
    panic!("module {} not found", path);
}

fn decl<'a>(t: &'a RSTypeMap, name: &str) -> Option<&'a RSType> {
    for (k, v) in t.entries.iter() {
        if k == name {
            return Some(v);
        }
    }
    None
}

// Visiting the same canonical path twice leaves the module table unchanged
// after the second call, and the second call says not to parse again.
#[test]
fn beginning_a_module_twice_changes_nothing() {
    let mut b = TypeScriptToRustBuilder::new(TypeScriptOptions::default());
    let path = String::from("/src/a.ts");
    assert!(b.begin_module(&path));
    let deps = b.visit_module(&path, &module_a());
    assert_eq!(deps, vec![String::from("/src/b.ts")]);
    let snapshot = b.modules.entries.len();
    let before = format!("{:?}", b.modules);
    assert!(!b.begin_module(&path));
    assert_eq!(b.modules.entries.len(), snapshot);
    assert_eq!(format!("{:?}", b.modules), before);
}

#[test]
fn begin_module_reserves_an_empty_slot() {
    let mut b = TypeScriptToRustBuilder::new(TypeScriptOptions::default());
    let path = String::from("/src/broken.ts");
    assert!(!b.contains_module(&path));
    assert!(b.begin_module(&path));
    assert!(b.contains_module(&path));
    // the slot of a module whose parse failed stays present and empty
    assert_eq!(table(&b, "/src/broken.ts").entries.len(), 0);
}

// Two modules: `a` imports `Foo` from `b`. After full traversal `b`'s table
// contains `Foo`, and `a`'s reference to `Foo` is still unresolved, because
// resolution never crosses module boundaries.
#[test]
fn cross_module_reference_stays_unresolved() {
    let mut b = TypeScriptToRustBuilder::new(TypeScriptOptions::default());
    let a_path = String::from("/src/a.ts");
    let b_path = String::from("/src/b.ts");
    assert!(b.begin_module(&a_path));
    let deps = b.visit_module(&a_path, &module_a());
    assert_eq!(deps, vec![b_path.clone()]);
    for d in deps.iter() {
        if b.begin_module(d) {
            let more = b.visit_module(d, &module_b());
            assert!(more.is_empty());
        }
    }
    let graph = b.resolve_references();
    assert_eq!(
        decl(table(&b, "/src/b.ts"), "Foo"),
        Some(&RSType::Primitive(RSPrimitive::String))
    );
    assert_eq!(
        decl(table(&b, "/src/a.ts"), "UseFoo"),
        Some(&RSType::Reference(RSReference::Unresolved {
            name: String::from("Foo"),
            module_specifier: None,
        }))
    );
    assert!(graph.references.contains(&RSReference::Unresolved {
        name: String::from("Foo"),
        module_specifier: None,
    }));
}

#[test]
fn same_module_reference_resolves_to_its_module() {
    let mut b = TypeScriptToRustBuilder::new(TypeScriptOptions::default());
    let path = String::from("/src/self.ts");
    let program = Program {
        body: vec![
            ModuleItem::TypeAlias(TSTypeAliasDeclaration {
                name: String::from("Base"),
                type_annotation: TsType::TSBooleanKeyword,
            }),
            ModuleItem::TypeAlias(TSTypeAliasDeclaration {
                name: String::from("Uses"),
                type_annotation: TsType::TSArrayType(Box::new(TsType::TSTypeReference {
                    name: String::from("Base"),
                    type_arguments: None,
                })),
            }),
        ],
    };
    assert!(b.begin_module(&path));
    let deps = b.visit_module(&path, &program);
    assert!(deps.is_empty());
    let graph = b.resolve_references();
    assert_eq!(
        decl(table(&b, "/src/self.ts"), "Uses"),
        Some(&RSType::Vec(Box::new(RSType::Reference(RSReference::Resolved {
            name: String::from("Base"),
            module: String::from("/src/self.ts"),
        }))))
    );
    assert_eq!(graph.references.len(), 1);
    assert!(graph.references.contains(&RSReference::Resolved {
        name: String::from("Base"),
        module: String::from("/src/self.ts"),
    }));
}

#[test]
fn dependency_paths_come_in_record_order() {
    let mut b = TypeScriptToRustBuilder::new(TypeScriptOptions::default());
    let path = String::from("/src/many.ts");
    let program = Program {
        body: vec![
            ModuleItem::Import(ImportDeclaration {
                source_path: String::from("/src/one.ts"),
                specifiers: Some(vec![ImportSpecifier::ImportSpecifier {
                    imported: String::from("A"),
                    local: String::from("A"),
                }]),
            }),
            ModuleItem::Import(ImportDeclaration {
                source_path: String::from("/src/two.ts"),
                specifiers: Some(vec![ImportSpecifier::ImportSpecifier {
                    imported: String::from("B"),
                    local: String::from("B"),
                }]),
            }),
        ],
    };
    assert!(b.begin_module(&path));
    let deps = b.visit_module(&path, &program);
    assert_eq!(deps, vec![String::from("/src/one.ts"), String::from("/src/two.ts")]);
}
