use ts2rust::hashable_set::HashableSet;
use ts2rust::ir::{RSEnum, RSPrimitive, RSReference, RSStruct, RSType, RSTypeMap};
use ts2rust::options::TypeScriptOptions;
use ts2rust::string_utils::StringUtils;
use ts2rust::table::KeyedMap;

#[test]
fn options_default_ignores_unsupported() {
    let o = TypeScriptOptions::default();
    assert!(o.ignore_unimplemented);
}

#[test]
fn default_visitor_and_builder_start_empty() {
    let v = ts2rust::visitor::TypeScriptToRustVisitor::default();
    assert_eq!(v.path, "");
    assert!(v.types.entries.is_empty());
    assert!(v.type_mappings.entries.is_empty());
    assert!(v.options.ignore_unimplemented);
    let b = ts2rust::builder::TypeScriptToRustBuilder::default();
    assert!(b.modules.entries.is_empty());
    assert!(b.options.ignore_unimplemented);
}

#[test]
fn keyed_map_insert_overwrites_in_place() {
    let mut m: KeyedMap<u64> = KeyedMap { entries: Vec::new() };
    m.insert(String::from("a"), 1);
    m.insert(String::from("b"), 2);
    m.insert(String::from("a"), 3);
    assert_eq!(m.entries, vec![(String::from("a"), 3), (String::from("b"), 2)]);
    assert!(m.contains_key(&String::from("a")));
    assert!(!m.contains_key(&String::from("c")));
    assert_eq!(m.get(&String::from("a")), Some(&3));
    assert_eq!(m.get(&String::from("c")), None);
}

#[test]
fn hashable_set_is_order_insensitive() {
    let a = HashableSet::from_vec(&vec![3, 1, 2, 1]);
    let b = HashableSet::from_vec(&vec![1, 2, 3]);
    assert_eq!(a, b);
    assert_eq!(a.iter_sorted(), vec![1, 2, 3]);
    assert_eq!(a.len(), 3);
}

#[test]
fn hashable_set_insert_and_contains() {
    let mut s = HashableSet::new();
    s.insert(9);
    s.insert(4);
    s.insert(9);
    assert!(s.contains(4));
    assert!(s.contains(9));
    assert!(!s.contains(5));
    assert_eq!(s.iter_sorted(), vec![4, 9]);
    let t = HashableSet::from_vec(&vec![9, 4]);
    assert_eq!(s, t);
    assert!(s != HashableSet::from_vec(&vec![9]));
}

#[test]
fn capitalize_uppercases_the_first_character() {
    assert_eq!(String::from("hello").capitalize(), "Hello");
    assert_eq!(String::from("Hello").capitalize(), "Hello");
    assert_eq!(String::from("").capitalize(), "");
    // the German sharp s uppercases to two characters
    assert_eq!(String::from("\u{df}ort").capitalize(), "SSort");
}

#[test]
fn to_ascii_drops_non_ascii_characters() {
    assert_eq!(String::from("h\u{e9}llo").to_ascii(), "hllo");
    assert_eq!(String::from("plain").to_ascii(), "plain");
    assert_eq!(String::from("\u{1f600}").to_ascii(), "");
}

#[test]
fn primitive_names_are_target_spellings() {
    assert_eq!(RSPrimitive::String.name(), "String");
    assert_eq!(RSPrimitive::I32.name(), "i32");
    assert_eq!(RSPrimitive::I128.name(), "i128");
    assert_eq!(RSPrimitive::Bool.name(), "bool");
    assert_eq!(RSPrimitive::F64.name(), "f64");
}

#[test]
fn type_names_render_compactly() {
    assert_eq!(RSType::Primitive(RSPrimitive::F64).name(), "f64");
    assert_eq!(
        RSType::Vec(Box::new(RSType::Option(Box::new(RSType::Unit)))).name(),
        "Vec<Option<()>>"
    );
    assert_eq!(RSType::JSONValue.name(), "serde_json::Value");
    assert_eq!(RSType::NullOrUndefined.name(), "Option<()>");
    assert_eq!(
        RSType::Reference(RSReference::Unresolved {
            name: String::from("Foo"),
            module_specifier: None,
        })
        .name(),
        "REF<Foo>"
    );
    assert_eq!(
        RSType::Reference(RSReference::Resolved {
            name: String::from("Foo"),
            module: String::from("/m.ts"),
        })
        .name(),
        "REF<Foo@/m.ts>"
    );
    assert_eq!(
        RSType::Unimplemented(String::from("TSThisType"), String::from("this")).name(),
        "Unimplemented<TSThisType, this>"
    );
    let fields: RSTypeMap = KeyedMap { entries: Vec::new() };
    assert_eq!(RSType::Struct(RSStruct { fields }).name(), "Struct");
    assert_eq!(
        RSType::Enum(RSEnum { option: false, variants: Vec::new() }).name(),
        "Enum"
    );
}
