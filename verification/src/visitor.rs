use vstd::prelude::*;
use crate::ir::{Ir, RSStruct, RSType, RSTypeMap, ir_wf, lemma_field_views_is_pair_views};
use crate::lower::{lower_spec, make_optional, make_rs_type, wrap_optional_spec};
use crate::options::TypeScriptOptions;
use crate::source_ast::{
    ExportNamedDeclaration, ImportDeclaration, ImportSpecifier, ModuleItem, Program,
    SrcExportSpecifier, SrcImportSpecifier, SrcItem, SrcSignature, TSInterfaceDeclaration,
    TSTypeAliasDeclaration, TsSignature, TsType, import_specifier_view, item_view, item_views,
    lemma_item_views_len, signature_view, signature_views,
    lemma_signature_views_len, ts_view,
};
use crate::table::{KeyedMap, pairs_contains_key, pairs_index_of, pairs_upsert};

verus! {

// ---------------------------------------------------------------------------
// Alias records: where a locally visible name actually comes from.
// ---------------------------------------------------------------------------

/// The original name of an imported or exported binding in its home module.
#[derive(Debug, Clone, PartialEq, Eq, Hash)]
pub enum OriginalName {
    /// A named import or export, possibly renamed locally.
    Named(String),
    /// A default import.
    Default,
    /// A namespace import.
    Namespace,
}

/// One alias record: how a local name maps to its origin.
#[derive(Debug, Clone, PartialEq, Eq, Hash)]
pub struct TypeMapping {
    /// The path of the module where the name is originally defined: present
    /// for imports and re-exports, absent for a local export.
    pub original_module: Option<String>,
    /// The name of the binding in its original module.
    pub original_name: OriginalName,
    /// The name used in the current module.
    pub local_name: String,
    /// The name under which the binding is exported; defaults to
    /// `local_name`.
    pub public_name: String,
}

pub enum SrcOriginalName {
    Named(Seq<char>),
    Default,
    Namespace,
}

pub struct SrcTypeMapping {
    pub original_module: Option<Seq<char>>,
    pub original_name: SrcOriginalName,
    pub local_name: Seq<char>,
    pub public_name: Seq<char>,
}

pub open spec fn original_name_view(n: OriginalName) -> SrcOriginalName {
    match n {
        OriginalName::Named(s) => SrcOriginalName::Named(s@),
        OriginalName::Default => SrcOriginalName::Default,
        OriginalName::Namespace => SrcOriginalName::Namespace,
    }
}

pub open spec fn type_mapping_view(m: TypeMapping) -> SrcTypeMapping {
    SrcTypeMapping {
        original_module: m.original_module.deep_view(),
        original_name: original_name_view(m.original_name),
        local_name: m.local_name@,
        public_name: m.public_name@,
    }
}

impl View for TypeMapping {
    type V = SrcTypeMapping;

    open spec fn view(&self) -> SrcTypeMapping {
        type_mapping_view(*self)
    }
}

// ---------------------------------------------------------------------------
// What each statement of a module does to the visitor state, on the model.
// ---------------------------------------------------------------------------

/// The alias record for one import specifier: a plain import always carries
/// the resolved source path, and the public name defaults to the local name.
pub open spec fn import_mapping_of(source_path: Seq<char>, s: SrcImportSpecifier) -> SrcTypeMapping {
    match s {
        SrcImportSpecifier::Named { imported, local } => SrcTypeMapping {
            original_module: Option::Some(source_path),
            original_name: SrcOriginalName::Named(imported),
            local_name: local,
            public_name: local,
        },
        SrcImportSpecifier::Default { local } => SrcTypeMapping {
            original_module: Option::Some(source_path),
            original_name: SrcOriginalName::Default,
            local_name: local,
            public_name: local,
        },
        SrcImportSpecifier::Namespace { local } => SrcTypeMapping {
            original_module: Option::Some(source_path),
            original_name: SrcOriginalName::Namespace,
            local_name: local,
            public_name: local,
        },
    }
}

/// The alias record for one export specifier: the source path is present
/// only on a re-export, and the public name is the exported name.
pub open spec fn export_mapping_of(
    source_path: Option<Seq<char>>,
    s: SrcExportSpecifier,
) -> SrcTypeMapping {
    SrcTypeMapping {
        original_module: source_path,
        original_name: SrcOriginalName::Named(s.local),
        local_name: s.local,
        public_name: s.exported,
    }
}

pub open spec fn import_mappings_spec(
    maps: Seq<(Seq<char>, SrcTypeMapping)>,
    source_path: Seq<char>,
    specs: Seq<SrcImportSpecifier>,
) -> Seq<(Seq<char>, SrcTypeMapping)>
    decreases specs,
{
    if specs.len() == 0 {
        maps
    } else {
        let prev = import_mappings_spec(maps, source_path, specs.drop_last());
        let m = import_mapping_of(source_path, specs.last());
        pairs_upsert(prev, m.local_name, m)
    }
}

pub open spec fn export_mappings_spec(
    maps: Seq<(Seq<char>, SrcTypeMapping)>,
    source_path: Option<Seq<char>>,
    specs: Seq<SrcExportSpecifier>,
) -> Seq<(Seq<char>, SrcTypeMapping)>
    decreases specs,
{
    if specs.len() == 0 {
        maps
    } else {
        let prev = export_mappings_spec(maps, source_path, specs.drop_last());
        let m = export_mapping_of(source_path, specs.last());
        pairs_upsert(prev, m.local_name, m)
    }
}

/// The fields of an interface, lowered in member order: only plain,
/// non-computed, named, annotated property signatures become fields; a field
/// is optional-wrapped per `wrap_optional_spec`; an unsupported field is
/// dropped when `ignore_unsupported` is set; a repeated name overwrites.
pub open spec fn interface_fields_spec(
    members: Seq<SrcSignature>,
    ignore_unsupported: bool,
) -> Seq<(Seq<char>, Ir)>
    decreases members,
{
    if members.len() == 0 {
        Seq::empty()
    } else {
        let rest = interface_fields_spec(members.drop_last(), ignore_unsupported);
        match members.last() {
            SrcSignature::Property { computed, optional, key_name, type_annotation } => {
                if computed {
                    rest
                } else {
                    match key_name {
                        Option::None => rest,
                        Option::Some(k) => match type_annotation {
                            Option::None => rest,
                            Option::Some(ty) => {
                                let ir = wrap_optional_spec(lower_spec(ty), optional);
                                if ignore_unsupported && (ir is Unsupported) {
                                    rest
                                } else {
                                    pairs_upsert(rest, k, ir)
                                }
                            },
                        },
                    }
                }
            }
            SrcSignature::Other => rest,
        }
    }
}

/// One statement's effect on the pair (symbol table, alias table).
pub open spec fn visit_item_spec(
    types: Seq<(Seq<char>, Ir)>,
    maps: Seq<(Seq<char>, SrcTypeMapping)>,
    item: SrcItem,
    ignore_unsupported: bool,
) -> (Seq<(Seq<char>, Ir)>, Seq<(Seq<char>, SrcTypeMapping)>) {
    match item {
        SrcItem::Import { source_path, specifiers } => (
            types,
            match specifiers {
                Option::Some(ss) => import_mappings_spec(maps, source_path, ss),
                Option::None => maps,
            },
        ),
        SrcItem::ExportNamed { source_path, specifiers } => (
            types,
            export_mappings_spec(maps, source_path, specifiers),
        ),
        SrcItem::TypeAlias { name, type_annotation } => (
            pairs_upsert(types, name, lower_spec(type_annotation)),
            maps,
        ),
        SrcItem::Interface { name, body } => (
            {
                let fields = interface_fields_spec(body, ignore_unsupported);
                if fields.len() == 0 {
                    types
                } else {
                    pairs_upsert(types, name, Ir::Record { fields })
                }
            },
            maps,
        ),
    }
}

/// The effect of a whole statement list, first to last.
pub open spec fn visit_items_spec(
    types: Seq<(Seq<char>, Ir)>,
    maps: Seq<(Seq<char>, SrcTypeMapping)>,
    items: Seq<SrcItem>,
    ignore_unsupported: bool,
) -> (Seq<(Seq<char>, Ir)>, Seq<(Seq<char>, SrcTypeMapping)>)
    decreases items,
{
    if items.len() == 0 {
        (types, maps)
    } else {
        let prev = visit_items_spec(types, maps, items.drop_last(), ignore_unsupported);
        visit_item_spec(prev.0, prev.1, items.last(), ignore_unsupported)
    }
}

// ---------------------------------------------------------------------------
// Well-formedness of the tables the visitor builds: unique keys, and every
// stored node structurally well formed.
// ---------------------------------------------------------------------------

/// No key occurs twice.
pub open spec fn pairs_unique<T>(ps: Seq<(Seq<char>, T)>) -> bool {
    forall|i: int, j: int| 0 <= i < j < ps.len() ==> (#[trigger] ps[i]).0 != (#[trigger] ps[j]).0
}

/// Every stored node is well formed.
pub open spec fn pairs_wf(ps: Seq<(Seq<char>, Ir)>) -> bool {
    forall|i: int| 0 <= i < ps.len() ==> ir_wf((#[trigger] ps[i]).1)
}

proof fn lemma_pairs_upsert_wf(ps: Seq<(Seq<char>, Ir)>, k: Seq<char>, v: Ir)
    requires
        pairs_unique(ps),
        pairs_wf(ps),
        ir_wf(v),
    ensures
        pairs_unique(pairs_upsert(ps, k, v)),
        pairs_wf(pairs_upsert(ps, k, v)),
{
    let r = pairs_upsert(ps, k, v);
    if pairs_contains_key(ps, k) {
        let n = pairs_index_of(ps, k);
        assert(ps[n].0 == k);
        assert forall|i: int, j: int| 0 <= i < j < r.len() implies (#[trigger] r[i]).0 != (
        #[trigger] r[j]).0 by {
            assert(r[i].0 == ps[i].0 && r[j].0 == ps[j].0);
        }
        assert forall|i: int| 0 <= i < r.len() implies ir_wf((#[trigger] r[i]).1) by {
            if i != n {
                assert(r[i] == ps[i]);
            }
        }
    } else {
        assert forall|i: int, j: int| 0 <= i < j < r.len() implies (#[trigger] r[i]).0 != (
        #[trigger] r[j]).0 by {
            if j < ps.len() {
                assert(r[i] == ps[i] && r[j] == ps[j]);
            } else {
                assert(r[j].0 == k && r[i] == ps[i]);
            }
        }
        assert forall|i: int| 0 <= i < r.len() implies ir_wf((#[trigger] r[i]).1) by {
            if i < ps.len() {
                assert(r[i] == ps[i]);
            }
        }
    }
}

/// The fields an interface lowers to have unique names and well-formed
/// types.
pub proof fn lemma_interface_fields_well_formed(members: Seq<SrcSignature>, ignore: bool)
    ensures
        pairs_unique(interface_fields_spec(members, ignore)),
        pairs_wf(interface_fields_spec(members, ignore)),
    decreases members,
{
    if members.len() > 0 {
        lemma_interface_fields_well_formed(members.drop_last(), ignore);
        let rest = interface_fields_spec(members.drop_last(), ignore);
        match members.last() {
            SrcSignature::Property { computed, optional, key_name, type_annotation } => {
                if !computed {
                    match key_name {
                        Option::Some(k) => match type_annotation {
                            Option::Some(ty) => {
                                crate::lower::lemma_lower_well_formed(ty);
                                crate::lower::lemma_wrap_optional_well_formed(
                                    lower_spec(ty),
                                    optional,
                                );
                                let ir = wrap_optional_spec(lower_spec(ty), optional);
                                if !(ignore && (ir is Unsupported)) {
                                    lemma_pairs_upsert_wf(rest, k, ir);
                                }
                            },
                            Option::None => {},
                        },
                        Option::None => {},
                    }
                }
            }
            SrcSignature::Other => {}
        }
    }
}

/// Every declaration a statement list stores is well formed, and the table
/// keys stay unique: the forest handed over never holds a nested Optional
/// or an empty Record.
pub proof fn lemma_visit_items_well_formed(
    types: Seq<(Seq<char>, Ir)>,
    maps: Seq<(Seq<char>, SrcTypeMapping)>,
    items: Seq<SrcItem>,
    ignore: bool,
)
    requires
        pairs_unique(types),
        pairs_wf(types),
    ensures
        pairs_unique(visit_items_spec(types, maps, items, ignore).0),
        pairs_wf(visit_items_spec(types, maps, items, ignore).0),
    decreases items,
{
    reveal_with_fuel(crate::ir::ir_wf, 2);
    if items.len() > 0 {
        lemma_visit_items_well_formed(types, maps, items.drop_last(), ignore);
        let prev = visit_items_spec(types, maps, items.drop_last(), ignore);
        match items.last() {
            SrcItem::TypeAlias { name, type_annotation } => {
                crate::lower::lemma_lower_well_formed(type_annotation);
                lemma_pairs_upsert_wf(prev.0, name, lower_spec(type_annotation));
            }
            SrcItem::Interface { name, body } => {
                lemma_interface_fields_well_formed(body, ignore);
                let fields = interface_fields_spec(body, ignore);
                if fields.len() > 0 {
                    assert(ir_wf(Ir::Record { fields }));
                    lemma_pairs_upsert_wf(prev.0, name, Ir::Record { fields });
                }
            }
            SrcItem::Import { .. } => {}
            SrcItem::ExportNamed { .. } => {}
        }
    }
}

// ---------------------------------------------------------------------------
// The visitor: lowers one module's statements into its symbol table and
// alias table.
// ---------------------------------------------------------------------------

pub struct TypeScriptToRustVisitor {
    /// The canonical path of the module being visited.
    pub path: String,
    /// The types declared in this module, by name.
    pub types: RSTypeMap,
    /// The alias records of this module, by local name.
    pub type_mappings: KeyedMap<TypeMapping>,
    /// The module's source text, kept for diagnostics.
    pub source_text: String,
    pub options: TypeScriptOptions,
}

impl TypeScriptToRustVisitor {
    pub open spec fn wf(self) -> bool {
        self.types.wf() && self.type_mappings.wf()
    }

    /// Everything but the two tables stays as it was.
    pub open spec fn same_frame(self, other: Self) -> bool {
        self.path == other.path && self.source_text == other.source_text && self.options
            == other.options
    }

    pub fn new(path: String, source_text: String, options: TypeScriptOptions) -> (r: Self)
        ensures
            r.wf(),
            r.path == path,
            r.source_text == source_text,
            r.options == options,
            r.types.pair_view_seq() == Seq::<(Seq<char>, Ir)>::empty(),
            r.type_mappings.pair_view_seq() == Seq::<(Seq<char>, SrcTypeMapping)>::empty(),
    {
        let r = TypeScriptToRustVisitor {
            path,
            types: KeyedMap::new(),
            type_mappings: KeyedMap::new(),
            source_text,
            options,
        };
        proof {
            assert(r.types.pair_view_seq() =~= Seq::<(Seq<char>, Ir)>::empty());
            assert(r.type_mappings.pair_view_seq() =~= Seq::<
                (Seq<char>, SrcTypeMapping),
            >::empty());
        }
        r
    }

    /// Record one alias per import specifier, keyed by local name, last
    /// write winning.
    #[verifier::loop_isolation(false)]
    pub fn visit_import_declaration(&mut self, it: &ImportDeclaration)
        requires
            old(self).wf(),
        ensures
            final(self).wf(),
            final(self).same_frame(*old(self)),
            final(self).types == old(self).types,
            final(self).type_mappings.pair_view_seq() == match it.specifiers {
                Option::Some(ref ss) => import_mappings_spec(
                    old(self).type_mappings.pair_view_seq(),
                    it.source_path@,
                    ss.deep_view(),
                ),
                Option::None => old(self).type_mappings.pair_view_seq(),
            },
    {
        match &it.specifiers {
            Some(specs) => {
                let ghost svs = specs.deep_view();
                let mut i: usize = 0;
                while i < specs.len()
                    invariant
                        0 <= i <= specs@.len(),
                        svs == specs.deep_view(),
                        svs.len() == specs@.len(),
                        self.wf(),
                        self.same_frame(*old(self)),
                        self.types == old(self).types,
                        self.type_mappings.pair_view_seq() == import_mappings_spec(
                            old(self).type_mappings.pair_view_seq(),
                            it.source_path@,
                            svs.take(i as int),
                        ),
                    decreases specs@.len() - i,
                {
                    proof {
                        assert(svs.take(i + 1).drop_last() =~= svs.take(i as int));
                        assert(svs.take(i + 1).last() == import_specifier_view(specs@[i as int]));
                    }
                    let (mapping, local) = match &specs[i] {
                        ImportSpecifier::ImportSpecifier { imported, local } => (
                            TypeMapping {
                                original_module: Some(it.source_path.clone()),
                                original_name: OriginalName::Named(imported.clone()),
                                local_name: local.clone(),
                                public_name: local.clone(),
                            },
                            local.clone(),
                        ),
                        ImportSpecifier::ImportDefaultSpecifier { local } => (
                            TypeMapping {
                                original_module: Some(it.source_path.clone()),
                                original_name: OriginalName::Default,
                                local_name: local.clone(),
                                public_name: local.clone(),
                            },
                            local.clone(),
                        ),
                        ImportSpecifier::ImportNamespaceSpecifier { local } => (
                            TypeMapping {
                                original_module: Some(it.source_path.clone()),
                                original_name: OriginalName::Namespace,
                                local_name: local.clone(),
                                public_name: local.clone(),
                            },
                            local.clone(),
                        ),
                    };
                    proof {
                        assert(mapping@ == import_mapping_of(it.source_path@, svs[i as int]));
                        assert(local@ == import_mapping_of(it.source_path@, svs[i as int]).local_name);
                    }
                    self.type_mappings.insert(local, mapping);
                    i += 1;
                }
                proof {
                    assert(svs.take(svs.len() as int) =~= svs);
                }
            }
            None => {}
        }
    }

    /// Record one alias per export specifier, keyed by local name, last
    /// write winning.
    #[verifier::loop_isolation(false)]
    pub fn visit_export_named_declaration(&mut self, it: &ExportNamedDeclaration)
        requires
            old(self).wf(),
        ensures
            final(self).wf(),
            final(self).same_frame(*old(self)),
            final(self).types == old(self).types,
            final(self).type_mappings.pair_view_seq() == export_mappings_spec(
                old(self).type_mappings.pair_view_seq(),
                it.source_path.deep_view(),
                it.specifiers.deep_view(),
            ),
    {
        let ghost svs = it.specifiers.deep_view();
        let mut i: usize = 0;
        while i < it.specifiers.len()
            invariant
                0 <= i <= it.specifiers@.len(),
                svs == it.specifiers.deep_view(),
                svs.len() == it.specifiers@.len(),
                self.wf(),
                self.same_frame(*old(self)),
                self.types == old(self).types,
                self.type_mappings.pair_view_seq() == export_mappings_spec(
                    old(self).type_mappings.pair_view_seq(),
                    it.source_path.deep_view(),
                    svs.take(i as int),
                ),
            decreases it.specifiers@.len() - i,
        {
            proof {
                assert(svs.take(i + 1).drop_last() =~= svs.take(i as int));
                assert(svs.take(i + 1).last() == it.specifiers@[i as int].deep_view());
            }
            let spec_ref = &it.specifiers[i];
            let exported_name = spec_ref.exported.clone();
            let local_name = spec_ref.local.clone();
            let source_clone: Option<String> = match &it.source_path {
                Some(s) => Some(s.clone()),
                None => None,
            };
            let mapping = TypeMapping {
                original_module: source_clone,
                original_name: OriginalName::Named(local_name.clone()),
                local_name: local_name.clone(),
                public_name: exported_name,
            };
            proof {
                assert(mapping@ == export_mapping_of(it.source_path.deep_view(), svs[i as int]));
            }
            self.type_mappings.insert(local_name, mapping);
            i += 1;
        }
        proof {
            assert(svs.take(svs.len() as int) =~= svs);
        }
    }

    /// Lower a type alias declaration and store it under its name.
    pub fn visit_ts_type_alias_declaration(&mut self, it: &TSTypeAliasDeclaration)
        requires
            old(self).wf(),
        ensures
            final(self).wf(),
            final(self).same_frame(*old(self)),
            final(self).type_mappings == old(self).type_mappings,
            final(self).types.pair_view_seq() == pairs_upsert(
                old(self).types.pair_view_seq(),
                it.name@,
                lower_spec(ts_view(it.type_annotation)),
            ),
    {
        let rs_type = make_rs_type(&it.type_annotation);
        self.types.insert(it.name.clone(), rs_type);
    }

    /// Lower an interface-like declaration into a record; if no member
    /// yields a field, nothing is stored at all.
    #[verifier::loop_isolation(false)]
    pub fn visit_ts_interface_declaration(&mut self, it: &TSInterfaceDeclaration)
        requires
            old(self).wf(),
        ensures
            final(self).wf(),
            final(self).same_frame(*old(self)),
            final(self).type_mappings == old(self).type_mappings,
            ({
                let fields = interface_fields_spec(
                    signature_views(it.body@),
                    old(self).options.ignore_unimplemented,
                );
                if fields.len() == 0 {
                    final(self).types == old(self).types
                } else {
                    final(self).types.pair_view_seq() == pairs_upsert(
                        old(self).types.pair_view_seq(),
                        it.name@,
                        Ir::Record { fields },
                    )
                }
            }),
    {
        let mut fields: RSTypeMap = KeyedMap::new();
        proof {
            assert(fields.pair_view_seq() =~= Seq::<(Seq<char>, Ir)>::empty());
            assert(interface_fields_spec(
                signature_views(it.body@.take(0)),
                self.options.ignore_unimplemented,
            ) =~= Seq::<(Seq<char>, Ir)>::empty()) by {
                assert(signature_views(it.body@.take(0)) =~= Seq::<SrcSignature>::empty());
            }
        }
        let mut i: usize = 0;
        while i < it.body.len()
            invariant
                0 <= i <= it.body@.len(),
                fields.wf(),
                self == old(self),
                fields.pair_view_seq() == interface_fields_spec(
                    signature_views(it.body@.take(i as int)),
                    self.options.ignore_unimplemented,
                ),
            decreases it.body@.len() - i,
        {
            proof {
                lemma_signature_views_len(it.body@.take(i + 1));
                assert(signature_views(it.body@.take(i + 1)).drop_last() =~= signature_views(
                    it.body@.take(i as int),
                )) by {
                    assert(it.body@.take(i + 1).drop_last() =~= it.body@.take(i as int));
                }
                assert(signature_views(it.body@.take(i + 1)).last() == signature_view(
                    it.body@[i as int],
                )) by {
                    assert(it.body@.take(i + 1).last() == it.body@[i as int]);
                }
            }
            match &it.body[i] {
                TsSignature::TSPropertySignature { computed, optional, key_name, type_annotation } => {
                    if !*computed {
                        match key_name {
                            Some(field_name) => {
                                match type_annotation {
                                    Some(ts_type) => {
                                        let rs_type = make_rs_type(ts_type);
                                        let wrap = match &rs_type {
                                            RSType::Enum(e) => *optional || e.option,
                                            _ => *optional,
                                        };
                                        let rs_type = if wrap {
                                            make_optional(rs_type)
                                        } else {
                                            rs_type
                                        };
                                        proof {
                                            assert(rs_type@ == wrap_optional_spec(
                                                lower_spec(ts_view(*ts_type)),
                                                *optional,
                                            ));
                                        }
                                        let is_unsupported = match &rs_type {
                                            RSType::Unimplemented(_, _) => true,
                                            _ => false,
                                        };
                                        if self.options.ignore_unimplemented && is_unsupported {
                                            // dropped, not stored
                                        } else {
                                            fields.insert(field_name.clone(), rs_type);
                                        }
                                    }
                                    None => {}
                                }
                            }
                            None => {}
                        }
                    }
                }
                TsSignature::Other => {}
            }
            i += 1;
        }
        proof {
            assert(it.body@.take(it.body@.len() as int) =~= it.body@);
        }
        if fields.len() == 0 {
            proof {
                assert(interface_fields_spec(
                    signature_views(it.body@),
                    self.options.ignore_unimplemented,
                ) =~= Seq::<(Seq<char>, Ir)>::empty());
            }
            return ;
        }
        let record = RSType::Struct(RSStruct { fields });
        proof {
            lemma_field_views_is_pair_views(record->Struct_0.fields.entries@);
        }
        self.types.insert(it.name.clone(), record);
    }

    /// Run the whole statement list of a module, in order.
    #[verifier::loop_isolation(false)]
    pub fn visit_program(&mut self, program: &Program)
        requires
            old(self).wf(),
        ensures
            final(self).wf(),
            final(self).same_frame(*old(self)),
            ({
                let r = visit_items_spec(
                    old(self).types.pair_view_seq(),
                    old(self).type_mappings.pair_view_seq(),
                    item_views(program.body@),
                    old(self).options.ignore_unimplemented,
                );
                final(self).types.pair_view_seq() == r.0
                    && final(self).type_mappings.pair_view_seq() == r.1
            }),
    {
        let ghost t0 = self.types.pair_view_seq();
        let ghost m0 = self.type_mappings.pair_view_seq();
        let ghost ign = self.options.ignore_unimplemented;
        let mut i: usize = 0;
        while i < program.body.len()
            invariant
                0 <= i <= program.body@.len(),
                self.wf(),
                self.same_frame(*old(self)),
                ({
                    let r = visit_items_spec(t0, m0, item_views(program.body@.take(i as int)), ign);
                    self.types.pair_view_seq() == r.0 && self.type_mappings.pair_view_seq() == r.1
                }),
            decreases program.body@.len() - i,
        {
            proof {
                lemma_item_views_len(program.body@.take(i + 1));
                assert(item_views(program.body@.take(i + 1)).drop_last() =~= item_views(
                    program.body@.take(i as int),
                )) by {
                    assert(program.body@.take(i + 1).drop_last() =~= program.body@.take(i as int));
                }
                assert(item_views(program.body@.take(i + 1)).last() == item_view(
                    program.body@[i as int],
                )) by {
                    assert(program.body@.take(i + 1).last() == program.body@[i as int]);
                }
            }
            match &program.body[i] {
                ModuleItem::Import(d) => self.visit_import_declaration(d),
                ModuleItem::ExportNamed(d) => self.visit_export_named_declaration(d),
                ModuleItem::TypeAlias(d) => self.visit_ts_type_alias_declaration(d),
                ModuleItem::Interface(d) => self.visit_ts_interface_declaration(d),
            }
            i += 1;
        }
        proof {
            assert(program.body@.take(program.body@.len() as int) =~= program.body@);
        }
    }
}

impl Default for TypeScriptToRustVisitor {
    /// A visitor for no module at all: empty tables, default options.
    fn default() -> (r: Self)
        ensures
            r.wf(),
            r.path@ == Seq::<char>::empty(),
            r.source_text@ == Seq::<char>::empty(),
            r.options.ignore_unimplemented == true,
            r.types.pair_view_seq() == Seq::<(Seq<char>, Ir)>::empty(),
            r.type_mappings.pair_view_seq() == Seq::<(Seq<char>, SrcTypeMapping)>::empty(),
    {
        TypeScriptToRustVisitor::new(String::new(), String::new(), TypeScriptOptions::default())
    }
}

} // verus!
