use vstd::prelude::*;
use crate::ir::{
    Ir, IrLiteral, IrReference, RSEnum, RSEnumVariant, RSReference, RSStruct, RSType, RSTypeMap,
    ir_wf, ref_view, view_of, views_of, field_views_of, lemma_views_of_len, lemma_views_of_index,
    lemma_field_views_of_len, lemma_field_views_of_index, lemma_field_views_is_pair_views,
};
use crate::table::KeyedMap;
use crate::visitor::TypeScriptToRustVisitor;

verus! {

broadcast use {
    crate::ir::lemma_views_of_len,
    crate::ir::lemma_views_of_index,
    crate::ir::lemma_field_views_of_len,
    crate::ir::lemma_field_views_of_index,
};

// ---------------------------------------------------------------------------
// Reference resolution, on the model. Resolution consults only the key set
// of the module's own table: an alias record pointing into another module is
// deliberately not used here.
// ---------------------------------------------------------------------------

/// What one symbolic reference becomes: resolved to this module when its
/// name is a key of this module's table, otherwise left as it was.
pub open spec fn resolved_ref_spec(
    name: Seq<char>,
    module_specifier: Option<Seq<char>>,
    keys: Set<Seq<char>>,
    module: Seq<char>,
) -> IrReference {
    if keys.contains(name) {
        IrReference::Resolved { name, module }
    } else {
        IrReference::Unresolved { name, module_specifier }
    }
}

pub open spec fn resolve_seq_spec(ts: Seq<Ir>, keys: Set<Seq<char>>, module: Seq<char>) -> Seq<Ir>
    decreases ts,
{
    if ts.len() == 0 {
        Seq::empty()
    } else {
        resolve_seq_spec(ts.drop_last(), keys, module).push(
            resolve_spec(ts.last(), keys, module),
        )
    }
}

pub open spec fn resolve_fields_spec(
    fields: Seq<(Seq<char>, Ir)>,
    keys: Set<Seq<char>>,
    module: Seq<char>,
) -> Seq<(Seq<char>, Ir)>
    decreases fields,
{
    if fields.len() == 0 {
        Seq::empty()
    } else {
        resolve_fields_spec(fields.drop_last(), keys, module).push(
            (fields.last().0, resolve_spec(fields.last().1, keys, module)),
        )
    }
}

/// Rewrite every unresolved reference of the tree against the key set of
/// one module; all other nodes pass through, their children rewritten.
pub open spec fn resolve_spec(t: Ir, keys: Set<Seq<char>>, module: Seq<char>) -> Ir
    decreases t,
{
    match t {
        Ir::Reference(r) => match r {
            IrReference::Unresolved { name, module_specifier } => Ir::Reference(
                resolved_ref_spec(name, module_specifier, keys, module),
            ),
            IrReference::Resolved { .. } => Ir::Reference(r),
        },
        Ir::Container(inner) => Ir::Container(Box::new(resolve_spec(*inner, keys, module))),
        Ir::Optional(inner) => Ir::Optional(Box::new(resolve_spec(*inner, keys, module))),
        Ir::Choice { has_none, variants } => Ir::Choice {
            has_none,
            variants: resolve_seq_spec(variants, keys, module),
        },
        Ir::Record { fields } => Ir::Record { fields: resolve_fields_spec(fields, keys, module) },
        Ir::Literal(v) => match v {
            IrLiteral::Wrapped(inner) => Ir::Literal(
                IrLiteral::Wrapped(Box::new(resolve_spec(*inner, keys, module))),
            ),
            _ => Ir::Literal(v),
        },
        _ => t,
    }
}

pub open spec fn refs_of_seq(ts: Seq<Ir>, keys: Set<Seq<char>>, module: Seq<char>) -> Set<
    IrReference,
>
    decreases ts,
{
    if ts.len() == 0 {
        Set::empty()
    } else {
        refs_of_seq(ts.drop_last(), keys, module).union(refs_of(ts.last(), keys, module))
    }
}

pub open spec fn refs_of_fields(
    fields: Seq<(Seq<char>, Ir)>,
    keys: Set<Seq<char>>,
    module: Seq<char>,
) -> Set<IrReference>
    decreases fields,
{
    if fields.len() == 0 {
        Set::empty()
    } else {
        refs_of_fields(fields.drop_last(), keys, module).union(
            refs_of(fields.last().1, keys, module),
        )
    }
}

/// Every reference encountered while resolving the tree, in its rewritten
/// form: the reference graph of one declaration.
pub open spec fn refs_of(t: Ir, keys: Set<Seq<char>>, module: Seq<char>) -> Set<IrReference>
    decreases t,
{
    match t {
        Ir::Reference(r) => match r {
            IrReference::Unresolved { name, module_specifier } => Set::empty().insert(
                resolved_ref_spec(name, module_specifier, keys, module),
            ),
            IrReference::Resolved { .. } => Set::empty(),
        },
        Ir::Container(inner) => refs_of(*inner, keys, module),
        Ir::Optional(inner) => refs_of(*inner, keys, module),
        Ir::Choice { variants, .. } => refs_of_seq(variants, keys, module),
        Ir::Record { fields } => refs_of_fields(fields, keys, module),
        Ir::Literal(v) => match v {
            IrLiteral::Wrapped(inner) => refs_of(*inner, keys, module),
            _ => Set::empty(),
        },
        _ => Set::empty(),
    }
}

/// Resolution is same-module-only: a name that is not a key of the module's
/// own table stays unresolved, whatever alias records exist for it.
pub proof fn lemma_resolution_same_module_only(
    name: Seq<char>,
    module_specifier: Option<Seq<char>>,
    keys: Set<Seq<char>>,
    module: Seq<char>,
)
    requires
        !keys.contains(name),
    ensures
        resolve_spec(
            Ir::Reference(IrReference::Unresolved { name, module_specifier }),
            keys,
            module,
        ) == Ir::Reference(IrReference::Unresolved { name, module_specifier }),
{
}

proof fn lemma_resolve_seq_wf(ts: Seq<Ir>, keys: Set<Seq<char>>, module: Seq<char>)
    requires
        forall|i: int| 0 <= i < ts.len() ==> ir_wf(#[trigger] ts[i]),
    ensures
        resolve_seq_spec(ts, keys, module).len() == ts.len(),
        forall|i: int| 0 <= i < ts.len() ==> ir_wf(#[trigger] resolve_seq_spec(ts, keys, module)[i])
            && (resolve_seq_spec(ts, keys, module)[i] is Optional) == (ts[i] is Optional),
    decreases ts,
{
    if ts.len() > 0 {
        assert(forall|i: int| 0 <= i < ts.drop_last().len() ==> ir_wf(
            #[trigger] ts.drop_last()[i],
        ));
        lemma_resolve_seq_wf(ts.drop_last(), keys, module);
        lemma_resolve_preserves_well_formed(ts.last(), keys, module);
        let r = resolve_seq_spec(ts, keys, module);
        let pre = resolve_seq_spec(ts.drop_last(), keys, module);
        assert forall|i: int| 0 <= i < ts.len() implies ir_wf(#[trigger] r[i]) && (r[i]
            is Optional) == (ts[i] is Optional) by {
            if i < ts.len() - 1 {
                assert(r[i] == pre[i]);
                assert(ts.drop_last()[i] == ts[i]);
            } else {
                assert(r[i] == resolve_spec(ts.last(), keys, module));
            }
        }
    }
}

proof fn lemma_resolve_fields_wf(
    fields: Seq<(Seq<char>, Ir)>,
    keys: Set<Seq<char>>,
    module: Seq<char>,
)
    requires
        forall|i: int| 0 <= i < fields.len() ==> ir_wf((#[trigger] fields[i]).1),
    ensures
        resolve_fields_spec(fields, keys, module).len() == fields.len(),
        forall|i: int| 0 <= i < fields.len() ==> {
            let r = #[trigger] resolve_fields_spec(fields, keys, module)[i];
            r.0 == fields[i].0 && ir_wf(r.1)
        },
    decreases fields,
{
    if fields.len() > 0 {
        assert(forall|i: int| 0 <= i < fields.drop_last().len() ==> ir_wf(
            (#[trigger] fields.drop_last()[i]).1,
        ));
        lemma_resolve_fields_wf(fields.drop_last(), keys, module);
        lemma_resolve_preserves_well_formed(fields.last().1, keys, module);
        let r = resolve_fields_spec(fields, keys, module);
        let pre = resolve_fields_spec(fields.drop_last(), keys, module);
        assert forall|i: int| 0 <= i < fields.len() implies (#[trigger] r[i]).0 == fields[i].0
            && ir_wf(r[i].1) by {
            if i < fields.len() - 1 {
                assert(r[i] == pre[i]);
                assert(fields.drop_last()[i] == fields[i]);
            } else {
                assert(r[i] == (fields.last().0, resolve_spec(fields.last().1, keys, module)));
            }
        }
    }
}

/// Resolution preserves structural well-formedness, and never changes what
/// kind of node stands at any position.
pub proof fn lemma_resolve_preserves_well_formed(t: Ir, keys: Set<Seq<char>>, module: Seq<char>)
    requires
        ir_wf(t),
    ensures
        ir_wf(resolve_spec(t, keys, module)),
        (resolve_spec(t, keys, module) is Optional) == (t is Optional),
    decreases t,
{
    reveal_with_fuel(ir_wf, 3);
    match t {
        Ir::Container(inner) => {
            lemma_resolve_preserves_well_formed(*inner, keys, module);
        }
        Ir::Optional(inner) => {
            lemma_resolve_preserves_well_formed(*inner, keys, module);
        }
        Ir::Choice { variants, .. } => {
            lemma_resolve_seq_wf(variants, keys, module);
        }
        Ir::Record { fields } => {
            lemma_resolve_fields_wf(fields, keys, module);
            let r = resolve_fields_spec(fields, keys, module);
            assert forall|i: int, j: int| 0 <= i < j < r.len() implies (#[trigger] r[i]).0 != (
            #[trigger] r[j]).0 by {
                assert(r[i].0 == fields[i].0 && r[j].0 == fields[j].0);
            }
        }
        Ir::Literal(v) => {
            match v {
                IrLiteral::Wrapped(inner) => {
                    lemma_resolve_preserves_well_formed(*inner, keys, module);
                }
                _ => {}
            }
        }
        _ => {}
    }
}

/// Resolving a whole table keeps every declaration well formed.
pub proof fn lemma_table_resolution_preserves_well_formed(
    tbl: Seq<(Seq<char>, Ir)>,
    module: Seq<char>,
)
    requires
        forall|i: int| 0 <= i < tbl.len() ==> ir_wf((#[trigger] tbl[i]).1),
    ensures
        forall|i: int| 0 <= i < table_resolve_spec(tbl, module).len() ==> ir_wf(
            (#[trigger] table_resolve_spec(tbl, module)[i]).1,
        ),
{
    let r = table_resolve_spec(tbl, module);
    assert forall|i: int| 0 <= i < r.len() implies ir_wf((#[trigger] r[i]).1) by {
        lemma_resolve_preserves_well_formed(tbl[i].1, table_keys(tbl), module);
    }
}

proof fn lemma_union_empty(s: Set<IrReference>)
    ensures
        s.union(Set::<IrReference>::empty()) == s,
{
    assert(s.union(Set::<IrReference>::empty()) =~= s);
}

// ---------------------------------------------------------------------------
// The reference graph: the set of references the resolver has seen.
// ---------------------------------------------------------------------------

pub open spec fn refs_set_of(rs: Seq<RSReference>) -> Set<IrReference> {
    rs.map_values(|r: RSReference| ref_view(r)).to_set()
}

proof fn lemma_refs_set_push(s: Seq<RSReference>, x: RSReference)
    ensures
        refs_set_of(s.push(x)) == refs_set_of(s).insert(ref_view(x)),
{
    let ms = s.map_values(|y: RSReference| ref_view(y));
    let msp = s.push(x).map_values(|y: RSReference| ref_view(y));
    assert(msp =~= ms.push(ref_view(x)));
    assert forall|k: IrReference| msp.to_set().contains(k) implies refs_set_of(s).insert(
        ref_view(x),
    ).contains(k) by {
        let j = choose|j: int| 0 <= j < msp.len() && msp[j] == k;
        if j < ms.len() {
            assert(ms[j] == k);
            assert(ms.contains(k));
        }
    }
    assert forall|k: IrReference| refs_set_of(s).insert(ref_view(x)).contains(k) implies
        msp.to_set().contains(k) by {
        if k == ref_view(x) {
            assert(msp[ms.len() as int] == k);
            assert(msp.contains(k));
        } else {
            let j = choose|j: int| 0 <= j < ms.len() && ms[j] == k;
            assert(msp[j] == k);
            assert(msp.contains(k));
        }
    }
    assert(refs_set_of(s.push(x)) =~= refs_set_of(s).insert(ref_view(x)));
}

/// The set of all references encountered during resolution, each in its
/// resolved or still-unresolved form.
#[derive(Debug, PartialEq)]
pub struct ReferenceGraph {
    pub references: Vec<RSReference>,
}

impl View for ReferenceGraph {
    type V = Set<IrReference>;

    open spec fn view(&self) -> Set<IrReference> {
        refs_set_of(self.references@)
    }
}

/// Are these two references the same, fields and state included?
pub fn ref_eq(a: &RSReference, b: &RSReference) -> (r: bool)
    ensures
        r == (a@ == b@),
{
    match (a, b) {
        (
            RSReference::Unresolved { name: n1, module_specifier: m1 },
            RSReference::Unresolved { name: n2, module_specifier: m2 },
        ) => {
            let names_eq = *n1 == *n2;
            let specs_eq = match (m1, m2) {
                (Some(s1), Some(s2)) => *s1 == *s2,
                (None, None) => true,
                _ => false,
            };
            names_eq && specs_eq
        }
        (
            RSReference::Resolved { name: n1, module: p1 },
            RSReference::Resolved { name: n2, module: p2 },
        ) => *n1 == *n2 && *p1 == *p2,
        _ => false,
    }
}

/// A field-for-field copy of a reference.
pub fn ref_copy(a: &RSReference) -> (r: RSReference)
    ensures
        r@ == a@,
{
    match a {
        RSReference::Unresolved { name, module_specifier } => RSReference::Unresolved {
            name: name.clone(),
            module_specifier: match module_specifier {
                Some(s) => Some(s.clone()),
                None => None,
            },
        },
        RSReference::Resolved { name, module } => RSReference::Resolved {
            name: name.clone(),
            module: module.clone(),
        },
    }
}

impl ReferenceGraph {
    /// No reference is recorded twice.
    pub open spec fn wf(self) -> bool {
        forall|i: int, j: int|
            0 <= i < j < self.references@.len() ==> ref_view(#[trigger] self.references@[i])
                != ref_view(#[trigger] self.references@[j])
    }

    pub fn new() -> (r: Self)
        ensures
            r.wf(),
            r@ == Set::<IrReference>::empty(),
    {
        let r = ReferenceGraph { references: Vec::new() };
        proof {
            assert(r.references@.map_values(|x: RSReference| ref_view(x)) =~= Seq::empty());
            assert(r@ =~= Set::<IrReference>::empty());
        }
        r
    }

    /// Is a reference with this view already recorded?
    #[verifier::loop_isolation(false)]
    pub fn contains(&self, x: &RSReference) -> (r: bool)
        ensures
            r == self@.contains(x@),
    {
        let mut i: usize = 0;
        while i < self.references.len()
            invariant
                0 <= i <= self.references@.len(),
                forall|j: int| 0 <= j < i ==> ref_view(#[trigger] self.references@[j]) != x@,
            decreases self.references@.len() - i,
        {
            if ref_eq(&self.references[i], x) {
                proof {
                    let ms = self.references@.map_values(|y: RSReference| ref_view(y));
                    assert(ms[i as int] == x@);
                }
                return true;
            }
            i += 1;
        }
        proof {
            let ms = self.references@.map_values(|y: RSReference| ref_view(y));
            assert forall|k: IrReference| ms.to_set().contains(k) implies ms.contains(k) by {}
            if self@.contains(x@) {
                let j = choose|j: int| 0 <= j < ms.len() && ms[j] == x@;
                assert(ref_view(self.references@[j]) == x@);
            }
        }
        false
    }

    /// Record a reference; recording the same reference twice changes
    /// nothing.
    pub fn insert(&mut self, x: RSReference)
        ensures
            final(self)@ == old(self)@.insert(x@),
            old(self).wf() ==> final(self).wf(),
    {
        if self.contains(&x) {
            proof {
                assert(old(self)@.insert(x@) =~= old(self)@);
            }
        } else {
            let ghost o = self.references@;
            self.references.push(x);
            proof {
                lemma_refs_set_push(o, x);
                let ms = o.map_values(|y: RSReference| ref_view(y));
                assert forall|j: int| 0 <= j < o.len() implies ref_view(#[trigger] o[j]) != x@ by {
                    if ref_view(o[j]) == x@ {
                        assert(ms[j] == x@);
                        assert(ms.contains(x@));
                        assert(old(self)@.contains(x@));
                    }
                }
            }
        }
    }

    /// How many distinct references are recorded.
    pub fn len(&self) -> (r: usize)
        requires
            self.wf(),
        ensures
            r == self@.len(),
    {
        proof {
            let ms = self.references@.map_values(|y: RSReference| ref_view(y));
            assert(ms.no_duplicates());
            ms.unique_seq_to_set();
        }
        self.references.len()
    }

    /// Record everything the other graph holds.
    #[verifier::loop_isolation(false)]
    pub fn merge_from(&mut self, other: &ReferenceGraph)
        ensures
            final(self)@ == old(self)@.union(other@),
            old(self).wf() ==> final(self).wf(),
    {
        let mut i: usize = 0;
        while i < other.references.len()
            invariant
                0 <= i <= other.references@.len(),
                old(self).wf() ==> self.wf(),
                self@ == old(self)@.union(refs_set_of(other.references@.take(i as int))),
            decreases other.references@.len() - i,
        {
            let c = ref_copy(&other.references[i]);
            self.insert(c);
            proof {
                let pre = other.references@.take(i as int);
                let post = other.references@.take(i + 1);
                assert(post =~= pre.push(other.references@[i as int]));
                lemma_refs_set_push(pre, other.references@[i as int]);
                assert(self@ =~= old(self)@.union(refs_set_of(post)));
            }
            i += 1;
        }
        proof {
            assert(other.references@.take(other.references@.len() as int) =~= other.references@);
        }
    }
}

// ---------------------------------------------------------------------------
// The executable resolver.
// ---------------------------------------------------------------------------

/// Resolve one node against the key set of one module's table, recording
/// every reference encountered. Resolution produces a new tree; the node
/// kinds pass through unchanged apart from their references.
#[verifier::loop_isolation(false)]
pub fn resolve_type(
    rs_type: &RSType,
    types: &RSTypeMap,
    module: &String,
    references: &mut ReferenceGraph,
) -> (r: RSType)
    ensures
        r@ == resolve_spec(rs_type@, types.dom(), module@),
        final(references)@ == old(references)@.union(refs_of(rs_type@, types.dom(), module@)),
        old(references).wf() ==> final(references).wf(),
    decreases rs_type,
{
    let ghost keys = types.dom();
    match rs_type {
        RSType::Primitive(p) => {
            proof {
                lemma_union_empty(references@);
            }
            RSType::Primitive(*p)
        }
        RSType::Reference(reference) => {
            match reference {
                RSReference::Unresolved { name, module_specifier } => {
                    let new_ref = if types.contains_key(name) {
                        RSReference::Resolved { name: name.clone(), module: module.clone() }
                    } else {
                        RSReference::Unresolved {
                            name: name.clone(),
                            module_specifier: match module_specifier {
                                Some(s) => Some(s.clone()),
                                None => None,
                            },
                        }
                    };
                    proof {
                        assert(new_ref@ == resolved_ref_spec(
                            name@,
                            module_specifier.deep_view(),
                            keys,
                            module@,
                        ));
                    }
                    let recorded = ref_copy(&new_ref);
                    references.insert(recorded);
                    proof {
                        assert(old(references)@.insert(new_ref@) =~= old(references)@.union(
                            refs_of(rs_type@, keys, module@),
                        ));
                    }
                    RSType::Reference(new_ref)
                }
                RSReference::Resolved { .. } => {
                    proof {
                        lemma_union_empty(references@);
                    }
                    RSType::Reference(ref_copy(reference))
                }
            }
        }
        RSType::Enum(e) => {
            let mut resolved: Vec<RSType> = Vec::new();
            let mut i: usize = 0;
            while i < e.variants.len()
                invariant
                    0 <= i <= e.variants@.len(),
                    views_of(resolved@) == resolve_seq_spec(
                        views_of(e.variants@.take(i as int)),
                        keys,
                        module@,
                    ),
                    references@ == old(references)@.union(
                        refs_of_seq(views_of(e.variants@.take(i as int)), keys, module@),
                    ),
                    old(references).wf() ==> references.wf(),
                decreases e.variants@.len() - i,
            {
                proof {
                    assert(e.variants@.take(i + 1).drop_last() =~= e.variants@.take(i as int));
                    assert(views_of(e.variants@.take(i + 1)) == views_of(
                        e.variants@.take(i as int),
                    ).push(view_of(e.variants@[i as int])));
                    assert(views_of(e.variants@.take(i + 1)).drop_last() =~= views_of(
                        e.variants@.take(i as int),
                    ));
                    assert(views_of(e.variants@.take(i + 1)).last() == view_of(
                        e.variants@[i as int],
                    ));
                    assert(decreases_to!(*rs_type => rs_type->Enum_0));
                    assert(decreases_to!(rs_type->Enum_0 => rs_type->Enum_0.variants));
                    assert(decreases_to!(rs_type->Enum_0.variants =>
                        rs_type->Enum_0.variants@[i as int]));
                    assert(decreases_to!(*rs_type => e.variants@[i as int]));
                }
                let ghost pre_refs = references@;
                let ghost vs_old = resolved@;
                let child = resolve_type(&e.variants[i], types, module, references);
                resolved.push(child);
                proof {
                    assert(resolved@.drop_last() =~= vs_old);
                    assert(views_of(resolved@) == views_of(vs_old).push(view_of(child)));
                    assert(references@ =~= old(references)@.union(
                        refs_of_seq(views_of(e.variants@.take(i + 1)), keys, module@),
                    ));
                }
                i += 1;
            }
            proof {
                assert(e.variants@.take(e.variants@.len() as int) =~= e.variants@);
            }
            RSType::Enum(RSEnum { option: e.option, variants: resolved })
        }
        RSType::Struct(s) => {
            let entries = &s.fields.entries;
            let mut new_entries: Vec<(String, RSType)> = Vec::new();
            let mut i: usize = 0;
            while i < entries.len()
                invariant
                    0 <= i <= entries@.len(),
                    field_views_of(new_entries@) == resolve_fields_spec(
                        field_views_of(entries@.take(i as int)),
                        keys,
                        module@,
                    ),
                    references@ == old(references)@.union(
                        refs_of_fields(field_views_of(entries@.take(i as int)), keys, module@),
                    ),
                    old(references).wf() ==> references.wf(),
                decreases entries@.len() - i,
            {
                proof {
                    assert(entries@.take(i + 1).drop_last() =~= entries@.take(i as int));
                    assert(field_views_of(entries@.take(i + 1)) == field_views_of(
                        entries@.take(i as int),
                    ).push((entries@[i as int].0@, view_of(entries@[i as int].1))));
                    assert(field_views_of(entries@.take(i + 1)).drop_last() =~= field_views_of(
                        entries@.take(i as int),
                    ));
                    assert(field_views_of(entries@.take(i + 1)).last() == (
                        entries@[i as int].0@,
                        view_of(entries@[i as int].1),
                    ));
                    assert(decreases_to!(*rs_type => rs_type->Struct_0));
                    assert(decreases_to!(rs_type->Struct_0 => rs_type->Struct_0.fields));
                    assert(decreases_to!(rs_type->Struct_0.fields =>
                        rs_type->Struct_0.fields.entries));
                    assert(decreases_to!(rs_type->Struct_0.fields.entries =>
                        rs_type->Struct_0.fields.entries@[i as int]));
                    assert(decreases_to!(rs_type->Struct_0.fields.entries@[i as int] =>
                        rs_type->Struct_0.fields.entries@[i as int].1));
                    assert(decreases_to!(*rs_type => entries@[i as int].1));
                }
                let ghost fv_old = new_entries@;
                let pair = &entries[i];
                let child = resolve_type(&pair.1, types, module, references);
                new_entries.push((pair.0.clone(), child));
                proof {
                    assert(new_entries@.drop_last() =~= fv_old);
                    assert(field_views_of(new_entries@) == field_views_of(fv_old).push(
                        (pair.0@, view_of(child)),
                    ));
                    assert(references@ =~= old(references)@.union(
                        refs_of_fields(field_views_of(entries@.take(i + 1)), keys, module@),
                    ));
                }
                i += 1;
            }
            proof {
                assert(entries@.take(entries@.len() as int) =~= entries@);
            }
            let fields = KeyedMap { entries: new_entries };
            proof {
                lemma_field_views_is_pair_views(fields.entries@);
            }
            RSType::Struct(RSStruct { fields })
        }
        RSType::EnumVariant(v) => {
            match v {
                RSEnumVariant::RSType(inner) => {
                    proof {
                        assert(decreases_to!(*rs_type => rs_type->EnumVariant_0));
                        assert(decreases_to!(rs_type->EnumVariant_0 =>
                            rs_type->EnumVariant_0->RSType_0));
                        assert(decreases_to!(*rs_type => **inner));
                    }
                    let child = resolve_type(inner, types, module, references);
                    RSType::EnumVariant(RSEnumVariant::RSType(Box::new(child)))
                }
                RSEnumVariant::StringLiteral(s) => {
                    proof {
                        lemma_union_empty(references@);
                    }
                    RSType::EnumVariant(RSEnumVariant::StringLiteral(s.clone()))
                }
                RSEnumVariant::BooleanLiteral(b) => {
                    proof {
                        lemma_union_empty(references@);
                    }
                    RSType::EnumVariant(RSEnumVariant::BooleanLiteral(*b))
                }
                RSEnumVariant::NullLiteral => {
                    proof {
                        lemma_union_empty(references@);
                    }
                    RSType::EnumVariant(RSEnumVariant::NullLiteral)
                }
                RSEnumVariant::NumericLiteral(s) => {
                    proof {
                        lemma_union_empty(references@);
                    }
                    RSType::EnumVariant(RSEnumVariant::NumericLiteral(s.clone()))
                }
                RSEnumVariant::Unimplemented(c, s) => {
                    proof {
                        lemma_union_empty(references@);
                    }
                    RSType::EnumVariant(RSEnumVariant::Unimplemented(c.clone(), s.clone()))
                }
            }
        }
        RSType::Vec(inner) => {
            proof {
                assert(decreases_to!(*rs_type => rs_type->Vec_0));
            }
            let child = resolve_type(inner, types, module, references);
            RSType::Vec(Box::new(child))
        }
        RSType::Option(inner) => {
            proof {
                assert(decreases_to!(*rs_type => rs_type->Option_0));
            }
            let child = resolve_type(inner, types, module, references);
            RSType::Option(Box::new(child))
        }
        RSType::JSONValue => {
            proof {
                lemma_union_empty(references@);
            }
            RSType::JSONValue
        }
        RSType::NullOrUndefined => {
            proof {
                lemma_union_empty(references@);
            }
            RSType::NullOrUndefined
        }
        RSType::Unit => {
            proof {
                lemma_union_empty(references@);
            }
            RSType::Unit
        }
        RSType::Unimplemented(c, s) => {
            proof {
                lemma_union_empty(references@);
            }
            RSType::Unimplemented(c.clone(), s.clone())
        }
    }
}

// ---------------------------------------------------------------------------
// Resolution of a whole module table.
// ---------------------------------------------------------------------------

/// The keys of a module table, as a set.
pub open spec fn table_keys(tbl: Seq<(Seq<char>, Ir)>) -> Set<Seq<char>> {
    tbl.map_values(|p: (Seq<char>, Ir)| p.0).to_set()
}

pub proof fn lemma_dom_is_table_keys(m: RSTypeMap)
    ensures
        m.dom() == table_keys(m.pair_view_seq()),
{
    assert(m.key_seq() =~= m.pair_view_seq().map_values(|p: (Seq<char>, Ir)| p.0));
}

/// The table after resolution: every declaration rewritten against the
/// table's own key set, keys and order untouched.
pub open spec fn table_resolve_spec(tbl: Seq<(Seq<char>, Ir)>, module: Seq<char>) -> Seq<
    (Seq<char>, Ir),
> {
    Seq::new(tbl.len(), |i: int| (tbl[i].0, resolve_spec(tbl[i].1, table_keys(tbl), module)))
}

pub open spec fn refs_of_entries(
    tbl: Seq<(Seq<char>, Ir)>,
    keys: Set<Seq<char>>,
    module: Seq<char>,
) -> Set<IrReference>
    decreases tbl,
{
    if tbl.len() == 0 {
        Set::empty()
    } else {
        refs_of_entries(tbl.drop_last(), keys, module).union(
            refs_of(tbl.last().1, keys, module),
        )
    }
}

/// Every reference encountered while resolving a whole table.
pub open spec fn table_refs_spec(tbl: Seq<(Seq<char>, Ir)>, module: Seq<char>) -> Set<
    IrReference,
> {
    refs_of_entries(tbl, table_keys(tbl), module)
}

/// Resolve every declaration of one module table against the table itself,
/// writing each rewritten tree back only as a whole, and report every
/// reference encountered.
#[verifier::loop_isolation(false)]
pub fn resolve_references(types: &mut RSTypeMap, module: &String) -> (r: ReferenceGraph)
    requires
        old(types).wf(),
    ensures
        final(types).wf(),
        final(types).key_seq() == old(types).key_seq(),
        final(types).pair_view_seq() == table_resolve_spec(old(types).pair_view_seq(), module@),
        r.wf(),
        r@ == table_refs_spec(old(types).pair_view_seq(), module@),
{
    proof {
        lemma_dom_is_table_keys(*old(types));
    }
    let ghost tbl0 = old(types).pair_view_seq();
    let ghost keys = old(types).dom();
    let mut references = ReferenceGraph::new();
    let mut i: usize = 0;
    while i < types.len()
        invariant
            0 <= i <= tbl0.len(),
            types.wf(),
            types.spec_len() == tbl0.len(),
            types.key_seq() == old(types).key_seq(),
            types.dom() == keys,
            forall|j: int| 0 <= j < i ==> #[trigger] types.pair_view_seq()[j] == (
                tbl0[j].0,
                resolve_spec(tbl0[j].1, keys, module@),
            ),
            forall|j: int| i <= j < tbl0.len() ==> #[trigger] types.pair_view_seq()[j] == tbl0[j],
            references.wf(),
            references@ == refs_of_entries(tbl0.take(i as int), keys, module@),
        decreases tbl0.len() - i,
    {
        proof {
            assert(tbl0.take(i + 1).drop_last() =~= tbl0.take(i as int));
            assert(tbl0.take(i + 1).last() == tbl0[i as int]);
            assert(types.pair_view_seq()[i as int] == tbl0[i as int]);
            assert(view_of(types.entries@[i as int].1) == tbl0[i as int].1);
        }
        let resolved = resolve_type(types.value_at(i), types, module, &mut references);
        proof {
            assert(references@ =~= refs_of_entries(tbl0.take(i + 1), keys, module@));
        }
        types.set_value_at(i, resolved);
        i += 1;
    }
    proof {
        assert(tbl0.take(tbl0.len() as int) =~= tbl0);
        assert(types.pair_view_seq() =~= table_resolve_spec(tbl0, module@));
    }
    references
}

impl TypeScriptToRustVisitor {
    /// Resolve all symbolic references of this module against its own
    /// table, and report them.
    pub fn resolve_references(&mut self) -> (r: ReferenceGraph)
        requires
            old(self).wf(),
        ensures
            final(self).wf(),
            final(self).same_frame(*old(self)),
            final(self).type_mappings == old(self).type_mappings,
            final(self).types.pair_view_seq() == table_resolve_spec(
                old(self).types.pair_view_seq(),
                old(self).path@,
            ),
            r.wf(),
            r@ == table_refs_spec(old(self).types.pair_view_seq(), old(self).path@),
    {
        let path = self.path.clone();
        resolve_references(&mut self.types, &path)
    }
}

} // verus!
