use vstd::prelude::*;
use crate::ir::{
    Ir, IrLiteral, IrReference, RSEnum, RSEnumVariant, RSPrimitive, RSReference, RSType, ir_wf,
    view_of, views_of, lemma_views_of_len, lemma_views_of_index,
};
use crate::source_ast::{
    SrcLiteral, SrcTupleElement, SrcTy, TsLiteral, TsTupleElement, TsType, UnsupportedKind,
    UnsupportedLiteralKind, ts_view, ts_views, tuple_element_view,
    tuple_element_views, lemma_ts_views_len, lemma_ts_views_index, lemma_tuple_element_views_len,
    lemma_tuple_element_views_index,
};

verus! {

broadcast use {
    crate::ir::lemma_views_of_len,
    crate::ir::lemma_views_of_index,
    crate::source_ast::lemma_ts_views_len,
    crate::source_ast::lemma_ts_views_index,
    crate::source_ast::lemma_tuple_element_views_len,
    crate::source_ast::lemma_tuple_element_views_index,
};

// ---------------------------------------------------------------------------
// Union / option normalization, on the model.
// ---------------------------------------------------------------------------

/// Does this member of a union signal "none": the lowering of the null or
/// undefined keyword, a null literal, or the unit type?
pub open spec fn is_none_signal(t: Ir) -> bool {
    ||| t == Ir::NoneSignal
    ||| t == Ir::Literal(IrLiteral::NullLiteral)
    ||| t == Ir::Unit
}

/// The members that stay in the normalized union, in their original order,
/// duplicates kept.
pub open spec fn union_variants(members: Seq<Ir>) -> Seq<Ir>
    decreases members,
{
    if members.len() == 0 {
        Seq::empty()
    } else if is_none_signal(members.last()) {
        union_variants(members.drop_last())
    } else {
        union_variants(members.drop_last()).push(members.last())
    }
}

/// Was at least one none-signaling member removed?
pub open spec fn union_has_none(members: Seq<Ir>) -> bool
    decreases members,
{
    if members.len() == 0 {
        false
    } else {
        union_has_none(members.drop_last()) || is_none_signal(members.last())
    }
}

/// How many members signal "none"?
pub open spec fn count_none(members: Seq<Ir>) -> nat
    decreases members,
{
    if members.len() == 0 {
        0
    } else {
        count_none(members.drop_last()) + if is_none_signal(members.last()) {
            1nat
        } else {
            0nat
        }
    }
}

/// Normalization of a union: the none-signaling members are taken out and
/// recorded in `has_none`; the rest keep their order and multiplicity.
pub open spec fn union_spec(members: Seq<Ir>) -> Ir {
    Ir::Choice { has_none: union_has_none(members), variants: union_variants(members) }
}

/// Exactly three executable nodes view to a none signal.
proof fn lemma_none_signal_cases(t: RSType)
    ensures
        is_none_signal(view_of(t)) <==> (t == RSType::NullOrUndefined || t
            == RSType::EnumVariant(RSEnumVariant::NullLiteral) || t == RSType::Unit),
{
    match t {
        RSType::EnumVariant(v) => {
            match v {
                RSEnumVariant::RSType(_) => {}
                RSEnumVariant::StringLiteral(_) => {}
                RSEnumVariant::BooleanLiteral(_) => {}
                RSEnumVariant::NullLiteral => {}
                RSEnumVariant::NumericLiteral(_) => {}
                RSEnumVariant::Unimplemented(_, _) => {}
            }
        }
        _ => {}
    }
}

/// The member count of the normalized variants equals the input count minus
/// the number of none-signaling members.
pub proof fn lemma_union_member_count(members: Seq<Ir>)
    ensures
        union_variants(members).len() == members.len() - count_none(members),
        count_none(members) <= members.len(),
    decreases members,
{
    if members.len() > 0 {
        lemma_union_member_count(members.drop_last());
    }
}

/// `has_none` holds exactly when some member signals "none".
pub proof fn lemma_union_has_none_exists(members: Seq<Ir>)
    ensures
        union_has_none(members) <==> exists|i: int|
            0 <= i < members.len() && is_none_signal(#[trigger] members[i]),
    decreases members,
{
    if members.len() > 0 {
        lemma_union_has_none_exists(members.drop_last());
        if union_has_none(members.drop_last()) {
            let i = choose|i: int|
                0 <= i < members.drop_last().len() && is_none_signal(
                    #[trigger] members.drop_last()[i],
                );
            assert(members[i] == members.drop_last()[i]);
        }
        if is_none_signal(members.last()) {
            assert(is_none_signal(members[members.len() - 1]));
        }
        if exists|i: int| 0 <= i < members.len() && is_none_signal(#[trigger] members[i]) {
            let i = choose|i: int| 0 <= i < members.len() && is_none_signal(#[trigger] members[i]);
            if i < members.len() - 1 {
                assert(is_none_signal(members.drop_last()[i]));
            }
        }
    }
}

// ---------------------------------------------------------------------------
// Optional wrapping.
// ---------------------------------------------------------------------------

/// Optional never nests: wrapping an already-optional node leaves it as it
/// is.
pub open spec fn opt_spec(t: Ir) -> Ir {
    if t is Optional {
        t
    } else {
        Ir::Optional(Box::new(t))
    }
}

/// The law of optional flattening: wrapping twice is the same as wrapping
/// once, for every node.
pub proof fn lemma_optional_flattening(t: Ir)
    ensures
        opt_spec(opt_spec(t)) == opt_spec(t),
{
}

/// Wrap a node as optional, collapsing an already-optional node.
pub fn make_optional(t: RSType) -> (r: RSType)
    ensures
        r@ == opt_spec(t@),
{
    match t {
        RSType::Option(inner) => RSType::Option(inner),
        _ => RSType::Option(Box::new(t)),
    }
}

/// The optional-wrap decision for one interface field: wrap when the member
/// carries the optional mark, or when its lowered type is a union that had a
/// none-signaling member; an already-optional node is never wrapped twice.
pub open spec fn wrap_optional_spec(t: Ir, optional: bool) -> Ir {
    let wrap = match t {
        Ir::Choice { has_none, .. } => optional || has_none,
        _ => optional,
    };
    if wrap {
        opt_spec(t)
    } else {
        t
    }
}

// ---------------------------------------------------------------------------
// Names of unmodeled constructs.
// ---------------------------------------------------------------------------

pub open spec fn construct_name_spec(k: UnsupportedKind) -> Seq<char> {
    match k {
        UnsupportedKind::Intrinsic => "TSIntrinsicKeyword"@,
        UnsupportedKind::Conditional => "TSConditionalType"@,
        UnsupportedKind::Constructor => "TSConstructorType"@,
        UnsupportedKind::Function => "TSFunctionType"@,
        UnsupportedKind::Import => "TSImportType"@,
        UnsupportedKind::IndexedAccess => "TSIndexedAccessType"@,
        UnsupportedKind::Infer => "TSInferType"@,
        UnsupportedKind::Intersection => "TSIntersectionType"@,
        UnsupportedKind::QualifiedName => "TSQualifiedName"@,
        UnsupportedKind::TemplateLiteral => "TSTemplateLiteralType"@,
        UnsupportedKind::This => "TSThisType"@,
        UnsupportedKind::TypeOperator => "TSTypeOperator"@,
        UnsupportedKind::TypePredicate => "TSTypePredicate"@,
        UnsupportedKind::TypeQuery => "TSTypeQuery"@,
        UnsupportedKind::Parenthesized => "TSParenthesizedType"@,
        UnsupportedKind::JsDocNullable => "JSDocNullableType"@,
        UnsupportedKind::JsDocNonNullable => "JSDocNonNullableType"@,
        UnsupportedKind::JsDocUnknown => "JSDocUnknownType"@,
    }
}

/// The construct name recorded for an unmodeled type form.
pub fn construct_name(k: UnsupportedKind) -> (r: String)
    ensures
        r@ == construct_name_spec(k),
{
    match k {
        UnsupportedKind::Intrinsic => "TSIntrinsicKeyword".to_owned(),
        UnsupportedKind::Conditional => "TSConditionalType".to_owned(),
        UnsupportedKind::Constructor => "TSConstructorType".to_owned(),
        UnsupportedKind::Function => "TSFunctionType".to_owned(),
        UnsupportedKind::Import => "TSImportType".to_owned(),
        UnsupportedKind::IndexedAccess => "TSIndexedAccessType".to_owned(),
        UnsupportedKind::Infer => "TSInferType".to_owned(),
        UnsupportedKind::Intersection => "TSIntersectionType".to_owned(),
        UnsupportedKind::QualifiedName => "TSQualifiedName".to_owned(),
        UnsupportedKind::TemplateLiteral => "TSTemplateLiteralType".to_owned(),
        UnsupportedKind::This => "TSThisType".to_owned(),
        UnsupportedKind::TypeOperator => "TSTypeOperator".to_owned(),
        UnsupportedKind::TypePredicate => "TSTypePredicate".to_owned(),
        UnsupportedKind::TypeQuery => "TSTypeQuery".to_owned(),
        UnsupportedKind::Parenthesized => "TSParenthesizedType".to_owned(),
        UnsupportedKind::JsDocNullable => "JSDocNullableType".to_owned(),
        UnsupportedKind::JsDocNonNullable => "JSDocNonNullableType".to_owned(),
        UnsupportedKind::JsDocUnknown => "JSDocUnknownType".to_owned(),
    }
}

pub open spec fn literal_construct_name_spec(k: UnsupportedLiteralKind) -> Seq<char> {
    match k {
        UnsupportedLiteralKind::RegExp => "RegExpLiteral"@,
        UnsupportedLiteralKind::Template => "TemplateLiteral"@,
        UnsupportedLiteralKind::Unary => "UnaryExpression"@,
    }
}

/// The construct name recorded for an unmodeled literal form.
pub fn literal_construct_name(k: UnsupportedLiteralKind) -> (r: String)
    ensures
        r@ == literal_construct_name_spec(k),
{
    match k {
        UnsupportedLiteralKind::RegExp => "RegExpLiteral".to_owned(),
        UnsupportedLiteralKind::Template => "TemplateLiteral".to_owned(),
        UnsupportedLiteralKind::Unary => "UnaryExpression".to_owned(),
    }
}

// ---------------------------------------------------------------------------
// The lowering, on the model: every source node maps to some node of the
// representation, unmodeled forms to `Unsupported`.
// ---------------------------------------------------------------------------

pub open spec fn lower_literal_spec(l: SrcLiteral) -> Ir {
    match l {
        SrcLiteral::BooleanLiteral(b) => Ir::Literal(IrLiteral::BooleanLiteral(b)),
        SrcLiteral::NullLiteral => Ir::Literal(IrLiteral::NullLiteral),
        SrcLiteral::NumericLiteral(s) => Ir::Literal(IrLiteral::NumericLiteral(s)),
        SrcLiteral::BigIntLiteral(s) => Ir::Literal(IrLiteral::NumericLiteral(s)),
        SrcLiteral::StringLiteral(s) => Ir::Literal(IrLiteral::StringLiteral(s)),
        SrcLiteral::Unsupported(k, snippet) => Ir::Literal(
            IrLiteral::Unsupported { construct: literal_construct_name_spec(k), snippet },
        ),
    }
}

pub open spec fn lowers_spec(ts: Seq<SrcTy>) -> Seq<Ir>
    decreases ts,
{
    if ts.len() == 0 {
        Seq::empty()
    } else {
        lowers_spec(ts.drop_last()).push(lower_spec(ts.last()))
    }
}

/// The lowerings of the plain types among the tuple elements, in order;
/// optional and rest elements are passed over.
pub open spec fn lower_tuple_spec(es: Seq<SrcTupleElement>) -> Seq<Ir>
    decreases es,
{
    if es.len() == 0 {
        Seq::empty()
    } else {
        lower_tuple_spec(es.drop_last()) + match es.last() {
            SrcTupleElement::TSType(t) => seq![lower_spec(t)],
            _ => Seq::empty(),
        }
    }
}

pub open spec fn lower_spec(t: SrcTy) -> Ir
    decreases t,
{
    match t {
        SrcTy::AnyKeyword => Ir::DynamicValue,
        SrcTy::BigIntKeyword => Ir::Primitive(RSPrimitive::I128),
        SrcTy::BooleanKeyword => Ir::Primitive(RSPrimitive::Bool),
        SrcTy::NeverKeyword => Ir::Unit,
        SrcTy::NullKeyword => Ir::NoneSignal,
        SrcTy::NumberKeyword => Ir::Primitive(RSPrimitive::F64),
        SrcTy::ObjectKeyword => Ir::DynamicValue,
        SrcTy::StringKeyword => Ir::Primitive(RSPrimitive::String),
        SrcTy::SymbolKeyword => Ir::Primitive(RSPrimitive::String),
        SrcTy::UndefinedKeyword => Ir::NoneSignal,
        SrcTy::UnknownKeyword => Ir::DynamicValue,
        SrcTy::VoidKeyword => Ir::Unit,
        SrcTy::ArrayType(el) => Ir::Container(Box::new(lower_spec(*el))),
        SrcTy::LiteralType(l) => lower_literal_spec(l),
        SrcTy::MappedType => Ir::DynamicValue,
        SrcTy::NamedTupleMember(el) => Ir::Literal(IrLiteral::Wrapped(Box::new(lower_spec(*el)))),
        SrcTy::TupleType(es) => Ir::Container(Box::new(union_spec(lower_tuple_spec(es)))),
        SrcTy::TypeLiteral => Ir::DynamicValue,
        SrcTy::TypeReference { name, type_arguments } => match type_arguments {
            Option::Some(args) => union_spec(lowers_spec(args)),
            Option::None => Ir::Reference(
                IrReference::Unresolved { name, module_specifier: Option::None },
            ),
        },
        SrcTy::UnionType(ms) => union_spec(lowers_spec(ms)),
        SrcTy::Unsupported(k, snippet) => Ir::Unsupported {
            construct: construct_name_spec(k),
            snippet,
        },
    }
}

pub broadcast proof fn lemma_lowers_spec_len(ts: Seq<SrcTy>)
    ensures
        #[trigger] lowers_spec(ts).len() == ts.len(),
    decreases ts,
{
    if ts.len() > 0 {
        lemma_lowers_spec_len(ts.drop_last());
    }
}

pub broadcast proof fn lemma_lowers_spec_index(ts: Seq<SrcTy>, i: int)
    requires
        0 <= i < ts.len(),
    ensures
        #[trigger] lowers_spec(ts)[i] == lower_spec(ts[i]),
    decreases ts,
{
    lemma_lowers_spec_len(ts);
    if i < ts.len() - 1 {
        lemma_lowers_spec_index(ts.drop_last(), i);
        lemma_lowers_spec_len(ts.drop_last());
    }
}

/// An element-by-element lowered list is, as a whole, the lowering of the
/// list.
proof fn lemma_views_lowered(lowered: Seq<RSType>, args: Seq<TsType>)
    requires
        lowered.len() == args.len(),
        forall|j: int| 0 <= j < lowered.len() ==> view_of(#[trigger] lowered[j]) == lower_spec(
            ts_view(args[j]),
        ),
    ensures
        views_of(lowered) == lowers_spec(ts_views(args)),
{
    lemma_views_of_len(lowered);
    lemma_ts_views_len(args);
    lemma_lowers_spec_len(ts_views(args));
    assert forall|j: int| 0 <= j < views_of(lowered).len() implies views_of(lowered)[j]
        == lowers_spec(ts_views(args))[j] by {
        lemma_views_of_index(lowered, j);
        lemma_ts_views_index(args, j);
        lemma_lowers_spec_index(ts_views(args), j);
    }
    assert(views_of(lowered) =~= lowers_spec(ts_views(args)));
}

// ---------------------------------------------------------------------------
// Well-formedness of the lowered forest: the engine never produces a nested
// Optional, and a Choice holds only well-formed variants.
// ---------------------------------------------------------------------------

proof fn lemma_union_variants_wf(ms: Seq<Ir>)
    requires
        forall|j: int| 0 <= j < ms.len() ==> ir_wf(#[trigger] ms[j]),
    ensures
        forall|i: int| 0 <= i < union_variants(ms).len() ==> ir_wf(
            #[trigger] union_variants(ms)[i],
        ),
    decreases ms,
{
    if ms.len() > 0 {
        assert(forall|j: int| 0 <= j < ms.drop_last().len() ==> ir_wf(
            #[trigger] ms.drop_last()[j],
        ));
        lemma_union_variants_wf(ms.drop_last());
        let uv = union_variants(ms);
        let pre = union_variants(ms.drop_last());
        assert forall|i: int| 0 <= i < uv.len() implies ir_wf(#[trigger] uv[i]) by {
            if is_none_signal(ms.last()) {
                assert(uv[i] == pre[i]);
            } else {
                if i < pre.len() {
                    assert(uv[i] == pre[i]);
                } else {
                    assert(uv[i] == ms.last());
                    assert(ir_wf(ms[ms.len() - 1]));
                }
            }
        }
    }
}

proof fn lemma_lowers_wf(ts: Seq<SrcTy>)
    ensures
        forall|i: int| 0 <= i < lowers_spec(ts).len() ==> ir_wf(#[trigger] lowers_spec(ts)[i]),
    decreases ts,
{
    if ts.len() > 0 {
        lemma_lowers_wf(ts.drop_last());
        lemma_lower_well_formed(ts.last());
        let ls = lowers_spec(ts);
        let pre = lowers_spec(ts.drop_last());
        assert forall|i: int| 0 <= i < ls.len() implies ir_wf(#[trigger] ls[i]) by {
            if i < pre.len() {
                assert(ls[i] == pre[i]);
            } else {
                assert(ls[i] == lower_spec(ts.last()));
            }
        }
    }
}

proof fn lemma_lower_tuple_wf(es: Seq<SrcTupleElement>)
    ensures
        forall|i: int| 0 <= i < lower_tuple_spec(es).len() ==> ir_wf(
            #[trigger] lower_tuple_spec(es)[i],
        ),
    decreases es,
{
    if es.len() > 0 {
        lemma_lower_tuple_wf(es.drop_last());
        let ls = lower_tuple_spec(es);
        let pre = lower_tuple_spec(es.drop_last());
        match es.last() {
            SrcTupleElement::TSType(t) => {
                lemma_lower_well_formed(t);
                assert forall|i: int| 0 <= i < ls.len() implies ir_wf(#[trigger] ls[i]) by {
                    if i < pre.len() {
                        assert(ls[i] == pre[i]);
                    } else {
                        assert(ls[i] == lower_spec(t));
                    }
                }
            }
            _ => {
                assert forall|i: int| 0 <= i < ls.len() implies ir_wf(#[trigger] ls[i]) by {
                    assert(ls[i] == pre[i]);
                }
            }
        }
    }
}

/// Everything the lowering engine returns is structurally well formed: it
/// never nests an Optional and never builds an empty Record.
pub proof fn lemma_lower_well_formed(t: SrcTy)
    ensures
        ir_wf(lower_spec(t)),
    decreases t,
{
    reveal_with_fuel(ir_wf, 3);
    match t {
        SrcTy::ArrayType(el) => {
            lemma_lower_well_formed(*el);
        }
        SrcTy::LiteralType(l) => {
            match l {
                SrcLiteral::BooleanLiteral(_) => {}
                SrcLiteral::NullLiteral => {}
                SrcLiteral::NumericLiteral(_) => {}
                SrcLiteral::BigIntLiteral(_) => {}
                SrcLiteral::StringLiteral(_) => {}
                SrcLiteral::Unsupported(_, _) => {}
            }
        }
        SrcTy::NamedTupleMember(el) => {
            lemma_lower_well_formed(*el);
        }
        SrcTy::TupleType(es) => {
            lemma_lower_tuple_wf(es);
            lemma_union_variants_wf(lower_tuple_spec(es));
        }
        SrcTy::TypeReference { type_arguments, .. } => {
            match type_arguments {
                Option::Some(args) => {
                    lemma_lowers_wf(args);
                    lemma_union_variants_wf(lowers_spec(args));
                }
                Option::None => {}
            }
        }
        SrcTy::UnionType(ms) => {
            lemma_lowers_wf(ms);
            lemma_union_variants_wf(lowers_spec(ms));
        }
        _ => {}
    }
}

/// Optional-wrapping keeps a well-formed node well formed.
pub proof fn lemma_wrap_optional_well_formed(t: Ir, optional: bool)
    requires
        ir_wf(t),
    ensures
        ir_wf(wrap_optional_spec(t, optional)),
{
}

// ---------------------------------------------------------------------------
// The executable lowering engine.
// ---------------------------------------------------------------------------

/// Normalize an already-lowered union member list: none-signaling members
/// are taken out and recorded in the `option` flag; the rest keep their
/// order, duplicates included.
#[verifier::loop_isolation(false)]
pub fn make_union_or_option_type(types: Vec<RSType>) -> (r: RSType)
    ensures
        r@ == union_spec(views_of(types@)),
{
    let ghost orig: Seq<RSType> = types@;
    let mut rest = types;
    let mut option = false;
    let mut variants: Vec<RSType> = Vec::new();
    let ghost mut k: int = 0;
    while rest.len() > 0
        invariant
            0 <= k <= orig.len(),
            rest@ == orig.subrange(k, orig.len() as int),
            views_of(variants@) == union_variants(views_of(orig.take(k))),
            option == union_has_none(views_of(orig.take(k))),
        decreases rest@.len(),
    {
        let t = rest.remove(0);
        proof {
            assert(t == orig[k]);
            lemma_none_signal_cases(t);
            k = k + 1;
            assert(rest@ =~= orig.subrange(k, orig.len() as int));
            assert(orig.take(k).drop_last() =~= orig.take(k - 1));
            assert(orig.take(k).last() == orig[k - 1]);
            assert(views_of(orig.take(k)) == views_of(orig.take(k - 1)).push(
                view_of(orig[k - 1]),
            ));
            assert(views_of(orig.take(k)).drop_last() =~= views_of(orig.take(k - 1)));
            assert(views_of(orig.take(k)).last() == view_of(orig[k - 1]));
        }
        match t {
            RSType::NullOrUndefined => {
                option = true;
            }
            RSType::EnumVariant(RSEnumVariant::NullLiteral) => {
                option = true;
            }
            RSType::Unit => {
                option = true;
            }
            _ => {
                let ghost vs_old = variants@;
                variants.push(t);
                proof {
                    assert(!is_none_signal(view_of(t)));
                    assert(variants@.drop_last() =~= vs_old);
                    assert(variants@.last() == t);
                    assert(views_of(variants@) == views_of(vs_old).push(view_of(t)));
                }
            }
        }
    }
    proof {
        assert(orig.take(k) =~= orig);
    }
    RSType::Enum(RSEnum { option, variants })
}

/// Lower one literal type.
pub fn lower_literal(l: &TsLiteral) -> (r: RSType)
    ensures
        r@ == lower_literal_spec(l@),
{
    match l {
        TsLiteral::BooleanLiteral(b) => RSType::EnumVariant(RSEnumVariant::BooleanLiteral(*b)),
        TsLiteral::NullLiteral => RSType::EnumVariant(RSEnumVariant::NullLiteral),
        TsLiteral::NumericLiteral(s) => RSType::EnumVariant(
            RSEnumVariant::NumericLiteral(s.clone()),
        ),
        TsLiteral::BigIntLiteral(s) => RSType::EnumVariant(RSEnumVariant::NumericLiteral(s.clone())),
        TsLiteral::StringLiteral(s) => RSType::EnumVariant(RSEnumVariant::StringLiteral(s.clone())),
        TsLiteral::Unsupported(k, s) => RSType::EnumVariant(
            RSEnumVariant::Unimplemented(literal_construct_name(*k), s.clone()),
        ),
    }
}

/// Lower every node of a list, in order.
#[verifier::loop_isolation(false)]
pub fn make_rs_types(types: &Vec<TsType>) -> (r: Vec<RSType>)
    ensures
        r@.len() == types@.len(),
        forall|j: int| 0 <= j < r@.len() ==> view_of(#[trigger] r@[j]) == lower_spec(
            ts_view(types@[j]),
        ),
    decreases types,
{
    let mut out: Vec<RSType> = Vec::new();
    let mut i: usize = 0;
    while i < types.len()
        invariant
            0 <= i <= types@.len(),
            out@.len() == i,
            forall|j: int| 0 <= j < i ==> view_of(#[trigger] out@[j]) == lower_spec(
                ts_view(types@[j]),
            ),
        decreases types@.len() - i,
    {
        proof {
            assert(decreases_to!(*types => types@[i as int]));
        }
        let lowered = make_rs_type(&types[i]);
        out.push(lowered);
        i += 1;
    }
    out
}

/// Lower one source type node. Total: every node maps to some node of the
/// representation, unmodeled forms to `Unsupported` placeholders.
#[verifier::loop_isolation(false)]
pub fn make_rs_type(ts_type: &TsType) -> (r: RSType)
    ensures
        r@ == lower_spec(ts_type@),
    decreases ts_type,
{
    match ts_type {
        TsType::TSAnyKeyword => RSType::JSONValue,
        TsType::TSBigIntKeyword => RSType::Primitive(RSPrimitive::I128),
        TsType::TSBooleanKeyword => RSType::Primitive(RSPrimitive::Bool),
        TsType::TSNeverKeyword => RSType::Unit,
        TsType::TSNullKeyword => RSType::NullOrUndefined,
        TsType::TSNumberKeyword => RSType::Primitive(RSPrimitive::F64),
        TsType::TSObjectKeyword => RSType::JSONValue,
        TsType::TSStringKeyword => RSType::Primitive(RSPrimitive::String),
        TsType::TSSymbolKeyword => RSType::Primitive(RSPrimitive::String),
        TsType::TSUndefinedKeyword => RSType::NullOrUndefined,
        TsType::TSUnknownKeyword => RSType::JSONValue,
        TsType::TSVoidKeyword => RSType::Unit,
        TsType::TSArrayType(element) => {
            proof {
                assert(decreases_to!(*ts_type => ts_type->TSArrayType_0));
            }
            let element_type = make_rs_type(element);
            RSType::Vec(Box::new(element_type))
        }
        TsType::TSLiteralType(l) => lower_literal(l),
        TsType::TSMappedType => RSType::JSONValue,
        TsType::TSNamedTupleMember(element) => {
            proof {
                assert(decreases_to!(*ts_type => ts_type->TSNamedTupleMember_0));
            }
            let element_type = make_rs_type(element);
            RSType::EnumVariant(RSEnumVariant::RSType(Box::new(element_type)))
        }
        TsType::TSTupleType(elements) => {
            let mut kept: Vec<RSType> = Vec::new();
            let mut i: usize = 0;
            while i < elements.len()
                invariant
                    0 <= i <= elements@.len(),
                    views_of(kept@) == lower_tuple_spec(
                        tuple_element_views(elements@.take(i as int)),
                    ),
                decreases elements@.len() - i,
            {
                proof {
                    assert(elements@.take(i + 1).drop_last() =~= elements@.take(i as int));
                    assert(tuple_element_views(elements@.take(i + 1)) == tuple_element_views(
                        elements@.take(i as int),
                    ).push(tuple_element_view(elements@[i as int])));
                    assert(tuple_element_views(elements@.take(i + 1)).drop_last()
                        =~= tuple_element_views(elements@.take(i as int)));
                }
                let ghost evs = tuple_element_views(elements@.take(i + 1));
                match &elements[i] {
                    TsTupleElement::TSType(t) => {
                        proof {
                            assert(decreases_to!(*ts_type => ts_type->TSTupleType_0));
                            assert(decreases_to!(ts_type->TSTupleType_0 => elements@[i as int]));
                            assert(decreases_to!(elements@[i as int] =>
                                elements@[i as int]->TSType_0));
                            assert(decreases_to!(*ts_type => elements@[i as int]->TSType_0));
                        }
                        let lowered = make_rs_type(t);
                        kept.push(lowered);
                        proof {
                            assert(lower_tuple_spec(evs) == lower_tuple_spec(evs.drop_last())
                                + seq![lower_spec(ts_view(*t))]);
                            assert(views_of(kept@).drop_last() =~= views_of(kept@.drop_last()));
                            assert(views_of(kept@) =~= lower_tuple_spec(evs));
                        }
                    }
                    _ => {
                        proof {
                            assert(lower_tuple_spec(evs) =~= lower_tuple_spec(evs.drop_last()));
                        }
                    }
                }
                i += 1;
            }
            proof {
                assert(elements@.take(elements@.len() as int) =~= elements@);
            }
            RSType::Vec(Box::new(make_union_or_option_type(kept)))
        }
        TsType::TSTypeLiteral => RSType::JSONValue,
        TsType::TSTypeReference { name, type_arguments } => {
            match type_arguments {
                Some(args) => {
                    proof {
                        assert(decreases_to!(*ts_type =>
                            ts_type->TSTypeReference_type_arguments));
                        assert(decreases_to!(ts_type->TSTypeReference_type_arguments =>
                            ts_type->TSTypeReference_type_arguments->Some_0));
                        assert(decreases_to!(*ts_type => *args));
                    }
                    let lowered = make_rs_types(args);
                    proof {
                        lemma_views_lowered(lowered@, args@);
                    }
                    make_union_or_option_type(lowered)
                }
                None => RSType::Reference(
                    RSReference::Unresolved { name: name.clone(), module_specifier: None },
                ),
            }
        }
        TsType::TSUnionType(members) => {
            proof {
                assert(decreases_to!(*ts_type => ts_type->TSUnionType_0));
            }
            let lowered = make_rs_types(members);
            proof {
                lemma_views_lowered(lowered@, members@);
            }
            make_union_or_option_type(lowered)
        }
        TsType::Unsupported(k, snippet) => RSType::Unimplemented(
            construct_name(*k),
            snippet.clone(),
        ),
    }
}

} // verus!
