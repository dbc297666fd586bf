use vstd::prelude::*;
use vstd::string::StringExecFns;
use crate::table::KeyedMap;

verus! {

// ---------------------------------------------------------------------------
// The mathematical model of the intermediate representation: the type algebra
// that contracts and proofs speak about. Exec values are related to it by
// `view_of` below.
// ---------------------------------------------------------------------------

/// A named pointer to another declaration, either still symbolic or resolved
/// to the module that defines it.
pub enum IrReference {
    Unresolved { name: Seq<char>, module_specifier: Option<Seq<char>> },
    Resolved { name: Seq<char>, module: Seq<char> },
}

/// A literal type, or the literal-position wrapper around a full node.
pub enum IrLiteral {
    BooleanLiteral(bool),
    StringLiteral(Seq<char>),
    NumericLiteral(Seq<char>),
    NullLiteral,
    Wrapped(Box<Ir>),
    Unsupported { construct: Seq<char>, snippet: Seq<char> },
}

/// The intermediate type representation.
pub enum Ir {
    Primitive(RSPrimitive),
    Reference(IrReference),
    /// The normalized form of a union: the none-signaling members are removed
    /// and recorded in `has_none`.
    Choice { has_none: bool, variants: Seq<Ir> },
    Record { fields: Seq<(Seq<char>, Ir)> },
    Literal(IrLiteral),
    Container(Box<Ir>),
    Optional(Box<Ir>),
    DynamicValue,
    /// The lowering of the null and undefined keywords: a bare "none" signal,
    /// meaningful only as input to union normalization.
    NoneSignal,
    Unit,
    Unsupported { construct: Seq<char>, snippet: Seq<char> },
}

// ---------------------------------------------------------------------------
// Executable representation.
// ---------------------------------------------------------------------------

#[derive(Debug, Clone, Copy, PartialEq, Eq, Structural)]
pub enum RSPrimitive {
    String,
    I32,
    I128,
    Bool,
    F64,
}

#[derive(Debug, PartialEq)]
pub enum RSEnumVariant {
    RSType(Box<RSType>),
    StringLiteral(String),
    BooleanLiteral(bool),
    NullLiteral,
    NumericLiteral(String),
    Unimplemented(String, String),
}

#[derive(Debug, PartialEq, Eq, Hash)]
pub enum RSReference {
    Unresolved { name: String, module_specifier: Option<String> },
    Resolved { name: String, module: String },
}

#[derive(Debug, PartialEq)]
pub struct RSEnum {
    pub option: bool,
    pub variants: Vec<RSType>,
}

#[derive(Debug, PartialEq)]
pub struct RSStruct {
    pub fields: RSTypeMap,
}

#[derive(Debug, PartialEq)]
pub enum RSType {
    Primitive(RSPrimitive),
    Reference(RSReference),
    Enum(RSEnum),
    Struct(RSStruct),
    EnumVariant(RSEnumVariant),
    Vec(Box<RSType>),
    Option(Box<RSType>),
    JSONValue,
    NullOrUndefined,
    Unit,
    Unimplemented(String, String),
}

/// The per-module symbol table: declaration name to lowered node.
pub type RSTypeMap = KeyedMap<RSType>;

// ---------------------------------------------------------------------------
// Views from the executable representation into the model.
// ---------------------------------------------------------------------------

pub open spec fn ref_view(r: RSReference) -> IrReference {
    match r {
        RSReference::Unresolved { name, module_specifier } => IrReference::Unresolved {
            name: name@,
            module_specifier: module_specifier.deep_view(),
        },
        RSReference::Resolved { name, module } => IrReference::Resolved {
            name: name@,
            module: module@,
        },
    }
}

pub open spec fn views_of(ts: Seq<RSType>) -> Seq<Ir>
    decreases ts,
{
    if ts.len() == 0 {
        Seq::empty()
    } else {
        views_of(ts.drop_last()).push(view_of(ts.last()))
    }
}

pub open spec fn field_views_of(ps: Seq<(String, RSType)>) -> Seq<(Seq<char>, Ir)>
    decreases ps,
{
    if ps.len() == 0 {
        Seq::empty()
    } else {
        field_views_of(ps.drop_last()).push((ps.last().0@, view_of(ps.last().1)))
    }
}

pub broadcast proof fn lemma_views_of_len(ts: Seq<RSType>)
    ensures
        #[trigger] views_of(ts).len() == ts.len(),
    decreases ts,
{
    if ts.len() > 0 {
        lemma_views_of_len(ts.drop_last());
    }
}

pub broadcast proof fn lemma_views_of_index(ts: Seq<RSType>, i: int)
    requires
        0 <= i < ts.len(),
    ensures
        #[trigger] views_of(ts)[i] == view_of(ts[i]),
    decreases ts,
{
    lemma_views_of_len(ts);
    if i < ts.len() - 1 {
        lemma_views_of_index(ts.drop_last(), i);
        lemma_views_of_len(ts.drop_last());
    }
}

/// The view of a field table is exactly the list of its entry views.
pub proof fn lemma_field_views_is_pair_views(es: Seq<(String, RSType)>)
    ensures
        field_views_of(es) == es.map_values(|p: (String, RSType)| (p.0@, p.1@)),
    decreases es,
{
    if es.len() > 0 {
        lemma_field_views_is_pair_views(es.drop_last());
        assert(es.drop_last().map_values(|p: (String, RSType)| (p.0@, p.1@)).push(
            (es.last().0@, view_of(es.last().1)),
        ) =~= es.map_values(|p: (String, RSType)| (p.0@, p.1@)));
    } else {
        assert(es.map_values(|p: (String, RSType)| (p.0@, p.1@)) =~= Seq::empty());
    }
}

pub broadcast proof fn lemma_field_views_of_len(ps: Seq<(String, RSType)>)
    ensures
        #[trigger] field_views_of(ps).len() == ps.len(),
    decreases ps,
{
    if ps.len() > 0 {
        lemma_field_views_of_len(ps.drop_last());
    }
}

pub broadcast proof fn lemma_field_views_of_index(ps: Seq<(String, RSType)>, i: int)
    requires
        0 <= i < ps.len(),
    ensures
        #[trigger] field_views_of(ps)[i] == (ps[i].0@, view_of(ps[i].1)),
    decreases ps,
{
    lemma_field_views_of_len(ps);
    if i < ps.len() - 1 {
        lemma_field_views_of_index(ps.drop_last(), i);
        lemma_field_views_of_len(ps.drop_last());
    }
}

pub open spec fn view_of(t: RSType) -> Ir
    decreases t,
{
    match t {
        RSType::Primitive(p) => Ir::Primitive(p),
        RSType::Reference(r) => Ir::Reference(ref_view(r)),
        RSType::Enum(e) => Ir::Choice { has_none: e.option, variants: views_of(e.variants@) },
        RSType::Struct(s) => Ir::Record { fields: field_views_of(s.fields.entries@) },
        RSType::EnumVariant(v) => Ir::Literal(
            match v {
                RSEnumVariant::RSType(inner) => IrLiteral::Wrapped(Box::new(view_of(*inner))),
                RSEnumVariant::StringLiteral(s) => IrLiteral::StringLiteral(s@),
                RSEnumVariant::BooleanLiteral(b) => IrLiteral::BooleanLiteral(b),
                RSEnumVariant::NullLiteral => IrLiteral::NullLiteral,
                RSEnumVariant::NumericLiteral(s) => IrLiteral::NumericLiteral(s@),
                RSEnumVariant::Unimplemented(c, s) => IrLiteral::Unsupported {
                    construct: c@,
                    snippet: s@,
                },
            },
        ),
        RSType::Vec(inner) => Ir::Container(Box::new(view_of(*inner))),
        RSType::Option(inner) => Ir::Optional(Box::new(view_of(*inner))),
        RSType::JSONValue => Ir::DynamicValue,
        RSType::NullOrUndefined => Ir::NoneSignal,
        RSType::Unit => Ir::Unit,
        RSType::Unimplemented(c, s) => Ir::Unsupported { construct: c@, snippet: s@ },
    }
}

impl View for RSType {
    type V = Ir;

    open spec fn view(&self) -> Ir {
        view_of(*self)
    }
}

impl View for RSReference {
    type V = IrReference;

    open spec fn view(&self) -> IrReference {
        ref_view(*self)
    }
}

// ---------------------------------------------------------------------------
// Structural well-formedness: no nested Optional, no empty or ambiguous
// Record. The lowering engine only hands over well-formed forests.
// ---------------------------------------------------------------------------

pub open spec fn ir_wf(t: Ir) -> bool
    decreases t,
{
    match t {
        Ir::Optional(inner) => !(*inner is Optional) && ir_wf(*inner),
        Ir::Container(inner) => ir_wf(*inner),
        Ir::Choice { variants, .. } => forall|i: int|
            0 <= i < variants.len() ==> ir_wf(#[trigger] variants[i]),
        Ir::Record { fields } => {
            &&& fields.len() > 0
            &&& forall|i: int, j: int|
                0 <= i < j < fields.len() ==> (#[trigger] fields[i]).0 != (#[trigger] fields[j]).0
            &&& forall|i: int| 0 <= i < fields.len() ==> ir_wf((#[trigger] fields[i]).1)
        },
        Ir::Literal(v) => match v {
            IrLiteral::Wrapped(inner) => ir_wf(*inner),
            _ => true,
        },
        _ => true,
    }
}

// ---------------------------------------------------------------------------
// Compact display names.
// ---------------------------------------------------------------------------

impl RSPrimitive {
    pub open spec fn name_spec(self) -> Seq<char> {
        match self {
            RSPrimitive::String => "String"@,
            RSPrimitive::I32 => "i32"@,
            RSPrimitive::I128 => "i128"@,
            RSPrimitive::Bool => "bool"@,
            RSPrimitive::F64 => "f64"@,
        }
    }

    /// The target-language spelling of the primitive.
    pub fn name(&self) -> (r: String)
        ensures
            r@ == self.name_spec(),
    {
        match self {
            RSPrimitive::String => "String".to_owned(),
            RSPrimitive::I32 => "i32".to_owned(),
            RSPrimitive::I128 => "i128".to_owned(),
            RSPrimitive::Bool => "bool".to_owned(),
            RSPrimitive::F64 => "f64".to_owned(),
        }
    }
}

impl RSType {
    pub open spec fn name_spec(self) -> Seq<char>
        decreases self,
    {
        match self {
            RSType::Primitive(p) => p.name_spec(),
            RSType::Reference(r) => match r {
                RSReference::Unresolved { name, .. } => "REF<"@ + name@ + ">"@,
                RSReference::Resolved { name, module } => "REF<"@ + name@ + "@"@
                    + module@ + ">"@,
            },
            RSType::Enum(_) => "Enum"@,
            RSType::Struct(_) => "Struct"@,
            RSType::EnumVariant(_) => "EnumVariant"@,
            RSType::Vec(inner) => "Vec<"@ + inner.name_spec() + ">"@,
            RSType::Option(inner) => "Option<"@ + inner.name_spec() + ">"@,
            RSType::JSONValue => "serde_json::Value"@,
            RSType::NullOrUndefined => "Option<()>"@,
            RSType::Unit => "()"@,
            RSType::Unimplemented(t, n) => "Unimplemented<"@ + t@ + ", "@ + n@ + ">"@,
        }
    }

    /// A compact rendering of the node, used for reports; aggregate nodes are
    /// shown by their kind alone, containers recurse.
    pub fn name(&self) -> (r: String)
        ensures
            r@ == self.name_spec(),
        decreases self,
    {
        match self {
            RSType::Primitive(p) => p.name(),
            RSType::Reference(r) => match r {
                RSReference::Unresolved { name, .. } => {
                    let mut s = "REF<".to_owned();
                    s.append(name.as_str());
                    s.append(">");
                    s
                }
                RSReference::Resolved { name, module } => {
                    let mut s = "REF<".to_owned();
                    s.append(name.as_str());
                    s.append("@");
                    s.append(module.as_str());
                    s.append(">");
                    s
                }
            },
            RSType::Enum(_) => "Enum".to_owned(),
            RSType::Struct(_) => "Struct".to_owned(),
            RSType::EnumVariant(_) => "EnumVariant".to_owned(),
            RSType::Vec(inner) => {
                let mut s = "Vec<".to_owned();
                let n = inner.name();
                s.append(n.as_str());
                s.append(">");
                s
            }
            RSType::Option(inner) => {
                let mut s = "Option<".to_owned();
                let n = inner.name();
                s.append(n.as_str());
                s.append(">");
                s
            }
            RSType::JSONValue => "serde_json::Value".to_owned(),
            RSType::NullOrUndefined => "Option<()>".to_owned(),
            RSType::Unit => "()".to_owned(),
            RSType::Unimplemented(t, n) => {
                let mut s = "Unimplemented<".to_owned();
                s.append(t.as_str());
                s.append(", ");
                s.append(n.as_str());
                s.append(">");
                s
            }
        }
    }
}

} // verus!
