use vstd::prelude::*;

verus! {

// ---------------------------------------------------------------------------
// The source type syntax, as plain values. The parsing collaborator produces
// these nodes; the lowering engine consumes them. Constructs the engine does
// not model arrive under the `Unsupported` catch-all, already carrying the
// exact source text they span.
// ---------------------------------------------------------------------------

/// The source constructs that lower to `Unsupported`.
#[derive(Debug, Clone, Copy, PartialEq, Eq, Structural)]
pub enum UnsupportedKind {
    Intrinsic,
    Conditional,
    Constructor,
    Function,
    Import,
    IndexedAccess,
    Infer,
    Intersection,
    QualifiedName,
    TemplateLiteral,
    This,
    TypeOperator,
    TypePredicate,
    TypeQuery,
    Parenthesized,
    JsDocNullable,
    JsDocNonNullable,
    JsDocUnknown,
}

/// The literal forms that lower to an unsupported literal.
#[derive(Debug, Clone, Copy, PartialEq, Eq, Structural)]
pub enum UnsupportedLiteralKind {
    RegExp,
    Template,
    Unary,
}

#[derive(Debug, PartialEq)]
pub enum TsLiteral {
    BooleanLiteral(bool),
    NullLiteral,
    /// The raw source spelling of the number.
    NumericLiteral(String),
    /// The raw source spelling of the big integer.
    BigIntLiteral(String),
    StringLiteral(String),
    /// An unmodeled literal form, with the source text it spans.
    Unsupported(UnsupportedLiteralKind, String),
}

#[derive(Debug, PartialEq)]
pub enum TsTupleElement {
    TSType(TsType),
    TSOptionalType(Box<TsType>),
    TSRestType(Box<TsType>),
}

#[derive(Debug, PartialEq)]
pub enum TsType {
    TSAnyKeyword,
    TSBigIntKeyword,
    TSBooleanKeyword,
    TSNeverKeyword,
    TSNullKeyword,
    TSNumberKeyword,
    TSObjectKeyword,
    TSStringKeyword,
    TSSymbolKeyword,
    TSUndefinedKeyword,
    TSUnknownKeyword,
    TSVoidKeyword,
    TSArrayType(Box<TsType>),
    TSLiteralType(TsLiteral),
    TSMappedType,
    TSNamedTupleMember(Box<TsType>),
    TSTupleType(Vec<TsTupleElement>),
    TSTypeLiteral,
    TSTypeReference { name: String, type_arguments: Option<Vec<TsType>> },
    TSUnionType(Vec<TsType>),
    /// An unmodeled construct, with the source text it spans.
    Unsupported(UnsupportedKind, String),
}

/// One member of an interface-like body.
#[derive(Debug, PartialEq)]
pub enum TsSignature {
    TSPropertySignature {
        computed: bool,
        optional: bool,
        /// The member name, absent when the key has no static name.
        key_name: Option<String>,
        type_annotation: Option<TsType>,
    },
    /// Method, index, call and construct signatures: skipped, not errored.
    Other,
}

#[derive(Debug, PartialEq)]
pub enum ImportSpecifier {
    ImportSpecifier { imported: String, local: String },
    ImportDefaultSpecifier { local: String },
    ImportNamespaceSpecifier { local: String },
}

#[derive(Debug, PartialEq)]
pub struct ExportSpecifier {
    pub local: String,
    pub exported: String,
}

#[derive(Debug, PartialEq)]
pub struct ImportDeclaration {
    /// The resolved path of the module the import names.
    pub source_path: String,
    pub specifiers: Option<Vec<ImportSpecifier>>,
}

#[derive(Debug, PartialEq)]
pub struct ExportNamedDeclaration {
    /// The resolved path of the re-exported module, if the export has a
    /// source clause.
    pub source_path: Option<String>,
    pub specifiers: Vec<ExportSpecifier>,
}

#[derive(Debug, PartialEq)]
pub struct TSTypeAliasDeclaration {
    pub name: String,
    pub type_annotation: TsType,
}

#[derive(Debug, PartialEq)]
pub struct TSInterfaceDeclaration {
    pub name: String,
    pub body: Vec<TsSignature>,
}

/// The top-level statements of one module that the walker reads.
#[derive(Debug, PartialEq)]
pub enum ModuleItem {
    Import(ImportDeclaration),
    ExportNamed(ExportNamedDeclaration),
    TypeAlias(TSTypeAliasDeclaration),
    Interface(TSInterfaceDeclaration),
}

#[derive(Debug, PartialEq)]
pub struct Program {
    pub body: Vec<ModuleItem>,
}

// ---------------------------------------------------------------------------
// The mathematical model of the source syntax.
// ---------------------------------------------------------------------------

pub enum SrcLiteral {
    BooleanLiteral(bool),
    NullLiteral,
    NumericLiteral(Seq<char>),
    BigIntLiteral(Seq<char>),
    StringLiteral(Seq<char>),
    Unsupported(UnsupportedLiteralKind, Seq<char>),
}

pub enum SrcTupleElement {
    TSType(SrcTy),
    TSOptionalType(Box<SrcTy>),
    TSRestType(Box<SrcTy>),
}

pub enum SrcTy {
    AnyKeyword,
    BigIntKeyword,
    BooleanKeyword,
    NeverKeyword,
    NullKeyword,
    NumberKeyword,
    ObjectKeyword,
    StringKeyword,
    SymbolKeyword,
    UndefinedKeyword,
    UnknownKeyword,
    VoidKeyword,
    ArrayType(Box<SrcTy>),
    LiteralType(SrcLiteral),
    MappedType,
    NamedTupleMember(Box<SrcTy>),
    TupleType(Seq<SrcTupleElement>),
    TypeLiteral,
    TypeReference { name: Seq<char>, type_arguments: Option<Seq<SrcTy>> },
    UnionType(Seq<SrcTy>),
    Unsupported(UnsupportedKind, Seq<char>),
}

pub enum SrcSignature {
    Property {
        computed: bool,
        optional: bool,
        key_name: Option<Seq<char>>,
        type_annotation: Option<SrcTy>,
    },
    Other,
}

pub enum SrcImportSpecifier {
    Named { imported: Seq<char>, local: Seq<char> },
    Default { local: Seq<char> },
    Namespace { local: Seq<char> },
}

pub struct SrcExportSpecifier {
    pub local: Seq<char>,
    pub exported: Seq<char>,
}

pub enum SrcItem {
    Import { source_path: Seq<char>, specifiers: Option<Seq<SrcImportSpecifier>> },
    ExportNamed { source_path: Option<Seq<char>>, specifiers: Seq<SrcExportSpecifier> },
    TypeAlias { name: Seq<char>, type_annotation: SrcTy },
    Interface { name: Seq<char>, body: Seq<SrcSignature> },
}

// ---------------------------------------------------------------------------
// Views from the executable syntax into the model.
// ---------------------------------------------------------------------------

pub open spec fn ts_lit_view(l: TsLiteral) -> SrcLiteral {
    match l {
        TsLiteral::BooleanLiteral(b) => SrcLiteral::BooleanLiteral(b),
        TsLiteral::NullLiteral => SrcLiteral::NullLiteral,
        TsLiteral::NumericLiteral(s) => SrcLiteral::NumericLiteral(s@),
        TsLiteral::BigIntLiteral(s) => SrcLiteral::BigIntLiteral(s@),
        TsLiteral::StringLiteral(s) => SrcLiteral::StringLiteral(s@),
        TsLiteral::Unsupported(k, s) => SrcLiteral::Unsupported(k, s@),
    }
}

pub open spec fn tuple_element_view(e: TsTupleElement) -> SrcTupleElement
    decreases e,
{
    match e {
        TsTupleElement::TSType(t) => SrcTupleElement::TSType(ts_view(t)),
        TsTupleElement::TSOptionalType(t) => SrcTupleElement::TSOptionalType(
            Box::new(ts_view(*t)),
        ),
        TsTupleElement::TSRestType(t) => SrcTupleElement::TSRestType(Box::new(ts_view(*t))),
    }
}

pub open spec fn tuple_element_views(es: Seq<TsTupleElement>) -> Seq<SrcTupleElement>
    decreases es,
{
    if es.len() == 0 {
        Seq::empty()
    } else {
        tuple_element_views(es.drop_last()).push(tuple_element_view(es.last()))
    }
}

pub open spec fn ts_views(ts: Seq<TsType>) -> Seq<SrcTy>
    decreases ts,
{
    if ts.len() == 0 {
        Seq::empty()
    } else {
        ts_views(ts.drop_last()).push(ts_view(ts.last()))
    }
}

pub open spec fn ts_view(t: TsType) -> SrcTy
    decreases t,
{
    match t {
        TsType::TSAnyKeyword => SrcTy::AnyKeyword,
        TsType::TSBigIntKeyword => SrcTy::BigIntKeyword,
        TsType::TSBooleanKeyword => SrcTy::BooleanKeyword,
        TsType::TSNeverKeyword => SrcTy::NeverKeyword,
        TsType::TSNullKeyword => SrcTy::NullKeyword,
        TsType::TSNumberKeyword => SrcTy::NumberKeyword,
        TsType::TSObjectKeyword => SrcTy::ObjectKeyword,
        TsType::TSStringKeyword => SrcTy::StringKeyword,
        TsType::TSSymbolKeyword => SrcTy::SymbolKeyword,
        TsType::TSUndefinedKeyword => SrcTy::UndefinedKeyword,
        TsType::TSUnknownKeyword => SrcTy::UnknownKeyword,
        TsType::TSVoidKeyword => SrcTy::VoidKeyword,
        TsType::TSArrayType(el) => SrcTy::ArrayType(Box::new(ts_view(*el))),
        TsType::TSLiteralType(l) => SrcTy::LiteralType(ts_lit_view(l)),
        TsType::TSMappedType => SrcTy::MappedType,
        TsType::TSNamedTupleMember(el) => SrcTy::NamedTupleMember(Box::new(ts_view(*el))),
        TsType::TSTupleType(es) => SrcTy::TupleType(tuple_element_views(es@)),
        TsType::TSTypeLiteral => SrcTy::TypeLiteral,
        TsType::TSTypeReference { name, type_arguments } => SrcTy::TypeReference {
            name: name@,
            type_arguments: match type_arguments {
                Option::Some(args) => Option::Some(ts_views(args@)),
                Option::None => Option::None,
            },
        },
        TsType::TSUnionType(ms) => SrcTy::UnionType(ts_views(ms@)),
        TsType::Unsupported(k, s) => SrcTy::Unsupported(k, s@),
    }
}

impl View for TsType {
    type V = SrcTy;

    open spec fn view(&self) -> SrcTy {
        ts_view(*self)
    }
}

impl View for TsLiteral {
    type V = SrcLiteral;

    open spec fn view(&self) -> SrcLiteral {
        ts_lit_view(*self)
    }
}

pub broadcast proof fn lemma_ts_views_len(ts: Seq<TsType>)
    ensures
        #[trigger] ts_views(ts).len() == ts.len(),
    decreases ts,
{
    if ts.len() > 0 {
        lemma_ts_views_len(ts.drop_last());
    }
}

pub broadcast proof fn lemma_ts_views_index(ts: Seq<TsType>, i: int)
    requires
        0 <= i < ts.len(),
    ensures
        #[trigger] ts_views(ts)[i] == ts_view(ts[i]),
    decreases ts,
{
    lemma_ts_views_len(ts);
    if i < ts.len() - 1 {
        lemma_ts_views_index(ts.drop_last(), i);
        lemma_ts_views_len(ts.drop_last());
    }
}

pub broadcast proof fn lemma_tuple_element_views_len(es: Seq<TsTupleElement>)
    ensures
        #[trigger] tuple_element_views(es).len() == es.len(),
    decreases es,
{
    if es.len() > 0 {
        lemma_tuple_element_views_len(es.drop_last());
    }
}

pub broadcast proof fn lemma_tuple_element_views_index(es: Seq<TsTupleElement>, i: int)
    requires
        0 <= i < es.len(),
    ensures
        #[trigger] tuple_element_views(es)[i] == tuple_element_view(es[i]),
    decreases es,
{
    lemma_tuple_element_views_len(es);
    if i < es.len() - 1 {
        lemma_tuple_element_views_index(es.drop_last(), i);
        lemma_tuple_element_views_len(es.drop_last());
    }
}

pub open spec fn signature_view(s: TsSignature) -> SrcSignature
    decreases s,
{
    match s {
        TsSignature::TSPropertySignature { computed, optional, key_name, type_annotation } => {
            SrcSignature::Property {
                computed,
                optional,
                key_name: key_name.deep_view(),
                type_annotation: match type_annotation {
                    Option::Some(t) => Option::Some(ts_view(t)),
                    Option::None => Option::None,
                },
            }
        }
        TsSignature::Other => SrcSignature::Other,
    }
}

pub open spec fn signature_views(ss: Seq<TsSignature>) -> Seq<SrcSignature>
    decreases ss,
{
    if ss.len() == 0 {
        Seq::empty()
    } else {
        signature_views(ss.drop_last()).push(signature_view(ss.last()))
    }
}

pub broadcast proof fn lemma_signature_views_len(ss: Seq<TsSignature>)
    ensures
        #[trigger] signature_views(ss).len() == ss.len(),
    decreases ss,
{
    if ss.len() > 0 {
        lemma_signature_views_len(ss.drop_last());
    }
}


impl View for TsSignature {
    type V = SrcSignature;

    open spec fn view(&self) -> SrcSignature {
        signature_view(*self)
    }
}

pub open spec fn import_specifier_view(s: ImportSpecifier) -> SrcImportSpecifier {
    match s {
        ImportSpecifier::ImportSpecifier { imported, local } => SrcImportSpecifier::Named {
            imported: imported@,
            local: local@,
        },
        ImportSpecifier::ImportDefaultSpecifier { local } => SrcImportSpecifier::Default {
            local: local@,
        },
        ImportSpecifier::ImportNamespaceSpecifier { local } => SrcImportSpecifier::Namespace {
            local: local@,
        },
    }
}

impl View for ImportSpecifier {
    type V = SrcImportSpecifier;

    open spec fn view(&self) -> SrcImportSpecifier {
        import_specifier_view(*self)
    }
}

impl DeepView for ImportSpecifier {
    type V = SrcImportSpecifier;

    open spec fn deep_view(&self) -> SrcImportSpecifier {
        import_specifier_view(*self)
    }
}

pub open spec fn export_specifier_view(s: ExportSpecifier) -> SrcExportSpecifier {
    SrcExportSpecifier { local: s.local@, exported: s.exported@ }
}

impl View for ExportSpecifier {
    type V = SrcExportSpecifier;

    open spec fn view(&self) -> SrcExportSpecifier {
        export_specifier_view(*self)
    }
}

impl DeepView for ExportSpecifier {
    type V = SrcExportSpecifier;

    open spec fn deep_view(&self) -> SrcExportSpecifier {
        export_specifier_view(*self)
    }
}

pub open spec fn item_view(it: ModuleItem) -> SrcItem
    decreases it,
{
    match it {
        ModuleItem::Import(d) => SrcItem::Import {
            source_path: d.source_path@,
            specifiers: match d.specifiers {
                Option::Some(ss) => Option::Some(ss.deep_view()),
                Option::None => Option::None,
            },
        },
        ModuleItem::ExportNamed(d) => SrcItem::ExportNamed {
            source_path: d.source_path.deep_view(),
            specifiers: d.specifiers.deep_view(),
        },
        ModuleItem::TypeAlias(d) => SrcItem::TypeAlias {
            name: d.name@,
            type_annotation: ts_view(d.type_annotation),
        },
        ModuleItem::Interface(d) => SrcItem::Interface {
            name: d.name@,
            body: signature_views(d.body@),
        },
    }
}

impl View for ModuleItem {
    type V = SrcItem;

    open spec fn view(&self) -> SrcItem {
        item_view(*self)
    }
}

pub open spec fn item_views(its: Seq<ModuleItem>) -> Seq<SrcItem>
    decreases its,
{
    if its.len() == 0 {
        Seq::empty()
    } else {
        item_views(its.drop_last()).push(item_view(its.last()))
    }
}

pub broadcast proof fn lemma_item_views_len(its: Seq<ModuleItem>)
    ensures
        #[trigger] item_views(its).len() == its.len(),
    decreases its,
{
    if its.len() > 0 {
        lemma_item_views_len(its.drop_last());
    }
}


impl View for Program {
    type V = Seq<SrcItem>;

    open spec fn view(&self) -> Seq<SrcItem> {
        item_views(self.body@)
    }
}

} // verus!
