//! Abstract syntax tree for C declarations, together with the mathematical
//! views that the contracts of the parser and the explainer are stated over.

use vstd::prelude::*;

verus! {

broadcast use vstd::seq::axiom_seq_index_decreases, vstd::std_specs::vec::axiom_vec_decreases_to_view;

/// A single type qualifier keyword.  `Typedef` is a bookkeeping marker used to
/// flag a declaration that defines a new type name; it is not a real C
/// qualifier and only ever appears on the outermost qualifier set of a
/// top-level declaration.
#[derive(Debug, Clone, Copy, PartialEq, Eq, Structural)]
pub enum TypeQualifier {
    Const,
    Volatile,
    Restrict,
    Typedef,
}

/// A set of type qualifiers.  Duplicates collapse; rendering uses the fixed
/// canonical order `const volatile restrict` (with the bookkeeping `typedef`
/// last).
#[derive(Debug, Clone, Copy, PartialEq, Eq, Structural)]
pub struct TypeQualifiers {
    pub is_const: bool,
    pub is_volatile: bool,
    pub is_restrict: bool,
    pub is_typedef: bool,
}

impl TypeQualifiers {
    /// The empty qualifier set.
    pub fn new() -> (r: TypeQualifiers)
        ensures
            r == TypeQualifiers::empty(),
    {
        TypeQualifiers { is_const: false, is_volatile: false, is_restrict: false, is_typedef: false }
    }

    /// The empty qualifier set, as a spec-level constant.
    pub open spec fn empty() -> TypeQualifiers {
        TypeQualifiers { is_const: false, is_volatile: false, is_restrict: false, is_typedef: false }
    }

    /// Whether the set holds the given qualifier.
    pub open spec fn spec_contains(self, q: TypeQualifier) -> bool {
        match q {
            TypeQualifier::Const => self.is_const,
            TypeQualifier::Volatile => self.is_volatile,
            TypeQualifier::Restrict => self.is_restrict,
            TypeQualifier::Typedef => self.is_typedef,
        }
    }

    /// The set with the given qualifier added.
    pub open spec fn spec_insert(self, q: TypeQualifier) -> TypeQualifiers {
        match q {
            TypeQualifier::Const => TypeQualifiers { is_const: true, ..self },
            TypeQualifier::Volatile => TypeQualifiers { is_volatile: true, ..self },
            TypeQualifier::Restrict => TypeQualifiers { is_restrict: true, ..self },
            TypeQualifier::Typedef => TypeQualifiers { is_typedef: true, ..self },
        }
    }

    /// The set with the given qualifier removed.
    pub open spec fn spec_remove(self, q: TypeQualifier) -> TypeQualifiers {
        match q {
            TypeQualifier::Const => TypeQualifiers { is_const: false, ..self },
            TypeQualifier::Volatile => TypeQualifiers { is_volatile: false, ..self },
            TypeQualifier::Restrict => TypeQualifiers { is_restrict: false, ..self },
            TypeQualifier::Typedef => TypeQualifiers { is_typedef: false, ..self },
        }
    }

    /// Adds a qualifier to the set; adding one already present changes nothing.
    pub fn insert(&mut self, q: TypeQualifier)
        ensures
            *final(self) == old(self).spec_insert(q),
    {
        match q {
            TypeQualifier::Const => self.is_const = true,
            TypeQualifier::Volatile => self.is_volatile = true,
            TypeQualifier::Restrict => self.is_restrict = true,
            TypeQualifier::Typedef => self.is_typedef = true,
        }
    }

    /// Removes a qualifier from the set.
    pub fn remove(&mut self, q: TypeQualifier)
        ensures
            *final(self) == old(self).spec_remove(q),
    {
        match q {
            TypeQualifier::Const => self.is_const = false,
            TypeQualifier::Volatile => self.is_volatile = false,
            TypeQualifier::Restrict => self.is_restrict = false,
            TypeQualifier::Typedef => self.is_typedef = false,
        }
    }

    /// Whether the set holds the given qualifier.
    pub fn contains(&self, q: TypeQualifier) -> (r: bool)
        ensures
            r == self.spec_contains(q),
    {
        match q {
            TypeQualifier::Const => self.is_const,
            TypeQualifier::Volatile => self.is_volatile,
            TypeQualifier::Restrict => self.is_restrict,
            TypeQualifier::Typedef => self.is_typedef,
        }
    }

    /// Whether the set is empty.
    pub fn is_empty(&self) -> (r: bool)
        ensures
            r == (*self == TypeQualifiers::empty()),
    {
        !self.is_const && !self.is_volatile && !self.is_restrict && !self.is_typedef
    }
}

impl Default for TypeQualifiers {
    /// The empty qualifier set.
    fn default() -> (r: TypeQualifiers)
        ensures
            r == TypeQualifiers::empty(),
    {
        TypeQualifiers::new()
    }
}

/// The kind of a record (tagged) type.
#[derive(Debug, Clone, Copy, PartialEq, Eq, Structural)]
pub enum RecordKind {
    Union,
    Struct,
    Enum,
}

impl RecordKind {
    /// The C keyword for this record kind.
    pub open spec fn spec_keyword(self) -> Seq<char> {
        match self {
            RecordKind::Union => "union"@,
            RecordKind::Struct => "struct"@,
            RecordKind::Enum => "enum"@,
        }
    }

    /// The C keyword for this record kind.
    pub fn keyword(&self) -> (r: &'static str)
        ensures
            r@ == self.spec_keyword(),
    {
        match self {
            RecordKind::Union => "union",
            RecordKind::Struct => "struct",
            RecordKind::Enum => "enum",
        }
    }
}

/// One of the fixed C builtin type spellings, such as `int` or
/// `unsigned long long int`.  Equality and display are by spelling.
#[derive(Debug, Clone, PartialEq, Eq)]
pub struct PrimitiveType {
    pub name: String,
}

impl PrimitiveType {
    /// Wraps a spelling.
    pub fn new(name: &str) -> (r: PrimitiveType)
        ensures
            r@ == name@,
    {
        PrimitiveType { name: name.to_owned() }
    }

    /// The spelling, as a borrowed string.
    pub fn as_ref(&self) -> (r: &str)
        ensures
            r@ == self@,
    {
        self.name.as_str()
    }
}

impl View for PrimitiveType {
    type V = Seq<char>;

    open spec fn view(&self) -> Seq<char> {
        self.name@
    }
}

/// The base type of a declaration.
#[derive(Debug, Clone, PartialEq, Eq)]
pub enum Type {
    /// A builtin type.
    Primitive(PrimitiveType),
    /// A `struct`/`union`/`enum` type, identified by kind and tag name.
    Record(RecordKind, String),
    /// A name introduced by an earlier `typedef`.
    Custom(String),
}

/// Mathematical view of [`Type`].
pub enum TypeV {
    Primitive(Seq<char>),
    Record(RecordKind, Seq<char>),
    Custom(Seq<char>),
}

impl View for Type {
    type V = TypeV;

    open spec fn view(&self) -> TypeV {
        match self {
            Type::Primitive(p) => TypeV::Primitive(p@),
            Type::Record(kind, tag) => TypeV::Record(*kind, tag@),
            Type::Custom(name) => TypeV::Custom(name@),
        }
    }
}

/// A base type together with its qualifier set.
#[derive(Debug, Clone, PartialEq, Eq)]
pub struct QualifiedType(pub TypeQualifiers, pub Type);

/// Mathematical view of [`QualifiedType`].
pub struct QualifiedTypeV {
    pub quals: TypeQualifiers,
    pub ty: TypeV,
}

impl View for QualifiedType {
    type V = QualifiedTypeV;

    open spec fn view(&self) -> QualifiedTypeV {
        QualifiedTypeV { quals: self.0, ty: self.1@ }
    }
}

/// How the declared name is wrapped by pointer, array and function type
/// constructors.  The nesting encodes C's inside-out reading order: the leaf
/// is the name, and walking outward applies the wrappers in the order C's
/// precedence rules dictate.
#[derive(Debug, PartialEq, Eq)]
pub enum Declarator {
    /// The base of an unnamed declaration, such as an abstract function
    /// parameter.
    Anonymous,
    /// The identifier being declared.
    Ident(String),
    /// A pointer to the inner declarator, with qualifiers that apply to the
    /// pointer itself.
    Ptr(Box<Declarator>, TypeQualifiers),
    /// An array of the inner declarator, optionally with a fixed element
    /// count.
    Array(Box<Declarator>, Option<usize>),
    /// A function returning the inner declarator, taking a list of
    /// parameters, each itself a full (possibly anonymous) declaration.
    Function { func: Box<Declarator>, params: Vec<Declaration> },
}

/// Mathematical view of [`Declarator`].
pub enum DeclaratorV {
    Anonymous,
    Ident(Seq<char>),
    Ptr(Box<DeclaratorV>, TypeQualifiers),
    Array(Box<DeclaratorV>, Option<usize>),
    Function(Box<DeclaratorV>, Seq<DeclarationV>),
}

/// A full declaration: a qualified base type and a declarator.
#[derive(Debug, PartialEq, Eq)]
pub struct Declaration {
    pub base_type: QualifiedType,
    pub declarator: Declarator,
}

/// Mathematical view of [`Declaration`].
pub struct DeclarationV {
    pub base_type: QualifiedTypeV,
    pub declarator: DeclaratorV,
}

/// The view of a declarator.
pub open spec fn declarator_view(d: Declarator) -> DeclaratorV
    decreases d, 0int,
{
    match d {
        Declarator::Anonymous => DeclaratorV::Anonymous,
        Declarator::Ident(name) => DeclaratorV::Ident(name@),
        Declarator::Ptr(inner, quals) => DeclaratorV::Ptr(Box::new(declarator_view(*inner)), quals),
        Declarator::Array(inner, size) => DeclaratorV::Array(Box::new(declarator_view(*inner)), size),
        Declarator::Function { func, params } => DeclaratorV::Function(
            Box::new(declarator_view(*func)),
            Seq::new(
                params@.len(),
                |i: int|
                    if 0 <= i < params@.len() {
                        declaration_view(params@[i])
                    } else {
                        vstd::pervasive::arbitrary()
                    },
            ),
        ),
    }
}

/// The view of a declaration.
pub open spec fn declaration_view(d: Declaration) -> DeclarationV
    decreases d, 1int,
{
    DeclarationV { base_type: d.base_type@, declarator: declarator_view(d.declarator) }
}

impl View for Declarator {
    type V = DeclaratorV;

    open spec fn view(&self) -> DeclaratorV {
        declarator_view(*self)
    }
}

impl View for Declaration {
    type V = DeclarationV;

    open spec fn view(&self) -> DeclarationV {
        declaration_view(*self)
    }
}

/// The views of a sequence of declarations, elementwise.
pub open spec fn view_decls(params: Seq<Declaration>) -> Seq<DeclarationV> {
    Seq::new(params.len(), |k: int|
        if 0 <= k < params.len() {
            params[k]@
        } else {
            vstd::pervasive::arbitrary()
        })
}

/// The view of a `Function` declarator holds the views of its parameters.
pub proof fn lemma_function_view(func: Box<Declarator>, params: Vec<Declaration>)
    ensures
        (Declarator::Function { func, params })@ == DeclaratorV::Function(
            Box::new((*func)@),
            view_decls(params@),
        ),
{
    let d = Declarator::Function { func, params };
    let vd = d@;
    assert(vd is Function);
    assert(vd->Function_1.len() == params@.len());
    assert forall|k: int| 0 <= k < params@.len() implies vd->Function_1[k] == view_decls(
        params@,
    )[k] by {
        assert(vd->Function_1[k] == params@[k]@);
    }
    assert(vd->Function_1 =~= view_decls(params@));
}

/// The declared name at the leaf of a declarator, if any.
pub open spec fn sp_declarator_name(d: DeclaratorV) -> Option<Seq<char>>
    decreases d,
{
    match d {
        DeclaratorV::Anonymous => None,
        DeclaratorV::Ident(name) => Some(name),
        DeclaratorV::Ptr(inner, _) => sp_declarator_name(*inner),
        DeclaratorV::Array(inner, _) => sp_declarator_name(*inner),
        DeclaratorV::Function(func, _) => sp_declarator_name(*func),
    }
}

impl Declarator {
    /// Returns the declared name at the leaf of the declarator, if any.
    pub fn name(&self) -> (r: Option<&String>)
        ensures
            match r {
                Some(n) => sp_declarator_name(self@) == Some(n@),
                None => sp_declarator_name(self@) is None,
            },
        decreases self,
    {
        match self {
            Declarator::Anonymous => None,
            Declarator::Ident(name) => Some(name),
            Declarator::Ptr(inner, _) => inner.name(),
            Declarator::Array(inner, _) => inner.name(),
            Declarator::Function { func, .. } => func.name(),
        }
    }
}

/// Whether the typedef marker is absent everywhere inside a declarator: on
/// every pointer-level qualifier set, and on the whole of every function
/// parameter.  The marker belongs only on the outermost qualifier set of a
/// top-level declaration.
pub open spec fn typedef_only_outermost(d: DeclaratorV) -> bool
    decreases d, 1int,
{
    match d {
        DeclaratorV::Anonymous => true,
        DeclaratorV::Ident(_) => true,
        DeclaratorV::Ptr(inner, quals) => !quals.is_typedef && typedef_only_outermost(*inner),
        DeclaratorV::Array(inner, _) => typedef_only_outermost(*inner),
        DeclaratorV::Function(func, params) => typedef_only_outermost(*func) && forall|i: int|
            0 <= i < params.len() ==> typedef_free_declaration(#[trigger] params[i]),
    }
}

/// Whether a declaration carries no typedef marker at all, its own qualifier
/// set included; function parameters are such declarations.
pub open spec fn typedef_free_declaration(d: DeclarationV) -> bool
    decreases d, 2int,
{
    !d.base_type.quals.is_typedef && typedef_only_outermost(d.declarator)
}

} // verus!
