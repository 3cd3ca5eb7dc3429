//! The declaration-tree model consumed by the statement dispatcher.
//!
//! The AST front end, the type mapper, the expression parser and the
//! method/property parser are external collaborators: a driver runs them and
//! hands the translator one `Entity` tree per top-level declaration, carrying
//! as plain values exactly what the translation rules read — node kind,
//! names, availability markers, mapped type signatures, parsed initializer
//! expressions and structured method descriptors.

use vstd::prelude::*;

verus! {

/// Normalized platform-availability markers. They are attached to every
/// statement and propagated opaquely; the renderer accepts but does not
/// consume them.
#[derive(Debug, Clone, PartialEq, Eq)]
pub struct Availability {
    pub markers: Vec<String>,
}

impl View for Availability {
    type V = Seq<Seq<char>>;

    open spec fn view(&self) -> Seq<Seq<char>> {
        self.markers.deep_view()
    }
}

impl Availability {
    pub fn empty() -> (r: Self)
        ensures
            r@ == Seq::<Seq<char>>::empty(),
    {
        let r = Availability { markers: Vec::new() };
        proof {
            assert(r@ =~= Seq::<Seq<char>>::empty());
        }
        r
    }

    pub fn duplicate(&self) -> (r: Self)
        ensures
            r@ == self@,
    {
        let mut markers: Vec<String> = Vec::new();
        let mut i: usize = 0;
        while i < self.markers.len()
            invariant
                i <= self.markers.len(),
                markers@ == self.markers@.subrange(0, i as int),
            decreases self.markers.len() - i,
        {
            markers.push(self.markers[i].clone());
            proof {
                assert(markers@ =~= self.markers@.subrange(0, i as int + 1));
            }
            i = i + 1;
        }
        proof {
            assert(markers@ =~= self.markers@);
        }
        Availability { markers }
    }
}

/// A host-language type signature, already produced by the external type
/// mapper for the usage context in which the declaration stands.
#[derive(Debug, Clone, PartialEq, Eq)]
pub struct Ty {
    pub text: String,
}

impl View for Ty {
    type V = Seq<char>;

    open spec fn view(&self) -> Seq<char> {
        self.text@
    }
}

impl DeepView for Ty {
    type V = Seq<char>;

    open spec fn deep_view(&self) -> Seq<char> {
        self.view()
    }
}

impl Ty {
    pub fn new(text: String) -> (r: Self)
        ensures
            r@ == text@,
    {
        Ty { text }
    }

    pub fn duplicate(&self) -> (r: Self)
        ensures
            r@ == self@,
    {
        Ty { text: self.text.clone() }
    }
}

/// A literal expression, already produced by the external expression parser
/// from an enum-constant or variable initializer.
#[derive(Debug, Clone, PartialEq, Eq)]
pub struct Expr {
    pub text: String,
}

impl View for Expr {
    type V = Seq<char>;

    open spec fn view(&self) -> Seq<char> {
        self.text@
    }
}

impl DeepView for Expr {
    type V = Seq<char>;

    open spec fn deep_view(&self) -> Seq<char> {
        self.view()
    }
}

impl Expr {
    pub fn new(text: String) -> (r: Self)
        ensures
            r@ == text@,
    {
        Expr { text }
    }

    pub fn duplicate(&self) -> (r: Self)
        ensures
            r@ == self@,
    {
        Expr { text: self.text.clone() }
    }
}

/// The macro-kind tag attached to an enum or typedef declaration, selecting
/// its rendering form.
#[derive(Debug, Clone, Copy, PartialEq, Eq, Structural)]
pub enum UnexposedMacro {
    Enum,
    ClosedEnum,
    ErrorEnum,
    Options,
    TypedEnum,
    TypedExtensibleEnum,
    BridgedTypedef,
}

/// A structured method descriptor, produced by the external method/property
/// parser. `text` is that subsystem's rendering of the whole method, written
/// verbatim into a method block.
#[derive(Debug, Clone, PartialEq, Eq)]
pub struct Method {
    pub is_class: bool,
    pub fn_name: String,
    pub text: String,
}

/// Mathematical value of a `Method`.
#[verifier::ext_equal]
pub struct MethodS {
    pub is_class: bool,
    pub fn_name: Seq<char>,
    pub text: Seq<char>,
}

impl View for Method {
    type V = MethodS;

    open spec fn view(&self) -> MethodS {
        MethodS { is_class: self.is_class, fn_name: self.fn_name@, text: self.text@ }
    }
}

impl DeepView for Method {
    type V = MethodS;

    open spec fn deep_view(&self) -> MethodS {
        self.view()
    }
}

impl Method {
    pub fn duplicate(&self) -> (r: Self)
        ensures
            r@ == self@,
    {
        Method { is_class: self.is_class, fn_name: self.fn_name.clone(), text: self.text.clone() }
    }
}

/// What the method/property parser produced for one method child: whether it
/// is a designated initializer, and the descriptor itself.
#[derive(Debug, Clone)]
pub struct MethodOutcome {
    pub designated_initializer: bool,
    pub method: Method,
}

/// One method child as sighted in a class-like body: its selector (known
/// before full parsing) and the parser's outcome, `None` when the parser or
/// its per-method override data declined the method.
#[derive(Debug, Clone)]
pub struct MethodSighting {
    pub selector: String,
    pub parsed: Option<MethodOutcome>,
}

/// One property child as sighted in a class-like body: its accessor selector
/// names and the parser's getter/setter descriptors.
#[derive(Debug, Clone)]
pub struct PropertySighting {
    pub is_class: bool,
    pub getter_name: String,
    pub setter_name: Option<String>,
    pub getter: Option<Method>,
    pub setter: Option<Method>,
}

/// Node kind together with the per-kind payload the translation rules read.
#[derive(Debug)]
pub enum EntityData {
    ObjCClassRef { name: String },
    ObjCProtocolRef { name: String },
    ObjCInterfaceDecl { name: String },
    ObjCCategoryDecl { name: Option<String> },
    ObjCProtocolDecl { name: String },
    /// `underlying` is the mapped target type; `None` records the type
    /// mapper's refusal to produce one.
    TypedefDecl { name: String, underlying: Option<Ty> },
    StructDecl { name: Option<String>, is_definition: bool },
    EnumDecl { name: Option<String>, is_definition: bool, underlying: Ty },
    VarDecl { name: String, ty: Ty },
    FunctionDecl {
        name: String,
        result_type: Ty,
        is_variadic: bool,
        is_inline: bool,
        is_static_method: bool,
    },
    UnionDecl,
    /// A superclass reference: the superclass's name at this use site plus
    /// the referenced superclass declaration itself, for chain-building.
    ObjCSuperClassRef { name: String, referenced: Box<Entity> },
    TypeRef { name: String },
    TemplateTypeParameter { name: String },
    ObjCInstanceMethodDecl { sighting: MethodSighting },
    ObjCClassMethodDecl { sighting: MethodSighting },
    ObjCPropertyDecl { property: PropertySighting },
    ObjCIvarDecl,
    ObjCRootClass,
    ObjCExplicitProtocolImpl,
    VisibilityAttr,
    ObjCException,
    /// An attribute child; `tag` is the macro-kind the external macro
    /// recognizer extracted from it, if any.
    UnexposedAttr { tag: Option<UnexposedMacro> },
    /// `value` is the expression parser's literal for the raw constant value;
    /// `symbolic` its (optional) symbolic reading of the written initializer.
    EnumConstantDecl { name: String, value: Expr, symbolic: Option<Expr> },
    FieldDecl { name: String, ty: Ty, is_bit_field: bool },
    FlagEnum,
    ObjCBoxable,
    ParmDecl { name: Option<String>, ty: Ty },
    /// An expression child of a variable declaration; `value` is the
    /// expression parser's literal, `None` when it declined to resolve it.
    InitializerExpr { value: Option<Expr> },
}

/// One declaration-tree node.
#[derive(Debug)]
pub struct Entity {
    pub data: EntityData,
    pub availability: Availability,
    pub children: Vec<Entity>,
}

} // verus!
