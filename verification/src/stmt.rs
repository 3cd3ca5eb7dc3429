//! The statement model: the tagged union of canonical declarations that the
//! dispatcher produces and the renderer consumes. All fields are immutable
//! once constructed.

use vstd::prelude::*;

use crate::ast::{Availability, Expr, Method, MethodS, Ty, UnexposedMacro};
use crate::diag::Fatal;

verus! {

/// The opaque, comma-joined capability list attached to a class statement.
#[derive(Debug, Clone, PartialEq, Eq)]
pub struct Derives(pub String);

impl View for Derives {
    type V = Seq<char>;

    open spec fn view(&self) -> Seq<char> {
        self.0@
    }
}

impl Default for Derives {
    /// The default capability list: equality, hashing and debug-printing.
    fn default() -> (r: Self)
        ensures
            r@ == "Debug, PartialEq, Eq, Hash"@,
    {
        Derives("Debug, PartialEq, Eq, Hash".to_owned())
    }
}

impl Derives {
    pub fn duplicate(&self) -> (r: Self)
        ensures
            r@ == self@,
    {
        Derives(self.0.clone())
    }
}

/// The ownership policy associated with a class statement.
#[derive(Debug, Clone, Copy, PartialEq, Eq, Structural)]
pub enum Ownership {
    Shared,
    Owned,
}

impl Default for Ownership {
    fn default() -> (r: Self)
        ensures
            r == Ownership::Shared,
    {
        Ownership::Shared
    }
}

/// A class identity as used at a use-site: a name plus the ordered list of
/// generic parameter names applied there. Two references are equal iff name
/// and generic list match exactly, ordering significant.
#[derive(Debug, Clone, PartialEq, Eq, Hash, PartialOrd, Ord)]
pub struct ClassDefReference {
    pub name: String,
    pub generics: Vec<String>,
}

/// Mathematical value of a `ClassDefReference`.
#[verifier::ext_equal]
pub struct ClassRefS {
    pub name: Seq<char>,
    pub generics: Seq<Seq<char>>,
}

impl View for ClassDefReference {
    type V = ClassRefS;

    open spec fn view(&self) -> ClassRefS {
        ClassRefS { name: self.name@, generics: self.generics.deep_view() }
    }
}

impl DeepView for ClassDefReference {
    type V = ClassRefS;

    open spec fn deep_view(&self) -> ClassRefS {
        self.view()
    }
}

impl ClassDefReference {
    pub fn new(name: String, generics: Vec<String>) -> (r: Self)
        ensures
            r@.name == name@,
            r@.generics == generics.deep_view(),
    {
        Self { name, generics }
    }

    pub fn duplicate(&self) -> (r: Self)
        ensures
            r@ == self@,
    {
        let mut generics: Vec<String> = Vec::new();
        let mut i: usize = 0;
        while i < self.generics.len()
            invariant
                i <= self.generics.len(),
                generics@ == self.generics@.subrange(0, i as int),
            decreases self.generics.len() - i,
        {
            generics.push(self.generics[i].clone());
            proof {
                assert(generics@ =~= self.generics@.subrange(0, i as int + 1));
            }
            i = i + 1;
        }
        proof {
            assert(generics@ =~= self.generics@);
        }
        Self { name: self.name.clone(), generics }
    }
}

/// One canonical, renderable declaration: exactly one declaration-derived
/// fact per variant.
#[derive(Debug, Clone, PartialEq)]
pub enum Stmt {
    /// A top-level class declaration, with its ordered superclass chain,
    /// immediate-first.
    ClassDecl {
        ty: ClassDefReference,
        availability: Availability,
        superclasses: Vec<ClassDefReference>,
        designated_initializers: Vec<String>,
        derives: Derives,
        ownership: Ownership,
    },
    /// The default method set of a class body, or of a category body.
    Methods {
        ty: ClassDefReference,
        availability: Availability,
        methods: Vec<Method>,
        category_name: Option<String>,
        description: Option<String>,
    },
    /// A protocol declaration.
    ProtocolDecl {
        name: String,
        availability: Availability,
        protocols: Vec<String>,
        methods: Vec<Method>,
    },
    /// One conformance of a class or category to one protocol.
    ProtocolImpl { ty: ClassDefReference, availability: Availability, protocol: String },
    /// A struct declaration, reached directly or through its typedef.
    StructDecl { name: String, boxable: bool, fields: Vec<(String, Ty)> },
    /// An enum declaration, in any of its macro-tagged shapes.
    EnumDecl {
        name: Option<String>,
        ty: Ty,
        kind: Option<UnexposedMacro>,
        variants: Vec<(String, Expr)>,
    },
    /// An extern or initialized variable declaration.
    VarDecl { name: String, ty: Ty, value: Option<Expr> },
    /// A free function declaration; `body` records only the presence of an
    /// inline body, never its contents.
    FnDecl { name: String, arguments: Vec<(String, Ty)>, result_type: Ty, body: Option<()> },
    /// A typedef declaration that is not a struct definition.
    AliasDecl { name: String, ty: Ty, kind: Option<UnexposedMacro> },
}

/// Mathematical value of a `Stmt`.
#[verifier::ext_equal]
pub enum StmtS {
    ClassDecl {
        ty: ClassRefS,
        availability: Seq<Seq<char>>,
        superclasses: Seq<ClassRefS>,
        designated_initializers: Seq<Seq<char>>,
        derives: Seq<char>,
        ownership: Ownership,
    },
    Methods {
        ty: ClassRefS,
        availability: Seq<Seq<char>>,
        methods: Seq<MethodS>,
        category_name: Option<Seq<char>>,
        description: Option<Seq<char>>,
    },
    ProtocolDecl {
        name: Seq<char>,
        availability: Seq<Seq<char>>,
        protocols: Seq<Seq<char>>,
        methods: Seq<MethodS>,
    },
    ProtocolImpl { ty: ClassRefS, availability: Seq<Seq<char>>, protocol: Seq<char> },
    StructDecl { name: Seq<char>, boxable: bool, fields: Seq<(Seq<char>, Seq<char>)> },
    EnumDecl {
        name: Option<Seq<char>>,
        ty: Seq<char>,
        kind: Option<UnexposedMacro>,
        variants: Seq<(Seq<char>, Seq<char>)>,
    },
    VarDecl { name: Seq<char>, ty: Seq<char>, value: Option<Seq<char>> },
    FnDecl {
        name: Seq<char>,
        arguments: Seq<(Seq<char>, Seq<char>)>,
        result_type: Seq<char>,
        body: Option<()>,
    },
    AliasDecl { name: Seq<char>, ty: Seq<char>, kind: Option<UnexposedMacro> },
}

impl View for Stmt {
    type V = StmtS;

    open spec fn view(&self) -> StmtS {
        match self {
            Stmt::ClassDecl {
                ty,
                availability,
                superclasses,
                designated_initializers,
                derives,
                ownership,
            } => {
                StmtS::ClassDecl {
                    ty: ty@,
                    availability: availability@,
                    superclasses: superclasses.deep_view(),
                    designated_initializers: designated_initializers.deep_view(),
                    derives: derives@,
                    ownership: *ownership,
                }
            },
            Stmt::Methods { ty, availability, methods, category_name, description } => {
                StmtS::Methods {
                    ty: ty@,
                    availability: availability@,
                    methods: methods.deep_view(),
                    category_name: category_name.deep_view(),
                    description: description.deep_view(),
                }
            },
            Stmt::ProtocolDecl { name, availability, protocols, methods } => {
                StmtS::ProtocolDecl {
                    name: name@,
                    availability: availability@,
                    protocols: protocols.deep_view(),
                    methods: methods.deep_view(),
                }
            },
            Stmt::ProtocolImpl { ty, availability, protocol } => {
                StmtS::ProtocolImpl { ty: ty@, availability: availability@, protocol: protocol@ }
            },
            Stmt::StructDecl { name, boxable, fields } => {
                StmtS::StructDecl { name: name@, boxable: *boxable, fields: fields.deep_view() }
            },
            Stmt::EnumDecl { name, ty, kind, variants } => {
                StmtS::EnumDecl {
                    name: name.deep_view(),
                    ty: ty@,
                    kind: *kind,
                    variants: variants.deep_view(),
                }
            },
            Stmt::VarDecl { name, ty, value } => {
                StmtS::VarDecl { name: name@, ty: ty@, value: value.deep_view() }
            },
            Stmt::FnDecl { name, arguments, result_type, body } => {
                StmtS::FnDecl {
                    name: name@,
                    arguments: arguments.deep_view(),
                    result_type: result_type@,
                    body: *body,
                }
            },
            Stmt::AliasDecl { name, ty, kind } => {
                StmtS::AliasDecl { name: name@, ty: ty@, kind: *kind }
            },
        }
    }
}

impl DeepView for Stmt {
    type V = StmtS;

    open spec fn deep_view(&self) -> StmtS {
        self.view()
    }
}

/// Element-by-element string-list equality.
fn eq_string_vec(a: &Vec<String>, b: &Vec<String>) -> (r: bool)
    ensures
        r == (a.deep_view() == b.deep_view()),
{
    if a.len() != b.len() {
        proof {
            assert(a.deep_view().len() == a@.len());
            assert(b.deep_view().len() == b@.len());
        }
        return false;
    }
    let mut i: usize = 0;
    while i < a.len()
        invariant
            i <= a.len(),
            a@.len() == b@.len(),
            forall|j: int| 0 <= j < i ==> a.deep_view()[j] == b.deep_view()[j],
        decreases a.len() - i,
    {
        if !(a[i] == b[i]) {
            proof {
                assert(a.deep_view()[i as int] != b.deep_view()[i as int]);
            }
            return false;
        }
        proof {
            assert(a.deep_view()[i as int] == b.deep_view()[i as int]);
        }
        i = i + 1;
    }
    proof {
        assert(a.deep_view() =~= b.deep_view());
    }
    true
}

fn eq_opt_string(a: &Option<String>, b: &Option<String>) -> (r: bool)
    ensures
        r == (a.deep_view() == b.deep_view()),
{
    match (a, b) {
        (Some(x), Some(y)) => *x == *y,
        (None, None) => true,
        _ => false,
    }
}

fn eq_class_ref(a: &ClassDefReference, b: &ClassDefReference) -> (r: bool)
    ensures
        r == (a@ == b@),
{
    let names = a.name == b.name;
    let generics = eq_string_vec(&a.generics, &b.generics);
    names && generics
}

fn eq_class_ref_vec(a: &Vec<ClassDefReference>, b: &Vec<ClassDefReference>) -> (r: bool)
    ensures
        r == (a.deep_view() == b.deep_view()),
{
    if a.len() != b.len() {
        proof {
            assert(a.deep_view().len() == a@.len());
            assert(b.deep_view().len() == b@.len());
        }
        return false;
    }
    let mut i: usize = 0;
    while i < a.len()
        invariant
            i <= a.len(),
            a@.len() == b@.len(),
            forall|j: int| 0 <= j < i ==> a.deep_view()[j] == b.deep_view()[j],
        decreases a.len() - i,
    {
        if !eq_class_ref(&a[i], &b[i]) {
            proof {
                assert(a.deep_view()[i as int] != b.deep_view()[i as int]);
            }
            return false;
        }
        proof {
            assert(a.deep_view()[i as int] == b.deep_view()[i as int]);
        }
        i = i + 1;
    }
    proof {
        assert(a.deep_view() =~= b.deep_view());
    }
    true
}

fn eq_method(a: &Method, b: &Method) -> (r: bool)
    ensures
        r == (a@ == b@),
{
    let classes = a.is_class == b.is_class;
    let names = a.fn_name == b.fn_name;
    let texts = a.text == b.text;
    classes && names && texts
}

fn eq_method_vec(a: &Vec<Method>, b: &Vec<Method>) -> (r: bool)
    ensures
        r == (a.deep_view() == b.deep_view()),
{
    if a.len() != b.len() {
        proof {
            assert(a.deep_view().len() == a@.len());
            assert(b.deep_view().len() == b@.len());
        }
        return false;
    }
    let mut i: usize = 0;
    while i < a.len()
        invariant
            i <= a.len(),
            a@.len() == b@.len(),
            forall|j: int| 0 <= j < i ==> a.deep_view()[j] == b.deep_view()[j],
        decreases a.len() - i,
    {
        if !eq_method(&a[i], &b[i]) {
            proof {
                assert(a.deep_view()[i as int] != b.deep_view()[i as int]);
            }
            return false;
        }
        proof {
            assert(a.deep_view()[i as int] == b.deep_view()[i as int]);
        }
        i = i + 1;
    }
    proof {
        assert(a.deep_view() =~= b.deep_view());
    }
    true
}

fn eq_availability(a: &Availability, b: &Availability) -> (r: bool)
    ensures
        r == (a@ == b@),
{
    eq_string_vec(&a.markers, &b.markers)
}

fn eq_ty_pair_vec(a: &Vec<(String, Ty)>, b: &Vec<(String, Ty)>) -> (r: bool)
    ensures
        r == (a.deep_view() == b.deep_view()),
{
    if a.len() != b.len() {
        proof {
            assert(a.deep_view().len() == a@.len());
            assert(b.deep_view().len() == b@.len());
        }
        return false;
    }
    let mut i: usize = 0;
    while i < a.len()
        invariant
            i <= a.len(),
            a@.len() == b@.len(),
            forall|j: int| 0 <= j < i ==> a.deep_view()[j] == b.deep_view()[j],
        decreases a.len() - i,
    {
        let name_eq = a[i].0 == b[i].0;
        let ty_eq = a[i].1.text == b[i].1.text;
        if !(name_eq && ty_eq) {
            proof {
                assert(a.deep_view()[i as int] != b.deep_view()[i as int]);
            }
            return false;
        }
        proof {
            assert(a.deep_view()[i as int] == b.deep_view()[i as int]);
        }
        i = i + 1;
    }
    proof {
        assert(a.deep_view() =~= b.deep_view());
    }
    true
}

fn eq_expr_pair_vec(a: &Vec<(String, Expr)>, b: &Vec<(String, Expr)>) -> (r: bool)
    ensures
        r == (a.deep_view() == b.deep_view()),
{
    if a.len() != b.len() {
        proof {
            assert(a.deep_view().len() == a@.len());
            assert(b.deep_view().len() == b@.len());
        }
        return false;
    }
    let mut i: usize = 0;
    while i < a.len()
        invariant
            i <= a.len(),
            a@.len() == b@.len(),
            forall|j: int| 0 <= j < i ==> a.deep_view()[j] == b.deep_view()[j],
        decreases a.len() - i,
    {
        let name_eq = a[i].0 == b[i].0;
        let expr_eq = a[i].1.text == b[i].1.text;
        if !(name_eq && expr_eq) {
            proof {
                assert(a.deep_view()[i as int] != b.deep_view()[i as int]);
            }
            return false;
        }
        proof {
            assert(a.deep_view()[i as int] == b.deep_view()[i as int]);
        }
        i = i + 1;
    }
    proof {
        assert(a.deep_view() =~= b.deep_view());
    }
    true
}

fn eq_opt_kind(a: &Option<UnexposedMacro>, b: &Option<UnexposedMacro>) -> (r: bool)
    ensures
        r == (*a == *b),
{
    match (a, b) {
        (Some(x), Some(y)) => *x == *y,
        (None, None) => true,
        _ => false,
    }
}

fn eq_opt_expr(a: &Option<Expr>, b: &Option<Expr>) -> (r: bool)
    ensures
        r == (a.deep_view() == b.deep_view()),
{
    match (a, b) {
        (Some(x), Some(y)) => x.text == y.text,
        (None, None) => true,
        _ => false,
    }
}

impl Stmt {
    /// Structural equality of two statements, over their mathematical values.
    #[verifier::rlimit(100)]
    pub fn deep_eq(&self, other: &Self) -> (r: bool)
        ensures
            r ==> self@ == other@,
            self@ == other@ ==> r,
    {
        match (self, other) {
            (
                Stmt::ClassDecl {
                    ty: ty_a,
                    availability: av_a,
                    superclasses: sup_a,
                    designated_initializers: des_a,
                    derives: der_a,
                    ownership: own_a,
                },
                Stmt::ClassDecl {
                    ty: ty_b,
                    availability: av_b,
                    superclasses: sup_b,
                    designated_initializers: des_b,
                    derives: der_b,
                    ownership: own_b,
                },
            ) => {
                let a1 = eq_class_ref(ty_a, ty_b);
                let a2 = eq_availability(av_a, av_b);
                let a3 = eq_class_ref_vec(sup_a, sup_b);
                let a4 = eq_string_vec(des_a, des_b);
                let a5 = der_a.0 == der_b.0;
                let a6 = *own_a == *own_b;
                let r = a1 && a2 && a3 && a4 && a5 && a6;
                proof {
                    // both directions: field equalities give value equality,
                    // and value equality forces every field equality
                    if r {
                        assert(self@ =~= other@);
                    } else if self@ == other@ {
                        assert(ty_a@ == ty_b@);
                        assert(av_a@ == av_b@);
                        assert(sup_a.deep_view() == sup_b.deep_view());
                        assert(des_a.deep_view() == des_b.deep_view());
                        assert(der_a@ == der_b@);
                        assert(*own_a == *own_b);
                        assert(false);
                    }
                }
                r
            },
            (
                Stmt::Methods {
                    ty: ty_a,
                    availability: av_a,
                    methods: m_a,
                    category_name: cat_a,
                    description: d_a,
                },
                Stmt::Methods {
                    ty: ty_b,
                    availability: av_b,
                    methods: m_b,
                    category_name: cat_b,
                    description: d_b,
                },
            ) => {
                let a1 = eq_class_ref(ty_a, ty_b);
                let a2 = eq_availability(av_a, av_b);
                let a3 = eq_method_vec(m_a, m_b);
                let a4 = eq_opt_string(cat_a, cat_b);
                let a5 = eq_opt_string(d_a, d_b);
                a1 && a2 && a3 && a4 && a5
            },
            (
                Stmt::ProtocolDecl { name: n_a, availability: av_a, protocols: p_a, methods: m_a },
                Stmt::ProtocolDecl { name: n_b, availability: av_b, protocols: p_b, methods: m_b },
            ) => {
                let a1 = *n_a == *n_b;
                let a2 = eq_availability(av_a, av_b);
                let a3 = eq_string_vec(p_a, p_b);
                let a4 = eq_method_vec(m_a, m_b);
                a1 && a2 && a3 && a4
            },
            (
                Stmt::ProtocolImpl { ty: ty_a, availability: av_a, protocol: p_a },
                Stmt::ProtocolImpl { ty: ty_b, availability: av_b, protocol: p_b },
            ) => {
                let a1 = eq_class_ref(ty_a, ty_b);
                let a2 = eq_availability(av_a, av_b);
                let a3 = *p_a == *p_b;
                a1 && a2 && a3
            },
            (
                Stmt::StructDecl { name: n_a, boxable: b_a, fields: f_a },
                Stmt::StructDecl { name: n_b, boxable: b_b, fields: f_b },
            ) => {
                let a1 = *n_a == *n_b;
                let a2 = *b_a == *b_b;
                let a3 = eq_ty_pair_vec(f_a, f_b);
                a1 && a2 && a3
            },
            (
                Stmt::EnumDecl { name: n_a, ty: t_a, kind: k_a, variants: v_a },
                Stmt::EnumDecl { name: n_b, ty: t_b, kind: k_b, variants: v_b },
            ) => {
                let a1 = eq_opt_string(n_a, n_b);
                let a2 = t_a.text == t_b.text;
                let a3 = eq_opt_kind(k_a, k_b);
                let a4 = eq_expr_pair_vec(v_a, v_b);
                a1 && a2 && a3 && a4
            },
            (
                Stmt::VarDecl { name: n_a, ty: t_a, value: v_a },
                Stmt::VarDecl { name: n_b, ty: t_b, value: v_b },
            ) => {
                let a1 = *n_a == *n_b;
                let a2 = t_a.text == t_b.text;
                let a3 = eq_opt_expr(v_a, v_b);
                a1 && a2 && a3
            },
            (
                Stmt::FnDecl { name: n_a, arguments: ar_a, result_type: rt_a, body: b_a },
                Stmt::FnDecl { name: n_b, arguments: ar_b, result_type: rt_b, body: b_b },
            ) => {
                let a1 = *n_a == *n_b;
                let a2 = eq_ty_pair_vec(ar_a, ar_b);
                let a3 = rt_a.text == rt_b.text;
                let a4 = matches!((b_a, b_b), (Some(_), Some(_)) | (None, None));
                a1 && a2 && a3 && a4
            },
            (
                Stmt::AliasDecl { name: n_a, ty: t_a, kind: k_a },
                Stmt::AliasDecl { name: n_b, ty: t_b, kind: k_b },
            ) => {
                let a1 = *n_a == *n_b;
                let a2 = t_a.text == t_b.text;
                let a3 = eq_opt_kind(k_a, k_b);
                a1 && a2 && a3
            },
            _ => {
                proof {
                    // distinct variants have distinct statement values; the
                    // nested match fixes both constructors in every case
                    match self {
                        Stmt::ClassDecl { .. } => {
                            match other {
                                Stmt::ClassDecl { .. } => {
                                    assert(false);
                                },
                                Stmt::Methods { .. } => {
                                    assert(self@ != other@);
                                },
                                Stmt::ProtocolDecl { .. } => {
                                    assert(self@ != other@);
                                },
                                Stmt::ProtocolImpl { .. } => {
                                    assert(self@ != other@);
                                },
                                Stmt::StructDecl { .. } => {
                                    assert(self@ != other@);
                                },
                                Stmt::EnumDecl { .. } => {
                                    assert(self@ != other@);
                                },
                                Stmt::VarDecl { .. } => {
                                    assert(self@ != other@);
                                },
                                Stmt::FnDecl { .. } => {
                                    assert(self@ != other@);
                                },
                                Stmt::AliasDecl { .. } => {
                                    assert(self@ != other@);
                                },
                            }
                        },
                        Stmt::Methods { .. } => {
                            match other {
                                Stmt::ClassDecl { .. } => {
                                    assert(self@ != other@);
                                },
                                Stmt::Methods { .. } => {
                                    assert(false);
                                },
                                Stmt::ProtocolDecl { .. } => {
                                    assert(self@ != other@);
                                },
                                Stmt::ProtocolImpl { .. } => {
                                    assert(self@ != other@);
                                },
                                Stmt::StructDecl { .. } => {
                                    assert(self@ != other@);
                                },
                                Stmt::EnumDecl { .. } => {
                                    assert(self@ != other@);
                                },
                                Stmt::VarDecl { .. } => {
                                    assert(self@ != other@);
                                },
                                Stmt::FnDecl { .. } => {
                                    assert(self@ != other@);
                                },
                                Stmt::AliasDecl { .. } => {
                                    assert(self@ != other@);
                                },
                            }
                        },
                        Stmt::ProtocolDecl { .. } => {
                            match other {
                                Stmt::ClassDecl { .. } => {
                                    assert(self@ != other@);
                                },
                                Stmt::Methods { .. } => {
                                    assert(self@ != other@);
                                },
                                Stmt::ProtocolDecl { .. } => {
                                    assert(false);
                                },
                                Stmt::ProtocolImpl { .. } => {
                                    assert(self@ != other@);
                                },
                                Stmt::StructDecl { .. } => {
                                    assert(self@ != other@);
                                },
                                Stmt::EnumDecl { .. } => {
                                    assert(self@ != other@);
                                },
                                Stmt::VarDecl { .. } => {
                                    assert(self@ != other@);
                                },
                                Stmt::FnDecl { .. } => {
                                    assert(self@ != other@);
                                },
                                Stmt::AliasDecl { .. } => {
                                    assert(self@ != other@);
                                },
                            }
                        },
                        Stmt::ProtocolImpl { .. } => {
                            match other {
                                Stmt::ClassDecl { .. } => {
                                    assert(self@ != other@);
                                },
                                Stmt::Methods { .. } => {
                                    assert(self@ != other@);
                                },
                                Stmt::ProtocolDecl { .. } => {
                                    assert(self@ != other@);
                                },
                                Stmt::ProtocolImpl { .. } => {
                                    assert(false);
                                },
                                Stmt::StructDecl { .. } => {
                                    assert(self@ != other@);
                                },
                                Stmt::EnumDecl { .. } => {
                                    assert(self@ != other@);
                                },
                                Stmt::VarDecl { .. } => {
                                    assert(self@ != other@);
                                },
                                Stmt::FnDecl { .. } => {
                                    assert(self@ != other@);
                                },
                                Stmt::AliasDecl { .. } => {
                                    assert(self@ != other@);
                                },
                            }
                        },
                        Stmt::StructDecl { .. } => {
                            match other {
                                Stmt::ClassDecl { .. } => {
                                    assert(self@ != other@);
                                },
                                Stmt::Methods { .. } => {
                                    assert(self@ != other@);
                                },
                                Stmt::ProtocolDecl { .. } => {
                                    assert(self@ != other@);
                                },
                                Stmt::ProtocolImpl { .. } => {
                                    assert(self@ != other@);
                                },
                                Stmt::StructDecl { .. } => {
                                    assert(false);
                                },
                                Stmt::EnumDecl { .. } => {
                                    assert(self@ != other@);
                                },
                                Stmt::VarDecl { .. } => {
                                    assert(self@ != other@);
                                },
                                Stmt::FnDecl { .. } => {
                                    assert(self@ != other@);
                                },
                                Stmt::AliasDecl { .. } => {
                                    assert(self@ != other@);
                                },
                            }
                        },
                        Stmt::EnumDecl { .. } => {
                            match other {
                                Stmt::ClassDecl { .. } => {
                                    assert(self@ != other@);
                                },
                                Stmt::Methods { .. } => {
                                    assert(self@ != other@);
                                },
                                Stmt::ProtocolDecl { .. } => {
                                    assert(self@ != other@);
                                },
                                Stmt::ProtocolImpl { .. } => {
                                    assert(self@ != other@);
                                },
                                Stmt::StructDecl { .. } => {
                                    assert(self@ != other@);
                                },
                                Stmt::EnumDecl { .. } => {
                                    assert(false);
                                },
                                Stmt::VarDecl { .. } => {
                                    assert(self@ != other@);
                                },
                                Stmt::FnDecl { .. } => {
                                    assert(self@ != other@);
                                },
                                Stmt::AliasDecl { .. } => {
                                    assert(self@ != other@);
                                },
                            }
                        },
                        Stmt::VarDecl { .. } => {
                            match other {
                                Stmt::ClassDecl { .. } => {
                                    assert(self@ != other@);
                                },
                                Stmt::Methods { .. } => {
                                    assert(self@ != other@);
                                },
                                Stmt::ProtocolDecl { .. } => {
                                    assert(self@ != other@);
                                },
                                Stmt::ProtocolImpl { .. } => {
                                    assert(self@ != other@);
                                },
                                Stmt::StructDecl { .. } => {
                                    assert(self@ != other@);
                                },
                                Stmt::EnumDecl { .. } => {
                                    assert(self@ != other@);
                                },
                                Stmt::VarDecl { .. } => {
                                    assert(false);
                                },
                                Stmt::FnDecl { .. } => {
                                    assert(self@ != other@);
                                },
                                Stmt::AliasDecl { .. } => {
                                    assert(self@ != other@);
                                },
                            }
                        },
                        Stmt::FnDecl { .. } => {
                            match other {
                                Stmt::ClassDecl { .. } => {
                                    assert(self@ != other@);
                                },
                                Stmt::Methods { .. } => {
                                    assert(self@ != other@);
                                },
                                Stmt::ProtocolDecl { .. } => {
                                    assert(self@ != other@);
                                },
                                Stmt::ProtocolImpl { .. } => {
                                    assert(self@ != other@);
                                },
                                Stmt::StructDecl { .. } => {
                                    assert(self@ != other@);
                                },
                                Stmt::EnumDecl { .. } => {
                                    assert(self@ != other@);
                                },
                                Stmt::VarDecl { .. } => {
                                    assert(self@ != other@);
                                },
                                Stmt::FnDecl { .. } => {
                                    assert(false);
                                },
                                Stmt::AliasDecl { .. } => {
                                    assert(self@ != other@);
                                },
                            }
                        },
                        Stmt::AliasDecl { .. } => {
                            match other {
                                Stmt::ClassDecl { .. } => {
                                    assert(self@ != other@);
                                },
                                Stmt::Methods { .. } => {
                                    assert(self@ != other@);
                                },
                                Stmt::ProtocolDecl { .. } => {
                                    assert(self@ != other@);
                                },
                                Stmt::ProtocolImpl { .. } => {
                                    assert(self@ != other@);
                                },
                                Stmt::StructDecl { .. } => {
                                    assert(self@ != other@);
                                },
                                Stmt::EnumDecl { .. } => {
                                    assert(self@ != other@);
                                },
                                Stmt::VarDecl { .. } => {
                                    assert(self@ != other@);
                                },
                                Stmt::FnDecl { .. } => {
                                    assert(self@ != other@);
                                },
                                Stmt::AliasDecl { .. } => {
                                    assert(false);
                                },
                            }
                        },
                    }
                }
                false
            },
        }
    }

    /// Comparison-based testing: two statements expected to be equal. A
    /// mismatch is a fatal condition, not a recoverable case.
    pub fn compare(&self, other: &Self) -> (r: Result<(), Fatal>)
        ensures
            r is Ok <==> self@ == other@,
            r matches Err(f) ==> f == Fatal::StatementMismatch,
    {
        if self.deep_eq(other) {
            Ok(())
        } else {
            Err(Fatal::StatementMismatch)
        }
    }
}

} // verus!
