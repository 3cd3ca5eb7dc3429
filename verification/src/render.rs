//! The statement renderer: a pure function from one statement to output
//! text. It never inspects other statements; availability metadata is
//! accepted but not emitted at this layer.

use vstd::prelude::*;

use crate::ast::{Expr, Method, MethodS, Ty, UnexposedMacro};
use crate::diag::{Fatal, FatalS};
use crate::stmt::{ClassDefReference, ClassRefS, Derives, Stmt, StmtS};

verus! {

// ---------------------------------------------------------------------------
// Text model
// ---------------------------------------------------------------------------

/// The capability-annotation block of a class: nothing when the capability
/// list is empty.
pub open spec fn spec_render_derives(d: Seq<char>) -> Seq<char> {
    if d.len() == 0 {
        Seq::empty()
    } else {
        "#[derive("@ + d + ")]"@
    }
}

/// Each name followed by `suffix`, concatenated in order.
pub open spec fn spec_join_suffix(gs: Seq<Seq<char>>, suffix: Seq<char>) -> Seq<char>
    decreases gs.len(),
{
    if gs.len() == 0 {
        Seq::empty()
    } else {
        spec_join_suffix(gs.drop_last(), suffix) + gs.last() + suffix
    }
}

/// A class reference at a use site, with parallel element and ownership
/// generic parameter lists.
pub open spec fn spec_ty_use(t: ClassRefS) -> Seq<char> {
    if t.generics.len() == 0 {
        t.name
    } else {
        t.name + "<"@ + spec_join_suffix(t.generics, ", "@) + spec_join_suffix(
            t.generics,
            "Ownership, "@,
        ) + ">"@
    }
}

/// The generic parameter list of an impl header.
pub open spec fn spec_generic_params(gs: Seq<Seq<char>>) -> Seq<char> {
    if gs.len() == 0 {
        Seq::empty()
    } else {
        "<"@ + spec_join_suffix(gs, ": Message, "@) + spec_join_suffix(
            gs,
            "Ownership: Ownership, "@,
        ) + ">"@
    }
}

/// The struct header of a generic class, each element parameter defaulted
/// to the ambient base type and each ownership parameter to the
/// shared-ownership marker.
pub open spec fn spec_struct_header(t: ClassRefS) -> Seq<char> {
    if t.generics.len() == 0 {
        t.name
    } else {
        t.name + "<"@ + spec_join_suffix(t.generics, ": Message = Object, "@) + spec_join_suffix(
            t.generics,
            "Ownership: Ownership = Shared, "@,
        ) + ">"@
    }
}

pub open spec fn spec_digit(d: int) -> char {
    if d == 0 {
        '0'
    } else if d == 1 {
        '1'
    } else if d == 2 {
        '2'
    } else if d == 3 {
        '3'
    } else if d == 4 {
        '4'
    } else if d == 5 {
        '5'
    } else if d == 6 {
        '6'
    } else if d == 7 {
        '7'
    } else if d == 8 {
        '8'
    } else {
        '9'
    }
}

/// Decimal digits of `n`, most significant first.
pub open spec fn spec_dec(n: nat) -> Seq<char>
    decreases n,
{
    if n < 10 {
        seq![spec_digit(n as int)]
    } else {
        spec_dec(n / 10) + seq![spec_digit((n % 10) as int)]
    }
}

/// The invariant phantom-data field of each generic parameter, by position.
pub open spec fn spec_inner_fields(gs: Seq<Seq<char>>) -> Seq<char>
    decreases gs.len(),
{
    if gs.len() == 0 {
        Seq::empty()
    } else {
        spec_inner_fields(gs.drop_last()) + "_inner"@ + spec_dec((gs.len() - 1) as nat)
            + ": PhantomData<*mut ("@ + gs.last() + ", "@ + gs.last() + "Ownership)>,\n"@
    }
}

pub open spec fn spec_join_tys_rest(ts: Seq<ClassRefS>) -> Seq<char>
    decreases ts.len(),
{
    if ts.len() == 0 {
        Seq::empty()
    } else {
        spec_join_tys_rest(ts.drop_last()) + ", "@ + spec_ty_use(ts.last())
    }
}

/// The auxiliary inherits list: comma-separated use-site references.
pub open spec fn spec_inherits_list(ts: Seq<ClassRefS>) -> Seq<char> {
    if ts.len() == 0 {
        Seq::empty()
    } else {
        spec_ty_use(ts[0]) + spec_join_tys_rest(ts.drop_first())
    }
}

/// Each method's own rendering, one per line.
pub open spec fn spec_method_lines(ms: Seq<MethodS>) -> Seq<char>
    decreases ms.len(),
{
    if ms.len() == 0 {
        Seq::empty()
    } else {
        spec_method_lines(ms.drop_last()) + ms.last().text + "\n"@
    }
}

/// A field name is treated as private or reserved when it begins with the
/// marker prefix, and is then rendered without a visibility qualifier.
pub open spec fn spec_field_lines(fs: Seq<(Seq<char>, Seq<char>)>) -> Seq<char>
    decreases fs.len(),
{
    if fs.len() == 0 {
        Seq::empty()
    } else {
        let (name, ty) = fs.last();
        let vis = if name.len() > 0 && name[0] == '_' {
            Seq::<char>::empty()
        } else {
            "pub "@
        };
        spec_field_lines(fs.drop_last()) + "        "@ + vis + name + ": "@ + ty + ",\n"@
    }
}

pub open spec fn spec_variant_lines(vs: Seq<(Seq<char>, Seq<char>)>) -> Seq<char>
    decreases vs.len(),
{
    if vs.len() == 0 {
        Seq::empty()
    } else {
        let (name, expr) = vs.last();
        spec_variant_lines(vs.drop_last()) + "        "@ + name + " = "@ + expr + ",\n"@
    }
}

pub open spec fn spec_arg_list(args: Seq<(Seq<char>, Seq<char>)>) -> Seq<char>
    decreases args.len(),
{
    if args.len() == 0 {
        Seq::empty()
    } else {
        let (name, ty) = args.last();
        spec_arg_list(args.drop_last()) + name + ": "@ + ty + ","@
    }
}

// ---------------------------------------------------------------------------
// Renderability and the rendered text
// ---------------------------------------------------------------------------

/// Whether a statement has a rendering: a class statement must carry at
/// least one superclass, and enum and alias statements must carry a
/// macro-kind tag that one of their renderings exists for.
pub open spec fn spec_renderable(s: StmtS) -> bool {
    match s {
        StmtS::ClassDecl { superclasses, .. } => superclasses.len() > 0,
        StmtS::EnumDecl { kind, .. } => {
            match kind {
                None => true,
                Some(UnexposedMacro::Enum) => true,
                Some(UnexposedMacro::Options) => true,
                Some(UnexposedMacro::ClosedEnum) => true,
                Some(UnexposedMacro::ErrorEnum) => true,
                Some(_) => false,
            }
        },
        StmtS::AliasDecl { kind, .. } => {
            match kind {
                None => true,
                Some(UnexposedMacro::BridgedTypedef) => true,
                Some(UnexposedMacro::TypedEnum) => true,
                Some(UnexposedMacro::TypedExtensibleEnum) => true,
                Some(_) => false,
            }
        },
        _ => true,
    }
}

/// The fatal condition reported for an unrenderable statement.
pub open spec fn spec_render_err(s: StmtS) -> FatalS {
    match s {
        StmtS::ClassDecl { ty, .. } => FatalS::ClassWithoutSuperclass { name: ty.name },
        StmtS::EnumDecl { kind, .. } => {
            match kind {
                Some(k) => FatalS::InvalidEnumKind { kind: k },
                None => FatalS::InvalidEnumKind { kind: UnexposedMacro::Enum },
            }
        },
        StmtS::AliasDecl { kind, .. } => {
            match kind {
                Some(k) => FatalS::InvalidAliasKind { kind: k },
                None => FatalS::InvalidAliasKind { kind: UnexposedMacro::Enum },
            }
        },
        _ => FatalS::StatementMismatch,
    }
}

pub open spec fn spec_render_class(
    ty: ClassRefS,
    superclasses: Seq<ClassRefS>,
    derives: Seq<char>,
) -> Seq<char> {
    let macro_name = if ty.generics.len() == 0 {
        "extern_class"@
    } else {
        "__inner_extern_class"@
    };
    let body = if ty.generics.len() == 0 {
        ";\n"@
    } else {
        " {\n"@ + spec_inner_fields(ty.generics) + "notunwindsafe: PhantomData<&'static mut ()>,\n"@
            + "}\n"@
    };
    let inherits = if superclasses.len() > 1 {
        "    #[inherits("@ + spec_inherits_list(superclasses.drop_first()) + ")]\n"@
    } else {
        Seq::<char>::empty()
    };
    macro_name + "!(\n"@ + "    "@ + spec_render_derives(derives) + "\n"@ + "    pub struct "@
        + spec_struct_header(ty) + body + "\n"@ + "    unsafe impl"@ + spec_generic_params(
        ty.generics,
    ) + " ClassType for "@ + spec_ty_use(ty) + " {\n"@ + inherits + "        type Super = "@
        + spec_ty_use(superclasses[0]) + ";\n"@ + "    }\n"@ + ");\n"@
}

pub open spec fn spec_render_methods(
    ty: ClassRefS,
    methods: Seq<MethodS>,
    category_name: Option<Seq<char>>,
    description: Option<Seq<char>>,
) -> Seq<char> {
    let desc = match description {
        Some(d) => "    /// "@ + d + "\n"@ + (if category_name is Some {
            "    ///\n"@
        } else {
            Seq::<char>::empty()
        }),
        None => Seq::<char>::empty(),
    };
    let cat = match category_name {
        Some(c) => "    /// "@ + c + "\n"@,
        None => Seq::<char>::empty(),
    };
    "extern_methods!(\n"@ + desc + cat + "    unsafe impl"@ + spec_generic_params(ty.generics)
        + " "@ + spec_ty_use(ty) + " {\n"@ + spec_method_lines(methods) + "    }\n"@ + ");\n"@
}

pub open spec fn spec_render_protocol(name: Seq<char>, methods: Seq<MethodS>) -> Seq<char> {
    "extern_protocol!(\n"@ + "    pub struct "@ + name + ";\n"@ + "\n"@
        + "    unsafe impl ProtocolType for "@ + name + " {\n"@ + spec_method_lines(methods)
        + "    }\n"@ + ");\n"@
}

pub open spec fn spec_render_struct(name: Seq<char>, fields: Seq<(Seq<char>, Seq<char>)>) -> Seq<
    char,
> {
    "extern_struct!(\n"@ + "    pub struct "@ + name + " {\n"@ + spec_field_lines(fields)
        + "    }\n"@ + ");\n"@
}

pub open spec fn spec_enum_macro_name(kind: Option<UnexposedMacro>) -> Seq<char> {
    match kind {
        None => "extern_enum"@,
        Some(UnexposedMacro::Enum) => "ns_enum"@,
        Some(UnexposedMacro::Options) => "ns_options"@,
        Some(UnexposedMacro::ClosedEnum) => "ns_closed_enum"@,
        Some(UnexposedMacro::ErrorEnum) => "ns_error_enum"@,
        Some(_) => Seq::<char>::empty(),
    }
}

pub open spec fn spec_render_enum(
    name: Option<Seq<char>>,
    ty: Seq<char>,
    kind: Option<UnexposedMacro>,
    variants: Seq<(Seq<char>, Seq<char>)>,
) -> Seq<char> {
    let header_name = match name {
        Some(n) => n + " "@,
        None => Seq::<char>::empty(),
    };
    spec_enum_macro_name(kind) + "!(\n"@ + "    #[underlying("@ + ty + ")]\n"@ + "    pub enum "@
        + header_name + "{\n"@ + spec_variant_lines(variants) + "    }\n"@ + ");\n"@
}

pub open spec fn spec_render_var(name: Seq<char>, ty: Seq<char>, value: Option<Seq<char>>) -> Seq<
    char,
> {
    match value {
        None => "extern_static!("@ + name + ": "@ + ty + ");\n"@,
        Some(expr) => "extern_static!("@ + name + ": "@ + ty + " = "@ + expr + ");\n"@,
    }
}

pub open spec fn spec_render_fn(
    name: Seq<char>,
    arguments: Seq<(Seq<char>, Seq<char>)>,
    result_type: Seq<char>,
    body: Option<()>,
) -> Seq<char> {
    match body {
        None => {
            "extern_fn!(\n"@ + "    pub unsafe fn "@ + name + "("@ + spec_arg_list(arguments)
                + ")"@ + result_type + ";\n"@ + ");\n"@
        },
        Some(_) => {
            "inline_fn!(\n"@ + "    pub unsafe fn "@ + name + "("@ + spec_arg_list(arguments)
                + ")"@ + result_type + " {\n"@ + "        todo!()\n"@ + "    }\n"@ + ");\n"@
        },
    }
}

pub open spec fn spec_render_alias(
    name: Seq<char>,
    ty: Seq<char>,
    kind: Option<UnexposedMacro>,
) -> Seq<char> {
    match kind {
        Some(UnexposedMacro::TypedEnum) => {
            "typed_enum!(pub type "@ + name + " = "@ + ty + ";);\n"@
        },
        Some(UnexposedMacro::TypedExtensibleEnum) => {
            "typed_extensible_enum!(pub type "@ + name + " = "@ + ty + ";);\n"@
        },
        _ => "pub type "@ + name + " = "@ + ty + ";\n"@,
    }
}

/// The output text of one renderable statement. A conformance statement
/// renders to nothing at this layer: it is recorded for downstream
/// consumers.
pub open spec fn spec_render(s: StmtS) -> Seq<char> {
    match s {
        StmtS::ClassDecl { ty, superclasses, derives, .. } => (spec_render_class(
            ty,
            superclasses,
            derives,
        )),
        StmtS::Methods { ty, methods, category_name, description, .. } => (spec_render_methods(
            ty,
            methods,
            category_name,
            description,
        )),
        StmtS::ProtocolDecl { name, methods, .. } => spec_render_protocol(name, methods),
        StmtS::ProtocolImpl { .. } => Seq::empty(),
        StmtS::StructDecl { name, fields, .. } => spec_render_struct(name, fields),
        StmtS::EnumDecl { name, ty, kind, variants } => (spec_render_enum(
            name,
            ty,
            kind,
            variants,
        )),
        StmtS::VarDecl { name, ty, value } => spec_render_var(name, ty, value),
        StmtS::FnDecl { name, arguments, result_type, body } => (spec_render_fn(
            name,
            arguments,
            result_type,
            body,
        )),
        StmtS::AliasDecl { name, ty, kind } => spec_render_alias(name, ty, kind),
    }
}

// ---------------------------------------------------------------------------
// Exec text building
// ---------------------------------------------------------------------------

impl Derives {
    /// The capability-annotation block, or nothing if the list is empty.
    pub fn render(&self) -> (r: String)
        ensures
            r@ == spec_render_derives(self@),
    {
        let mut out = String::new();
        if !self.0.as_str().is_empty() {
            out.append("#[derive(");
            out.append(self.0.as_str());
            out.append(")]");
        }
        out
    }
}

#[verifier::loop_isolation(false)]
fn push_join_suffix(out: &mut String, gs: &Vec<String>, suffix: &str)
    ensures
        final(out)@ == old(out)@ + spec_join_suffix(gs.deep_view(), suffix@),
{
    let ghost base = out@;
    let mut i: usize = 0;
    proof {
        assert(gs.deep_view().subrange(0, 0) =~= Seq::<Seq<char>>::empty());
        assert(base + spec_join_suffix(gs.deep_view().subrange(0, 0), suffix@) =~= base);
    }
    while i < gs.len()
        invariant
            i <= gs.len(),
            out@ == base + spec_join_suffix(gs.deep_view().subrange(0, i as int), suffix@),
        decreases gs.len() - i,
    {
        out.append(gs[i].as_str());
        out.append(suffix);
        proof {
            let dv = gs.deep_view();
            assert(dv.subrange(0, i as int + 1).drop_last() =~= dv.subrange(0, i as int));
            assert(dv.subrange(0, i as int + 1).last() == dv[i as int]);
            assert(out@ =~= base + spec_join_suffix(dv.subrange(0, i as int + 1), suffix@));
        }
        i = i + 1;
    }
    proof {
        assert(gs.deep_view().subrange(0, gs.deep_view().len() as int) =~= gs.deep_view());
    }
}

fn push_ty_use(out: &mut String, t: &ClassDefReference)
    ensures
        final(out)@ == old(out)@ + spec_ty_use(t@),
{
    let ghost base = out@;
    out.append(t.name.as_str());
    if t.generics.len() > 0 {
        out.append("<");
        push_join_suffix(out, &t.generics, ", ");
        push_join_suffix(out, &t.generics, "Ownership, ");
        out.append(">");
        proof {
            assert(final(out)@ =~= base + spec_ty_use(t@));
        }
    }
}

fn push_generic_params(out: &mut String, gs: &Vec<String>)
    ensures
        final(out)@ == old(out)@ + spec_generic_params(gs.deep_view()),
{
    let ghost base = out@;
    if gs.len() > 0 {
        out.append("<");
        push_join_suffix(out, gs, ": Message, ");
        push_join_suffix(out, gs, "Ownership: Ownership, ");
        out.append(">");
        proof {
            assert(final(out)@ =~= base + spec_generic_params(gs.deep_view()));
        }
    }
}

fn push_struct_header(out: &mut String, t: &ClassDefReference)
    ensures
        final(out)@ == old(out)@ + spec_struct_header(t@),
{
    let ghost base = out@;
    out.append(t.name.as_str());
    if t.generics.len() > 0 {
        out.append("<");
        push_join_suffix(out, &t.generics, ": Message = Object, ");
        push_join_suffix(out, &t.generics, "Ownership: Ownership = Shared, ");
        out.append(">");
        proof {
            assert(final(out)@ =~= base + spec_struct_header(t@));
        }
    }
}

fn push_digit(out: &mut String, d: u64)
    requires
        d < 10,
    ensures
        final(out)@ == old(out)@ + seq![spec_digit(d as int)],
{
    if d == 0 {
        out.append("0");
        proof {
            reveal_strlit("0");
            assert(final(out)@ =~= old(out)@ + seq![spec_digit(d as int)]);
        }
    } else if d == 1 {
        out.append("1");
        proof {
            reveal_strlit("1");
            assert(final(out)@ =~= old(out)@ + seq![spec_digit(d as int)]);
        }
    } else if d == 2 {
        out.append("2");
        proof {
            reveal_strlit("2");
            assert(final(out)@ =~= old(out)@ + seq![spec_digit(d as int)]);
        }
    } else if d == 3 {
        out.append("3");
        proof {
            reveal_strlit("3");
            assert(final(out)@ =~= old(out)@ + seq![spec_digit(d as int)]);
        }
    } else if d == 4 {
        out.append("4");
        proof {
            reveal_strlit("4");
            assert(final(out)@ =~= old(out)@ + seq![spec_digit(d as int)]);
        }
    } else if d == 5 {
        out.append("5");
        proof {
            reveal_strlit("5");
            assert(final(out)@ =~= old(out)@ + seq![spec_digit(d as int)]);
        }
    } else if d == 6 {
        out.append("6");
        proof {
            reveal_strlit("6");
            assert(final(out)@ =~= old(out)@ + seq![spec_digit(d as int)]);
        }
    } else if d == 7 {
        out.append("7");
        proof {
            reveal_strlit("7");
            assert(final(out)@ =~= old(out)@ + seq![spec_digit(d as int)]);
        }
    } else if d == 8 {
        out.append("8");
        proof {
            reveal_strlit("8");
            assert(final(out)@ =~= old(out)@ + seq![spec_digit(d as int)]);
        }
    } else {
        out.append("9");
        proof {
            reveal_strlit("9");
            assert(final(out)@ =~= old(out)@ + seq![spec_digit(d as int)]);
        }
    }
}

pub(crate) fn push_decimal(out: &mut String, n: u64)
    ensures
        final(out)@ == old(out)@ + spec_dec(n as nat),
    decreases n,
{
    if n >= 10 {
        push_decimal(out, n / 10);
        push_digit(out, n % 10);
        proof {
            assert(final(out)@ =~= old(out)@ + spec_dec(n as nat));
        }
    } else {
        push_digit(out, n);
    }
}

#[verifier::loop_isolation(false)]
fn push_inner_fields(out: &mut String, gs: &Vec<String>)
    ensures
        final(out)@ == old(out)@ + spec_inner_fields(gs.deep_view()),
{
    let ghost base = out@;
    let mut i: usize = 0;
    proof {
        assert(gs.deep_view().subrange(0, 0) =~= Seq::<Seq<char>>::empty());
        assert(base + spec_inner_fields(gs.deep_view().subrange(0, 0)) =~= base);
    }
    while i < gs.len()
        invariant
            i <= gs.len(),
            out@ == base + spec_inner_fields(gs.deep_view().subrange(0, i as int)),
        decreases gs.len() - i,
    {
        out.append("_inner");
        push_decimal(out, i as u64);
        out.append(": PhantomData<*mut (");
        out.append(gs[i].as_str());
        out.append(", ");
        out.append(gs[i].as_str());
        out.append("Ownership)>,\n");
        proof {
            let dv = gs.deep_view();
            assert(dv.subrange(0, i as int + 1).drop_last() =~= dv.subrange(0, i as int));
            assert(dv.subrange(0, i as int + 1).last() == dv[i as int]);
            assert(out@ =~= base + spec_inner_fields(dv.subrange(0, i as int + 1)));
        }
        i = i + 1;
    }
    proof {
        assert(gs.deep_view().subrange(0, gs.deep_view().len() as int) =~= gs.deep_view());
    }
}

#[verifier::loop_isolation(false)]
fn push_inherits(out: &mut String, superclasses: &Vec<ClassDefReference>)
    requires
        superclasses@.len() > 1,
    ensures
        final(out)@ == old(out)@ + spec_inherits_list(superclasses.deep_view().drop_first()),
{
    let ghost base = out@;
    let ghost rest = superclasses.deep_view().drop_first();
    push_ty_use(out, &superclasses[1]);
    let mut k: usize = 2;
    proof {
        assert(rest[0] == superclasses.deep_view()[1]);
        assert(rest.drop_first().subrange(0, 0) =~= Seq::<ClassRefS>::empty());
        assert(out@ =~= base + spec_ty_use(rest[0]) + spec_join_tys_rest(
            rest.drop_first().subrange(0, 0),
        ));
    }
    while k < superclasses.len()
        invariant
            2 <= k <= superclasses.len(),
            out@ == base + spec_ty_use(rest[0]) + spec_join_tys_rest(
                rest.drop_first().subrange(0, k as int - 2),
            ),
        decreases superclasses.len() - k,
    {
        out.append(", ");
        push_ty_use(out, &superclasses[k]);
        proof {
            let tail = rest.drop_first();
            assert(tail.subrange(0, k as int - 1).drop_last() =~= tail.subrange(0, k as int - 2));
            assert(tail.subrange(0, k as int - 1).last() == superclasses.deep_view()[k as int]);
            assert(out@ =~= base + spec_ty_use(rest[0]) + spec_join_tys_rest(
                tail.subrange(0, k as int - 1),
            ));
        }
        k = k + 1;
    }
    proof {
        assert(rest.drop_first().subrange(0, superclasses@.len() - 2) =~= rest.drop_first());
        assert(final(out)@ =~= base + spec_inherits_list(rest));
    }
}

#[verifier::loop_isolation(false)]
fn push_method_lines(out: &mut String, methods: &Vec<Method>)
    ensures
        final(out)@ == old(out)@ + spec_method_lines(methods.deep_view()),
{
    let ghost base = out@;
    let mut i: usize = 0;
    proof {
        assert(methods.deep_view().subrange(0, 0) =~= Seq::<MethodS>::empty());
        assert(base + spec_method_lines(methods.deep_view().subrange(0, 0)) =~= base);
    }
    while i < methods.len()
        invariant
            i <= methods.len(),
            out@ == base + spec_method_lines(methods.deep_view().subrange(0, i as int)),
        decreases methods.len() - i,
    {
        out.append(methods[i].text.as_str());
        out.append("\n");
        proof {
            let dv = methods.deep_view();
            assert(dv.subrange(0, i as int + 1).drop_last() =~= dv.subrange(0, i as int));
            assert(dv.subrange(0, i as int + 1).last() == dv[i as int]);
            assert(out@ =~= base + spec_method_lines(dv.subrange(0, i as int + 1)));
        }
        i = i + 1;
    }
    proof {
        assert(methods.deep_view().subrange(0, methods.deep_view().len() as int)
            =~= methods.deep_view());
    }
}

#[verifier::loop_isolation(false)]
fn push_field_lines(out: &mut String, fields: &Vec<(String, Ty)>)
    ensures
        final(out)@ == old(out)@ + spec_field_lines(fields.deep_view()),
{
    let ghost base = out@;
    let mut i: usize = 0;
    proof {
        assert(fields.deep_view().subrange(0, 0) =~= Seq::<(Seq<char>, Seq<char>)>::empty());
        assert(base + spec_field_lines(fields.deep_view().subrange(0, 0)) =~= base);
    }
    while i < fields.len()
        invariant
            i <= fields.len(),
            out@ == base + spec_field_lines(fields.deep_view().subrange(0, i as int)),
        decreases fields.len() - i,
    {
        out.append("        ");
        let name = &fields[i].0;
        let private = if name.as_str().is_empty() {
            false
        } else {
            name.as_str().get_char(0) == '_'
        };
        if !private {
            out.append("pub ");
        }
        out.append(name.as_str());
        out.append(": ");
        out.append(fields[i].1.text.as_str());
        out.append(",\n");
        proof {
            let dv = fields.deep_view();
            assert(dv.subrange(0, i as int + 1).drop_last() =~= dv.subrange(0, i as int));
            assert(dv.subrange(0, i as int + 1).last() == dv[i as int]);
            assert(out@ =~= base + spec_field_lines(dv.subrange(0, i as int + 1)));
        }
        i = i + 1;
    }
    proof {
        assert(fields.deep_view().subrange(0, fields.deep_view().len() as int)
            =~= fields.deep_view());
    }
}

#[verifier::loop_isolation(false)]
fn push_variant_lines(out: &mut String, variants: &Vec<(String, Expr)>)
    ensures
        final(out)@ == old(out)@ + spec_variant_lines(variants.deep_view()),
{
    let ghost base = out@;
    let mut i: usize = 0;
    proof {
        assert(variants.deep_view().subrange(0, 0) =~= Seq::<(Seq<char>, Seq<char>)>::empty());
        assert(base + spec_variant_lines(variants.deep_view().subrange(0, 0)) =~= base);
    }
    while i < variants.len()
        invariant
            i <= variants.len(),
            out@ == base + spec_variant_lines(variants.deep_view().subrange(0, i as int)),
        decreases variants.len() - i,
    {
        out.append("        ");
        out.append(variants[i].0.as_str());
        out.append(" = ");
        out.append(variants[i].1.text.as_str());
        out.append(",\n");
        proof {
            let dv = variants.deep_view();
            assert(dv.subrange(0, i as int + 1).drop_last() =~= dv.subrange(0, i as int));
            assert(dv.subrange(0, i as int + 1).last() == dv[i as int]);
            assert(out@ =~= base + spec_variant_lines(dv.subrange(0, i as int + 1)));
        }
        i = i + 1;
    }
    proof {
        assert(variants.deep_view().subrange(0, variants.deep_view().len() as int)
            =~= variants.deep_view());
    }
}

#[verifier::loop_isolation(false)]
fn push_arg_list(out: &mut String, arguments: &Vec<(String, Ty)>)
    ensures
        final(out)@ == old(out)@ + spec_arg_list(arguments.deep_view()),
{
    let ghost base = out@;
    let mut i: usize = 0;
    proof {
        assert(arguments.deep_view().subrange(0, 0) =~= Seq::<(Seq<char>, Seq<char>)>::empty());
        assert(base + spec_arg_list(arguments.deep_view().subrange(0, 0)) =~= base);
    }
    while i < arguments.len()
        invariant
            i <= arguments.len(),
            out@ == base + spec_arg_list(arguments.deep_view().subrange(0, i as int)),
        decreases arguments.len() - i,
    {
        out.append(arguments[i].0.as_str());
        out.append(": ");
        out.append(arguments[i].1.text.as_str());
        out.append(",");
        proof {
            let dv = arguments.deep_view();
            assert(dv.subrange(0, i as int + 1).drop_last() =~= dv.subrange(0, i as int));
            assert(dv.subrange(0, i as int + 1).last() == dv[i as int]);
            assert(out@ =~= base + spec_arg_list(dv.subrange(0, i as int + 1)));
        }
        i = i + 1;
    }
    proof {
        assert(arguments.deep_view().subrange(0, arguments.deep_view().len() as int)
            =~= arguments.deep_view());
    }
}

// ---------------------------------------------------------------------------
// Per-variant renderings
// ---------------------------------------------------------------------------

#[verifier::rlimit(60)]
fn render_class(
    ty: &ClassDefReference,
    superclasses: &Vec<ClassDefReference>,
    derives: &Derives,
) -> (r: Result<String, Fatal>)
    ensures
        match r {
            Ok(t) => {
                &&& superclasses.deep_view().len() > 0
                &&& t@ == spec_render_class(ty@, superclasses.deep_view(), derives@)
            },
            Err(f) => {
                &&& superclasses.deep_view().len() == 0
                &&& f@ == (FatalS::ClassWithoutSuperclass { name: ty@.name })
            },
        },
{
    if superclasses.len() == 0 {
        return Err(Fatal::ClassWithoutSuperclass { name: ty.name.clone() });
    }
    let mut out = String::new();
    if ty.generics.len() == 0 {
        out.append("extern_class");
    } else {
        out.append("__inner_extern_class");
    }
    out.append("!(\n");
    out.append("    ");
    let derives_text = derives.render();
    out.append(derives_text.as_str());
    out.append("\n");
    out.append("    pub struct ");
    push_struct_header(&mut out, ty);
    if ty.generics.len() == 0 {
        out.append(";\n");
    } else {
        out.append(" {\n");
        push_inner_fields(&mut out, &ty.generics);
        out.append("notunwindsafe: PhantomData<&'static mut ()>,\n");
        out.append("}\n");
    }
    out.append("\n");
    out.append("    unsafe impl");
    push_generic_params(&mut out, &ty.generics);
    out.append(" ClassType for ");
    push_ty_use(&mut out, ty);
    out.append(" {\n");
    if superclasses.len() > 1 {
        out.append("    #[inherits(");
        push_inherits(&mut out, superclasses);
        out.append(")]\n");
    }
    out.append("        type Super = ");
    push_ty_use(&mut out, &superclasses[0]);
    out.append(";\n");
    out.append("    }\n");
    out.append(");\n");
    proof {
        assert(superclasses.deep_view()[0] == superclasses@[0]@);
        assert(out@ =~= spec_render_class(ty@, superclasses.deep_view(), derives@));
    }
    Ok(out)
}

fn render_methods_block(
    ty: &ClassDefReference,
    methods: &Vec<Method>,
    category_name: &Option<String>,
    description: &Option<String>,
) -> (r: String)
    ensures
        r@ == spec_render_methods(
            ty@,
            methods.deep_view(),
            category_name.deep_view(),
            description.deep_view(),
        ),
{
    let mut out = String::new();
    out.append("extern_methods!(\n");
    match description {
        Some(d) => {
            out.append("    /// ");
            out.append(d.as_str());
            out.append("\n");
            if category_name.is_some() {
                out.append("    ///\n");
            }
        },
        None => {},
    }
    match category_name {
        Some(c) => {
            out.append("    /// ");
            out.append(c.as_str());
            out.append("\n");
        },
        None => {},
    }
    out.append("    unsafe impl");
    push_generic_params(&mut out, &ty.generics);
    out.append(" ");
    push_ty_use(&mut out, ty);
    out.append(" {\n");
    push_method_lines(&mut out, methods);
    out.append("    }\n");
    out.append(");\n");
    proof {
        assert(out@ =~= spec_render_methods(
            ty@,
            methods.deep_view(),
            category_name.deep_view(),
            description.deep_view(),
        ));
    }
    out
}

fn render_protocol_block(name: &String, methods: &Vec<Method>) -> (r: String)
    ensures
        r@ == spec_render_protocol(name@, methods.deep_view()),
{
    let mut out = String::new();
    out.append("extern_protocol!(\n");
    out.append("    pub struct ");
    out.append(name.as_str());
    out.append(";\n");
    out.append("\n");
    out.append("    unsafe impl ProtocolType for ");
    out.append(name.as_str());
    out.append(" {\n");
    push_method_lines(&mut out, methods);
    out.append("    }\n");
    out.append(");\n");
    proof {
        assert(out@ =~= spec_render_protocol(name@, methods.deep_view()));
    }
    out
}

fn render_struct_block(name: &String, fields: &Vec<(String, Ty)>) -> (r: String)
    ensures
        r@ == spec_render_struct(name@, fields.deep_view()),
{
    let mut out = String::new();
    out.append("extern_struct!(\n");
    out.append("    pub struct ");
    out.append(name.as_str());
    out.append(" {\n");
    push_field_lines(&mut out, fields);
    out.append("    }\n");
    out.append(");\n");
    proof {
        assert(out@ =~= spec_render_struct(name@, fields.deep_view()));
    }
    out
}

fn render_enum_block(
    name: &Option<String>,
    ty: &Ty,
    kind: &Option<UnexposedMacro>,
    variants: &Vec<(String, Expr)>,
) -> (r: Result<String, Fatal>)
    ensures
        match r {
            Ok(t) => {
                &&& spec_renderable(
                    StmtS::EnumDecl {
                        name: name.deep_view(),
                        ty: ty@,
                        kind: *kind,
                        variants: variants.deep_view(),
                    },
                )
                &&& t@ == spec_render_enum(name.deep_view(), ty@, *kind, variants.deep_view())
            },
            Err(f) => {
                &&& !spec_renderable(
                    StmtS::EnumDecl {
                        name: name.deep_view(),
                        ty: ty@,
                        kind: *kind,
                        variants: variants.deep_view(),
                    },
                )
                &&& *kind matches Some(k) && f@ == (FatalS::InvalidEnumKind { kind: k })
            },
        },
{
    let mut out = String::new();
    match kind {
        None => {
            out.append("extern_enum");
            proof {
                reveal_strlit("extern_enum");
            }
        },
        Some(UnexposedMacro::Enum) => {
            out.append("ns_enum");
            proof {
                reveal_strlit("ns_enum");
            }
        },
        Some(UnexposedMacro::Options) => {
            out.append("ns_options");
            proof {
                reveal_strlit("ns_options");
            }
        },
        Some(UnexposedMacro::ClosedEnum) => {
            out.append("ns_closed_enum");
            proof {
                reveal_strlit("ns_closed_enum");
            }
        },
        Some(UnexposedMacro::ErrorEnum) => {
            out.append("ns_error_enum");
            proof {
                reveal_strlit("ns_error_enum");
            }
        },
        Some(k) => {
            return Err(Fatal::InvalidEnumKind { kind: *k });
        },
    }
    out.append("!(\n");
    out.append("    #[underlying(");
    out.append(ty.text.as_str());
    out.append(")]\n");
    out.append("    pub enum ");
    match name {
        Some(n) => {
            out.append(n.as_str());
            out.append(" ");
        },
        None => {},
    }
    out.append("{\n");
    push_variant_lines(&mut out, variants);
    out.append("    }\n");
    out.append(");\n");
    proof {
        assert(out@ =~= spec_render_enum(name.deep_view(), ty@, *kind, variants.deep_view()));
    }
    Ok(out)
}

fn render_var_block(name: &String, ty: &Ty, value: &Option<Expr>) -> (r: String)
    ensures
        r@ == spec_render_var(name@, ty@, value.deep_view()),
{
    let mut out = String::new();
    out.append("extern_static!(");
    out.append(name.as_str());
    out.append(": ");
    out.append(ty.text.as_str());
    match value {
        None => {
            out.append(");\n");
        },
        Some(expr) => {
            out.append(" = ");
            out.append(expr.text.as_str());
            out.append(");\n");
        },
    }
    proof {
        assert(out@ =~= spec_render_var(name@, ty@, value.deep_view()));
    }
    out
}

fn render_fn_block(
    name: &String,
    arguments: &Vec<(String, Ty)>,
    result_type: &Ty,
    body: &Option<()>,
) -> (r: String)
    ensures
        r@ == spec_render_fn(name@, arguments.deep_view(), result_type@, *body),
{
    let mut out = String::new();
    match body {
        None => {
            out.append("extern_fn!(\n");
            out.append("    pub unsafe fn ");
            out.append(name.as_str());
            out.append("(");
            push_arg_list(&mut out, arguments);
            out.append(")");
            out.append(result_type.text.as_str());
            out.append(";\n");
            out.append(");\n");
        },
        Some(_) => {
            out.append("inline_fn!(\n");
            out.append("    pub unsafe fn ");
            out.append(name.as_str());
            out.append("(");
            push_arg_list(&mut out, arguments);
            out.append(")");
            out.append(result_type.text.as_str());
            out.append(" {\n");
            out.append("        todo!()\n");
            out.append("    }\n");
            out.append(");\n");
        },
    }
    proof {
        assert(out@ =~= spec_render_fn(name@, arguments.deep_view(), result_type@, *body));
    }
    out
}

fn render_alias_block(name: &String, ty: &Ty, kind: &Option<UnexposedMacro>) -> (r: Result<
    String,
    Fatal,
>)
    ensures
        match r {
            Ok(t) => {
                &&& spec_renderable(
                    StmtS::AliasDecl { name: name@, ty: ty@, kind: *kind },
                )
                &&& t@ == spec_render_alias(name@, ty@, *kind)
            },
            Err(f) => {
                &&& !spec_renderable(
                    StmtS::AliasDecl { name: name@, ty: ty@, kind: *kind },
                )
                &&& *kind matches Some(k) && f@ == (FatalS::InvalidAliasKind { kind: k })
            },
        },
{
    let mut out = String::new();
    match kind {
        Some(UnexposedMacro::TypedEnum) => {
            out.append("typed_enum!(pub type ");
            out.append(name.as_str());
            out.append(" = ");
            out.append(ty.text.as_str());
            out.append(";);\n");
        },
        Some(UnexposedMacro::TypedExtensibleEnum) => {
            out.append("typed_extensible_enum!(pub type ");
            out.append(name.as_str());
            out.append(" = ");
            out.append(ty.text.as_str());
            out.append(";);\n");
        },
        None | Some(UnexposedMacro::BridgedTypedef) => {
            out.append("pub type ");
            out.append(name.as_str());
            out.append(" = ");
            out.append(ty.text.as_str());
            out.append(";\n");
        },
        Some(k) => {
            return Err(Fatal::InvalidAliasKind { kind: *k });
        },
    }
    proof {
        assert(out@ =~= spec_render_alias(name@, ty@, *kind));
    }
    Ok(out)
}

impl Stmt {
    /// Render one statement to output text: a pure function of the
    /// statement alone. A conformance statement renders to nothing at this
    /// layer; a statement no rendering exists for is a fatal condition.
    pub fn render(&self) -> (r: Result<String, Fatal>)
        ensures
            match r {
                Ok(t) => spec_renderable(self@) && t@ == spec_render(self@),
                Err(f) => !spec_renderable(self@) && f@ == spec_render_err(self@),
            },
    {
        match self {
            Stmt::ClassDecl { ty, superclasses, derives, .. } => (render_class(
                ty,
                superclasses,
                derives,
            )),
            Stmt::Methods { ty, methods, category_name, description, .. } => (Ok(
                render_methods_block(ty, methods, category_name, description),
            )),
            Stmt::ProtocolDecl { name, methods, .. } => (Ok(
                render_protocol_block(name, methods),
            )),
            Stmt::ProtocolImpl { .. } => {
                let out = String::new();
                Ok(out)
            },
            Stmt::StructDecl { name, fields, .. } => Ok(render_struct_block(name, fields)),
            Stmt::EnumDecl { name, ty, kind, variants } => (render_enum_block(
                name,
                ty,
                kind,
                variants,
            )),
            Stmt::VarDecl { name, ty, value } => Ok(render_var_block(name, ty, value)),
            Stmt::FnDecl { name, arguments, result_type, body } => (Ok(
                render_fn_block(name, arguments, result_type, body),
            )),
            Stmt::AliasDecl { name, ty, kind } => render_alias_block(name, ty, kind),
        }
    }
}

} // verus!
