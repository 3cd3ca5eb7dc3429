//! The statement dispatcher: the single entry point, mapping one
//! declaration node to the ordered statement sequence it produces, under
//! the injected override table.

use vstd::prelude::*;

use crate::ast::{Entity, EntityData, Expr, Ty, UnexposedMacro};
use crate::config::{ClassData, Context, EnumData, spec_lookup, lookup};
use crate::diag::{DiagS, Diagnostic, FatalS, Fatal};
use crate::merge::{spec_parse_objc_decl, parse_objc_decl, ObjcDecl, ObjcDeclS};
use crate::resolve::{spec_superclass_chain, superclass_chain};
use crate::stmt::{ClassDefReference, ClassRefS, Derives, Ownership, Stmt, StmtS};

verus! {

/// What one top-level declaration produces: an ordered statement sequence
/// plus the structured log entries reported along the way.
#[verifier::ext_equal]
pub struct ParsedS {
    pub stmts: Seq<StmtS>,
    pub diags: Seq<DiagS>,
}

pub open spec fn spec_parsed_empty() -> ParsedS {
    ParsedS { stmts: Seq::empty(), diags: Seq::empty() }
}

/// Exec result of the dispatcher.
#[derive(Debug)]
pub struct ParseOutput {
    pub stmts: Vec<Stmt>,
    pub diags: Vec<Diagnostic>,
}

impl View for ParseOutput {
    type V = ParsedS;

    open spec fn view(&self) -> ParsedS {
        ParsedS { stmts: self.stmts.deep_view(), diags: self.diags.deep_view() }
    }
}

// -------------------- override lookups --------------------

pub open spec fn spec_class_data(ctx: Context, name: Seq<char>) -> Option<ClassData> {
    spec_lookup(ctx.class_data@, name)
}

pub open spec fn spec_class_skipped(ctx: Context, name: Seq<char>) -> bool {
    match spec_class_data(ctx, name) {
        Some(d) => d.skipped,
        None => false,
    }
}

pub open spec fn spec_class_definition_skipped(ctx: Context, name: Seq<char>) -> bool {
    match spec_class_data(ctx, name) {
        Some(d) => d.definition_skipped,
        None => false,
    }
}

pub open spec fn spec_class_derives(ctx: Context, name: Seq<char>) -> Seq<char> {
    match spec_class_data(ctx, name) {
        Some(d) => d.derives@,
        None => "Debug, PartialEq, Eq, Hash"@,
    }
}

pub open spec fn spec_class_ownership(ctx: Context, name: Seq<char>) -> Ownership {
    match spec_class_data(ctx, name) {
        Some(d) => d.ownership,
        None => Ownership::Shared,
    }
}

pub open spec fn spec_protocol_skipped(ctx: Context, name: Seq<char>) -> bool {
    match spec_lookup(ctx.protocol_data@, name) {
        Some(d) => d.skipped,
        None => false,
    }
}

pub open spec fn spec_struct_skipped(ctx: Context, name: Seq<char>) -> bool {
    match spec_lookup(ctx.struct_data@, name) {
        Some(d) => d.skipped,
        None => false,
    }
}

pub open spec fn spec_typedef_skipped(ctx: Context, name: Seq<char>) -> bool {
    match spec_lookup(ctx.typedef_data@, name) {
        Some(d) => d.skipped,
        None => false,
    }
}

pub open spec fn spec_static_skipped(ctx: Context, name: Seq<char>) -> bool {
    match spec_lookup(ctx.statics@, name) {
        Some(d) => d.skipped,
        None => false,
    }
}

pub open spec fn spec_fn_skipped(ctx: Context, name: Seq<char>) -> bool {
    match spec_lookup(ctx.fns@, name) {
        Some(d) => d.skipped,
        None => false,
    }
}

/// The per-enum override entry, keyed by the enum's name or `anonymous`.
pub open spec fn spec_enum_data(ctx: Context, name: Option<String>) -> Option<EnumData> {
    let key = match name {
        Some(n) => n@,
        None => "anonymous"@,
    };
    spec_lookup(ctx.enum_data@, key)
}

pub open spec fn spec_constant_skipped(data: Option<EnumData>, name: Seq<char>) -> bool {
    match data {
        Some(d) => match spec_lookup(d.constants@, name) {
            Some(c) => c.skipped,
            None => false,
        },
        None => false,
    }
}

pub open spec fn spec_enum_use_value(data: Option<EnumData>) -> bool {
    match data {
        Some(d) => d.use_value,
        None => false,
    }
}

pub open spec fn spec_enum_skipped(data: Option<EnumData>) -> bool {
    match data {
        Some(d) => d.skipped,
        None => false,
    }
}

// -------------------- class declarations --------------------

/// One conformance statement per conformed protocol.
pub open spec fn spec_protocol_impls(
    ty: ClassRefS,
    availability: Seq<Seq<char>>,
    protocols: Seq<Seq<char>>,
) -> Seq<StmtS> {
    protocols.map_values(
        |p: Seq<char>| StmtS::ProtocolImpl { ty: ty, availability: availability, protocol: p },
    )
}

/// A top-level class declaration: class-declaration-first, then one
/// conformance per protocol, then the default method set. A fully skipped
/// class yields nothing; a class whose definition alone is skipped keeps
/// only its method set.
pub open spec fn spec_parse_interface(e: Entity, name: String, ctx: Context) -> Result<
    ParsedS,
    FatalS,
> {
    if spec_class_skipped(ctx, name@) {
        Ok(spec_parsed_empty())
    } else {
        match spec_parse_objc_decl(e, true, true) {
            Err(f) => Err(f),
            Ok(d) => {
                let ty = ClassRefS { name: name@, generics: d.generics };
                let methods_stmt = StmtS::Methods {
                    ty: ty,
                    availability: e.availability@,
                    methods: d.methods,
                    category_name: None,
                    description: None,
                };
                if !spec_class_definition_skipped(ctx, name@) {
                    let class_stmt = StmtS::ClassDecl {
                        ty: ty,
                        availability: e.availability@,
                        superclasses: spec_superclass_chain(e),
                        designated_initializers: d.designated_initializers,
                        derives: spec_class_derives(ctx, name@),
                        ownership: spec_class_ownership(ctx, name@),
                    };
                    Ok(
                        ParsedS {
                            stmts: seq![class_stmt] + spec_protocol_impls(
                                ty,
                                e.availability@,
                                d.protocols,
                            ) + seq![methods_stmt],
                            diags: d.diags,
                        },
                    )
                } else {
                    Ok(ParsedS { stmts: seq![methods_stmt], diags: d.diags })
                }
            },
        }
    }
}

// -------------------- categories --------------------

/// The first class reference among `children`, in depth-first order.
pub open spec fn spec_find_class_ref(children: Seq<Entity>) -> Option<String>
    decreases children,
        via spec_find_class_ref_decreases
{
    if children.len() == 0 {
        None
    } else {
        match children[0].data {
            EntityData::ObjCClassRef { name } => Some(name),
            _ => match spec_find_class_ref(children[0].children@) {
                Some(n) => Some(n),
                None => spec_find_class_ref(children.drop_first()),
            },
        }
    }
}

#[via_fn]
proof fn spec_find_class_ref_decreases(children: Seq<Entity>) {
    if children.len() > 0 {
        assert(decreases_to!(children => children[0]));
        assert(decreases_to!(children[0] => children[0].children));
        assert(decreases_to!(children[0].children => children[0].children@));
        assert(decreases_to!(children => children.drop_first()));
    }
}

/// A category declaration: locate the target class, honour its skip flag,
/// merge members in non-superclass mode, and emit the method set plus one
/// conformance per newly conformed protocol. A designated initializer here
/// is anomalous: reported, kept.
pub open spec fn spec_parse_category(e: Entity, name: Option<String>, ctx: Context) -> Result<
    ParsedS,
    FatalS,
> {
    match spec_find_class_ref(e.children@) {
        None => Err(FatalS::MissingCategoryClass),
        Some(class_name) => {
            if spec_class_skipped(ctx, class_name@) {
                Ok(spec_parsed_empty())
            } else {
                match spec_parse_objc_decl(e, false, true) {
                    Err(f) => Err(f),
                    Ok(d) => {
                        let diags = if d.designated_initializers.len() > 0 {
                            d.diags.push(
                                DiagS::DesignatedInitializerInCategory {
                                    names: d.designated_initializers,
                                },
                            )
                        } else {
                            d.diags
                        };
                        let ty = ClassRefS { name: class_name@, generics: d.generics };
                        let methods_stmt = StmtS::Methods {
                            ty: ty,
                            availability: e.availability@,
                            methods: d.methods,
                            category_name: name.deep_view(),
                            description: None,
                        };
                        Ok(
                            ParsedS {
                                stmts: seq![methods_stmt] + spec_protocol_impls(
                                    ty,
                                    e.availability@,
                                    d.protocols,
                                ),
                                diags: diags,
                            },
                        )
                    },
                }
            }
        },
    }
}

// -------------------- protocols --------------------

/// A protocol declaration: merge in protocol mode, no generics; a
/// designated initializer here is anomalous: reported, kept.
pub open spec fn spec_parse_protocol(e: Entity, name: String, ctx: Context) -> Result<
    ParsedS,
    FatalS,
> {
    if spec_protocol_skipped(ctx, name@) {
        Ok(spec_parsed_empty())
    } else {
        match spec_parse_objc_decl(e, false, false) {
            Err(f) => Err(f),
            Ok(d) => {
                let diags = if d.designated_initializers.len() > 0 {
                    d.diags.push(
                        DiagS::DesignatedInitializerInProtocol { names: d.designated_initializers },
                    )
                } else {
                    d.diags
                };
                Ok(
                    ParsedS {
                        stmts: seq![
                            StmtS::ProtocolDecl {
                                name: name@,
                                availability: e.availability@,
                                protocols: d.protocols,
                                methods: d.methods,
                            },
                        ],
                        diags: diags,
                    },
                )
            },
        }
    }
}

// -------------------- structs --------------------

/// Accumulated state of a pass over a struct body's children.
#[verifier::ext_equal]
pub struct StructAccS {
    pub boxable: bool,
    pub fields: Seq<(Seq<char>, Seq<char>)>,
    pub diags: Seq<DiagS>,
}

/// One child of a struct body. A bit-field member is unsound to expose and
/// is fatal at struct-parse time.
pub open spec fn spec_struct_step(acc: StructAccS, c: Entity) -> Result<StructAccS, FatalS> {
    match c.data {
        EntityData::UnexposedAttr { tag } => {
            match tag {
                Some(t) => (Ok(
                    StructAccS { diags: acc.diags.push(DiagS::UnknownMacro { tag: t }), ..acc },
                )),
                None => Ok(acc),
            }
        },
        EntityData::FieldDecl { name, ty, is_bit_field } => {
            if is_bit_field {
                Err(FatalS::BitFieldMember { field: name@ })
            } else {
                Ok(StructAccS { fields: acc.fields.push((name@, ty@)), ..acc })
            }
        },
        EntityData::ObjCBoxable => Ok(StructAccS { boxable: true, ..acc }),
        _ => Ok(StructAccS { diags: acc.diags.push(DiagS::UnknownChild), ..acc }),
    }
}

pub open spec fn spec_struct_children(children: Seq<Entity>, init: StructAccS) -> Result<
    StructAccS,
    FatalS,
>
    decreases children.len(),
{
    if children.len() == 0 {
        Ok(init)
    } else {
        match spec_struct_children(children.drop_last(), init) {
            Ok(acc) => spec_struct_step(acc, children.last()),
            Err(f) => Err(f),
        }
    }
}

pub open spec fn spec_struct_empty_acc() -> StructAccS {
    StructAccS { boxable: false, fields: Seq::empty(), diags: Seq::empty() }
}

/// Extract the boxable flag and the ordered field list of a struct body.
pub open spec fn spec_parse_struct(e: Entity) -> Result<StructAccS, FatalS> {
    spec_struct_children(e.children@, spec_struct_empty_acc())
}

/// A struct name is treated as private when absent or beginning with the
/// reserved marker prefix; such structs are parsed through their typedef.
pub open spec fn spec_private_struct_name(name: Option<String>) -> bool {
    match name {
        None => true,
        Some(n) => n@.len() > 0 && n@[0] == '_',
    }
}

/// A struct declaration not reached via a typedef: skip private names and
/// non-defining forward declarations, otherwise extract fields.
pub open spec fn spec_parse_struct_top(
    e: Entity,
    name: Option<String>,
    is_definition: bool,
    ctx: Context,
) -> Result<ParsedS, FatalS> {
    match name {
        None => Ok(spec_parsed_empty()),
        Some(n) => {
            if spec_struct_skipped(ctx, n@) {
                Ok(spec_parsed_empty())
            } else if !is_definition {
                Ok(spec_parsed_empty())
            } else if !(n@.len() > 0 && n@[0] == '_') {
                match spec_parse_struct(e) {
                    Err(f) => Err(f),
                    Ok(acc) => (Ok(
                        ParsedS {
                            stmts: seq![
                                StmtS::StructDecl {
                                    name: n@,
                                    boxable: acc.boxable,
                                    fields: acc.fields,
                                },
                            ],
                            diags: acc.diags,
                        },
                    )),
                }
            } else {
                Ok(spec_parsed_empty())
            }
        },
    }
}

// -------------------- typedefs --------------------

/// Accumulated state of a pass over a typedef's children.
#[verifier::ext_equal]
pub struct TypedefAccS {
    pub strukt: Option<(bool, Seq<(Seq<char>, Seq<char>)>)>,
    pub skip_struct: bool,
    pub kind: Option<UnexposedMacro>,
    pub diags: Seq<DiagS>,
}

pub open spec fn spec_typedef_empty_acc() -> TypedefAccS {
    TypedefAccS { strukt: None, skip_struct: false, kind: None, diags: Seq::empty() }
}

/// One child of a typedef declaration.
pub open spec fn spec_typedef_step(
    acc: TypedefAccS,
    c: Entity,
    typedef_name: String,
    ctx: Context,
) -> Result<TypedefAccS, FatalS> {
    match c.data {
        EntityData::UnexposedAttr { tag } => {
            match tag {
                Some(t) => {
                    if acc.kind is Some {
                        Err(FatalS::MultipleMacroKinds { name: typedef_name@ })
                    } else {
                        Ok(TypedefAccS { kind: Some(t), ..acc })
                    }
                },
                None => Ok(acc),
            }
        },
        EntityData::StructDecl { name, is_definition } => {
            if spec_struct_skipped(ctx, typedef_name@) {
                Ok(TypedefAccS { skip_struct: true, ..acc })
            } else if spec_private_struct_name(name) {
                match spec_parse_struct(c) {
                    Err(f) => Err(f),
                    Ok(s) => (Ok(
                        TypedefAccS {
                            strukt: Some((s.boxable, s.fields)),
                            diags: acc.diags + s.diags,
                            ..acc
                        },
                    )),
                }
            } else {
                Ok(TypedefAccS { skip_struct: true, ..acc })
            }
        },
        EntityData::ObjCClassRef { .. } => Ok(acc),
        EntityData::ObjCProtocolRef { .. } => Ok(acc),
        EntityData::TypeRef { .. } => Ok(acc),
        EntityData::ParmDecl { .. } => Ok(acc),
        _ => Ok(TypedefAccS { diags: acc.diags.push(DiagS::UnknownChild), ..acc }),
    }
}

pub open spec fn spec_typedef_children(
    children: Seq<Entity>,
    typedef_name: String,
    ctx: Context,
    init: TypedefAccS,
) -> Result<TypedefAccS, FatalS>
    decreases children.len(),
{
    if children.len() == 0 {
        Ok(init)
    } else {
        match spec_typedef_children(children.drop_last(), typedef_name, ctx, init) {
            Ok(acc) => spec_typedef_step(acc, children.last(), typedef_name, ctx),
            Err(f) => Err(f),
        }
    }
}

/// A typedef declaration: a typedef whose only semantically relevant child
/// is an anonymous or privately-named struct definition is that struct's
/// declaration; otherwise it resolves to an alias of the mapped underlying
/// type, or to nothing where the type mapper declined.
pub open spec fn spec_parse_typedef(
    e: Entity,
    name: String,
    underlying: Option<Ty>,
    ctx: Context,
) -> Result<ParsedS, FatalS> {
    match spec_typedef_children(e.children@, name, ctx, spec_typedef_empty_acc()) {
        Err(f) => Err(f),
        Ok(acc) => {
            match acc.strukt {
                Some((boxable, fields)) => {
                    if acc.kind is Some {
                        Err(FatalS::MacroKindOnStructTypedef { name: name@ })
                    } else {
                        Ok(
                            ParsedS {
                                stmts: seq![
                                    StmtS::StructDecl {
                                        name: name@,
                                        boxable: boxable,
                                        fields: fields,
                                    },
                                ],
                                diags: acc.diags,
                            },
                        )
                    }
                },
                None => {
                    if acc.skip_struct {
                        Ok(ParsedS { stmts: Seq::empty(), diags: acc.diags })
                    } else if spec_typedef_skipped(ctx, name@) {
                        Ok(ParsedS { stmts: Seq::empty(), diags: acc.diags })
                    } else {
                        match underlying {
                            Some(ty) => (Ok(
                                ParsedS {
                                    stmts: seq![
                                        StmtS::AliasDecl { name: name@, ty: ty@, kind: acc.kind },
                                    ],
                                    diags: acc.diags,
                                },
                            )),
                            None => Ok(ParsedS { stmts: Seq::empty(), diags: acc.diags }),
                        }
                    }
                },
            }
        },
    }
}

// -------------------- enums --------------------

/// Accumulated state of a pass over an enum body's children. `untagged`
/// records that an attribute sighting carrying no macro-kind tag has been
/// seen; a tag sighted before or after it diverges from that absence.
#[verifier::ext_equal]
pub struct EnumAccS {
    pub kind: Option<UnexposedMacro>,
    pub untagged: bool,
    pub variants: Seq<(Seq<char>, Seq<char>)>,
}

pub open spec fn spec_enum_empty_acc() -> EnumAccS {
    EnumAccS { kind: None, untagged: false, variants: Seq::empty() }
}

/// Merge one macro-kind sighting into the accumulator. What each sighting
/// yields — a tag, or none — must be identical across every attribute
/// sighting for the same declaration; divergence, a flags-style tag against
/// a different tag or against no tag at all, in either order, is a fatal
/// inconsistency, never silently resolved.
pub open spec fn spec_enum_kind_merge(
    acc: EnumAccS,
    sighting: Option<UnexposedMacro>,
    name: Option<String>,
) -> Result<EnumAccS, FatalS> {
    match sighting {
        Some(tag) => {
            if acc.untagged {
                Err(FatalS::ConflictingMacroKinds { name: name.deep_view() })
            } else {
                match acc.kind {
                    Some(k) => {
                        if k == tag {
                            Ok(acc)
                        } else {
                            Err(FatalS::ConflictingMacroKinds { name: name.deep_view() })
                        }
                    },
                    None => Ok(EnumAccS { kind: Some(tag), ..acc }),
                }
            }
        },
        None => {
            if acc.kind is Some {
                Err(FatalS::ConflictingMacroKinds { name: name.deep_view() })
            } else {
                Ok(EnumAccS { untagged: true, ..acc })
            }
        },
    }
}

/// One child of an enum body. For each enumerator, a parsed symbolic
/// initializer expression is preferred over the raw value unless
/// configuration forces raw-value use.
pub open spec fn spec_enum_step(
    acc: EnumAccS,
    c: Entity,
    name: Option<String>,
    data: Option<EnumData>,
) -> Result<EnumAccS, FatalS> {
    match c.data {
        EntityData::EnumConstantDecl { name: cname, value, symbolic } => {
            if spec_constant_skipped(data, cname@) {
                Ok(acc)
            } else {
                let expr = if spec_enum_use_value(data) {
                    value@
                } else {
                    match symbolic {
                        Some(s) => s@,
                        None => value@,
                    }
                };
                Ok(EnumAccS { variants: acc.variants.push((cname@, expr)), ..acc })
            }
        },
        EntityData::UnexposedAttr { tag } => spec_enum_kind_merge(acc, tag, name),
        EntityData::FlagEnum => (spec_enum_kind_merge(
            acc,
            Some(UnexposedMacro::Options),
            name,
        )),
        _ => Err(FatalS::UnknownEnumChild { name: name.deep_view() }),
    }
}

pub open spec fn spec_enum_children(
    children: Seq<Entity>,
    name: Option<String>,
    data: Option<EnumData>,
    init: EnumAccS,
) -> Result<EnumAccS, FatalS>
    decreases children.len(),
{
    if children.len() == 0 {
        Ok(init)
    } else {
        match spec_enum_children(children.drop_last(), name, data, init) {
            Ok(acc) => spec_enum_step(acc, children.last(), name, data),
            Err(f) => Err(f),
        }
    }
}

/// An enum declaration: only the defining node of a forward/defining pair
/// is processed; an enum with neither a name nor any variants is vacuous.
pub open spec fn spec_parse_enum(
    e: Entity,
    name: Option<String>,
    is_definition: bool,
    underlying: Ty,
    ctx: Context,
) -> Result<ParsedS, FatalS> {
    if !is_definition {
        Ok(spec_parsed_empty())
    } else {
        let data = spec_enum_data(ctx, name);
        if spec_enum_skipped(data) {
            Ok(spec_parsed_empty())
        } else {
            match spec_enum_children(e.children@, name, data, spec_enum_empty_acc()) {
                Err(f) => Err(f),
                Ok(acc) => {
                    if name is None && acc.variants.len() == 0 {
                        Ok(spec_parsed_empty())
                    } else {
                        Ok(
                            ParsedS {
                                stmts: seq![
                                    StmtS::EnumDecl {
                                        name: name.deep_view(),
                                        ty: underlying@,
                                        kind: acc.kind,
                                        variants: acc.variants,
                                    },
                                ],
                                diags: Seq::empty(),
                            },
                        )
                    }
                },
            }
        }
    }
}

// -------------------- variables --------------------

/// Accumulated state of a pass over a variable declaration's children:
/// `None` until an initializer expression child is sighted.
pub open spec fn spec_var_step(
    acc: Option<Option<Seq<char>>>,
    c: Entity,
    name: String,
) -> Result<Option<Option<Seq<char>>>, FatalS> {
    match c.data {
        EntityData::UnexposedAttr { tag } => {
            match tag {
                Some(t) => Err(FatalS::UnexpectedAttribute { name: name@ }),
                None => Ok(acc),
            }
        },
        EntityData::VisibilityAttr => Ok(acc),
        EntityData::ObjCClassRef { .. } => Ok(acc),
        EntityData::TypeRef { .. } => Ok(acc),
        EntityData::InitializerExpr { value } => {
            if acc is None {
                Ok(Some(value.deep_view()))
            } else {
                Err(FatalS::MultipleInitializers { name: name@ })
            }
        },
        _ => Err(FatalS::UnknownVarDeclChild { name: name@ }),
    }
}

pub open spec fn spec_var_children(
    children: Seq<Entity>,
    name: String,
    init: Option<Option<Seq<char>>>,
) -> Result<Option<Option<Seq<char>>>, FatalS>
    decreases children.len(),
{
    if children.len() == 0 {
        Ok(init)
    } else {
        match spec_var_children(children.drop_last(), name, init) {
            Ok(acc) => spec_var_step(acc, children.last(), name),
            Err(f) => Err(f),
        }
    }
}

/// A variable declaration: more than one initializer expression is fatal;
/// an initializer the expression parser declined drops the declaration
/// with a warning.
pub open spec fn spec_parse_var(e: Entity, name: String, ty: Ty, ctx: Context) -> Result<
    ParsedS,
    FatalS,
> {
    if spec_static_skipped(ctx, name@) {
        Ok(spec_parsed_empty())
    } else {
        match spec_var_children(e.children@, name, None) {
            Err(f) => Err(f),
            Ok(state) => {
                match state {
                    None => (Ok(
                        ParsedS {
                            stmts: seq![StmtS::VarDecl { name: name@, ty: ty@, value: None }],
                            diags: Seq::empty(),
                        },
                    )),
                    Some(Some(expr)) => (Ok(
                        ParsedS {
                            stmts: seq![
                                StmtS::VarDecl { name: name@, ty: ty@, value: Some(expr) },
                            ],
                            diags: Seq::empty(),
                        },
                    )),
                    Some(None) => (Ok(
                        ParsedS {
                            stmts: Seq::empty(),
                            diags: seq![DiagS::SkippedStatic { name: name@ }],
                        },
                    )),
                }
            },
        }
    }
}

// -------------------- functions --------------------

/// Accumulated state of a pass over a function declaration's children.
#[verifier::ext_equal]
pub struct FnAccS {
    pub arguments: Seq<(Seq<char>, Seq<char>)>,
    pub diags: Seq<DiagS>,
}

pub open spec fn spec_fn_empty_acc() -> FnAccS {
    FnAccS { arguments: Seq::empty(), diags: Seq::empty() }
}

/// One child of a function declaration. A parameter without a name stands
/// as the placeholder argument.
pub open spec fn spec_fn_step(acc: FnAccS, c: Entity) -> FnAccS {
    match c.data {
        EntityData::UnexposedAttr { tag } => {
            match tag {
                Some(t) => FnAccS { diags: acc.diags.push(DiagS::UnknownMacro { tag: t }), ..acc },
                None => acc,
            }
        },
        EntityData::ObjCClassRef { .. } => acc,
        EntityData::TypeRef { .. } => acc,
        EntityData::ParmDecl { name, ty } => {
            let pname = match name {
                Some(p) => p@,
                None => "_"@,
            };
            FnAccS { arguments: acc.arguments.push((pname, ty@)), ..acc }
        },
        EntityData::VisibilityAttr => acc,
        _ => FnAccS { diags: acc.diags.push(DiagS::UnknownChild), ..acc },
    }
}

pub open spec fn spec_fn_children(children: Seq<Entity>, init: FnAccS) -> FnAccS
    decreases children.len(),
{
    if children.len() == 0 {
        init
    } else {
        spec_fn_step(spec_fn_children(children.drop_last(), init), children.last())
    }
}

/// A free function declaration: a variadic function is dropped with a
/// warning, never an error; inline-bodied and extern-only functions are
/// told apart by the presence of a body, whose contents are not translated.
pub open spec fn spec_parse_function(
    e: Entity,
    name: String,
    result_type: Ty,
    is_variadic: bool,
    is_inline: bool,
    is_static_method: bool,
    ctx: Context,
) -> Result<ParsedS, FatalS> {
    if spec_fn_skipped(ctx, name@) {
        Ok(spec_parsed_empty())
    } else if is_variadic {
        Ok(
            ParsedS {
                stmts: Seq::empty(),
                diags: seq![DiagS::VariadicFunction { name: name@ }],
            },
        )
    } else {
        let init = FnAccS {
            arguments: Seq::empty(),
            diags: if is_static_method {
                seq![DiagS::UnexpectedStaticMethod { name: name@ }]
            } else {
                Seq::empty()
            },
        };
        let acc = spec_fn_children(e.children@, init);
        Ok(
            ParsedS {
                stmts: seq![
                    StmtS::FnDecl {
                        name: name@,
                        arguments: acc.arguments,
                        result_type: result_type@,
                        body: if is_inline {
                            Some(())
                        } else {
                            None
                        },
                    },
                ],
                diags: acc.diags,
            },
        )
    }
}

// -------------------- the dispatcher --------------------

/// The declared name of an unrecognized top-level node, for the fatal
/// report, where its kind carries one.
pub open spec fn spec_decl_name(e: Entity) -> Option<Seq<char>> {
    match e.data {
        EntityData::ObjCSuperClassRef { name, .. } => Some(name@),
        EntityData::TypeRef { name } => Some(name@),
        EntityData::TemplateTypeParameter { name } => Some(name@),
        EntityData::EnumConstantDecl { name, .. } => Some(name@),
        EntityData::FieldDecl { name, .. } => Some(name@),
        _ => None,
    }
}

/// The dispatcher: what one top-level declaration node produces. Class and
/// protocol reference nodes are inconsequential; unions are intentionally
/// unsupported; any other unrecognized kind violates the translator's
/// coverage assumptions and is fatal.
pub open spec fn spec_parse(e: Entity, ctx: Context) -> Result<ParsedS, FatalS> {
    match e.data {
        EntityData::ObjCClassRef { .. } => Ok(spec_parsed_empty()),
        EntityData::ObjCProtocolRef { .. } => Ok(spec_parsed_empty()),
        EntityData::ObjCInterfaceDecl { name } => spec_parse_interface(e, name, ctx),
        EntityData::ObjCCategoryDecl { name } => spec_parse_category(e, name, ctx),
        EntityData::ObjCProtocolDecl { name } => spec_parse_protocol(e, name, ctx),
        EntityData::TypedefDecl { name, underlying } => (spec_parse_typedef(
            e,
            name,
            underlying,
            ctx,
        )),
        EntityData::StructDecl { name, is_definition } => (spec_parse_struct_top(
            e,
            name,
            is_definition,
            ctx,
        )),
        EntityData::EnumDecl { name, is_definition, underlying } => (spec_parse_enum(
            e,
            name,
            is_definition,
            underlying,
            ctx,
        )),
        EntityData::VarDecl { name, ty } => spec_parse_var(e, name, ty, ctx),
        EntityData::FunctionDecl { name, result_type, is_variadic, is_inline, is_static_method } => {
            spec_parse_function(e, name, result_type, is_variadic, is_inline, is_static_method, ctx)
        },
        EntityData::UnionDecl => Ok(spec_parsed_empty()),
        _ => Err(FatalS::UnknownDeclKind { name: spec_decl_name(e) }),
    }
}

// ---------------------------------------------------------------------------
// Exec helpers shared by the dispatcher's production rules
// ---------------------------------------------------------------------------

fn empty_output() -> (r: ParseOutput)
    ensures
        r@ == spec_parsed_empty(),
{
    let r = ParseOutput { stmts: Vec::new(), diags: Vec::new() };
    proof {
        assert(r@ =~= spec_parsed_empty());
    }
    r
}

fn clone_opt_string(o: &Option<String>) -> (r: Option<String>)
    ensures
        r == *o,
{
    match o {
        Some(n) => Some(n.clone()),
        None => None,
    }
}

/// The declared name of an unrecognized top-level node, where its kind
/// carries one.
fn decl_name(e: &Entity) -> (r: Option<String>)
    ensures
        r.deep_view() == spec_decl_name(*e),
{
    match &e.data {
        EntityData::ObjCSuperClassRef { name, .. } => Some(name.clone()),
        EntityData::TypeRef { name } => Some(name.clone()),
        EntityData::TemplateTypeParameter { name } => Some(name.clone()),
        EntityData::EnumConstantDecl { name, .. } => Some(name.clone()),
        EntityData::FieldDecl { name, .. } => Some(name.clone()),
        _ => None,
    }
}

/// Locate the first class reference in the subtree below a category node,
/// depth-first.
fn find_class_ref(children: &Vec<Entity>) -> (r: Option<String>)
    ensures
        r == spec_find_class_ref(children@),
    decreases children@,
{
    let mut i: usize = 0;
    proof {
        assert(children@.skip(0) =~= children@);
    }
    while i < children.len()
        invariant
            i <= children.len(),
            spec_find_class_ref(children@) == spec_find_class_ref(children@.skip(i as int)),
        decreases children.len() - i,
    {
        proof {
            assert(children@.skip(i as int)[0] == children@[i as int]);
            assert(children@.skip(i as int).drop_first() =~= children@.skip(i as int + 1));
        }
        match &children[i].data {
            EntityData::ObjCClassRef { name } => {
                return Some(name.clone());
            },
            _ => {},
        }
        proof {
            assert(decreases_to!(children@ => children@[i as int]));
            assert(decreases_to!(children@[i as int] => children@[i as int].children));
            assert(decreases_to!(children@[i as int].children => children@[i as int].children@));
        }
        let sub = find_class_ref(&children[i].children);
        match sub {
            Some(n) => {
                return Some(n);
            },
            None => {},
        }
        i = i + 1;
    }
    None
}

// ---------------------------------------------------------------------------
// Struct extraction
// ---------------------------------------------------------------------------

/// Exec result of a pass over a struct body.
pub struct StructParse {
    pub boxable: bool,
    pub fields: Vec<(String, Ty)>,
    pub diags: Vec<Diagnostic>,
}

impl View for StructParse {
    type V = StructAccS;

    open spec fn view(&self) -> StructAccS {
        StructAccS {
            boxable: self.boxable,
            fields: self.fields.deep_view(),
            diags: self.diags.deep_view(),
        }
    }
}

/// A fatal result of a prefix of the struct pass is the result of the
/// whole pass.
proof fn lemma_struct_prefix_err(children: Seq<Entity>, init: StructAccS, k: int)
    requires
        0 <= k <= children.len(),
        spec_struct_children(children.subrange(0, k), init) is Err,
    ensures
        spec_struct_children(children, init) == spec_struct_children(
            children.subrange(0, k),
            init,
        ),
    decreases children.len() - k,
{
    if k == children.len() {
        assert(children.subrange(0, k) =~= children);
    } else {
        assert(children.subrange(0, k + 1).drop_last() =~= children.subrange(0, k));
        lemma_struct_prefix_err(children, init, k + 1);
    }
}

/// Extract the boxable flag and the ordered field list of a struct body,
/// rejecting any bit-field member.
fn parse_struct(entity: &Entity) -> (r: Result<StructParse, Fatal>)
    ensures
        match r {
            Ok(s) => spec_parse_struct(*entity) == Ok::<StructAccS, FatalS>(s@),
            Err(f) => spec_parse_struct(*entity) == Err::<StructAccS, FatalS>(f@),
        },
{
    let children = &entity.children;
    let mut boxable: bool = false;
    let mut fields: Vec<(String, Ty)> = Vec::new();
    let mut diags: Vec<Diagnostic> = Vec::new();

    let mut i: usize = 0;
    proof {
        assert(children@.subrange(0, 0) =~= Seq::<Entity>::empty());
        assert(StructAccS {
            boxable: boxable,
            fields: fields.deep_view(),
            diags: diags.deep_view(),
        } =~= spec_struct_empty_acc());
    }
    while i < children.len()
        invariant
            i <= children.len(),
            children == &entity.children,
            spec_struct_children(children@.subrange(0, i as int), spec_struct_empty_acc()) == Ok::<
                StructAccS,
                FatalS,
            >(
                StructAccS {
                    boxable: boxable,
                    fields: fields.deep_view(),
                    diags: diags.deep_view(),
                },
            ),
        decreases children.len() - i,
    {
        let ghost prev = StructAccS {
            boxable: boxable,
            fields: fields.deep_view(),
            diags: diags.deep_view(),
        };
        proof {
            assert(children@.subrange(0, i as int + 1).drop_last() =~= children@.subrange(
                0,
                i as int,
            ));
            assert(children@.subrange(0, i as int + 1).last() == children@[i as int]);
        }
        match &children[i].data {
            EntityData::UnexposedAttr { tag } => {
                match tag {
                    Some(t) => {
                        diags.push(Diagnostic::UnknownMacro { tag: *t });
                    },
                    None => {},
                }
            },
            EntityData::FieldDecl { name, ty, is_bit_field } => {
                if *is_bit_field {
                    let f = Fatal::BitFieldMember { field: name.clone() };
                    proof {
                        assert(spec_struct_step(prev, children@[i as int]) == Err::<
                            StructAccS,
                            FatalS,
                        >(f@));
                        lemma_struct_prefix_err(children@, spec_struct_empty_acc(), i as int + 1);
                    }
                    return Err(f);
                }
                fields.push((name.clone(), ty.duplicate()));
            },
            EntityData::ObjCBoxable => {
                boxable = true;
            },
            _ => {
                diags.push(Diagnostic::UnknownChild);
            },
        }
        proof {
            let now = StructAccS {
                boxable: boxable,
                fields: fields.deep_view(),
                diags: diags.deep_view(),
            };
            assert(spec_struct_step(prev, children@[i as int]) == Ok::<StructAccS, FatalS>(now))
                by {
                assert(spec_struct_step(prev, children@[i as int]) matches Ok(stepped) ==> stepped
                    =~= now);
            }
        }
        i = i + 1;
    }
    proof {
        assert(children@.subrange(0, children@.len() as int) =~= children@);
    }
    let result = StructParse { boxable, fields, diags };
    Ok(result)
}

/// A struct declaration not reached via a typedef.
fn parse_struct_top(
    entity: &Entity,
    name: &Option<String>,
    is_definition: bool,
    ctx: &Context,
) -> (r: Result<ParseOutput, Fatal>)
    ensures
        match r {
            Ok(p) => spec_parse_struct_top(*entity, *name, is_definition, *ctx) == Ok::<
                ParsedS,
                FatalS,
            >(p@),
            Err(f) => spec_parse_struct_top(*entity, *name, is_definition, *ctx) == Err::<
                ParsedS,
                FatalS,
            >(f@),
        },
{
    let n = match name {
        Some(n) => n,
        None => {
            return Ok(empty_output());
        },
    };
    let skipped = match lookup(&ctx.struct_data, n) {
        Some(d) => d.skipped,
        None => false,
    };
    if skipped {
        return Ok(empty_output());
    }
    if !is_definition {
        return Ok(empty_output());
    }
    let private = if n.as_str().is_empty() {
        false
    } else {
        n.as_str().get_char(0) == '_'
    };
    if private {
        return Ok(empty_output());
    }
    match parse_struct(entity) {
        Err(f) => Err(f),
        Ok(s) => {
            let mut stmts: Vec<Stmt> = Vec::new();
            stmts.push(Stmt::StructDecl { name: n.clone(), boxable: s.boxable, fields: s.fields });
            let out = ParseOutput { stmts, diags: s.diags };
            proof {
                assert(spec_parse_struct_top(*entity, *name, is_definition, *ctx) matches Ok(p)
                    ==> p =~= out@);
            }
            Ok(out)
        },
    }
}

// ---------------------------------------------------------------------------
// Typedef declarations
// ---------------------------------------------------------------------------

proof fn lemma_typedef_prefix_err(
    children: Seq<Entity>,
    typedef_name: String,
    ctx: Context,
    init: TypedefAccS,
    k: int,
)
    requires
        0 <= k <= children.len(),
        spec_typedef_children(children.subrange(0, k), typedef_name, ctx, init) is Err,
    ensures
        spec_typedef_children(children, typedef_name, ctx, init) == spec_typedef_children(
            children.subrange(0, k),
            typedef_name,
            ctx,
            init,
        ),
    decreases children.len() - k,
{
    if k == children.len() {
        assert(children.subrange(0, k) =~= children);
    } else {
        assert(children.subrange(0, k + 1).drop_last() =~= children.subrange(0, k));
        lemma_typedef_prefix_err(children, typedef_name, ctx, init, k + 1);
    }
}

/// A typedef declaration.
#[verifier::loop_isolation(false)]
fn parse_typedef(
    entity: &Entity,
    name: &String,
    underlying: &Option<Ty>,
    ctx: &Context,
) -> (r: Result<ParseOutput, Fatal>)
    ensures
        match r {
            Ok(p) => spec_parse_typedef(*entity, *name, *underlying, *ctx) == Ok::<
                ParsedS,
                FatalS,
            >(p@),
            Err(f) => spec_parse_typedef(*entity, *name, *underlying, *ctx) == Err::<
                ParsedS,
                FatalS,
            >(f@),
        },
{
    let children = &entity.children;
    let mut strukt: Option<(bool, Vec<(String, Ty)>)> = None;
    let mut skip_struct: bool = false;
    let mut kind: Option<UnexposedMacro> = None;
    let mut diags: Vec<Diagnostic> = Vec::new();

    let mut i: usize = 0;
    proof {
        assert(children@.subrange(0, 0) =~= Seq::<Entity>::empty());
        assert(TypedefAccS {
            strukt: None,
            skip_struct: skip_struct,
            kind: kind,
            diags: diags.deep_view(),
        } =~= spec_typedef_empty_acc());
    }
    while i < children.len()
        invariant
            i <= children.len(),
            children == &entity.children,
            spec_typedef_children(
                children@.subrange(0, i as int),
                *name,
                *ctx,
                spec_typedef_empty_acc(),
            ) == Ok::<TypedefAccS, FatalS>(
                TypedefAccS {
                    strukt: match &strukt {
                        Some((b, fs)) => Some((*b, fs.deep_view())),
                        None => None,
                    },
                    skip_struct: skip_struct,
                    kind: kind,
                    diags: diags.deep_view(),
                },
            ),
        decreases children.len() - i,
    {
        let ghost prev = TypedefAccS {
            strukt: match &strukt {
                Some((b, fs)) => Some((*b, fs.deep_view())),
                None => None,
            },
            skip_struct: skip_struct,
            kind: kind,
            diags: diags.deep_view(),
        };
        proof {
            assert(children@.subrange(0, i as int + 1).drop_last() =~= children@.subrange(
                0,
                i as int,
            ));
            assert(children@.subrange(0, i as int + 1).last() == children@[i as int]);
        }
        match &children[i].data {
            EntityData::UnexposedAttr { tag } => {
                match tag {
                    Some(t) => {
                        if kind.is_some() {
                            let f = Fatal::MultipleMacroKinds { name: name.clone() };
                            proof {
                                assert(spec_typedef_step(prev, children@[i as int], *name, *ctx)
                                    == Err::<TypedefAccS, FatalS>(f@));
                                lemma_typedef_prefix_err(
                                    children@,
                                    *name,
                                    *ctx,
                                    spec_typedef_empty_acc(),
                                    i as int + 1,
                                );
                            }
                            return Err(f);
                        }
                        kind = Some(*t);
                    },
                    None => {},
                }
            },
            EntityData::StructDecl { name: struct_name, is_definition: _ } => {
                let skipped = match lookup(&ctx.struct_data, name) {
                    Some(d) => d.skipped,
                    None => false,
                };
                if skipped {
                    skip_struct = true;
                } else {
                    let private = match struct_name {
                        Some(sn) => {
                            if sn.as_str().is_empty() {
                                false
                            } else {
                                sn.as_str().get_char(0) == '_'
                            }
                        },
                        None => true,
                    };
                    if private {
                        match parse_struct(&children[i]) {
                            Err(f) => {
                                proof {
                                    assert(spec_typedef_step(
                                        prev,
                                        children@[i as int],
                                        *name,
                                        *ctx,
                                    ) == Err::<TypedefAccS, FatalS>(f@));
                                    lemma_typedef_prefix_err(
                                        children@,
                                        *name,
                                        *ctx,
                                        spec_typedef_empty_acc(),
                                        i as int + 1,
                                    );
                                }
                                return Err(f);
                            },
                            Ok(mut s) => {
                                let ghost sv = s@;
                                diags.append(&mut s.diags);
                                strukt = Some((s.boxable, s.fields));
                                proof {
                                    assert(diags.deep_view() =~= prev.diags + sv.diags);
                                }
                            },
                        }
                    } else {
                        skip_struct = true;
                    }
                }
            },
            EntityData::ObjCClassRef { .. } => {},
            EntityData::ObjCProtocolRef { .. } => {},
            EntityData::TypeRef { .. } => {},
            EntityData::ParmDecl { .. } => {},
            _ => {
                diags.push(Diagnostic::UnknownChild);
            },
        }
        proof {
            let now = TypedefAccS {
                strukt: match &strukt {
                    Some((b, fs)) => Some((*b, fs.deep_view())),
                    None => None,
                },
                skip_struct: skip_struct,
                kind: kind,
                diags: diags.deep_view(),
            };
            assert(spec_typedef_step(prev, children@[i as int], *name, *ctx) == Ok::<
                TypedefAccS,
                FatalS,
            >(now)) by {
                assert(spec_typedef_step(prev, children@[i as int], *name, *ctx) matches Ok(
                    stepped,
                ) ==> stepped =~= now);
            }
        }
        i = i + 1;
    }
    proof {
        assert(children@.subrange(0, children@.len() as int) =~= children@);
    }

    match strukt {
        Some((boxable, fields)) => {
            if kind.is_some() {
                return Err(Fatal::MacroKindOnStructTypedef { name: name.clone() });
            }
            let mut stmts: Vec<Stmt> = Vec::new();
            stmts.push(Stmt::StructDecl { name: name.clone(), boxable, fields });
            let out = ParseOutput { stmts, diags };
            proof {
                assert(spec_parse_typedef(*entity, *name, *underlying, *ctx) matches Ok(p) ==> p
                    =~= out@);
            }
            Ok(out)
        },
        None => {
            if skip_struct {
                let out = ParseOutput { stmts: Vec::new(), diags };
                proof {
                    assert(spec_parse_typedef(*entity, *name, *underlying, *ctx) matches Ok(p)
                        ==> p =~= out@);
                }
                return Ok(out);
            }
            let td_skipped = match lookup(&ctx.typedef_data, name) {
                Some(d) => d.skipped,
                None => false,
            };
            if td_skipped {
                let out = ParseOutput { stmts: Vec::new(), diags };
                proof {
                    assert(spec_parse_typedef(*entity, *name, *underlying, *ctx) matches Ok(p)
                        ==> p =~= out@);
                }
                return Ok(out);
            }
            match underlying {
                Some(ty) => {
                    let mut stmts: Vec<Stmt> = Vec::new();
                    stmts.push(Stmt::AliasDecl { name: name.clone(), ty: ty.duplicate(), kind });
                    let out = ParseOutput { stmts, diags };
                    proof {
                        assert(spec_parse_typedef(*entity, *name, *underlying, *ctx) matches Ok(p)
                            ==> p =~= out@);
                    }
                    Ok(out)
                },
                None => {
                    let out = ParseOutput { stmts: Vec::new(), diags };
                    proof {
                        assert(spec_parse_typedef(*entity, *name, *underlying, *ctx) matches Ok(p)
                            ==> p =~= out@);
                    }
                    Ok(out)
                },
            }
        },
    }
}

// ---------------------------------------------------------------------------
// Enum declarations
// ---------------------------------------------------------------------------

proof fn lemma_enum_prefix_err(
    children: Seq<Entity>,
    name: Option<String>,
    data: Option<EnumData>,
    init: EnumAccS,
    k: int,
)
    requires
        0 <= k <= children.len(),
        spec_enum_children(children.subrange(0, k), name, data, init) is Err,
    ensures
        spec_enum_children(children, name, data, init) == spec_enum_children(
            children.subrange(0, k),
            name,
            data,
            init,
        ),
    decreases children.len() - k,
{
    if k == children.len() {
        assert(children.subrange(0, k) =~= children);
    } else {
        assert(children.subrange(0, k + 1).drop_last() =~= children.subrange(0, k));
        lemma_enum_prefix_err(children, name, data, init, k + 1);
    }
}

/// An enum declaration.
#[verifier::loop_isolation(false)]
fn parse_enum(
    entity: &Entity,
    name: &Option<String>,
    is_definition: bool,
    underlying: &Ty,
    ctx: &Context,
) -> (r: Result<ParseOutput, Fatal>)
    ensures
        match r {
            Ok(p) => spec_parse_enum(*entity, *name, is_definition, *underlying, *ctx) == Ok::<
                ParsedS,
                FatalS,
            >(p@),
            Err(f) => spec_parse_enum(*entity, *name, is_definition, *underlying, *ctx) == Err::<
                ParsedS,
                FatalS,
            >(f@),
        },
{
    if !is_definition {
        return Ok(empty_output());
    }
    let data: Option<&EnumData> = match name {
        Some(n) => lookup(&ctx.enum_data, n),
        None => {
            let anonymous: String = "anonymous".to_owned();
            lookup(&ctx.enum_data, &anonymous)
        },
    };
    let ghost data_s: Option<EnumData> = match data {
        Some(d) => Some(*d),
        None => None,
    };
    proof {
        assert(spec_enum_data(*ctx, *name) == data_s);
    }
    let skipped = match data {
        Some(d) => d.skipped,
        None => false,
    };
    if skipped {
        return Ok(empty_output());
    }

    let children = &entity.children;
    let mut kind: Option<UnexposedMacro> = None;
    let mut untagged: bool = false;
    let mut variants: Vec<(String, Expr)> = Vec::new();

    let mut i: usize = 0;
    proof {
        assert(children@.subrange(0, 0) =~= Seq::<Entity>::empty());
        assert(EnumAccS { kind: kind, untagged: untagged, variants: variants.deep_view() }
            =~= spec_enum_empty_acc());
    }
    while i < children.len()
        invariant
            i <= children.len(),
            children == &entity.children,
            data_s == spec_enum_data(*ctx, *name),
            match data {
                Some(d) => data_s == Some(*d),
                None => data_s is None,
            },
            spec_enum_children(
                children@.subrange(0, i as int),
                *name,
                data_s,
                spec_enum_empty_acc(),
            ) == Ok::<EnumAccS, FatalS>(
                EnumAccS { kind: kind, untagged: untagged, variants: variants.deep_view() },
            ),
        decreases children.len() - i,
    {
        let ghost prev = EnumAccS { kind: kind, untagged: untagged, variants: variants.deep_view() };
        proof {
            assert(children@.subrange(0, i as int + 1).drop_last() =~= children@.subrange(
                0,
                i as int,
            ));
            assert(children@.subrange(0, i as int + 1).last() == children@[i as int]);
        }
        match &children[i].data {
            EntityData::EnumConstantDecl { name: cname, value, symbolic } => {
                let cskipped = match data {
                    Some(d) => {
                        match lookup(&d.constants, cname) {
                            Some(c) => c.skipped,
                            None => false,
                        }
                    },
                    None => false,
                };
                if !cskipped {
                    let use_value = match data {
                        Some(d) => d.use_value,
                        None => false,
                    };
                    let expr = if use_value {
                        value.duplicate()
                    } else {
                        match symbolic {
                            Some(s) => s.duplicate(),
                            None => value.duplicate(),
                        }
                    };
                    variants.push((cname.clone(), expr));
                }
            },
            EntityData::UnexposedAttr { tag } => {
                match tag {
                    Some(t) => {
                        let diverges = untagged || match &kind {
                            Some(k) => !(*k == *t),
                            None => false,
                        };
                        if diverges {
                            let f = Fatal::ConflictingMacroKinds { name: clone_opt_string(name) };
                            proof {
                                assert(spec_enum_step(prev, children@[i as int], *name, data_s)
                                    == Err::<EnumAccS, FatalS>(f@));
                                lemma_enum_prefix_err(
                                    children@,
                                    *name,
                                    data_s,
                                    spec_enum_empty_acc(),
                                    i as int + 1,
                                );
                            }
                            return Err(f);
                        }
                        if kind.is_none() {
                            kind = Some(*t);
                        }
                    },
                    None => {
                        if kind.is_some() {
                            let f = Fatal::ConflictingMacroKinds { name: clone_opt_string(name) };
                            proof {
                                assert(spec_enum_step(prev, children@[i as int], *name, data_s)
                                    == Err::<EnumAccS, FatalS>(f@));
                                lemma_enum_prefix_err(
                                    children@,
                                    *name,
                                    data_s,
                                    spec_enum_empty_acc(),
                                    i as int + 1,
                                );
                            }
                            return Err(f);
                        }
                        untagged = true;
                    },
                }
            },
            EntityData::FlagEnum => {
                let diverges = untagged || match &kind {
                    Some(k) => !(*k == UnexposedMacro::Options),
                    None => false,
                };
                if diverges {
                    let f = Fatal::ConflictingMacroKinds { name: clone_opt_string(name) };
                    proof {
                        assert(spec_enum_step(prev, children@[i as int], *name, data_s) == Err::<
                            EnumAccS,
                            FatalS,
                        >(f@));
                        lemma_enum_prefix_err(
                            children@,
                            *name,
                            data_s,
                            spec_enum_empty_acc(),
                            i as int + 1,
                        );
                    }
                    return Err(f);
                }
                if kind.is_none() {
                    kind = Some(UnexposedMacro::Options);
                }
            },
            _ => {
                let f = Fatal::UnknownEnumChild { name: clone_opt_string(name) };
                proof {
                    assert(spec_enum_step(prev, children@[i as int], *name, data_s) == Err::<
                        EnumAccS,
                        FatalS,
                    >(f@));
                    lemma_enum_prefix_err(
                        children@,
                        *name,
                        data_s,
                        spec_enum_empty_acc(),
                        i as int + 1,
                    );
                }
                return Err(f);
            },
        }
        proof {
            let now = EnumAccS { kind: kind, untagged: untagged, variants: variants.deep_view() };
            assert(spec_enum_step(prev, children@[i as int], *name, data_s) == Ok::<
                EnumAccS,
                FatalS,
            >(now)) by {
                assert(spec_enum_step(prev, children@[i as int], *name, data_s) matches Ok(stepped)
                    ==> stepped =~= now);
            }
        }
        i = i + 1;
    }
    proof {
        assert(children@.subrange(0, children@.len() as int) =~= children@);
    }

    if name.is_none() && variants.len() == 0 {
        return Ok(empty_output());
    }
    let mut stmts: Vec<Stmt> = Vec::new();
    stmts.push(
        Stmt::EnumDecl {
            name: clone_opt_string(name),
            ty: underlying.duplicate(),
            kind,
            variants,
        },
    );
    let out = ParseOutput { stmts, diags: Vec::new() };
    proof {
        assert(spec_parse_enum(*entity, *name, is_definition, *underlying, *ctx) matches Ok(p)
            ==> p =~= out@);
    }
    Ok(out)
}

// ---------------------------------------------------------------------------
// Variable declarations
// ---------------------------------------------------------------------------

proof fn lemma_var_prefix_err(
    children: Seq<Entity>,
    name: String,
    init: Option<Option<Seq<char>>>,
    k: int,
)
    requires
        0 <= k <= children.len(),
        spec_var_children(children.subrange(0, k), name, init) is Err,
    ensures
        spec_var_children(children, name, init) == spec_var_children(
            children.subrange(0, k),
            name,
            init,
        ),
    decreases children.len() - k,
{
    if k == children.len() {
        assert(children.subrange(0, k) =~= children);
    } else {
        assert(children.subrange(0, k + 1).drop_last() =~= children.subrange(0, k));
        lemma_var_prefix_err(children, name, init, k + 1);
    }
}

/// An extern or initialized variable declaration.
#[verifier::loop_isolation(false)]
fn parse_var(entity: &Entity, name: &String, ty: &Ty, ctx: &Context) -> (r: Result<
    ParseOutput,
    Fatal,
>)
    ensures
        match r {
            Ok(p) => spec_parse_var(*entity, *name, *ty, *ctx) == Ok::<ParsedS, FatalS>(p@),
            Err(f) => spec_parse_var(*entity, *name, *ty, *ctx) == Err::<ParsedS, FatalS>(f@),
        },
{
    let entry = lookup(&ctx.statics, name);
    let skipped = match entry {
        Some(d) => d.skipped,
        None => false,
    };
    proof {
        assert(skipped == spec_static_skipped(*ctx, name@));
    }
    if skipped {
        return Ok(empty_output());
    }

    let children = &entity.children;
    let mut value: Option<Option<Expr>> = None;

    let mut i: usize = 0;
    proof {
        assert(children@.subrange(0, 0) =~= Seq::<Entity>::empty());
    }
    while i < children.len()
        invariant
            i <= children.len(),
            children == &entity.children,
            spec_var_children(children@.subrange(0, i as int), *name, None) == Ok::<
                Option<Option<Seq<char>>>,
                FatalS,
            >(
                match &value {
                    Some(v) => Some(v.deep_view()),
                    None => None,
                },
            ),
        decreases children.len() - i,
    {
        let ghost prev: Option<Option<Seq<char>>> = match &value {
            Some(v) => Some(v.deep_view()),
            None => None,
        };
        proof {
            assert(children@.subrange(0, i as int + 1).drop_last() =~= children@.subrange(
                0,
                i as int,
            ));
            assert(children@.subrange(0, i as int + 1).last() == children@[i as int]);
        }
        match &children[i].data {
            EntityData::UnexposedAttr { tag } => {
                match tag {
                    Some(_) => {
                        let f = Fatal::UnexpectedAttribute { name: name.clone() };
                        proof {
                            assert(spec_var_step(prev, children@[i as int], *name) == Err::<
                                Option<Option<Seq<char>>>,
                                FatalS,
                            >(f@));
                            lemma_var_prefix_err(children@, *name, None, i as int + 1);
                        }
                        return Err(f);
                    },
                    None => {},
                }
            },
            EntityData::VisibilityAttr => {},
            EntityData::ObjCClassRef { .. } => {},
            EntityData::TypeRef { .. } => {},
            EntityData::InitializerExpr { value: child_value } => {
                if value.is_none() {
                    let inner = match child_value {
                        Some(e) => Some(e.duplicate()),
                        None => None,
                    };
                    value = Some(inner);
                } else {
                    let f = Fatal::MultipleInitializers { name: name.clone() };
                    proof {
                        assert(spec_var_step(prev, children@[i as int], *name) == Err::<
                            Option<Option<Seq<char>>>,
                            FatalS,
                        >(f@));
                        lemma_var_prefix_err(children@, *name, None, i as int + 1);
                    }
                    return Err(f);
                }
            },
            _ => {
                let f = Fatal::UnknownVarDeclChild { name: name.clone() };
                proof {
                    assert(spec_var_step(prev, children@[i as int], *name) == Err::<
                        Option<Option<Seq<char>>>,
                        FatalS,
                    >(f@));
                    lemma_var_prefix_err(children@, *name, None, i as int + 1);
                }
                return Err(f);
            },
        }
        proof {
            let now: Option<Option<Seq<char>>> = match &value {
                Some(v) => Some(v.deep_view()),
                None => None,
            };
            assert(spec_var_step(prev, children@[i as int], *name) == Ok::<
                Option<Option<Seq<char>>>,
                FatalS,
            >(now));
        }
        i = i + 1;
    }
    proof {
        assert(children@.subrange(0, children@.len() as int) =~= children@);
    }

    match value {
        None => {
            let mut stmts: Vec<Stmt> = Vec::new();
            stmts.push(Stmt::VarDecl { name: name.clone(), ty: ty.duplicate(), value: None });
            let out = ParseOutput { stmts, diags: Vec::new() };
            proof {
                assert(spec_parse_var(*entity, *name, *ty, *ctx) matches Ok(p) ==> p =~= out@);
            }
            Ok(out)
        },
        Some(Some(expr)) => {
            let mut stmts: Vec<Stmt> = Vec::new();
            stmts.push(
                Stmt::VarDecl { name: name.clone(), ty: ty.duplicate(), value: Some(expr) },
            );
            let out = ParseOutput { stmts, diags: Vec::new() };
            proof {
                assert(spec_parse_var(*entity, *name, *ty, *ctx) matches Ok(p) ==> p =~= out@);
            }
            Ok(out)
        },
        Some(None) => {
            let mut diags: Vec<Diagnostic> = Vec::new();
            diags.push(Diagnostic::SkippedStatic { name: name.clone() });
            let out = ParseOutput { stmts: Vec::new(), diags };
            proof {
                assert(spec_parse_var(*entity, *name, *ty, *ctx) matches Ok(p) ==> p =~= out@);
            }
            Ok(out)
        },
    }
}

// ---------------------------------------------------------------------------
// Function declarations
// ---------------------------------------------------------------------------

/// A free function declaration.
#[verifier::loop_isolation(false)]
fn parse_function(
    entity: &Entity,
    name: &String,
    result_type: &Ty,
    is_variadic: bool,
    is_inline: bool,
    is_static_method: bool,
    ctx: &Context,
) -> (r: Result<ParseOutput, Fatal>)
    ensures
        match r {
            Ok(p) => spec_parse_function(
                *entity,
                *name,
                *result_type,
                is_variadic,
                is_inline,
                is_static_method,
                *ctx,
            ) == Ok::<ParsedS, FatalS>(p@),
            Err(f) => spec_parse_function(
                *entity,
                *name,
                *result_type,
                is_variadic,
                is_inline,
                is_static_method,
                *ctx,
            ) == Err::<ParsedS, FatalS>(f@),
        },
{
    let skipped = match lookup(&ctx.fns, name) {
        Some(d) => d.skipped,
        None => false,
    };
    if skipped {
        return Ok(empty_output());
    }
    if is_variadic {
        let mut diags: Vec<Diagnostic> = Vec::new();
        diags.push(Diagnostic::VariadicFunction { name: name.clone() });
        let out = ParseOutput { stmts: Vec::new(), diags };
        proof {
            assert(spec_parse_function(
                *entity,
                *name,
                *result_type,
                is_variadic,
                is_inline,
                is_static_method,
                *ctx,
            ) matches Ok(p) ==> p =~= out@);
        }
        return Ok(out);
    }

    let mut arguments: Vec<(String, Ty)> = Vec::new();
    let mut diags: Vec<Diagnostic> = Vec::new();
    if is_static_method {
        diags.push(Diagnostic::UnexpectedStaticMethod { name: name.clone() });
    }
    let ghost init = FnAccS {
        arguments: arguments.deep_view(),
        diags: diags.deep_view(),
    };
    proof {
        assert(init.arguments =~= Seq::<(Seq<char>, Seq<char>)>::empty());
        if is_static_method {
            assert(init.diags =~= seq![DiagS::UnexpectedStaticMethod { name: name@ }]);
        } else {
            assert(init.diags =~= Seq::<DiagS>::empty());
        }
    }

    let children = &entity.children;
    let mut i: usize = 0;
    proof {
        assert(children@.subrange(0, 0) =~= Seq::<Entity>::empty());
    }
    while i < children.len()
        invariant
            i <= children.len(),
            children == &entity.children,
            spec_fn_children(children@.subrange(0, i as int), init) == (FnAccS {
                arguments: arguments.deep_view(),
                diags: diags.deep_view(),
            }),
        decreases children.len() - i,
    {
        let ghost prev = FnAccS { arguments: arguments.deep_view(), diags: diags.deep_view() };
        proof {
            assert(children@.subrange(0, i as int + 1).drop_last() =~= children@.subrange(
                0,
                i as int,
            ));
            assert(children@.subrange(0, i as int + 1).last() == children@[i as int]);
        }
        match &children[i].data {
            EntityData::UnexposedAttr { tag } => {
                match tag {
                    Some(t) => {
                        diags.push(Diagnostic::UnknownMacro { tag: *t });
                    },
                    None => {},
                }
            },
            EntityData::ObjCClassRef { .. } => {},
            EntityData::TypeRef { .. } => {},
            EntityData::ParmDecl { name: pname, ty } => {
                let arg_name = match pname {
                    Some(p) => p.clone(),
                    None => "_".to_owned(),
                };
                arguments.push((arg_name, ty.duplicate()));
            },
            EntityData::VisibilityAttr => {},
            _ => {
                diags.push(Diagnostic::UnknownChild);
            },
        }
        proof {
            let now = FnAccS { arguments: arguments.deep_view(), diags: diags.deep_view() };
            assert(spec_fn_step(prev, children@[i as int]) == now) by {
                assert(spec_fn_step(prev, children@[i as int]) =~= now);
            }
        }
        i = i + 1;
    }
    proof {
        assert(children@.subrange(0, children@.len() as int) =~= children@);
    }

    let body: Option<()> = if is_inline {
        Some(())
    } else {
        None
    };
    let mut stmts: Vec<Stmt> = Vec::new();
    stmts.push(
        Stmt::FnDecl {
            name: name.clone(),
            arguments,
            result_type: result_type.duplicate(),
            body,
        },
    );
    let out = ParseOutput { stmts, diags };
    proof {
        assert(spec_parse_function(
            *entity,
            *name,
            *result_type,
            is_variadic,
            is_inline,
            is_static_method,
            *ctx,
        ) matches Ok(p) ==> p =~= out@);
    }
    Ok(out)
}

// ---------------------------------------------------------------------------
// Protocol, class and category declarations
// ---------------------------------------------------------------------------

/// A protocol declaration.
fn parse_protocol(entity: &Entity, name: &String, ctx: &Context) -> (r: Result<
    ParseOutput,
    Fatal,
>)
    ensures
        match r {
            Ok(p) => spec_parse_protocol(*entity, *name, *ctx) == Ok::<ParsedS, FatalS>(p@),
            Err(f) => spec_parse_protocol(*entity, *name, *ctx) == Err::<ParsedS, FatalS>(f@),
        },
{
    let skipped = match lookup(&ctx.protocol_data, name) {
        Some(d) => d.skipped,
        None => false,
    };
    if skipped {
        return Ok(empty_output());
    }
    match parse_objc_decl(entity, false, false) {
        Err(f) => Err(f),
        Ok(d) => {
            let ghost dv = d@;
            let ObjcDecl { protocols, methods, designated_initializers, generics: _, diags } = d;
            let mut diags = diags;
            if designated_initializers.len() > 0 {
                diags.push(
                    Diagnostic::DesignatedInitializerInProtocol { names: designated_initializers },
                );
            }
            let mut stmts: Vec<Stmt> = Vec::new();
            stmts.push(
                Stmt::ProtocolDecl {
                    name: name.clone(),
                    availability: entity.availability.duplicate(),
                    protocols,
                    methods,
                },
            );
            let out = ParseOutput { stmts, diags };
            proof {
                assert(spec_parse_protocol(*entity, *name, *ctx) matches Ok(p) ==> p =~= out@);
            }
            Ok(out)
        },
    }
}

/// A top-level class declaration.
#[verifier::loop_isolation(false)]
fn parse_interface(entity: &Entity, name: &String, ctx: &Context) -> (r: Result<
    ParseOutput,
    Fatal,
>)
    ensures
        match r {
            Ok(p) => spec_parse_interface(*entity, *name, *ctx) == Ok::<ParsedS, FatalS>(p@),
            Err(f) => spec_parse_interface(*entity, *name, *ctx) == Err::<ParsedS, FatalS>(f@),
        },
{
    let skipped = match lookup(&ctx.class_data, name) {
        Some(d) => d.skipped,
        None => false,
    };
    if skipped {
        return Ok(empty_output());
    }
    match parse_objc_decl(entity, true, true) {
        Err(f) => Err(f),
        Ok(d) => {
            let ghost dv = d@;
            let ObjcDecl { protocols, methods, designated_initializers, generics, diags } = d;
            let ty = ClassDefReference::new(name.clone(), generics);
            let ghost ty_s = ClassRefS { name: name@, generics: dv.generics };
            proof {
                assert(ty@ =~= ty_s);
            }
            let ghost avail_s = entity.availability@;
            let ghost methods_stmt_s = StmtS::Methods {
                ty: ty_s,
                availability: avail_s,
                methods: dv.methods,
                category_name: None,
                description: None,
            };
            let def_skipped = match lookup(&ctx.class_data, name) {
                Some(d) => d.definition_skipped,
                None => false,
            };
            let mut stmts: Vec<Stmt> = Vec::new();
            if !def_skipped {
                let (derives, ownership) = match lookup(&ctx.class_data, name) {
                    Some(data) => (data.derives.duplicate(), data.ownership),
                    None => (Derives::default(), Ownership::Shared),
                };
                proof {
                    assert(derives@ == spec_class_derives(*ctx, name@));
                    assert(ownership == spec_class_ownership(*ctx, name@));
                }
                let superclasses = superclass_chain(entity);
                let ghost class_stmt_s = StmtS::ClassDecl {
                    ty: ty_s,
                    availability: avail_s,
                    superclasses: spec_superclass_chain(*entity),
                    designated_initializers: dv.designated_initializers,
                    derives: spec_class_derives(*ctx, name@),
                    ownership: spec_class_ownership(*ctx, name@),
                };
                stmts.push(
                    Stmt::ClassDecl {
                        ty: ty.duplicate(),
                        availability: entity.availability.duplicate(),
                        superclasses,
                        designated_initializers,
                        derives,
                        ownership,
                    },
                );
                proof {
                    assert(stmts.deep_view() =~= seq![class_stmt_s]);
                }
                let mut j: usize = 0;
                proof {
                    assert(protocols.deep_view().subrange(0, 0) =~= Seq::<Seq<char>>::empty());
                    assert(seq![class_stmt_s] + spec_protocol_impls(
                        ty_s,
                        avail_s,
                        protocols.deep_view().subrange(0, 0),
                    ) =~= seq![class_stmt_s]);
                }
                while j < protocols.len()
                    invariant
                        j <= protocols.len(),
                        stmts.deep_view() == seq![class_stmt_s] + spec_protocol_impls(
                            ty_s,
                            avail_s,
                            protocols.deep_view().subrange(0, j as int),
                        ),
                    decreases protocols.len() - j,
                {
                    let ghost before = stmts.deep_view();
                    stmts.push(
                        Stmt::ProtocolImpl {
                            ty: ty.duplicate(),
                            availability: entity.availability.duplicate(),
                            protocol: protocols[j].clone(),
                        },
                    );
                    proof {
                        let pd = protocols.deep_view();
                        assert(stmts.deep_view() =~= before.push(
                            StmtS::ProtocolImpl {
                                ty: ty_s,
                                availability: avail_s,
                                protocol: pd[j as int],
                            },
                        ));
                        assert(spec_protocol_impls(ty_s, avail_s, pd.subrange(0, j as int + 1))
                            =~= spec_protocol_impls(ty_s, avail_s, pd.subrange(0, j as int)).push(
                            StmtS::ProtocolImpl {
                                ty: ty_s,
                                availability: avail_s,
                                protocol: pd[j as int],
                            },
                        ));
                        assert(stmts.deep_view() =~= seq![class_stmt_s] + spec_protocol_impls(
                            ty_s,
                            avail_s,
                            pd.subrange(0, j as int + 1),
                        ));
                    }
                    j = j + 1;
                }
                proof {
                    assert(protocols.deep_view().subrange(
                        0,
                        protocols.deep_view().len() as int,
                    ) =~= protocols.deep_view());
                }
                stmts.push(
                    Stmt::Methods {
                        ty,
                        availability: entity.availability.duplicate(),
                        methods,
                        category_name: None,
                        description: None,
                    },
                );
                let out = ParseOutput { stmts, diags };
                proof {
                    assert(out@.stmts =~= seq![class_stmt_s] + spec_protocol_impls(
                        ty_s,
                        avail_s,
                        dv.protocols,
                    ) + seq![methods_stmt_s]);
                    assert(spec_parse_interface(*entity, *name, *ctx) matches Ok(p) ==> p
                        =~= out@);
                }
                Ok(out)
            } else {
                stmts.push(
                    Stmt::Methods {
                        ty,
                        availability: entity.availability.duplicate(),
                        methods,
                        category_name: None,
                        description: None,
                    },
                );
                let out = ParseOutput { stmts, diags };
                proof {
                    assert(out@.stmts =~= seq![methods_stmt_s]);
                    assert(spec_parse_interface(*entity, *name, *ctx) matches Ok(p) ==> p
                        =~= out@);
                }
                Ok(out)
            }
        },
    }
}

/// A category declaration.
#[verifier::loop_isolation(false)]
fn parse_category(entity: &Entity, name: &Option<String>, ctx: &Context) -> (r: Result<
    ParseOutput,
    Fatal,
>)
    ensures
        match r {
            Ok(p) => spec_parse_category(*entity, *name, *ctx) == Ok::<ParsedS, FatalS>(p@),
            Err(f) => spec_parse_category(*entity, *name, *ctx) == Err::<ParsedS, FatalS>(f@),
        },
{
    let class_name = match find_class_ref(&entity.children) {
        Some(n) => n,
        None => {
            return Err(Fatal::MissingCategoryClass);
        },
    };
    let skipped = match lookup(&ctx.class_data, &class_name) {
        Some(d) => d.skipped,
        None => false,
    };
    if skipped {
        return Ok(empty_output());
    }
    match parse_objc_decl(entity, false, true) {
        Err(f) => Err(f),
        Ok(d) => {
            let ghost dv = d@;
            let ObjcDecl { protocols, methods, designated_initializers, generics, diags } = d;
            let mut diags = diags;
            if designated_initializers.len() > 0 {
                diags.push(
                    Diagnostic::DesignatedInitializerInCategory { names: designated_initializers },
                );
            }
            let ty = ClassDefReference::new(class_name, generics);
            let ghost ty_s = ty@;
            let ghost avail_s = entity.availability@;
            let ghost methods_stmt_s = StmtS::Methods {
                ty: ty_s,
                availability: avail_s,
                methods: dv.methods,
                category_name: name.deep_view(),
                description: None,
            };
            let mut stmts: Vec<Stmt> = Vec::new();
            stmts.push(
                Stmt::Methods {
                    ty: ty.duplicate(),
                    availability: entity.availability.duplicate(),
                    methods,
                    category_name: clone_opt_string(name),
                    description: None,
                },
            );
            proof {
                assert(stmts.deep_view() =~= seq![methods_stmt_s]);
                assert(protocols.deep_view().subrange(0, 0) =~= Seq::<Seq<char>>::empty());
                assert(seq![methods_stmt_s] + spec_protocol_impls(
                    ty_s,
                    avail_s,
                    protocols.deep_view().subrange(0, 0),
                ) =~= seq![methods_stmt_s]);
            }
            let mut j: usize = 0;
            while j < protocols.len()
                invariant
                    j <= protocols.len(),
                    stmts.deep_view() == seq![methods_stmt_s] + spec_protocol_impls(
                        ty_s,
                        avail_s,
                        protocols.deep_view().subrange(0, j as int),
                    ),
                decreases protocols.len() - j,
            {
                let ghost before = stmts.deep_view();
                stmts.push(
                    Stmt::ProtocolImpl {
                        ty: ty.duplicate(),
                        availability: entity.availability.duplicate(),
                        protocol: protocols[j].clone(),
                    },
                );
                proof {
                    let pd = protocols.deep_view();
                    assert(stmts.deep_view() =~= before.push(
                        StmtS::ProtocolImpl {
                            ty: ty_s,
                            availability: avail_s,
                            protocol: pd[j as int],
                        },
                    ));
                    assert(spec_protocol_impls(ty_s, avail_s, pd.subrange(0, j as int + 1))
                        =~= spec_protocol_impls(ty_s, avail_s, pd.subrange(0, j as int)).push(
                        StmtS::ProtocolImpl {
                            ty: ty_s,
                            availability: avail_s,
                            protocol: pd[j as int],
                        },
                    ));
                    assert(stmts.deep_view() =~= seq![methods_stmt_s] + spec_protocol_impls(
                        ty_s,
                        avail_s,
                        pd.subrange(0, j as int + 1),
                    ));
                }
                j = j + 1;
            }
            proof {
                assert(protocols.deep_view().subrange(0, protocols.deep_view().len() as int)
                    =~= protocols.deep_view());
            }
            let out = ParseOutput { stmts, diags };
            proof {
                assert(spec_parse_category(*entity, *name, *ctx) matches Ok(p) ==> p =~= out@);
            }
            Ok(out)
        },
    }
}

impl Stmt {
    /// The statement dispatcher: the single entry point, mapping one
    /// declaration node to the ordered statement sequence it produces and
    /// the diagnostics reported along the way, or to the fatal condition
    /// that aborts the run.
    pub fn parse(entity: &Entity, context: &Context) -> (r: Result<ParseOutput, Fatal>)
        ensures
            match r {
                Ok(p) => spec_parse(*entity, *context) == Ok::<ParsedS, FatalS>(p@),
                Err(f) => spec_parse(*entity, *context) == Err::<ParsedS, FatalS>(f@),
            },
    {
        match &entity.data {
            EntityData::ObjCClassRef { .. } => Ok(empty_output()),
            EntityData::ObjCProtocolRef { .. } => Ok(empty_output()),
            EntityData::ObjCInterfaceDecl { name } => parse_interface(entity, name, context),
            EntityData::ObjCCategoryDecl { name } => parse_category(entity, name, context),
            EntityData::ObjCProtocolDecl { name } => parse_protocol(entity, name, context),
            EntityData::TypedefDecl { name, underlying } => (parse_typedef(
                entity,
                name,
                underlying,
                context,
            )),
            EntityData::StructDecl { name, is_definition } => (parse_struct_top(
                entity,
                name,
                *is_definition,
                context,
            )),
            EntityData::EnumDecl { name, is_definition, underlying } => (parse_enum(
                entity,
                name,
                *is_definition,
                underlying,
                context,
            )),
            EntityData::VarDecl { name, ty } => parse_var(entity, name, ty, context),
            EntityData::FunctionDecl {
                name,
                result_type,
                is_variadic,
                is_inline,
                is_static_method,
            } => {
                parse_function(
                    entity,
                    name,
                    result_type,
                    *is_variadic,
                    *is_inline,
                    *is_static_method,
                    context,
                )
            },
            EntityData::UnionDecl => Ok(empty_output()),
            _ => Err(Fatal::UnknownDeclKind { name: decl_name(entity) }),
        }
    }
}

} // verus!
