//! The statement dispatcher, merge engine, superclass resolver and
//! renderer, exercised on concrete declaration trees.

use header_translator::ast::{
    Availability, Entity, EntityData, Expr, Method, MethodOutcome, MethodSighting,
    PropertySighting, Ty, UnexposedMacro,
};
use header_translator::config::{
    ClassData, ConstantData, Context, EnumData, FnData, StaticData, StructData, TypedefData,
};
use header_translator::diag::{Diagnostic, Fatal};
use header_translator::stmt::{ClassDefReference, Derives, Ownership, Stmt};

fn no_avail() -> Availability {
    Availability { markers: Vec::new() }
}

fn node(data: EntityData, children: Vec<Entity>) -> Entity {
    Entity { data, availability: no_avail(), children }
}

fn leaf(data: EntityData) -> Entity {
    node(data, Vec::new())
}

fn method_descriptor(is_class: bool, fn_name: &str) -> Method {
    Method {
        is_class,
        fn_name: fn_name.to_string(),
        text: format!("        pub fn {fn_name}();"),
    }
}

fn method_child(selector: &str, designated: bool) -> Entity {
    leaf(EntityData::ObjCInstanceMethodDecl {
        sighting: MethodSighting {
            selector: selector.to_string(),
            parsed: Some(MethodOutcome {
                designated_initializer: designated,
                method: method_descriptor(false, selector),
            }),
        },
    })
}

fn superclass_ref(name: &str, referenced: Entity) -> Entity {
    leaf(EntityData::ObjCSuperClassRef { name: name.to_string(), referenced: Box::new(referenced) })
}

fn simple_class_node(name: &str, children: Vec<Entity>) -> Entity {
    node(EntityData::ObjCInterfaceDecl { name: name.to_string() }, children)
}

fn class_chain_a_b_root() -> Entity {
    let root = simple_class_node("Root", vec![]);
    let b = simple_class_node("B", vec![superclass_ref("Root", root)]);
    let a = simple_class_node("A", vec![superclass_ref("B", b)]);
    a
}

#[test]
fn class_with_chain_properties_and_explicit_method() {
    // A class below the chain [A, B, Root], one read-only and one
    // read-write property, the compiler-synthesized accessor methods for
    // their three recorded selectors, and one explicit method.
    let read_only = leaf(EntityData::ObjCPropertyDecl {
        property: PropertySighting {
            is_class: false,
            getter_name: "name".to_string(),
            setter_name: None,
            getter: Some(method_descriptor(false, "name")),
            setter: None,
        },
    });
    let read_write = leaf(EntityData::ObjCPropertyDecl {
        property: PropertySighting {
            is_class: false,
            getter_name: "value".to_string(),
            setter_name: Some("setValue:".to_string()),
            getter: Some(method_descriptor(false, "value")),
            setter: None,
        },
    });
    let entity = simple_class_node(
        "MyClass",
        vec![
            superclass_ref("A", class_chain_a_b_root()),
            leaf(EntityData::ObjCProtocolRef { name: "NSCopying".to_string() }),
            read_only,
            read_write,
            method_child("name", false),
            method_child("value", false),
            method_child("setValue:", false),
            method_child("doSomething", false),
        ],
    );
    let ctx = Context::new();
    let out = Stmt::parse(&entity, &ctx).unwrap();
    assert_eq!(out.diags, Vec::new());
    assert_eq!(out.stmts.len(), 3);

    match &out.stmts[0] {
        Stmt::ClassDecl { ty, superclasses, designated_initializers, .. } => {
            assert_eq!(ty.name, "MyClass");
            let chain: Vec<&str> = superclasses.iter().map(|c| c.name.as_str()).collect();
            assert_eq!(chain, vec!["A", "B", "Root"]);
            assert!(designated_initializers.is_empty());
        }
        other => panic!("expected a class declaration, got {other:?}"),
    }
    match &out.stmts[1] {
        Stmt::ProtocolImpl { protocol, .. } => assert_eq!(protocol, "NSCopying"),
        other => panic!("expected a conformance, got {other:?}"),
    }
    match &out.stmts[2] {
        Stmt::Methods { methods, category_name, .. } => {
            assert!(category_name.is_none());
            let names: Vec<&str> = methods.iter().map(|m| m.fn_name.as_str()).collect();
            assert_eq!(names, vec!["name", "value", "doSomething"]);
        }
        other => panic!("expected a method set, got {other:?}"),
    }
}

#[test]
fn unmatched_property_is_reported() {
    let entity = simple_class_node(
        "Lonely",
        vec![leaf(EntityData::ObjCPropertyDecl {
            property: PropertySighting {
                is_class: false,
                getter_name: "title".to_string(),
                setter_name: None,
                getter: Some(method_descriptor(false, "title")),
                setter: None,
            },
        })],
    );
    let out = Stmt::parse(&entity, &Context::new()).unwrap();
    assert_eq!(
        out.diags,
        vec![Diagnostic::UnmatchedProperties { keys: vec![(false, "title".to_string())] }]
    );
}

#[test]
fn tolerated_unmatched_property_is_silent() {
    let entity = simple_class_node(
        "Tolerant",
        vec![leaf(EntityData::ObjCPropertyDecl {
            property: PropertySighting {
                is_class: false,
                getter_name: "displayName".to_string(),
                setter_name: Some("setDisplayName".to_string()),
                getter: Some(method_descriptor(false, "displayName")),
                setter: None,
            },
        }),
        method_child("displayName", false)],
    );
    let out = Stmt::parse(&entity, &Context::new()).unwrap();
    assert_eq!(out.diags, Vec::new());
}

#[test]
fn duplicate_accessor_selector_is_fatal() {
    let prop = |getter: &str| {
        leaf(EntityData::ObjCPropertyDecl {
            property: PropertySighting {
                is_class: false,
                getter_name: getter.to_string(),
                setter_name: None,
                getter: None,
                setter: None,
            },
        })
    };
    let entity = simple_class_node("Doubled", vec![prop("x"), prop("x")]);
    let err = Stmt::parse(&entity, &Context::new()).unwrap_err();
    assert_eq!(
        err,
        Fatal::DuplicatePropertyAccessor { is_class: false, selector: "x".to_string() }
    );
}

#[test]
fn skipped_class_yields_nothing() {
    let entity = simple_class_node("Hidden", vec![method_child("doIt", false)]);
    let mut ctx = Context::new();
    ctx.class_data.push((
        "Hidden".to_string(),
        ClassData {
            skipped: true,
            definition_skipped: false,
            derives: Derives::default(),
            ownership: Ownership::Shared,
        },
    ));
    let out = Stmt::parse(&entity, &ctx).unwrap();
    assert!(out.stmts.is_empty());
    assert!(out.diags.is_empty());
}

#[test]
fn definition_skipped_class_keeps_only_methods() {
    let entity = simple_class_node(
        "Reopened",
        vec![
            superclass_ref("A", class_chain_a_b_root()),
            leaf(EntityData::ObjCProtocolRef { name: "NSCoding".to_string() }),
            method_child("doIt", false),
        ],
    );
    let mut ctx = Context::new();
    ctx.class_data.push((
        "Reopened".to_string(),
        ClassData {
            skipped: false,
            definition_skipped: true,
            derives: Derives::default(),
            ownership: Ownership::Shared,
        },
    ));
    let out = Stmt::parse(&entity, &ctx).unwrap();
    assert_eq!(out.stmts.len(), 1);
    assert!(matches!(out.stmts[0], Stmt::Methods { .. }));
}

#[test]
fn designated_initializer_is_recorded() {
    let entity = simple_class_node(
        "Maker",
        vec![superclass_ref("A", class_chain_a_b_root()), method_child("initWithThing:", true)],
    );
    let out = Stmt::parse(&entity, &Context::new()).unwrap();
    match &out.stmts[0] {
        Stmt::ClassDecl { designated_initializers, .. } => {
            assert_eq!(designated_initializers, &vec!["initWithThing:".to_string()]);
        }
        other => panic!("expected a class declaration, got {other:?}"),
    }
}

#[test]
fn category_emits_methods_then_conformances() {
    let entity = node(
        EntityData::ObjCCategoryDecl { name: Some("Extras".to_string()) },
        vec![
            leaf(EntityData::ObjCClassRef { name: "Base".to_string() }),
            leaf(EntityData::ObjCProtocolRef { name: "NSFastEnumeration".to_string() }),
            method_child("extraThing", false),
        ],
    );
    let out = Stmt::parse(&entity, &Context::new()).unwrap();
    assert_eq!(out.stmts.len(), 2);
    match &out.stmts[0] {
        Stmt::Methods { ty, category_name, methods, .. } => {
            assert_eq!(ty.name, "Base");
            assert_eq!(category_name.as_deref(), Some("Extras"));
            assert_eq!(methods.len(), 1);
        }
        other => panic!("expected a method set, got {other:?}"),
    }
    assert!(matches!(out.stmts[1], Stmt::ProtocolImpl { .. }));
}

#[test]
fn category_designated_initializer_is_anomalous_but_kept() {
    let entity = node(
        EntityData::ObjCCategoryDecl { name: None },
        vec![
            leaf(EntityData::ObjCClassRef { name: "Base".to_string() }),
            method_child("initExtra", true),
        ],
    );
    let out = Stmt::parse(&entity, &Context::new()).unwrap();
    assert_eq!(
        out.diags,
        vec![Diagnostic::DesignatedInitializerInCategory {
            names: vec!["initExtra".to_string()]
        }]
    );
    match &out.stmts[0] {
        Stmt::Methods { methods, .. } => assert_eq!(methods.len(), 1),
        other => panic!("expected a method set, got {other:?}"),
    }
}

#[test]
fn category_without_class_reference_is_fatal() {
    let entity = node(EntityData::ObjCCategoryDecl { name: None }, vec![]);
    let err = Stmt::parse(&entity, &Context::new()).unwrap_err();
    assert_eq!(err, Fatal::MissingCategoryClass);
}

#[test]
fn protocol_declaration_collects_members() {
    let entity = node(
        EntityData::ObjCProtocolDecl { name: "Doing".to_string() },
        vec![
            leaf(EntityData::ObjCProtocolRef { name: "NSObjectProtocol".to_string() }),
            method_child("doIt", false),
            leaf(EntityData::TemplateTypeParameter { name: "T".to_string() }),
        ],
    );
    let out = Stmt::parse(&entity, &Context::new()).unwrap();
    assert_eq!(out.diags, vec![Diagnostic::UnsupportedGenerics]);
    match &out.stmts[0] {
        Stmt::ProtocolDecl { name, protocols, methods, .. } => {
            assert_eq!(name, "Doing");
            assert_eq!(protocols, &vec!["NSObjectProtocol".to_string()]);
            assert_eq!(methods.len(), 1);
        }
        other => panic!("expected a protocol declaration, got {other:?}"),
    }
}

#[test]
fn forward_enum_sighting_is_inert() {
    let entity = node(
        EntityData::EnumDecl {
            name: Some("NSComparisonResult".to_string()),
            is_definition: false,
            underlying: Ty { text: "NSInteger".to_string() },
        },
        vec![leaf(EntityData::UnexposedAttr { tag: Some(UnexposedMacro::Enum) })],
    );
    let out = Stmt::parse(&entity, &Context::new()).unwrap();
    assert!(out.stmts.is_empty());
    assert!(out.diags.is_empty());
}

#[test]
fn enum_parsing_is_idempotent() {
    let defining = node(
        EntityData::EnumDecl {
            name: Some("NSComparisonResult".to_string()),
            is_definition: true,
            underlying: Ty { text: "NSInteger".to_string() },
        },
        vec![
            leaf(EntityData::UnexposedAttr { tag: Some(UnexposedMacro::Enum) }),
            leaf(EntityData::EnumConstantDecl {
                name: "NSOrderedAscending".to_string(),
                value: Expr { text: "-1".to_string() },
                symbolic: None,
            }),
        ],
    );
    let ctx = Context::new();
    let first = Stmt::parse(&defining, &ctx).unwrap();
    let second = Stmt::parse(&defining, &ctx).unwrap();
    assert_eq!(first.stmts.len(), 1);
    assert_eq!(first.stmts.len(), second.stmts.len());
    assert!(first.stmts[0].compare(&second.stmts[0]).is_ok());
    assert!(matches!(first.stmts[0], Stmt::EnumDecl { .. }));
}

#[test]
fn conflicting_enum_kind_sightings_are_fatal() {
    let entity = node(
        EntityData::EnumDecl {
            name: Some("NSWindowMask".to_string()),
            is_definition: true,
            underlying: Ty { text: "NSUInteger".to_string() },
        },
        vec![
            leaf(EntityData::UnexposedAttr { tag: Some(UnexposedMacro::Enum) }),
            leaf(EntityData::FlagEnum),
        ],
    );
    let err = Stmt::parse(&entity, &Context::new()).unwrap_err();
    assert_eq!(err, Fatal::ConflictingMacroKinds { name: Some("NSWindowMask".to_string()) });
}

#[test]
fn tagless_sighting_after_flags_tag_is_fatal() {
    let entity = node(
        EntityData::EnumDecl {
            name: Some("NSWindowMask".to_string()),
            is_definition: true,
            underlying: Ty { text: "NSUInteger".to_string() },
        },
        vec![
            leaf(EntityData::FlagEnum),
            leaf(EntityData::UnexposedAttr { tag: None }),
        ],
    );
    let err = Stmt::parse(&entity, &Context::new()).unwrap_err();
    assert_eq!(err, Fatal::ConflictingMacroKinds { name: Some("NSWindowMask".to_string()) });
}

#[test]
fn flags_tag_after_tagless_sighting_is_fatal() {
    let entity = node(
        EntityData::EnumDecl {
            name: Some("NSWindowMask".to_string()),
            is_definition: true,
            underlying: Ty { text: "NSUInteger".to_string() },
        },
        vec![
            leaf(EntityData::UnexposedAttr { tag: None }),
            leaf(EntityData::FlagEnum),
        ],
    );
    let err = Stmt::parse(&entity, &Context::new()).unwrap_err();
    assert_eq!(err, Fatal::ConflictingMacroKinds { name: Some("NSWindowMask".to_string()) });
}

#[test]
fn tagless_attribute_sighting_diverges_from_options_tag() {
    let entity = node(
        EntityData::EnumDecl {
            name: Some("NSWindowMask".to_string()),
            is_definition: true,
            underlying: Ty { text: "NSUInteger".to_string() },
        },
        vec![
            leaf(EntityData::UnexposedAttr { tag: Some(UnexposedMacro::Options) }),
            leaf(EntityData::UnexposedAttr { tag: None }),
        ],
    );
    let err = Stmt::parse(&entity, &Context::new()).unwrap_err();
    assert_eq!(err, Fatal::ConflictingMacroKinds { name: Some("NSWindowMask".to_string()) });
}

#[test]
fn agreeing_tagless_sightings_leave_the_enum_untagged() {
    let entity = node(
        EntityData::EnumDecl {
            name: Some("NSPlain".to_string()),
            is_definition: true,
            underlying: Ty { text: "int".to_string() },
        },
        vec![
            leaf(EntityData::UnexposedAttr { tag: None }),
            leaf(EntityData::UnexposedAttr { tag: None }),
            leaf(EntityData::EnumConstantDecl {
                name: "NSPlainOne".to_string(),
                value: Expr { text: "1".to_string() },
                symbolic: None,
            }),
        ],
    );
    let out = Stmt::parse(&entity, &Context::new()).unwrap();
    match &out.stmts[0] {
        Stmt::EnumDecl { kind, .. } => assert_eq!(kind, &None),
        other => panic!("expected an enum declaration, got {other:?}"),
    }
}

#[test]
fn agreeing_enum_kind_sightings_merge() {
    let entity = node(
        EntityData::EnumDecl {
            name: Some("NSWindowMask".to_string()),
            is_definition: true,
            underlying: Ty { text: "NSUInteger".to_string() },
        },
        vec![
            leaf(EntityData::UnexposedAttr { tag: Some(UnexposedMacro::Options) }),
            leaf(EntityData::FlagEnum),
            leaf(EntityData::EnumConstantDecl {
                name: "NSWindowMaskBorderless".to_string(),
                value: Expr { text: "0".to_string() },
                symbolic: None,
            }),
        ],
    );
    let out = Stmt::parse(&entity, &Context::new()).unwrap();
    match &out.stmts[0] {
        Stmt::EnumDecl { kind, .. } => assert_eq!(kind, &Some(UnexposedMacro::Options)),
        other => panic!("expected an enum declaration, got {other:?}"),
    }
}

#[test]
fn enum_constant_overrides_apply() {
    let entity = node(
        EntityData::EnumDecl {
            name: Some("Level".to_string()),
            is_definition: true,
            underlying: Ty { text: "NSInteger".to_string() },
        },
        vec![
            leaf(EntityData::EnumConstantDecl {
                name: "LevelLow".to_string(),
                value: Expr { text: "0".to_string() },
                symbolic: Some(Expr { text: "kLow".to_string() }),
            }),
            leaf(EntityData::EnumConstantDecl {
                name: "LevelMid".to_string(),
                value: Expr { text: "1".to_string() },
                symbolic: None,
            }),
            leaf(EntityData::EnumConstantDecl {
                name: "LevelSecret".to_string(),
                value: Expr { text: "2".to_string() },
                symbolic: None,
            }),
        ],
    );
    let mut ctx = Context::new();
    ctx.enum_data.push((
        "Level".to_string(),
        EnumData {
            skipped: false,
            use_value: false,
            constants: vec![("LevelSecret".to_string(), ConstantData { skipped: true })],
        },
    ));
    let out = Stmt::parse(&entity, &ctx).unwrap();
    match &out.stmts[0] {
        Stmt::EnumDecl { variants, .. } => {
            let texts: Vec<(&str, &str)> =
                variants.iter().map(|(n, e)| (n.as_str(), e.text.as_str())).collect();
            assert_eq!(texts, vec![("LevelLow", "kLow"), ("LevelMid", "1")]);
        }
        other => panic!("expected an enum declaration, got {other:?}"),
    }
}

#[test]
fn vacuous_anonymous_enum_is_dropped() {
    let entity = node(
        EntityData::EnumDecl {
            name: None,
            is_definition: true,
            underlying: Ty { text: "int".to_string() },
        },
        vec![],
    );
    let out = Stmt::parse(&entity, &Context::new()).unwrap();
    assert!(out.stmts.is_empty());
}

#[test]
fn unknown_enum_child_is_fatal() {
    let entity = node(
        EntityData::EnumDecl {
            name: Some("Odd".to_string()),
            is_definition: true,
            underlying: Ty { text: "int".to_string() },
        },
        vec![leaf(EntityData::VisibilityAttr)],
    );
    let err = Stmt::parse(&entity, &Context::new()).unwrap_err();
    assert_eq!(err, Fatal::UnknownEnumChild { name: Some("Odd".to_string()) });
}

#[test]
fn variadic_function_is_dropped_with_warning() {
    let entity = node(
        EntityData::FunctionDecl {
            name: "NSLogv".to_string(),
            result_type: Ty { text: "()".to_string() },
            is_variadic: true,
            is_inline: false,
            is_static_method: false,
        },
        vec![],
    );
    let out = Stmt::parse(&entity, &Context::new()).unwrap();
    assert!(out.stmts.is_empty());
    assert_eq!(out.diags, vec![Diagnostic::VariadicFunction { name: "NSLogv".to_string() }]);
}

#[test]
fn function_arguments_are_collected_in_order() {
    let entity = node(
        EntityData::FunctionDecl {
            name: "NSMakeRange".to_string(),
            result_type: Ty { text: " -> NSRange".to_string() },
            is_variadic: false,
            is_inline: false,
            is_static_method: false,
        },
        vec![
            leaf(EntityData::ParmDecl {
                name: Some("loc".to_string()),
                ty: Ty { text: "NSUInteger".to_string() },
            }),
            leaf(EntityData::ParmDecl { name: None, ty: Ty { text: "NSUInteger".to_string() } }),
        ],
    );
    let out = Stmt::parse(&entity, &Context::new()).unwrap();
    match &out.stmts[0] {
        Stmt::FnDecl { arguments, body, .. } => {
            let names: Vec<&str> = arguments.iter().map(|(n, _)| n.as_str()).collect();
            assert_eq!(names, vec!["loc", "_"]);
            assert!(body.is_none());
        }
        other => panic!("expected a function declaration, got {other:?}"),
    }
}

#[test]
fn bit_field_struct_member_is_fatal() {
    let entity = node(
        EntityData::StructDecl { name: Some("Flags".to_string()), is_definition: true },
        vec![leaf(EntityData::FieldDecl {
            name: "packed".to_string(),
            ty: Ty { text: "u32".to_string() },
            is_bit_field: true,
        })],
    );
    let err = Stmt::parse(&entity, &Context::new()).unwrap_err();
    assert_eq!(err, Fatal::BitFieldMember { field: "packed".to_string() });
}

#[test]
fn forward_struct_declaration_is_dropped() {
    let entity = node(
        EntityData::StructDecl { name: Some("NSRange".to_string()), is_definition: false },
        vec![],
    );
    let out = Stmt::parse(&entity, &Context::new()).unwrap();
    assert!(out.stmts.is_empty());
}

#[test]
fn typedef_adopts_private_struct_definition() {
    let entity = node(
        EntityData::TypedefDecl {
            name: "NSRange".to_string(),
            underlying: Some(Ty { text: "_NSRange".to_string() }),
        },
        vec![node(
            EntityData::StructDecl { name: Some("_NSRange".to_string()), is_definition: true },
            vec![
                leaf(EntityData::FieldDecl {
                    name: "location".to_string(),
                    ty: Ty { text: "NSUInteger".to_string() },
                    is_bit_field: false,
                }),
                leaf(EntityData::FieldDecl {
                    name: "length".to_string(),
                    ty: Ty { text: "NSUInteger".to_string() },
                    is_bit_field: false,
                }),
                leaf(EntityData::ObjCBoxable),
            ],
        )],
    );
    let out = Stmt::parse(&entity, &Context::new()).unwrap();
    match &out.stmts[0] {
        Stmt::StructDecl { name, boxable, fields } => {
            assert_eq!(name, "NSRange");
            assert!(*boxable);
            assert_eq!(fields.len(), 2);
        }
        other => panic!("expected a struct declaration, got {other:?}"),
    }
}

#[test]
fn typedef_resolves_to_alias() {
    let entity = node(
        EntityData::TypedefDecl {
            name: "NSTimeInterval".to_string(),
            underlying: Some(Ty { text: "c_double".to_string() }),
        },
        vec![leaf(EntityData::UnexposedAttr { tag: Some(UnexposedMacro::BridgedTypedef) })],
    );
    let out = Stmt::parse(&entity, &Context::new()).unwrap();
    match &out.stmts[0] {
        Stmt::AliasDecl { name, ty, kind } => {
            assert_eq!(name, "NSTimeInterval");
            assert_eq!(ty.text, "c_double");
            assert_eq!(kind, &Some(UnexposedMacro::BridgedTypedef));
        }
        other => panic!("expected an alias declaration, got {other:?}"),
    }
}

#[test]
fn typedef_with_declined_type_is_dropped() {
    let entity = node(
        EntityData::TypedefDecl { name: "va_list".to_string(), underlying: None },
        vec![],
    );
    let out = Stmt::parse(&entity, &Context::new()).unwrap();
    assert!(out.stmts.is_empty());
}

#[test]
fn typedef_with_two_macro_kinds_is_fatal() {
    let entity = node(
        EntityData::TypedefDecl {
            name: "NSTwice".to_string(),
            underlying: Some(Ty { text: "NSString".to_string() }),
        },
        vec![
            leaf(EntityData::UnexposedAttr { tag: Some(UnexposedMacro::TypedEnum) }),
            leaf(EntityData::UnexposedAttr { tag: Some(UnexposedMacro::TypedEnum) }),
        ],
    );
    let err = Stmt::parse(&entity, &Context::new()).unwrap_err();
    assert_eq!(err, Fatal::MultipleMacroKinds { name: "NSTwice".to_string() });
}

#[test]
fn variable_with_two_initializers_is_fatal() {
    let init = |text: &str| {
        leaf(EntityData::InitializerExpr { value: Some(Expr { text: text.to_string() }) })
    };
    let entity = node(
        EntityData::VarDecl {
            name: "NSTwoValues".to_string(),
            ty: Ty { text: "NSInteger".to_string() },
        },
        vec![init("1"), init("2")],
    );
    let err = Stmt::parse(&entity, &Context::new()).unwrap_err();
    assert_eq!(err, Fatal::MultipleInitializers { name: "NSTwoValues".to_string() });
}

#[test]
fn variable_with_declined_initializer_is_skipped() {
    let entity = node(
        EntityData::VarDecl {
            name: "NSOpaque".to_string(),
            ty: Ty { text: "NSInteger".to_string() },
        },
        vec![leaf(EntityData::InitializerExpr { value: None })],
    );
    let out = Stmt::parse(&entity, &Context::new()).unwrap();
    assert!(out.stmts.is_empty());
    assert_eq!(out.diags, vec![Diagnostic::SkippedStatic { name: "NSOpaque".to_string() }]);
}

#[test]
fn skip_flags_drop_declarations() {
    let mut ctx = Context::new();
    ctx.statics.push(("NSHidden".to_string(), StaticData { skipped: true }));
    ctx.fns.push(("NSGone".to_string(), FnData { skipped: true }));
    ctx.struct_data.push(("NSShy".to_string(), StructData { skipped: true }));
    ctx.typedef_data.push(("NSAlias".to_string(), TypedefData { skipped: true }));

    let var = leaf(EntityData::VarDecl {
        name: "NSHidden".to_string(),
        ty: Ty { text: "NSInteger".to_string() },
    });
    let func = leaf(EntityData::FunctionDecl {
        name: "NSGone".to_string(),
        result_type: Ty { text: "()".to_string() },
        is_variadic: false,
        is_inline: false,
        is_static_method: false,
    });
    let strukt = leaf(EntityData::StructDecl {
        name: Some("NSShy".to_string()),
        is_definition: true,
    });
    let alias = leaf(EntityData::TypedefDecl {
        name: "NSAlias".to_string(),
        underlying: Some(Ty { text: "NSInteger".to_string() }),
    });
    for entity in [var, func, strukt, alias] {
        let out = Stmt::parse(&entity, &ctx).unwrap();
        assert!(out.stmts.is_empty());
    }
}

#[test]
fn reference_nodes_and_unions_are_inconsequential() {
    for entity in [
        leaf(EntityData::ObjCClassRef { name: "NSString".to_string() }),
        leaf(EntityData::ObjCProtocolRef { name: "NSCopying".to_string() }),
        leaf(EntityData::UnionDecl),
    ] {
        let out = Stmt::parse(&entity, &Context::new()).unwrap();
        assert!(out.stmts.is_empty());
        assert!(out.diags.is_empty());
    }
}

#[test]
fn unrecognized_top_level_kind_is_fatal() {
    let entity = leaf(EntityData::FieldDecl {
        name: "stray".to_string(),
        ty: Ty { text: "u8".to_string() },
        is_bit_field: false,
    });
    let err = Stmt::parse(&entity, &Context::new()).unwrap_err();
    assert_eq!(err, Fatal::UnknownDeclKind { name: Some("stray".to_string()) });
}

#[test]
fn generic_class_records_parameters_in_order() {
    let entity = simple_class_node(
        "NSDictionary",
        vec![
            leaf(EntityData::TemplateTypeParameter { name: "KeyType".to_string() }),
            leaf(EntityData::TemplateTypeParameter { name: "ObjectType".to_string() }),
            superclass_ref("NSObject", simple_class_node("NSObject", vec![])),
        ],
    );
    let out = Stmt::parse(&entity, &Context::new()).unwrap();
    match &out.stmts[0] {
        Stmt::ClassDecl { ty, .. } => {
            assert_eq!(ty.generics, vec!["KeyType".to_string(), "ObjectType".to_string()]);
        }
        other => panic!("expected a class declaration, got {other:?}"),
    }
}

#[test]
fn comparing_equal_statements_reports_equality() {
    let make = || Stmt::VarDecl {
        name: "NSAnswer".to_string(),
        ty: Ty { text: "NSInteger".to_string() },
        value: Some(Expr { text: "42".to_string() }),
    };
    let rendered = make().render().unwrap();
    assert_eq!(rendered, "extern_static!(NSAnswer: NSInteger = 42);\n");
    assert!(make().compare(&make()).is_ok());

    let other = Stmt::VarDecl {
        name: "NSAnswer".to_string(),
        ty: Ty { text: "NSInteger".to_string() },
        value: None,
    };
    assert_eq!(make().compare(&other), Err(Fatal::StatementMismatch));
}

#[test]
fn dispatcher_output_is_reproducible() {
    let entity = simple_class_node(
        "Stable",
        vec![superclass_ref("A", class_chain_a_b_root()), method_child("doIt", false)],
    );
    let ctx = Context::new();
    let first = Stmt::parse(&entity, &ctx).unwrap();
    let second = Stmt::parse(&entity, &ctx).unwrap();
    assert_eq!(first.stmts.len(), second.stmts.len());
    for (a, b) in first.stmts.iter().zip(second.stmts.iter()) {
        assert!(a.compare(b).is_ok());
    }
    assert_eq!(first.diags, second.diags);
}
