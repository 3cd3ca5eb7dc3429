//! Edge shapes: root classes, decorative children, attribute anomalies and
//! element descriptions.

use header_translator::ast::{
    Availability, Entity, EntityData, Method, MethodOutcome, MethodSighting, Ty, UnexposedMacro,
};
use header_translator::config::Context;
use header_translator::diag::{Diagnostic, Fatal};
use header_translator::ns_set::NSSet;
use header_translator::ns_value::NSNumber;
use header_translator::stmt::Stmt;

fn bare(data: EntityData) -> Entity {
    Entity { data, availability: Availability { markers: Vec::new() }, children: Vec::new() }
}

fn with_children(data: EntityData, children: Vec<Entity>) -> Entity {
    Entity { data, availability: Availability { markers: Vec::new() }, children }
}

#[test]
fn root_class_parses_but_its_declaration_cannot_render() {
    let entity = with_children(
        EntityData::ObjCInterfaceDecl { name: "NSObject".to_string() },
        vec![bare(EntityData::ObjCRootClass)],
    );
    let out = Stmt::parse(&entity, &Context::new()).unwrap();
    match &out.stmts[0] {
        Stmt::ClassDecl { superclasses, .. } => {
            assert!(superclasses.is_empty());
            assert_eq!(
                out.stmts[0].render(),
                Err(Fatal::ClassWithoutSuperclass { name: "NSObject".to_string() })
            );
        }
        other => panic!("expected a class declaration, got {other:?}"),
    }
}

#[test]
fn decorative_children_are_warned_not_fatal() {
    let entity = with_children(
        EntityData::ObjCInterfaceDecl { name: "NSMessy".to_string() },
        vec![
            bare(EntityData::FieldDecl {
                name: "stray".to_string(),
                ty: Ty { text: "u8".to_string() },
                is_bit_field: false,
            }),
            bare(EntityData::UnexposedAttr { tag: Some(UnexposedMacro::Enum) }),
            bare(EntityData::UnexposedAttr { tag: None }),
        ],
    );
    let out = Stmt::parse(&entity, &Context::new()).unwrap();
    assert_eq!(
        out.diags,
        vec![
            Diagnostic::UnknownChild,
            Diagnostic::UnknownMacro { tag: UnexposedMacro::Enum },
        ]
    );
}

#[test]
fn variable_attribute_macro_is_fatal() {
    let entity = with_children(
        EntityData::VarDecl {
            name: "NSBad".to_string(),
            ty: Ty { text: "NSInteger".to_string() },
        },
        vec![bare(EntityData::UnexposedAttr { tag: Some(UnexposedMacro::Enum) })],
    );
    let err = Stmt::parse(&entity, &Context::new()).unwrap_err();
    assert_eq!(err, Fatal::UnexpectedAttribute { name: "NSBad".to_string() });
}

#[test]
fn variable_with_unknown_child_is_fatal() {
    let entity = with_children(
        EntityData::VarDecl {
            name: "NSOdd".to_string(),
            ty: Ty { text: "NSInteger".to_string() },
        },
        vec![bare(EntityData::FlagEnum)],
    );
    let err = Stmt::parse(&entity, &Context::new()).unwrap_err();
    assert_eq!(err, Fatal::UnknownVarDeclChild { name: "NSOdd".to_string() });
}

#[test]
fn macro_kind_on_struct_typedef_is_fatal() {
    let entity = with_children(
        EntityData::TypedefDecl { name: "NSPair".to_string(), underlying: None },
        vec![
            bare(EntityData::UnexposedAttr { tag: Some(UnexposedMacro::BridgedTypedef) }),
            with_children(
                EntityData::StructDecl { name: None, is_definition: true },
                vec![bare(EntityData::FieldDecl {
                    name: "first".to_string(),
                    ty: Ty { text: "u8".to_string() },
                    is_bit_field: false,
                })],
            ),
        ],
    );
    let err = Stmt::parse(&entity, &Context::new()).unwrap_err();
    assert_eq!(err, Fatal::MacroKindOnStructTypedef { name: "NSPair".to_string() });
}

#[test]
fn static_method_flag_is_reported_but_kept() {
    let entity = with_children(
        EntityData::FunctionDecl {
            name: "NSWeird".to_string(),
            result_type: Ty { text: "()".to_string() },
            is_variadic: false,
            is_inline: true,
            is_static_method: true,
        },
        vec![],
    );
    let out = Stmt::parse(&entity, &Context::new()).unwrap();
    assert_eq!(
        out.diags,
        vec![Diagnostic::UnexpectedStaticMethod { name: "NSWeird".to_string() }]
    );
    match &out.stmts[0] {
        Stmt::FnDecl { body, .. } => assert!(body.is_some()),
        other => panic!("expected a function declaration, got {other:?}"),
    }
}

#[test]
fn suppressed_accessor_consumes_its_key_once() {
    // Two sightings of the same selector: the first is the synthesized
    // accessor and is suppressed; the second is an ordinary method again.
    let method = |selector: &str| {
        bare(EntityData::ObjCInstanceMethodDecl {
            sighting: MethodSighting {
                selector: selector.to_string(),
                parsed: Some(MethodOutcome {
                    designated_initializer: false,
                    method: Method {
                        is_class: false,
                        fn_name: selector.to_string(),
                        text: format!("        pub fn {selector}();"),
                    },
                }),
            },
        })
    };
    let property = bare(EntityData::ObjCPropertyDecl {
        property: header_translator::ast::PropertySighting {
            is_class: false,
            getter_name: "value".to_string(),
            setter_name: None,
            getter: Some(Method {
                is_class: false,
                fn_name: "value".to_string(),
                text: "        pub fn value(&self);".to_string(),
            }),
            setter: None,
        },
    });
    let entity = with_children(
        EntityData::ObjCInterfaceDecl { name: "NSOnce".to_string() },
        vec![property, method("value"), method("value")],
    );
    let out = Stmt::parse(&entity, &Context::new()).unwrap();
    match out.stmts.last().unwrap() {
        Stmt::Methods { methods, .. } => {
            // the property's own accessor plus the second, unsuppressed method
            assert_eq!(methods.len(), 2);
        }
        other => panic!("expected a method set, got {other:?}"),
    }
    assert!(out.diags.is_empty());
}

#[test]
fn class_method_keys_are_separate_from_instance_keys() {
    let class_method = bare(EntityData::ObjCClassMethodDecl {
        sighting: MethodSighting {
            selector: "value".to_string(),
            parsed: Some(MethodOutcome {
                designated_initializer: false,
                method: Method {
                    is_class: true,
                    fn_name: "value".to_string(),
                    text: "        pub fn class_value();".to_string(),
                },
            }),
        },
    });
    let property = bare(EntityData::ObjCPropertyDecl {
        property: header_translator::ast::PropertySighting {
            is_class: false,
            getter_name: "value".to_string(),
            setter_name: None,
            getter: Some(Method {
                is_class: false,
                fn_name: "value".to_string(),
                text: "        pub fn value(&self);".to_string(),
            }),
            setter: None,
        },
    });
    let instance_method = bare(EntityData::ObjCInstanceMethodDecl {
        sighting: MethodSighting { selector: "value".to_string(), parsed: None },
    });
    let entity = with_children(
        EntityData::ObjCInterfaceDecl { name: "NSSplit".to_string() },
        vec![property, class_method, instance_method],
    );
    let out = Stmt::parse(&entity, &Context::new()).unwrap();
    match out.stmts.last().unwrap() {
        Stmt::Methods { methods, .. } => {
            // the class method is unrelated to the instance-keyed property
            assert_eq!(methods.len(), 2);
        }
        other => panic!("expected a method set, got {other:?}"),
    }
    assert!(out.diags.is_empty());
}

#[test]
fn number_descriptions_render_decimals() {
    let set = NSSet::from_slice(&[10, -2].map(NSNumber::new_i32));
    assert_eq!(set.debug_string(), "{10, -2}");
}
