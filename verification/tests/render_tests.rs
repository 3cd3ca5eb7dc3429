//! The statement renderer: exact output text per statement shape, and the
//! fatal conditions for shapes no rendering exists for.

use header_translator::ast::{Availability, Expr, Method, Ty, UnexposedMacro};
use header_translator::diag::Fatal;
use header_translator::stmt::{ClassDefReference, Derives, Ownership, Stmt};

fn plain_ref(name: &str) -> ClassDefReference {
    ClassDefReference::new(name.to_string(), Vec::new())
}

fn empty_avail() -> Availability {
    Availability { markers: Vec::new() }
}

#[test]
fn derives_render_as_annotation_or_nothing() {
    assert_eq!(Derives::default().render(), "#[derive(Debug, PartialEq, Eq, Hash)]");
    assert_eq!(Derives(String::new()).render(), "");
}

#[test]
fn class_declaration_renders_with_chain() {
    let stmt = Stmt::ClassDecl {
        ty: plain_ref("NSArray"),
        availability: empty_avail(),
        superclasses: vec![plain_ref("NSObject"), plain_ref("NSRoot")],
        designated_initializers: Vec::new(),
        derives: Derives::default(),
        ownership: Ownership::Shared,
    };
    let expected = "extern_class!(\n    #[derive(Debug, PartialEq, Eq, Hash)]\n    pub struct NSArray;\n\n    unsafe impl ClassType for NSArray {\n    #[inherits(NSRoot)]\n        type Super = NSObject;\n    }\n);\n";
    assert_eq!(stmt.render().unwrap(), expected);
}

#[test]
fn generic_class_declaration_renders_parameter_lists() {
    let stmt = Stmt::ClassDecl {
        ty: ClassDefReference::new("NSArray".to_string(), vec!["ObjectType".to_string()]),
        availability: empty_avail(),
        superclasses: vec![plain_ref("NSObject")],
        designated_initializers: Vec::new(),
        derives: Derives(String::new()),
        ownership: Ownership::Shared,
    };
    let text = stmt.render().unwrap();
    assert!(text.starts_with("__inner_extern_class!(\n"));
    assert!(text.contains("pub struct NSArray<ObjectType: Message = Object, ObjectTypeOwnership: Ownership = Shared, >"));
    assert!(text.contains("_inner0: PhantomData<*mut (ObjectType, ObjectTypeOwnership)>,\n"));
    assert!(text.contains("notunwindsafe: PhantomData<&'static mut ()>,\n"));
    assert!(text.contains(
        "unsafe impl<ObjectType: Message, ObjectTypeOwnership: Ownership, > ClassType for NSArray<ObjectType, ObjectTypeOwnership, > {\n"
    ));
}

#[test]
fn class_without_superclass_cannot_render() {
    let stmt = Stmt::ClassDecl {
        ty: plain_ref("NSOrphan"),
        availability: empty_avail(),
        superclasses: Vec::new(),
        designated_initializers: Vec::new(),
        derives: Derives::default(),
        ownership: Ownership::Shared,
    };
    assert_eq!(
        stmt.render(),
        Err(Fatal::ClassWithoutSuperclass { name: "NSOrphan".to_string() })
    );
}

#[test]
fn method_block_renders_comments_and_lines() {
    let stmt = Stmt::Methods {
        ty: plain_ref("NSArray"),
        availability: empty_avail(),
        methods: vec![Method {
            is_class: false,
            fn_name: "count".to_string(),
            text: "        pub fn count(&self) -> usize;".to_string(),
        }],
        category_name: Some("Counting".to_string()),
        description: Some("Helpers".to_string()),
    };
    let expected = "extern_methods!(\n    /// Helpers\n    ///\n    /// Counting\n    unsafe impl NSArray {\n        pub fn count(&self) -> usize;\n    }\n);\n";
    assert_eq!(stmt.render().unwrap(), expected);
}

#[test]
fn protocol_declaration_renders_block() {
    let stmt = Stmt::ProtocolDecl {
        name: "NSCopying".to_string(),
        availability: empty_avail(),
        protocols: vec!["NSObjectProtocol".to_string()],
        methods: Vec::new(),
    };
    let expected = "extern_protocol!(\n    pub struct NSCopying;\n\n    unsafe impl ProtocolType for NSCopying {\n    }\n);\n";
    assert_eq!(stmt.render().unwrap(), expected);
}

#[test]
fn conformance_renders_to_nothing() {
    let stmt = Stmt::ProtocolImpl {
        ty: plain_ref("NSArray"),
        availability: empty_avail(),
        protocol: "NSCopying".to_string(),
    };
    assert_eq!(stmt.render().unwrap(), "");
}

#[test]
fn struct_declaration_hides_reserved_fields() {
    let stmt = Stmt::StructDecl {
        name: "NSRange".to_string(),
        boxable: true,
        fields: vec![
            ("location".to_string(), Ty { text: "NSUInteger".to_string() }),
            ("_reserved".to_string(), Ty { text: "u32".to_string() }),
        ],
    };
    let expected = "extern_struct!(\n    pub struct NSRange {\n        pub location: NSUInteger,\n        _reserved: u32,\n    }\n);\n";
    assert_eq!(stmt.render().unwrap(), expected);
}

#[test]
fn enum_rendering_follows_macro_kind() {
    let make = |kind: Option<UnexposedMacro>| Stmt::EnumDecl {
        name: Some("NSComparisonResult".to_string()),
        ty: Ty { text: "NSInteger".to_string() },
        kind,
        variants: vec![("NSOrderedSame".to_string(), Expr { text: "0".to_string() })],
    };
    let expected = "ns_enum!(\n    #[underlying(NSInteger)]\n    pub enum NSComparisonResult {\n        NSOrderedSame = 0,\n    }\n);\n";
    assert_eq!(make(Some(UnexposedMacro::Enum)).render().unwrap(), expected);
    assert!(make(None).render().unwrap().starts_with("extern_enum!(\n"));
    assert!(make(Some(UnexposedMacro::Options)).render().unwrap().starts_with("ns_options!(\n"));
    assert!(
        make(Some(UnexposedMacro::ClosedEnum)).render().unwrap().starts_with("ns_closed_enum!(\n")
    );
    assert!(
        make(Some(UnexposedMacro::ErrorEnum)).render().unwrap().starts_with("ns_error_enum!(\n")
    );
    assert_eq!(
        make(Some(UnexposedMacro::TypedEnum)).render(),
        Err(Fatal::InvalidEnumKind { kind: UnexposedMacro::TypedEnum })
    );
}

#[test]
fn variable_rendering_follows_initializer_presence() {
    let bare = Stmt::VarDecl {
        name: "NSZeroPoint".to_string(),
        ty: Ty { text: "NSPoint".to_string() },
        value: None,
    };
    assert_eq!(bare.render().unwrap(), "extern_static!(NSZeroPoint: NSPoint);\n");
}

#[test]
fn function_rendering_follows_body_presence() {
    let make = |body: Option<()>| Stmt::FnDecl {
        name: "NSStringFromRange".to_string(),
        arguments: vec![("range".to_string(), Ty { text: "NSRange".to_string() })],
        result_type: Ty { text: " -> *mut NSString".to_string() },
        body,
    };
    assert_eq!(
        make(None).render().unwrap(),
        "extern_fn!(\n    pub unsafe fn NSStringFromRange(range: NSRange,) -> *mut NSString;\n);\n"
    );
    let inline = make(Some(())).render().unwrap();
    assert!(inline.starts_with("inline_fn!(\n"));
    assert!(inline.contains(" -> *mut NSString {\n"));
}

#[test]
fn alias_rendering_follows_macro_kind() {
    let make = |kind: Option<UnexposedMacro>| Stmt::AliasDecl {
        name: "NSStringEncoding".to_string(),
        ty: Ty { text: "NSUInteger".to_string() },
        kind,
    };
    assert_eq!(make(None).render().unwrap(), "pub type NSStringEncoding = NSUInteger;\n");
    assert_eq!(
        make(Some(UnexposedMacro::BridgedTypedef)).render().unwrap(),
        "pub type NSStringEncoding = NSUInteger;\n"
    );
    assert_eq!(
        make(Some(UnexposedMacro::TypedEnum)).render().unwrap(),
        "typed_enum!(pub type NSStringEncoding = NSUInteger;);\n"
    );
    assert_eq!(
        make(Some(UnexposedMacro::TypedExtensibleEnum)).render().unwrap(),
        "typed_extensible_enum!(pub type NSStringEncoding = NSUInteger;);\n"
    );
    assert_eq!(
        make(Some(UnexposedMacro::Options)).render(),
        Err(Fatal::InvalidAliasKind { kind: UnexposedMacro::Options })
    );
}

#[test]
fn rendering_then_comparing_reports_equality() {
    let stmt = Stmt::AliasDecl {
        name: "NSStringEncoding".to_string(),
        ty: Ty { text: "NSUInteger".to_string() },
        kind: None,
    };
    let text = stmt.render().unwrap();
    let again = Stmt::AliasDecl {
        name: "NSStringEncoding".to_string(),
        ty: Ty { text: "NSUInteger".to_string() },
        kind: None,
    };
    assert!(stmt.compare(&again).is_ok());
    assert_eq!(again.render().unwrap(), text);
}
