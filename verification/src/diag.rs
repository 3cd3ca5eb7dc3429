//! The two error tiers of the translator: fatal conditions, which abort the
//! whole translation run, and diagnostics, which are collected into a
//! structured log while translation continues.

use vstd::prelude::*;

use crate::ast::UnexposedMacro;

verus! {

/// A fatal condition: a declaration shape that violates the translator's
/// coverage assumptions. Never recovered from; the run aborts.
#[derive(Debug, Clone, PartialEq, Eq)]
pub enum Fatal {
    /// An unrecognized top-level declaration kind.
    UnknownDeclKind { name: Option<String> },
    /// Two properties claimed the same accessor selector.
    DuplicatePropertyAccessor { is_class: bool, selector: String },
    /// A struct member is a bit-field; exposing it directly is unsound.
    BitFieldMember { field: String },
    /// More than one initializer expression on a variable declaration.
    MultipleInitializers { name: String },
    /// Differing macro-kind tags sighted for one enum declaration.
    ConflictingMacroKinds { name: Option<String> },
    /// More than one macro-kind tag on a typedef declaration.
    MultipleMacroKinds { name: String },
    /// An attribute macro where none is expected, on a variable declaration.
    UnexpectedAttribute { name: String },
    /// An unrecognized child of an enum declaration.
    UnknownEnumChild { name: Option<String> },
    /// An unrecognized child of a variable declaration.
    UnknownVarDeclChild { name: String },
    /// A category declaration without a class reference.
    MissingCategoryClass,
    /// A macro-kind tag on a typedef that declares a struct.
    MacroKindOnStructTypedef { name: String },
    /// A class statement without any superclass cannot be rendered.
    ClassWithoutSuperclass { name: String },
    /// A macro-kind tag no enum rendering exists for.
    InvalidEnumKind { kind: UnexposedMacro },
    /// A macro-kind tag no alias rendering exists for.
    InvalidAliasKind { kind: UnexposedMacro },
    /// Two statements compared unequal during comparison-based testing.
    StatementMismatch,
}

/// Mathematical value of a `Fatal`.
pub enum FatalS {
    UnknownDeclKind { name: Option<Seq<char>> },
    DuplicatePropertyAccessor { is_class: bool, selector: Seq<char> },
    BitFieldMember { field: Seq<char> },
    MultipleInitializers { name: Seq<char> },
    ConflictingMacroKinds { name: Option<Seq<char>> },
    MultipleMacroKinds { name: Seq<char> },
    UnexpectedAttribute { name: Seq<char> },
    UnknownEnumChild { name: Option<Seq<char>> },
    UnknownVarDeclChild { name: Seq<char> },
    MissingCategoryClass,
    MacroKindOnStructTypedef { name: Seq<char> },
    ClassWithoutSuperclass { name: Seq<char> },
    InvalidEnumKind { kind: UnexposedMacro },
    InvalidAliasKind { kind: UnexposedMacro },
    StatementMismatch,
}

impl View for Fatal {
    type V = FatalS;

    open spec fn view(&self) -> FatalS {
        match self {
            Fatal::UnknownDeclKind { name } => FatalS::UnknownDeclKind { name: name.deep_view() },
            Fatal::DuplicatePropertyAccessor { is_class, selector } => {
                FatalS::DuplicatePropertyAccessor { is_class: *is_class, selector: selector@ }
            },
            Fatal::BitFieldMember { field } => FatalS::BitFieldMember { field: field@ },
            Fatal::MultipleInitializers { name } => FatalS::MultipleInitializers { name: name@ },
            Fatal::ConflictingMacroKinds { name } => (FatalS::ConflictingMacroKinds {
                name: name.deep_view(),
            }),
            Fatal::MultipleMacroKinds { name } => FatalS::MultipleMacroKinds { name: name@ },
            Fatal::UnexpectedAttribute { name } => FatalS::UnexpectedAttribute { name: name@ },
            Fatal::UnknownEnumChild { name } => (FatalS::UnknownEnumChild {
                name: name.deep_view(),
            }),
            Fatal::UnknownVarDeclChild { name } => FatalS::UnknownVarDeclChild { name: name@ },
            Fatal::MissingCategoryClass => FatalS::MissingCategoryClass,
            Fatal::MacroKindOnStructTypedef { name } => (FatalS::MacroKindOnStructTypedef {
                name: name@,
            }),
            Fatal::ClassWithoutSuperclass { name } => FatalS::ClassWithoutSuperclass { name: name@ },
            Fatal::InvalidEnumKind { kind } => FatalS::InvalidEnumKind { kind: *kind },
            Fatal::InvalidAliasKind { kind } => FatalS::InvalidAliasKind { kind: *kind },
            Fatal::StatementMismatch => FatalS::StatementMismatch,
        }
    }
}

impl DeepView for Fatal {
    type V = FatalS;

    open spec fn deep_view(&self) -> FatalS {
        self.view()
    }
}

/// A soft condition: reported in the structured log; translation continues,
/// possibly dropping the declaration concerned.
#[derive(Debug, Clone, PartialEq, Eq)]
pub enum Diagnostic {
    /// A recognized macro tag in a position where none is consumed.
    UnknownMacro { tag: UnexposedMacro },
    /// An unrecognized but decorative child node kind.
    UnknownChild,
    /// A generic type parameter outside of class-declaration context.
    UnsupportedGenerics,
    /// Property accessor selectors no synthesized method matched.
    UnmatchedProperties { keys: Vec<(bool, String)> },
    /// A designated initializer sighted in a category.
    DesignatedInitializerInCategory { names: Vec<String> },
    /// A designated initializer sighted in a protocol.
    DesignatedInitializerInProtocol { names: Vec<String> },
    /// A variadic function; dropped.
    VariadicFunction { name: String },
    /// A free function unexpectedly marked as a static method.
    UnexpectedStaticMethod { name: String },
    /// A variable initializer the expression parser declined; dropped.
    SkippedStatic { name: String },
}

/// Mathematical value of a `Diagnostic`.
pub enum DiagS {
    UnknownMacro { tag: UnexposedMacro },
    UnknownChild,
    UnsupportedGenerics,
    UnmatchedProperties { keys: Seq<(bool, Seq<char>)> },
    DesignatedInitializerInCategory { names: Seq<Seq<char>> },
    DesignatedInitializerInProtocol { names: Seq<Seq<char>> },
    VariadicFunction { name: Seq<char> },
    UnexpectedStaticMethod { name: Seq<char> },
    SkippedStatic { name: Seq<char> },
}

impl View for Diagnostic {
    type V = DiagS;

    open spec fn view(&self) -> DiagS {
        match self {
            Diagnostic::UnknownMacro { tag } => DiagS::UnknownMacro { tag: *tag },
            Diagnostic::UnknownChild => DiagS::UnknownChild,
            Diagnostic::UnsupportedGenerics => DiagS::UnsupportedGenerics,
            Diagnostic::UnmatchedProperties { keys } => (DiagS::UnmatchedProperties {
                keys: keys.deep_view(),
            }),
            Diagnostic::DesignatedInitializerInCategory { names } => {
                DiagS::DesignatedInitializerInCategory { names: names.deep_view() }
            },
            Diagnostic::DesignatedInitializerInProtocol { names } => {
                DiagS::DesignatedInitializerInProtocol { names: names.deep_view() }
            },
            Diagnostic::VariadicFunction { name } => DiagS::VariadicFunction { name: name@ },
            Diagnostic::UnexpectedStaticMethod { name } => (DiagS::UnexpectedStaticMethod {
                name: name@,
            }),
            Diagnostic::SkippedStatic { name } => DiagS::SkippedStatic { name: name@ },
        }
    }
}

impl DeepView for Diagnostic {
    type V = DiagS;

    open spec fn deep_view(&self) -> DiagS {
        self.view()
    }
}

} // verus!
