//! Errors of semantic analysis.

use crate::ast::Span;
use crate::hir::types::Type;
use vstd::prelude::*;

verus! {

/// What is wrong with a program, with the names in it held as `S`: text in compiled code,
/// sequences of characters in contracts.
#[derive(Debug, Clone, Copy, PartialEq, Eq)]
#[allow(inconsistent_fields)]
pub enum HirErrorKind<S> {
    TopLevelNonFunction,
    DuplicateFunction { name: S },
    DuplicateMethod { struct_name: S, name: S },
    UndeclaredIdentifier { name: S },
    UnknownFunction { name: S },
    UnknownMethod { struct_name: S, name: S },
    UnknownType { name: S },
    OrphanImpl { name: S },
    DuplicateStruct { name: S },
    DuplicateEnum { name: S },
    DuplicateField { name: S },
    DuplicateVariant { name: S },
    InvalidFieldAccess,
    InvalidAssignmentTarget,
    UnknownField { struct_name: S, field: S },
    MissingField { struct_name: S, field: S },
    CircularStruct { name: S },
    ArityMismatch { name: S, expected: usize, found: usize },
    DuplicateBind { name: S },
    MissingInitialiser { name: S },
    MissingReturn { name: S, expected: Type },
    ReceiverOutsideImpl,
    TypeMismatch { expected: Type, found: Type },
    ImmutableBind { name: S },
    ConstFnViolation(ConstFnViolationKind<S>),
    NonConstValue { name: S },
    InvalidCast { src: Type, target: Type },
    NotIndexable { typ: Type },
    IndexOutOfBounds { index: u64, len: u32 },
    InvalidRangeType { typ: Type },
    LoopControlOutsideLoop { kind: S },
    NestedItem { kind: S },
    EmptyArrayType,
    AssignBehindSharedRef,
    DuplicateInterface { name: S },
    UnknownInterface { name: S },
    MissingInterfaceMethod { struct_name: S, interface_name: S, method_name: S },
    MissingSuperinterfaceImpl { struct_name: S, interface_name: S, superinterface_name: S },
    InterfaceSignatureMismatch { struct_name: S, interface_name: S, method_name: S, expected: S, found: S, impl_span: Span },
    CircularConstant { name: S },
    DuplicateConstant { name: S },
    UnsatisfiedBound { typ: Type, bound_name: S },
    OperatorRequiresInterface { op: S, operand: S, required: ComparisonInterface },
    /// A generic type whose instances never stop needing further instances
    InstantiationTooDeep { name: S },
}

#[derive(Debug, Clone, Copy, PartialEq, Eq)]
pub enum ConstFnViolationKind<S> {
    NonConstCall { name: S },
}

/// The interface behind a comparison operator.
#[derive(Debug, Clone, Copy, PartialEq, Eq, Structural)]
pub enum ComparisonInterface {
    Equality,
    Order,
}

impl ComparisonInterface {
    /// The name of the interface.
    #[verifier::allow_in_spec]
    pub fn name(self) -> &'static str
        returns
            (match self {
                ComparisonInterface::Equality => "PartialEq",
                ComparisonInterface::Order => "PartialOrd",
            }),
    {
        match self {
            ComparisonInterface::Equality => "PartialEq",
            ComparisonInterface::Order => "PartialOrd",
        }
    }
}

/// Something wrong with a program, and where.
#[derive(Debug, Clone, Copy, PartialEq, Eq)]
pub struct HirError<S> {
    pub kind: HirErrorKind<S>,
    pub span: Span,
}

impl<S> HirError<S> {
    #[verifier::allow_in_spec]
    pub fn new(kind: HirErrorKind<S>, span: Span) -> HirError<S>
        returns
            (HirError { kind, span }),
    {
        HirError { kind, span }
    }
}

impl<'h> View for ConstFnViolationKind<&'h str> {
    type V = ConstFnViolationKind<Seq<char>>;

    open spec fn view(&self) -> ConstFnViolationKind<Seq<char>> {
        match *self {
            ConstFnViolationKind::NonConstCall { name } =>
                ConstFnViolationKind::NonConstCall { name: name@ },
        }
    }
}

impl<'h> View for HirErrorKind<&'h str> {
    type V = HirErrorKind<Seq<char>>;

    open spec fn view(&self) -> HirErrorKind<Seq<char>> {
        match *self {
            HirErrorKind::TopLevelNonFunction => HirErrorKind::TopLevelNonFunction,
            HirErrorKind::DuplicateFunction { name } =>
                HirErrorKind::DuplicateFunction { name: name@ },
            HirErrorKind::DuplicateMethod { struct_name, name } =>
                HirErrorKind::DuplicateMethod { struct_name: struct_name@, name: name@ },
            HirErrorKind::UndeclaredIdentifier { name } =>
                HirErrorKind::UndeclaredIdentifier { name: name@ },
            HirErrorKind::UnknownFunction { name } =>
                HirErrorKind::UnknownFunction { name: name@ },
            HirErrorKind::UnknownMethod { struct_name, name } =>
                HirErrorKind::UnknownMethod { struct_name: struct_name@, name: name@ },
            HirErrorKind::UnknownType { name } =>
                HirErrorKind::UnknownType { name: name@ },
            HirErrorKind::OrphanImpl { name } =>
                HirErrorKind::OrphanImpl { name: name@ },
            HirErrorKind::DuplicateStruct { name } =>
                HirErrorKind::DuplicateStruct { name: name@ },
            HirErrorKind::DuplicateEnum { name } =>
                HirErrorKind::DuplicateEnum { name: name@ },
            HirErrorKind::DuplicateField { name } =>
                HirErrorKind::DuplicateField { name: name@ },
            HirErrorKind::DuplicateVariant { name } =>
                HirErrorKind::DuplicateVariant { name: name@ },
            HirErrorKind::InvalidFieldAccess => HirErrorKind::InvalidFieldAccess,
            HirErrorKind::InvalidAssignmentTarget => HirErrorKind::InvalidAssignmentTarget,
            HirErrorKind::UnknownField { struct_name, field } =>
                HirErrorKind::UnknownField { struct_name: struct_name@, field: field@ },
            HirErrorKind::MissingField { struct_name, field } =>
                HirErrorKind::MissingField { struct_name: struct_name@, field: field@ },
            HirErrorKind::CircularStruct { name } =>
                HirErrorKind::CircularStruct { name: name@ },
            HirErrorKind::ArityMismatch { name, expected, found } =>
                HirErrorKind::ArityMismatch { name: name@, expected, found },
            HirErrorKind::DuplicateBind { name } =>
                HirErrorKind::DuplicateBind { name: name@ },
            HirErrorKind::MissingInitialiser { name } =>
                HirErrorKind::MissingInitialiser { name: name@ },
            HirErrorKind::MissingReturn { name, expected } =>
                HirErrorKind::MissingReturn { name: name@, expected },
            HirErrorKind::ReceiverOutsideImpl => HirErrorKind::ReceiverOutsideImpl,
            HirErrorKind::TypeMismatch { expected, found } =>
                HirErrorKind::TypeMismatch { expected, found },
            HirErrorKind::ImmutableBind { name } =>
                HirErrorKind::ImmutableBind { name: name@ },
            HirErrorKind::ConstFnViolation(violation) => HirErrorKind::ConstFnViolation(violation@),
            HirErrorKind::NonConstValue { name } =>
                HirErrorKind::NonConstValue { name: name@ },
            HirErrorKind::InvalidCast { src, target } =>
                HirErrorKind::InvalidCast { src, target },
            HirErrorKind::NotIndexable { typ } =>
                HirErrorKind::NotIndexable { typ },
            HirErrorKind::IndexOutOfBounds { index, len } =>
                HirErrorKind::IndexOutOfBounds { index, len },
            HirErrorKind::InvalidRangeType { typ } =>
                HirErrorKind::InvalidRangeType { typ },
            HirErrorKind::LoopControlOutsideLoop { kind } =>
                HirErrorKind::LoopControlOutsideLoop { kind: kind@ },
            HirErrorKind::NestedItem { kind } =>
                HirErrorKind::NestedItem { kind: kind@ },
            HirErrorKind::EmptyArrayType => HirErrorKind::EmptyArrayType,
            HirErrorKind::AssignBehindSharedRef => HirErrorKind::AssignBehindSharedRef,
            HirErrorKind::DuplicateInterface { name } =>
                HirErrorKind::DuplicateInterface { name: name@ },
            HirErrorKind::UnknownInterface { name } =>
                HirErrorKind::UnknownInterface { name: name@ },
            HirErrorKind::MissingInterfaceMethod { struct_name, interface_name, method_name } =>
                HirErrorKind::MissingInterfaceMethod { struct_name: struct_name@, interface_name: interface_name@, method_name: method_name@ },
            HirErrorKind::MissingSuperinterfaceImpl { struct_name, interface_name, superinterface_name } =>
                HirErrorKind::MissingSuperinterfaceImpl { struct_name: struct_name@, interface_name: interface_name@, superinterface_name: superinterface_name@ },
            HirErrorKind::InterfaceSignatureMismatch { struct_name, interface_name, method_name, expected, found, impl_span } =>
                HirErrorKind::InterfaceSignatureMismatch { struct_name: struct_name@, interface_name: interface_name@, method_name: method_name@, expected: expected@, found: found@, impl_span },
            HirErrorKind::CircularConstant { name } =>
                HirErrorKind::CircularConstant { name: name@ },
            HirErrorKind::DuplicateConstant { name } =>
                HirErrorKind::DuplicateConstant { name: name@ },
            HirErrorKind::UnsatisfiedBound { typ, bound_name } =>
                HirErrorKind::UnsatisfiedBound { typ, bound_name: bound_name@ },
            HirErrorKind::OperatorRequiresInterface { op, operand, required } =>
                HirErrorKind::OperatorRequiresInterface { op: op@, operand: operand@, required },
            HirErrorKind::InstantiationTooDeep { name } =>
                HirErrorKind::InstantiationTooDeep { name: name@ },
        }
    }
}

impl<'h> View for HirError<&'h str> {
    type V = HirError<Seq<char>>;

    open spec fn view(&self) -> HirError<Seq<char>> {
        HirError { kind: self.kind@, span: self.span }
    }
}

/// An outcome as contracts see it.
pub open spec fn seen<'h, T>(result: Result<T, HirError<&'h str>>) -> Result<T, HirError<Seq<char>>> {
    match result {
        Ok(value) => Ok(value),
        Err(error) => Err(error@),
    }
}

} // verus!
