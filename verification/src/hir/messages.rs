//! The texts of errors.

use crate::ast::Span;
use crate::diagnostic::{text_of, Label, LabelView, RichDiagnostic, RichView, Severity};
use crate::hir::display::{push_type, type_text};
use crate::hir::error::{ConstFnViolationKind, HirErrorKind};
use crate::text::{decimal, decimal_text, push_decimal, push_text};
use vstd::prelude::*;

verus! {

/// What a violation of a const function is.
pub open spec fn violation_message(kind: ConstFnViolationKind<Seq<char>>) -> Seq<char> {
    match kind {
        ConstFnViolationKind::NonConstCall { name } => "cannot call non-const function "@ + name + " from a const fn"@,
    }
}

#[verifier::rlimit(60)]
fn violation_message_text(kind: ConstFnViolationKind<&str>) -> (text: String)
    ensures
        text@ == violation_message(kind@),
{
    match kind {
        ConstFnViolationKind::NonConstCall { name } => {
            let mut text = "cannot call non-const function ".to_owned();
            push_text(&mut text, name);
            push_text(&mut text, " from a const fn");
            text
        },
    }
}

/// What is wrong at the place of a violation.
pub open spec fn violation_primary(kind: ConstFnViolationKind<Seq<char>>) -> Seq<char> {
    match kind {
        ConstFnViolationKind::NonConstCall { name } => name + " is not a const function"@,
    }
}

#[verifier::rlimit(60)]
fn violation_primary_text(kind: ConstFnViolationKind<&str>) -> (text: String)
    ensures
        text@ == violation_primary(kind@),
{
    match kind {
        ConstFnViolationKind::NonConstCall { name } => {
            let mut text = name.to_owned();
            push_text(&mut text, " is not a const function");
            text
        },
    }
}

/// What can be done about a violation.
pub open spec fn violation_help(kind: ConstFnViolationKind<Seq<char>>) -> Seq<char> {
    match kind {
        ConstFnViolationKind::NonConstCall { name } => "add `const` to `fn "@ + name + "`"@,
    }
}

#[verifier::rlimit(60)]
fn violation_help_text(kind: ConstFnViolationKind<&str>) -> (text: String)
    ensures
        text@ == violation_help(kind@),
{
    match kind {
        ConstFnViolationKind::NonConstCall { name } => {
            let mut text = "add `const` to `fn ".to_owned();
            push_text(&mut text, name);
            push_text(&mut text, "`");
            text
        },
    }
}

/// What an error is.
pub open spec fn message_of(kind: HirErrorKind<Seq<char>>) -> Seq<char> {
    match kind {
        HirErrorKind::TopLevelNonFunction => "only function declarations are allowed at the top level"@,
        HirErrorKind::DuplicateFunction { name } => "duplicate function "@ + name,
        HirErrorKind::DuplicateMethod { struct_name, name } => "duplicate method "@ + name + " for "@ + struct_name,
        HirErrorKind::UndeclaredIdentifier { name } => "use of undeclared identifier "@ + name,
        HirErrorKind::UnknownFunction { name } => "call to unknown function "@ + name,
        HirErrorKind::UnknownMethod { struct_name, name } => "call to unknown method "@ + name + " on "@ + struct_name,
        HirErrorKind::UnknownType { name } => "unknown type "@ + name,
        HirErrorKind::OrphanImpl { name } => "cannot implement methods on "@ + name,
        HirErrorKind::DuplicateStruct { name } => "duplicate struct "@ + name,
        HirErrorKind::DuplicateEnum { name } => "duplicate enum "@ + name,
        HirErrorKind::DuplicateField { name } => "duplicate field "@ + name,
        HirErrorKind::DuplicateVariant { name } => "duplicate enum variant "@ + name,
        HirErrorKind::InvalidFieldAccess => "invalid field access"@,
        HirErrorKind::InvalidAssignmentTarget => "invalid assignment target"@,
        HirErrorKind::UnknownField { struct_name, field } => "unknown field "@ + field + " on "@ + struct_name,
        HirErrorKind::MissingField { struct_name, field } => "missing field "@ + field + " in "@ + struct_name + " literal"@,
        HirErrorKind::CircularStruct { name } => "circular struct definition involving "@ + name,
        HirErrorKind::ArityMismatch { name, .. } => "wrong number of arguments to "@ + name,
        HirErrorKind::DuplicateBind { name } => "duplicate binding "@ + name,
        HirErrorKind::MissingInitialiser { name } => "missing initialiser for "@ + name,
        HirErrorKind::ReceiverOutsideImpl => "self receiver outside impl block"@,
        HirErrorKind::TypeMismatch { expected, found } => "type mismatch: expected "@ + type_text(expected) + ", found "@ + type_text(found),
        HirErrorKind::ImmutableBind { name } => "cannot assign to immutable binding "@ + name,
        HirErrorKind::InvalidCast { src, target } => "invalid cast from "@ + type_text(src) + " to "@ + type_text(target),
        HirErrorKind::NotIndexable { typ } => "cannot index a value of type "@ + type_text(typ),
        HirErrorKind::IndexOutOfBounds { index, len } => "index out of bounds: the length is "@ + decimal(len as nat) + " but the index is "@ + decimal(index as nat),
        HirErrorKind::EmptyArrayType => "cannot infer the element type of an empty array"@,
        HirErrorKind::AssignBehindSharedRef => "cannot assign to a value behind a shared `&` reference"@,
        HirErrorKind::DuplicateInterface { name } => "duplicate interface "@ + name,
        HirErrorKind::UnknownInterface { name } => "unknown interface "@ + name,
        HirErrorKind::MissingInterfaceMethod { interface_name, method_name, .. } => "missing method "@ + method_name + " required by interface "@ + interface_name,
        HirErrorKind::MissingSuperinterfaceImpl { interface_name, superinterface_name, .. } => "missing "@ + superinterface_name + " implementation required by "@ + interface_name,
        HirErrorKind::InterfaceSignatureMismatch { interface_name, method_name, .. } => "method "@ + method_name + " does not match interface "@ + interface_name,
        HirErrorKind::CircularConstant { name } => "circular dependency in constant "@ + name,
        HirErrorKind::DuplicateConstant { name } => "duplicate constant "@ + name,
        HirErrorKind::UnsatisfiedBound { typ, bound_name } => "type "@ + type_text(typ) + " does not satisfy bound "@ + bound_name,
        HirErrorKind::OperatorRequiresInterface { op, required, .. } => "operator `"@ + op + "` requires `"@ + required.name()@ + "`"@,
        HirErrorKind::MissingReturn { name, .. } => "missing return value in "@ + name,
        HirErrorKind::InvalidRangeType { typ } => "range over a value of type "@ + type_text(typ),
        HirErrorKind::LoopControlOutsideLoop { kind } => kind + " outside of a loop"@,
        HirErrorKind::NestedItem { kind } => kind + " declared inside a function body"@,
        HirErrorKind::NonConstValue { name } => name + " is not a constant"@,
        HirErrorKind::InstantiationTooDeep { name } => "instances of "@ + name + " without end"@,
        HirErrorKind::ConstFnViolation(violation) => violation_message(violation),
    }
}

#[verifier::rlimit(60)]
fn message_of_text(kind: HirErrorKind<&str>) -> (text: String)
    ensures
        text@ == message_of(kind@),
{
    match kind {
        HirErrorKind::TopLevelNonFunction => "only function declarations are allowed at the top level".to_owned(),
        HirErrorKind::DuplicateFunction { name } => {
            let mut text = "duplicate function ".to_owned();
            push_text(&mut text, name);
            text
        },
        HirErrorKind::DuplicateMethod { struct_name, name } => {
            let mut text = "duplicate method ".to_owned();
            push_text(&mut text, name);
            push_text(&mut text, " for ");
            push_text(&mut text, struct_name);
            text
        },
        HirErrorKind::UndeclaredIdentifier { name } => {
            let mut text = "use of undeclared identifier ".to_owned();
            push_text(&mut text, name);
            text
        },
        HirErrorKind::UnknownFunction { name } => {
            let mut text = "call to unknown function ".to_owned();
            push_text(&mut text, name);
            text
        },
        HirErrorKind::UnknownMethod { struct_name, name } => {
            let mut text = "call to unknown method ".to_owned();
            push_text(&mut text, name);
            push_text(&mut text, " on ");
            push_text(&mut text, struct_name);
            text
        },
        HirErrorKind::UnknownType { name } => {
            let mut text = "unknown type ".to_owned();
            push_text(&mut text, name);
            text
        },
        HirErrorKind::OrphanImpl { name } => {
            let mut text = "cannot implement methods on ".to_owned();
            push_text(&mut text, name);
            text
        },
        HirErrorKind::DuplicateStruct { name } => {
            let mut text = "duplicate struct ".to_owned();
            push_text(&mut text, name);
            text
        },
        HirErrorKind::DuplicateEnum { name } => {
            let mut text = "duplicate enum ".to_owned();
            push_text(&mut text, name);
            text
        },
        HirErrorKind::DuplicateField { name } => {
            let mut text = "duplicate field ".to_owned();
            push_text(&mut text, name);
            text
        },
        HirErrorKind::DuplicateVariant { name } => {
            let mut text = "duplicate enum variant ".to_owned();
            push_text(&mut text, name);
            text
        },
        HirErrorKind::InvalidFieldAccess => "invalid field access".to_owned(),
        HirErrorKind::InvalidAssignmentTarget => "invalid assignment target".to_owned(),
        HirErrorKind::UnknownField { struct_name, field } => {
            let mut text = "unknown field ".to_owned();
            push_text(&mut text, field);
            push_text(&mut text, " on ");
            push_text(&mut text, struct_name);
            text
        },
        HirErrorKind::MissingField { struct_name, field } => {
            let mut text = "missing field ".to_owned();
            push_text(&mut text, field);
            push_text(&mut text, " in ");
            push_text(&mut text, struct_name);
            push_text(&mut text, " literal");
            text
        },
        HirErrorKind::CircularStruct { name } => {
            let mut text = "circular struct definition involving ".to_owned();
            push_text(&mut text, name);
            text
        },
        HirErrorKind::ArityMismatch { name, .. } => {
            let mut text = "wrong number of arguments to ".to_owned();
            push_text(&mut text, name);
            text
        },
        HirErrorKind::DuplicateBind { name } => {
            let mut text = "duplicate binding ".to_owned();
            push_text(&mut text, name);
            text
        },
        HirErrorKind::MissingInitialiser { name } => {
            let mut text = "missing initialiser for ".to_owned();
            push_text(&mut text, name);
            text
        },
        HirErrorKind::ReceiverOutsideImpl => "self receiver outside impl block".to_owned(),
        HirErrorKind::TypeMismatch { expected, found } => {
            let mut text = "type mismatch: expected ".to_owned();
            push_type(&mut text, expected);
            push_text(&mut text, ", found ");
            push_type(&mut text, found);
            text
        },
        HirErrorKind::ImmutableBind { name } => {
            let mut text = "cannot assign to immutable binding ".to_owned();
            push_text(&mut text, name);
            text
        },
        HirErrorKind::InvalidCast { src, target } => {
            let mut text = "invalid cast from ".to_owned();
            push_type(&mut text, src);
            push_text(&mut text, " to ");
            push_type(&mut text, target);
            text
        },
        HirErrorKind::NotIndexable { typ } => {
            let mut text = "cannot index a value of type ".to_owned();
            push_type(&mut text, typ);
            text
        },
        HirErrorKind::IndexOutOfBounds { index, len } => {
            let mut text = "index out of bounds: the length is ".to_owned();
            push_decimal(&mut text, len as u128);
            push_text(&mut text, " but the index is ");
            push_decimal(&mut text, index as u128);
            text
        },
        HirErrorKind::EmptyArrayType => "cannot infer the element type of an empty array".to_owned(),
        HirErrorKind::AssignBehindSharedRef => "cannot assign to a value behind a shared `&` reference".to_owned(),
        HirErrorKind::DuplicateInterface { name } => {
            let mut text = "duplicate interface ".to_owned();
            push_text(&mut text, name);
            text
        },
        HirErrorKind::UnknownInterface { name } => {
            let mut text = "unknown interface ".to_owned();
            push_text(&mut text, name);
            text
        },
        HirErrorKind::MissingInterfaceMethod { interface_name, method_name, .. } => {
            let mut text = "missing method ".to_owned();
            push_text(&mut text, method_name);
            push_text(&mut text, " required by interface ");
            push_text(&mut text, interface_name);
            text
        },
        HirErrorKind::MissingSuperinterfaceImpl { interface_name, superinterface_name, .. } => {
            let mut text = "missing ".to_owned();
            push_text(&mut text, superinterface_name);
            push_text(&mut text, " implementation required by ");
            push_text(&mut text, interface_name);
            text
        },
        HirErrorKind::InterfaceSignatureMismatch { interface_name, method_name, .. } => {
            let mut text = "method ".to_owned();
            push_text(&mut text, method_name);
            push_text(&mut text, " does not match interface ");
            push_text(&mut text, interface_name);
            text
        },
        HirErrorKind::CircularConstant { name } => {
            let mut text = "circular dependency in constant ".to_owned();
            push_text(&mut text, name);
            text
        },
        HirErrorKind::DuplicateConstant { name } => {
            let mut text = "duplicate constant ".to_owned();
            push_text(&mut text, name);
            text
        },
        HirErrorKind::UnsatisfiedBound { typ, bound_name } => {
            let mut text = "type ".to_owned();
            push_type(&mut text, typ);
            push_text(&mut text, " does not satisfy bound ");
            push_text(&mut text, bound_name);
            text
        },
        HirErrorKind::OperatorRequiresInterface { op, required, .. } => {
            let mut text = "operator `".to_owned();
            push_text(&mut text, op);
            push_text(&mut text, "` requires `");
            push_text(&mut text, required.name());
            push_text(&mut text, "`");
            text
        },
        HirErrorKind::MissingReturn { name, .. } => {
            let mut text = "missing return value in ".to_owned();
            push_text(&mut text, name);
            text
        },
        HirErrorKind::InvalidRangeType { typ } => {
            let mut text = "range over a value of type ".to_owned();
            push_type(&mut text, typ);
            text
        },
        HirErrorKind::LoopControlOutsideLoop { kind } => {
            let mut text = kind.to_owned();
            push_text(&mut text, " outside of a loop");
            text
        },
        HirErrorKind::NestedItem { kind } => {
            let mut text = kind.to_owned();
            push_text(&mut text, " declared inside a function body");
            text
        },
        HirErrorKind::NonConstValue { name } => {
            let mut text = name.to_owned();
            push_text(&mut text, " is not a constant");
            text
        },
        HirErrorKind::InstantiationTooDeep { name } => {
            let mut text = "instances of ".to_owned();
            push_text(&mut text, name);
            push_text(&mut text, " without end");
            text
        },
        HirErrorKind::ConstFnViolation(violation) => violation_message_text(violation),
    }
}

/// What is wrong at the place of an error.
pub open spec fn primary_of(kind: HirErrorKind<Seq<char>>) -> Seq<char> {
    match kind {
        HirErrorKind::TopLevelNonFunction => "this is not a function declaration"@,
        HirErrorKind::DuplicateFunction { name } => name + " is defined here again"@,
        HirErrorKind::DuplicateMethod { struct_name, name } => name + " is already defined for "@ + struct_name,
        HirErrorKind::UndeclaredIdentifier { name } => name + " is not declared in this scope"@,
        HirErrorKind::UnknownFunction { name } => name + " is not a known function"@,
        HirErrorKind::UnknownMethod { struct_name, name } => struct_name + " has no method named "@ + name,
        HirErrorKind::UnknownType { name } => name + " is not a known type"@,
        HirErrorKind::OrphanImpl { name } => name + " is not a struct declared in this module"@,
        HirErrorKind::DuplicateStruct { name } => name + " is defined here again"@,
        HirErrorKind::DuplicateEnum { name } => name + " is defined here again"@,
        HirErrorKind::DuplicateField { name } => name + " is already declared"@,
        HirErrorKind::DuplicateVariant { name } => name + " is already declared"@,
        HirErrorKind::InvalidFieldAccess => "field access is only supported on local variable bindings"@,
        HirErrorKind::InvalidAssignmentTarget => "the left-hand side must be an identifier or a field path"@,
        HirErrorKind::UnknownField { struct_name, field } => struct_name + " has no field named "@ + field,
        HirErrorKind::MissingField { field, .. } => field + " must be initialised here"@,
        HirErrorKind::CircularStruct { name } => name + " is part of a by-value struct cycle"@,
        HirErrorKind::ArityMismatch { name, expected, found } => decimal(found as nat) + " arguments provided, but "@ + name + " expects "@ + decimal(expected as nat),
        HirErrorKind::DuplicateBind { name } => name + " is already bound in this scope"@,
        HirErrorKind::MissingInitialiser { name } => name + " has no value and no type annotation"@,
        HirErrorKind::ReceiverOutsideImpl => "receivers are only valid inside method definitions"@,
        HirErrorKind::TypeMismatch { found, .. } => "this is of type "@ + type_text(found),
        HirErrorKind::ImmutableBind { name } => name + " is immutable and cannot be reassigned"@,
        HirErrorKind::InvalidCast { src, target } => "cannot cast from type "@ + type_text(src) + " to "@ + type_text(target),
        HirErrorKind::NotIndexable { typ } => type_text(typ) + " cannot be indexed"@,
        HirErrorKind::IndexOutOfBounds { index, len } => "index "@ + decimal(index as nat) + " is out of bounds for an array of length "@ + decimal(len as nat),
        HirErrorKind::EmptyArrayType => "the element type is unknown here"@,
        HirErrorKind::AssignBehindSharedRef => "the referent is read-only through a shared reference"@,
        HirErrorKind::DuplicateInterface { name } => name + " is defined here again"@,
        HirErrorKind::UnknownInterface { name } => name + " is not a known interface"@,
        HirErrorKind::MissingInterfaceMethod { struct_name, method_name, .. } => struct_name + " does not implement "@ + method_name,
        HirErrorKind::MissingSuperinterfaceImpl { struct_name, interface_name, superinterface_name } => struct_name + " implements "@ + interface_name + " without "@ + superinterface_name,
        HirErrorKind::InterfaceSignatureMismatch { found, .. } => "found: "@ + found,
        HirErrorKind::CircularConstant { name } => "constant "@ + name + " depends on itself"@,
        HirErrorKind::DuplicateConstant { name } => name + " is defined here again"@,
        HirErrorKind::UnsatisfiedBound { typ, bound_name } => type_text(typ) + " is used here as "@ + bound_name,
        HirErrorKind::OperatorRequiresInterface { operand, required, .. } => "`"@ + operand + "` does not implement `"@ + required.name()@ + "`"@,
        HirErrorKind::MissingReturn { name, expected } => name + " must give back a value of type "@ + type_text(expected),
        HirErrorKind::InvalidRangeType { typ } => type_text(typ) + " is not an integer type"@,
        HirErrorKind::LoopControlOutsideLoop { kind } => "there is no loop here for "@ + kind + " to act on"@,
        HirErrorKind::NestedItem { .. } => "this declaration must stand at the top level"@,
        HirErrorKind::NonConstValue { name } => "the value of a constant cannot depend on "@ + name,
        HirErrorKind::InstantiationTooDeep { name } => "every instance of "@ + name + " needs a further one"@,
        HirErrorKind::ConstFnViolation(violation) => violation_primary(violation),
    }
}

#[verifier::rlimit(60)]
fn primary_of_text(kind: HirErrorKind<&str>) -> (text: String)
    ensures
        text@ == primary_of(kind@),
{
    match kind {
        HirErrorKind::TopLevelNonFunction => "this is not a function declaration".to_owned(),
        HirErrorKind::DuplicateFunction { name } => {
            let mut text = name.to_owned();
            push_text(&mut text, " is defined here again");
            text
        },
        HirErrorKind::DuplicateMethod { struct_name, name } => {
            let mut text = name.to_owned();
            push_text(&mut text, " is already defined for ");
            push_text(&mut text, struct_name);
            text
        },
        HirErrorKind::UndeclaredIdentifier { name } => {
            let mut text = name.to_owned();
            push_text(&mut text, " is not declared in this scope");
            text
        },
        HirErrorKind::UnknownFunction { name } => {
            let mut text = name.to_owned();
            push_text(&mut text, " is not a known function");
            text
        },
        HirErrorKind::UnknownMethod { struct_name, name } => {
            let mut text = struct_name.to_owned();
            push_text(&mut text, " has no method named ");
            push_text(&mut text, name);
            text
        },
        HirErrorKind::UnknownType { name } => {
            let mut text = name.to_owned();
            push_text(&mut text, " is not a known type");
            text
        },
        HirErrorKind::OrphanImpl { name } => {
            let mut text = name.to_owned();
            push_text(&mut text, " is not a struct declared in this module");
            text
        },
        HirErrorKind::DuplicateStruct { name } => {
            let mut text = name.to_owned();
            push_text(&mut text, " is defined here again");
            text
        },
        HirErrorKind::DuplicateEnum { name } => {
            let mut text = name.to_owned();
            push_text(&mut text, " is defined here again");
            text
        },
        HirErrorKind::DuplicateField { name } => {
            let mut text = name.to_owned();
            push_text(&mut text, " is already declared");
            text
        },
        HirErrorKind::DuplicateVariant { name } => {
            let mut text = name.to_owned();
            push_text(&mut text, " is already declared");
            text
        },
        HirErrorKind::InvalidFieldAccess => "field access is only supported on local variable bindings".to_owned(),
        HirErrorKind::InvalidAssignmentTarget => "the left-hand side must be an identifier or a field path".to_owned(),
        HirErrorKind::UnknownField { struct_name, field } => {
            let mut text = struct_name.to_owned();
            push_text(&mut text, " has no field named ");
            push_text(&mut text, field);
            text
        },
        HirErrorKind::MissingField { field, .. } => {
            let mut text = field.to_owned();
            push_text(&mut text, " must be initialised here");
            text
        },
        HirErrorKind::CircularStruct { name } => {
            let mut text = name.to_owned();
            push_text(&mut text, " is part of a by-value struct cycle");
            text
        },
        HirErrorKind::ArityMismatch { name, expected, found } => {
            let mut text = decimal_text(found as u128);
            push_text(&mut text, " arguments provided, but ");
            push_text(&mut text, name);
            push_text(&mut text, " expects ");
            push_decimal(&mut text, expected as u128);
            text
        },
        HirErrorKind::DuplicateBind { name } => {
            let mut text = name.to_owned();
            push_text(&mut text, " is already bound in this scope");
            text
        },
        HirErrorKind::MissingInitialiser { name } => {
            let mut text = name.to_owned();
            push_text(&mut text, " has no value and no type annotation");
            text
        },
        HirErrorKind::ReceiverOutsideImpl => "receivers are only valid inside method definitions".to_owned(),
        HirErrorKind::TypeMismatch { found, .. } => {
            let mut text = "this is of type ".to_owned();
            push_type(&mut text, found);
            text
        },
        HirErrorKind::ImmutableBind { name } => {
            let mut text = name.to_owned();
            push_text(&mut text, " is immutable and cannot be reassigned");
            text
        },
        HirErrorKind::InvalidCast { src, target } => {
            let mut text = "cannot cast from type ".to_owned();
            push_type(&mut text, src);
            push_text(&mut text, " to ");
            push_type(&mut text, target);
            text
        },
        HirErrorKind::NotIndexable { typ } => {
            let mut text = typ.text();
            push_text(&mut text, " cannot be indexed");
            text
        },
        HirErrorKind::IndexOutOfBounds { index, len } => {
            let mut text = "index ".to_owned();
            push_decimal(&mut text, index as u128);
            push_text(&mut text, " is out of bounds for an array of length ");
            push_decimal(&mut text, len as u128);
            text
        },
        HirErrorKind::EmptyArrayType => "the element type is unknown here".to_owned(),
        HirErrorKind::AssignBehindSharedRef => "the referent is read-only through a shared reference".to_owned(),
        HirErrorKind::DuplicateInterface { name } => {
            let mut text = name.to_owned();
            push_text(&mut text, " is defined here again");
            text
        },
        HirErrorKind::UnknownInterface { name } => {
            let mut text = name.to_owned();
            push_text(&mut text, " is not a known interface");
            text
        },
        HirErrorKind::MissingInterfaceMethod { struct_name, method_name, .. } => {
            let mut text = struct_name.to_owned();
            push_text(&mut text, " does not implement ");
            push_text(&mut text, method_name);
            text
        },
        HirErrorKind::MissingSuperinterfaceImpl { struct_name, interface_name, superinterface_name } => {
            let mut text = struct_name.to_owned();
            push_text(&mut text, " implements ");
            push_text(&mut text, interface_name);
            push_text(&mut text, " without ");
            push_text(&mut text, superinterface_name);
            text
        },
        HirErrorKind::InterfaceSignatureMismatch { found, .. } => {
            let mut text = "found: ".to_owned();
            push_text(&mut text, found);
            text
        },
        HirErrorKind::CircularConstant { name } => {
            let mut text = "constant ".to_owned();
            push_text(&mut text, name);
            push_text(&mut text, " depends on itself");
            text
        },
        HirErrorKind::DuplicateConstant { name } => {
            let mut text = name.to_owned();
            push_text(&mut text, " is defined here again");
            text
        },
        HirErrorKind::UnsatisfiedBound { typ, bound_name } => {
            let mut text = typ.text();
            push_text(&mut text, " is used here as ");
            push_text(&mut text, bound_name);
            text
        },
        HirErrorKind::OperatorRequiresInterface { operand, required, .. } => {
            let mut text = "`".to_owned();
            push_text(&mut text, operand);
            push_text(&mut text, "` does not implement `");
            push_text(&mut text, required.name());
            push_text(&mut text, "`");
            text
        },
        HirErrorKind::MissingReturn { name, expected } => {
            let mut text = name.to_owned();
            push_text(&mut text, " must give back a value of type ");
            push_type(&mut text, expected);
            text
        },
        HirErrorKind::InvalidRangeType { typ } => {
            let mut text = typ.text();
            push_text(&mut text, " is not an integer type");
            text
        },
        HirErrorKind::LoopControlOutsideLoop { kind } => {
            let mut text = "there is no loop here for ".to_owned();
            push_text(&mut text, kind);
            push_text(&mut text, " to act on");
            text
        },
        HirErrorKind::NestedItem { .. } => "this declaration must stand at the top level".to_owned(),
        HirErrorKind::NonConstValue { name } => {
            let mut text = "the value of a constant cannot depend on ".to_owned();
            push_text(&mut text, name);
            text
        },
        HirErrorKind::InstantiationTooDeep { name } => {
            let mut text = "every instance of ".to_owned();
            push_text(&mut text, name);
            push_text(&mut text, " needs a further one");
            text
        },
        HirErrorKind::ConstFnViolation(violation) => violation_primary_text(violation),
    }
}

/// What there is to know about an error.
pub open spec fn note_of(kind: HirErrorKind<Seq<char>>) -> Option<Seq<char>> {
    match kind {
        HirErrorKind::DuplicateField { .. } => Some("struct field names must be unique"@),
        HirErrorKind::DuplicateVariant { .. } => Some("enum variant names must be unique"@),
        HirErrorKind::InvalidAssignmentTarget => Some("use `name = value` or `name.field = value`"@),
        HirErrorKind::CircularStruct { .. } => Some("break the cycle; a pointer or box type will be needed for recursive structs"@),
        HirErrorKind::DuplicateBind { .. } => Some("re-declaring the same name in the same scope is not allowed"@),
        HirErrorKind::MissingInitialiser { .. } => Some("Nyx cannot infer the type without an initial value to check against"@),
        HirErrorKind::ImmutableBind { .. } => Some("bindings are immutable by default"@),
        HirErrorKind::InvalidCast { .. } => Some("casting is only supported between primitive integer, bool, and char types"@),
        HirErrorKind::MissingInterfaceMethod { interface_name, method_name, .. } => Some(interface_name + " requires `fn "@ + method_name + "(…)`"@),
        HirErrorKind::MissingSuperinterfaceImpl { interface_name, superinterface_name, .. } => Some(interface_name + " extends "@ + superinterface_name),
        HirErrorKind::InterfaceSignatureMismatch { expected, found, .. } => Some("expected: "@ + expected + "\n  found: "@ + found),
        _ => None,
    }
}

#[verifier::rlimit(60)]
fn note_of_text(kind: HirErrorKind<&str>) -> (text: Option<String>)
    ensures
        text_of(text) == note_of(kind@),
{
    match kind {
        HirErrorKind::DuplicateField { .. } => Some("struct field names must be unique".to_owned()),
        HirErrorKind::DuplicateVariant { .. } => Some("enum variant names must be unique".to_owned()),
        HirErrorKind::InvalidAssignmentTarget => Some("use `name = value` or `name.field = value`".to_owned()),
        HirErrorKind::CircularStruct { .. } => Some("break the cycle; a pointer or box type will be needed for recursive structs".to_owned()),
        HirErrorKind::DuplicateBind { .. } => Some("re-declaring the same name in the same scope is not allowed".to_owned()),
        HirErrorKind::MissingInitialiser { .. } => Some("Nyx cannot infer the type without an initial value to check against".to_owned()),
        HirErrorKind::ImmutableBind { .. } => Some("bindings are immutable by default".to_owned()),
        HirErrorKind::InvalidCast { .. } => Some("casting is only supported between primitive integer, bool, and char types".to_owned()),
        HirErrorKind::MissingInterfaceMethod { interface_name, method_name, .. } => Some({
            let mut text = interface_name.to_owned();
            push_text(&mut text, " requires `fn ");
            push_text(&mut text, method_name);
            push_text(&mut text, "(…)`");
            text
        }),
        HirErrorKind::MissingSuperinterfaceImpl { interface_name, superinterface_name, .. } => Some({
            let mut text = interface_name.to_owned();
            push_text(&mut text, " extends ");
            push_text(&mut text, superinterface_name);
            text
        }),
        HirErrorKind::InterfaceSignatureMismatch { expected, found, .. } => Some({
            let mut text = "expected: ".to_owned();
            push_text(&mut text, expected);
            push_text(&mut text, "\n  found: ");
            push_text(&mut text, found);
            text
        }),
        _ => None,
    }
}

/// What can be done about an error.
pub open spec fn help_of(kind: HirErrorKind<Seq<char>>) -> Option<Seq<char>> {
    match kind {
        HirErrorKind::TopLevelNonFunction => Some("move this into a function body, or wrap it in `fn main()`"@),
        HirErrorKind::DuplicateFunction { name } => Some("rename one of the "@ + name + " functions"@),
        HirErrorKind::DuplicateMethod { name, .. } => Some("remove or rename one of the "@ + name + " methods"@),
        HirErrorKind::UndeclaredIdentifier { name } => Some("declare "@ + name + " with `let "@ + name + " = …` before using it"@),
        HirErrorKind::UnknownFunction { name } => Some("declare `fn "@ + name + "(…)` before calling it"@),
        HirErrorKind::UnknownMethod { struct_name, name } => Some("add `fn "@ + name + "(&self)` to an impl block for "@ + struct_name),
        HirErrorKind::UnknownType { name } => Some("declare `struct "@ + name + " { … }` before using it"@),
        HirErrorKind::OrphanImpl { .. } => Some("methods can only be defined on structs in the same module"@),
        HirErrorKind::DuplicateStruct { name } => Some("rename one of the "@ + name + " structs"@),
        HirErrorKind::DuplicateEnum { name } => Some("rename one of the "@ + name + " enums"@),
        HirErrorKind::MissingField { struct_name, .. } => Some("all fields of "@ + struct_name + " must be provided in the struct literal"@),
        HirErrorKind::CircularStruct { .. } => Some("Nyx does not support self-referential or circular structs yet"@),
        HirErrorKind::DuplicateBind { .. } => Some("use a different name, or shadow it in a nested block"@),
        HirErrorKind::MissingInitialiser { name } => Some("add a type annotation `let "@ + name + ": <type>;` or provide an initial value"@),
        HirErrorKind::ReceiverOutsideImpl => Some("move this function into `impl Type { … }`"@),
        HirErrorKind::ImmutableBind { name } => Some("declare it as mutable: `let mut "@ + name + " = …`"@),
        HirErrorKind::NotIndexable { .. } => Some("indexing is only supported on arrays `[T; N]` and slices `&[T]`"@),
        HirErrorKind::EmptyArrayType => Some("add a type annotation, e.g. `let a: [i32; 0] = [];`"@),
        HirErrorKind::AssignBehindSharedRef => Some("take a mutable reference `&mut` to write through it"@),
        HirErrorKind::DuplicateInterface { name } => Some("rename one of the "@ + name + " interfaces"@),
        HirErrorKind::UnknownInterface { name } => Some("declare `interface "@ + name + " { … }` before using it"@),
        HirErrorKind::MissingInterfaceMethod { struct_name, interface_name, method_name } => Some("add `fn "@ + method_name + "(…)` to `impl "@ + struct_name + " with "@ + interface_name + "`"@),
        HirErrorKind::MissingSuperinterfaceImpl { struct_name, superinterface_name, .. } => Some("add `impl "@ + struct_name + " with "@ + superinterface_name + " { … }`"@),
        HirErrorKind::InterfaceSignatureMismatch { struct_name, interface_name, method_name, .. } => Some("update "@ + method_name + " in `impl "@ + struct_name + " with "@ + interface_name + "` to match the interface"@),
        HirErrorKind::DuplicateConstant { name } => Some("rename one of the "@ + name + " constants"@),
        HirErrorKind::UnsatisfiedBound { typ, bound_name } => Some("add `impl "@ + type_text(typ) + " with "@ + bound_name + " { … }`"@),
        HirErrorKind::OperatorRequiresInterface { operand, required, .. } => Some("add `impl "@ + operand + " with "@ + required.name()@ + " { … }`"@),
        HirErrorKind::MissingReturn { .. } => Some("end the body with an expression, or return a value on every path"@),
        HirErrorKind::InvalidRangeType { .. } => Some("only integers can be the ends of a range"@),
        HirErrorKind::NestedItem { .. } => Some("move this out of the function"@),
        HirErrorKind::NonConstValue { .. } => Some("use only literals and other constants here"@),
        HirErrorKind::ConstFnViolation(violation) => Some(violation_help(violation)),
        _ => None,
    }
}

#[verifier::rlimit(60)]
fn help_of_text(kind: HirErrorKind<&str>) -> (text: Option<String>)
    ensures
        text_of(text) == help_of(kind@),
{
    match kind {
        HirErrorKind::TopLevelNonFunction => Some("move this into a function body, or wrap it in `fn main()`".to_owned()),
        HirErrorKind::DuplicateFunction { name } => Some({
            let mut text = "rename one of the ".to_owned();
            push_text(&mut text, name);
            push_text(&mut text, " functions");
            text
        }),
        HirErrorKind::DuplicateMethod { name, .. } => Some({
            let mut text = "remove or rename one of the ".to_owned();
            push_text(&mut text, name);
            push_text(&mut text, " methods");
            text
        }),
        HirErrorKind::UndeclaredIdentifier { name } => Some({
            let mut text = "declare ".to_owned();
            push_text(&mut text, name);
            push_text(&mut text, " with `let ");
            push_text(&mut text, name);
            push_text(&mut text, " = …` before using it");
            text
        }),
        HirErrorKind::UnknownFunction { name } => Some({
            let mut text = "declare `fn ".to_owned();
            push_text(&mut text, name);
            push_text(&mut text, "(…)` before calling it");
            text
        }),
        HirErrorKind::UnknownMethod { struct_name, name } => Some({
            let mut text = "add `fn ".to_owned();
            push_text(&mut text, name);
            push_text(&mut text, "(&self)` to an impl block for ");
            push_text(&mut text, struct_name);
            text
        }),
        HirErrorKind::UnknownType { name } => Some({
            let mut text = "declare `struct ".to_owned();
            push_text(&mut text, name);
            push_text(&mut text, " { … }` before using it");
            text
        }),
        HirErrorKind::OrphanImpl { .. } => Some("methods can only be defined on structs in the same module".to_owned()),
        HirErrorKind::DuplicateStruct { name } => Some({
            let mut text = "rename one of the ".to_owned();
            push_text(&mut text, name);
            push_text(&mut text, " structs");
            text
        }),
        HirErrorKind::DuplicateEnum { name } => Some({
            let mut text = "rename one of the ".to_owned();
            push_text(&mut text, name);
            push_text(&mut text, " enums");
            text
        }),
        HirErrorKind::MissingField { struct_name, .. } => Some({
            let mut text = "all fields of ".to_owned();
            push_text(&mut text, struct_name);
            push_text(&mut text, " must be provided in the struct literal");
            text
        }),
        HirErrorKind::CircularStruct { .. } => Some("Nyx does not support self-referential or circular structs yet".to_owned()),
        HirErrorKind::DuplicateBind { .. } => Some("use a different name, or shadow it in a nested block".to_owned()),
        HirErrorKind::MissingInitialiser { name } => Some({
            let mut text = "add a type annotation `let ".to_owned();
            push_text(&mut text, name);
            push_text(&mut text, ": <type>;` or provide an initial value");
            text
        }),
        HirErrorKind::ReceiverOutsideImpl => Some("move this function into `impl Type { … }`".to_owned()),
        HirErrorKind::ImmutableBind { name } => Some({
            let mut text = "declare it as mutable: `let mut ".to_owned();
            push_text(&mut text, name);
            push_text(&mut text, " = …`");
            text
        }),
        HirErrorKind::NotIndexable { .. } => Some("indexing is only supported on arrays `[T; N]` and slices `&[T]`".to_owned()),
        HirErrorKind::EmptyArrayType => Some("add a type annotation, e.g. `let a: [i32; 0] = [];`".to_owned()),
        HirErrorKind::AssignBehindSharedRef => Some("take a mutable reference `&mut` to write through it".to_owned()),
        HirErrorKind::DuplicateInterface { name } => Some({
            let mut text = "rename one of the ".to_owned();
            push_text(&mut text, name);
            push_text(&mut text, " interfaces");
            text
        }),
        HirErrorKind::UnknownInterface { name } => Some({
            let mut text = "declare `interface ".to_owned();
            push_text(&mut text, name);
            push_text(&mut text, " { … }` before using it");
            text
        }),
        HirErrorKind::MissingInterfaceMethod { struct_name, interface_name, method_name } => Some({
            let mut text = "add `fn ".to_owned();
            push_text(&mut text, method_name);
            push_text(&mut text, "(…)` to `impl ");
            push_text(&mut text, struct_name);
            push_text(&mut text, " with ");
            push_text(&mut text, interface_name);
            push_text(&mut text, "`");
            text
        }),
        HirErrorKind::MissingSuperinterfaceImpl { struct_name, superinterface_name, .. } => Some({
            let mut text = "add `impl ".to_owned();
            push_text(&mut text, struct_name);
            push_text(&mut text, " with ");
            push_text(&mut text, superinterface_name);
            push_text(&mut text, " { … }`");
            text
        }),
        HirErrorKind::InterfaceSignatureMismatch { struct_name, interface_name, method_name, .. } => Some({
            let mut text = "update ".to_owned();
            push_text(&mut text, method_name);
            push_text(&mut text, " in `impl ");
            push_text(&mut text, struct_name);
            push_text(&mut text, " with ");
            push_text(&mut text, interface_name);
            push_text(&mut text, "` to match the interface");
            text
        }),
        HirErrorKind::DuplicateConstant { name } => Some({
            let mut text = "rename one of the ".to_owned();
            push_text(&mut text, name);
            push_text(&mut text, " constants");
            text
        }),
        HirErrorKind::UnsatisfiedBound { typ, bound_name } => Some({
            let mut text = "add `impl ".to_owned();
            push_type(&mut text, typ);
            push_text(&mut text, " with ");
            push_text(&mut text, bound_name);
            push_text(&mut text, " { … }`");
            text
        }),
        HirErrorKind::OperatorRequiresInterface { operand, required, .. } => Some({
            let mut text = "add `impl ".to_owned();
            push_text(&mut text, operand);
            push_text(&mut text, " with ");
            push_text(&mut text, required.name());
            push_text(&mut text, " { … }`");
            text
        }),
        HirErrorKind::MissingReturn { .. } => Some("end the body with an expression, or return a value on every path".to_owned()),
        HirErrorKind::InvalidRangeType { .. } => Some("only integers can be the ends of a range".to_owned()),
        HirErrorKind::NestedItem { .. } => Some("move this out of the function".to_owned()),
        HirErrorKind::NonConstValue { .. } => Some("use only literals and other constants here".to_owned()),
        HirErrorKind::ConstFnViolation(violation) => Some(violation_help_text(violation)),
        _ => None,
    }
}

/// A further place that an error points to.
pub open spec fn secondary_of(kind: HirErrorKind<Seq<char>>, span: Span) -> Seq<LabelView> {
    match kind {
        HirErrorKind::TypeMismatch { expected, .. } => seq![
            LabelView { span, message: "expected "@ + type_text(expected) + " here"@ },
        ],
        HirErrorKind::InterfaceSignatureMismatch { interface_name, expected, impl_span, .. } =>
            seq![
            LabelView { span: impl_span, message: interface_name + " requires: "@ + expected },
        ],
        _ => Seq::empty(),
    }
}

pub open spec fn label_views(labels: Seq<Label>) -> Seq<LabelView> {
    labels.map_values(|label: Label| label@)
}

fn secondary_labels(kind: HirErrorKind<&str>, span: Span) -> (labels: Vec<Label>)
    ensures
        label_views(labels@) == secondary_of(kind@, span),
{
    let mut labels: Vec<Label> = Vec::new();
    match kind {
        HirErrorKind::TypeMismatch { expected, .. } => {
            let mut message = "expected ".to_owned();
            push_type(&mut message, expected);
            push_text(&mut message, " here");
            labels.push(Label { span, message });
        },
        HirErrorKind::InterfaceSignatureMismatch { interface_name, expected, impl_span, .. } => {
            let mut message = interface_name.to_owned();
            push_text(&mut message, " requires: ");
            push_text(&mut message, expected);
            labels.push(Label { span: impl_span, message });
        },
        _ => {},
    }
    assert(label_views(labels@) =~= secondary_of(kind@, span));
    labels
}

/// An error in structured form.
pub open spec fn rich_of(kind: HirErrorKind<Seq<char>>, span: Span) -> RichView {
    RichView {
        severity: Severity::Error,
        code: None,
        message: message_of(kind),
        primary: Some(LabelView { span, message: primary_of(kind) }),
        secondary: secondary_of(kind, span),
        note: note_of(kind),
        help: help_of(kind),
    }
}

impl<'h> HirErrorKind<&'h str> {
    /// The error in structured form.
    pub fn rich_text(self, span: Span) -> (rich: RichDiagnostic)
        ensures
            rich@ == rich_of(self@, span),
    {
        RichDiagnostic {
            severity: Severity::Error,
            code: None,
            message: message_of_text(self),
            primary: Some(Label { span, message: primary_of_text(self) }),
            secondary: secondary_labels(self, span),
            note: note_of_text(self),
            help: help_of_text(self),
        }
    }

    /// What the error is.
    pub fn message_text(self) -> (text: String)
        ensures
            text@ == message_of(self@),
    {
        message_of_text(self)
    }
}

} // verus!
