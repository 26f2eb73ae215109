//! Errors of the module system.

use crate::ast::Span;
use crate::diagnostic::{Label, LabelView, RichDiagnostic, RichView, Severity};
use crate::hir::error::HirError;
use crate::hir::messages::{label_views, rich_of};
use crate::text::push_text;
use vstd::prelude::*;

verus! {

/// What is wrong with the modules of a program, with the texts in it held as `S`.
#[derive(Debug, Clone, Copy, PartialEq, Eq)]
#[allow(inconsistent_fields)]
pub enum ModuleError<S> {
    FileNotFound { path: S, span: Option<Span> },
    CircularImport { path: S, span: Span },
    EmptyPath,
    UnknownRoot { name: S, span: Span },
    UnknownExport { path: S, name: S, span: Span },
    TopLevelNonFunction { path: S, span: Span },
    Diagnostic(HirError<S>),
}

impl<'h> View for ModuleError<&'h str> {
    type V = ModuleError<Seq<char>>;

    open spec fn view(&self) -> ModuleError<Seq<char>> {
        match *self {
            ModuleError::FileNotFound { path, span } => ModuleError::FileNotFound {
                path: path@,
                span,
            },
            ModuleError::CircularImport { path, span } => ModuleError::CircularImport {
                path: path@,
                span,
            },
            ModuleError::EmptyPath => ModuleError::EmptyPath,
            ModuleError::UnknownRoot { name, span } => ModuleError::UnknownRoot {
                name: name@,
                span,
            },
            ModuleError::UnknownExport { path, name, span } => ModuleError::UnknownExport {
                path: path@,
                name: name@,
                span,
            },
            ModuleError::TopLevelNonFunction { path, span } => ModuleError::TopLevelNonFunction {
                path: path@,
                span,
            },
            ModuleError::Diagnostic(error) => ModuleError::Diagnostic(error@),
        }
    }
}

impl<S> ModuleError<S> {
    /// Where the error is, if it is anywhere.
    pub open spec fn place(self) -> Option<Span> {
        match self {
            ModuleError::FileNotFound { span, .. } => span,
            ModuleError::CircularImport { span, .. } => Some(span),
            ModuleError::EmptyPath => None,
            ModuleError::UnknownRoot { span, .. } => Some(span),
            ModuleError::UnknownExport { span, .. } => Some(span),
            ModuleError::TopLevelNonFunction { span, .. } => Some(span),
            ModuleError::Diagnostic(_) => None,
        }
    }
}

/// What an error of the module system is.
pub open spec fn module_message(error: ModuleError<Seq<char>>) -> Seq<char> {
    match error {
        ModuleError::FileNotFound { path, .. } => "module file not found: "@ + path,
        ModuleError::CircularImport { path, .. } => "circular import: "@ + path
            + " is already being loaded"@,
        ModuleError::EmptyPath => "empty import path"@,
        ModuleError::UnknownRoot { name, .. } => "unknown module root "@ + name,
        ModuleError::UnknownExport { path, name, .. } => "module "@ + path
            + " has no exported symbol "@ + name,
        ModuleError::TopLevelNonFunction { .. } =>
            "only function declarations are allowed at the top level"@,
        ModuleError::Diagnostic(error) => rich_of(error.kind, error.span).message,
    }
}

/// What is wrong at the place of the error.
pub open spec fn module_primary(error: ModuleError<Seq<char>>) -> Seq<char> {
    match error {
        ModuleError::FileNotFound { .. } => "imported here"@,
        ModuleError::CircularImport { .. } => "this import creates a cycle"@,
        ModuleError::EmptyPath => "this path has no segments"@,
        ModuleError::UnknownRoot { name, .. } => name + " is not a known module root"@,
        ModuleError::UnknownExport { name, .. } => name + " is not exported from this module"@,
        _ => "this is not a function declaration"@,
    }
}

/// What can be done about the error.
pub open spec fn module_help(error: ModuleError<Seq<char>>) -> Seq<char> {
    match error {
        ModuleError::FileNotFound { path, .. } => "make sure the file "@ + path + " exists"@,
        ModuleError::CircularImport { .. } => "remove the circular dependency between modules"@,
        ModuleError::EmptyPath => "use paths like `use project::module;`"@,
        ModuleError::UnknownRoot { .. } => "the root segment must match your project name"@,
        ModuleError::UnknownExport { name, .. } => "add `pub` to `fn "@ + name + "` to export it"@,
        _ => "move this into a function body, or wrap it in `fn main()`"@,
    }
}

/// An error of the module system in structured form. One without a place of its own is shown
/// at the given span.
pub open spec fn module_rich(error: ModuleError<Seq<char>>, span: Span) -> RichView {
    match error {
        ModuleError::Diagnostic(error) => rich_of(error.kind, error.span),
        _ => RichView {
            severity: Severity::Error,
            code: None,
            message: module_message(error),
            primary: Some(LabelView { span, message: module_primary(error) }),
            secondary: Seq::empty(),
            note: None,
            help: Some(module_help(error)),
        },
    }
}

impl<'h> ModuleError<&'h str> {
    /// Where the error is.
    pub fn span(&self) -> (span: Option<Span>)
        ensures
            span == self@.place(),
    {
        match *self {
            ModuleError::FileNotFound { span, .. } => span,
            ModuleError::CircularImport { span, .. } => Some(span),
            ModuleError::EmptyPath => None,
            ModuleError::UnknownRoot { span, .. } => Some(span),
            ModuleError::UnknownExport { span, .. } => Some(span),
            ModuleError::TopLevelNonFunction { span, .. } => Some(span),
            ModuleError::Diagnostic(_) => None,
        }
    }

    /// What the error is.
    pub fn message(&self) -> (text: String)
        ensures
            text@ == module_message(self@),
    {
        match *self {
            ModuleError::FileNotFound { path, .. } => {
                let mut text = "module file not found: ".to_owned();
                push_text(&mut text, path);
                text
            },
            ModuleError::CircularImport { path, .. } => {
                let mut text = "circular import: ".to_owned();
                push_text(&mut text, path);
                push_text(&mut text, " is already being loaded");
                text
            },
            ModuleError::EmptyPath => "empty import path".to_owned(),
            ModuleError::UnknownRoot { name, .. } => {
                let mut text = "unknown module root ".to_owned();
                push_text(&mut text, name);
                text
            },
            ModuleError::UnknownExport { path, name, .. } => {
                let mut text = "module ".to_owned();
                push_text(&mut text, path);
                push_text(&mut text, " has no exported symbol ");
                push_text(&mut text, name);
                text
            },
            ModuleError::TopLevelNonFunction { .. } =>
                "only function declarations are allowed at the top level".to_owned(),
            ModuleError::Diagnostic(error) => error.kind.message_text(),
        }
    }

    fn primary(&self) -> (text: String)
        ensures
            text@ == module_primary(self@),
    {
        match *self {
            ModuleError::FileNotFound { .. } => "imported here".to_owned(),
            ModuleError::CircularImport { .. } => "this import creates a cycle".to_owned(),
            ModuleError::EmptyPath => "this path has no segments".to_owned(),
            ModuleError::UnknownRoot { name, .. } => {
                let mut text = name.to_owned();
                push_text(&mut text, " is not a known module root");
                text
            },
            ModuleError::UnknownExport { name, .. } => {
                let mut text = name.to_owned();
                push_text(&mut text, " is not exported from this module");
                text
            },
            _ => "this is not a function declaration".to_owned(),
        }
    }

    fn help(&self) -> (text: String)
        ensures
            text@ == module_help(self@),
    {
        match *self {
            ModuleError::FileNotFound { path, .. } => {
                let mut text = "make sure the file ".to_owned();
                push_text(&mut text, path);
                push_text(&mut text, " exists");
                text
            },
            ModuleError::CircularImport { .. } =>
                "remove the circular dependency between modules".to_owned(),
            ModuleError::EmptyPath => "use paths like `use project::module;`".to_owned(),
            ModuleError::UnknownRoot { .. } =>
                "the root segment must match your project name".to_owned(),
            ModuleError::UnknownExport { name, .. } => {
                let mut text = "add `pub` to `fn ".to_owned();
                push_text(&mut text, name);
                push_text(&mut text, "` to export it");
                text
            },
            _ => "move this into a function body, or wrap it in `fn main()`".to_owned(),
        }
    }

    /// The error in structured form, shown at the given span if it has none of its own.
    pub fn rich(&self, span: Span) -> (rich: RichDiagnostic)
        ensures
            rich@ == module_rich(self@, span),
    {
        match *self {
            ModuleError::Diagnostic(error) => error.kind.rich_text(error.span),
            _ => {
                let rich = RichDiagnostic {
                    severity: Severity::Error,
                    code: None,
                    message: self.message(),
                    primary: Some(Label { span, message: self.primary() }),
                    secondary: Vec::new(),
                    note: None,
                    help: Some(self.help()),
                };
                assert(label_views(rich.secondary@) =~= Seq::empty());
                rich
            },
        }
    }
}

/// An outcome as contracts see it.
pub open spec fn seen_module<'h, T>(result: Result<T, ModuleError<&'h str>>) -> Result<
    T,
    ModuleError<Seq<char>>,
> {
    match result {
        Ok(value) => Ok(value),
        Err(error) => Err(error@),
    }
}

} // verus!
