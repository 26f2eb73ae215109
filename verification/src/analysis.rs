//! What an editor shows of a program: types under the cursor, places of definitions, hints
//! behind bindings and the outline of a document.

use crate::ast::{no_span, BinaryOperator, Span, TypeIntrinsicKind, UnaryOperator};
use crate::diagnostic::{rich_views, text_of, RichDiagnostic, RichView};
use crate::hir::diagnostics::error_views;
use crate::hir::display::type_text;
use crate::hir::error::HirError;
use crate::hir::layout::{cached_layouts, layout_of, type_layout};
use crate::hir::messages::rich_of;
use crate::hir::program::Hir;
use crate::hir::scope::doc_views;
use crate::hir::symbols::{name_of, SymbolId};
use crate::hir::tree::{
    Arm, ArrayType, Block, Constant, Enum, ExprId, Expression, ExpressionKind, Function, FunctionId,
    FunctionKind, Literal, Local, LocalId, LoopKind, Statement, Struct,
};
use crate::hir::types::{EnumId, StructId, Type, TypeKind};
use crate::module::error::{module_rich, ModuleError};
use crate::module::paths::{file_module, file_module_text};
use crate::source_map::{file_at, FileView, SourceMap};
use crate::text::{
    chars_of, decimal, find_char, find_colons, find_segment, first_char, first_colons, hexadecimal,
    last_segment, push_decimal, push_hexadecimal, push_range, push_signed, push_text,
    signed_decimal, text_eq,
};
use vstd::prelude::*;

verus! {

broadcast use vstd::std_specs::hash::group_hash_axioms;

/// How many fields or variants a hover shows before it leaves out the rest.
pub const MAX_HOVER_ITEMS: usize = 5;

/// A hover: the type or declaration, and where there is one its size and alignment in bytes.
#[derive(Debug)]
pub struct HoverInfo {
    /// The qualified container of the item
    pub path: Option<String>,
    pub ty: String,
    pub layout: Option<(u32, u32)>,
    pub docs: Option<String>,
}

pub ghost struct Hover {
    pub path: Option<Seq<char>>,
    pub ty: Seq<char>,
    pub layout: Option<(u32, u32)>,
    pub docs: Option<Seq<char>>,
}

impl View for HoverInfo {
    type V = Hover;

    open spec fn view(&self) -> Hover {
        Hover {
            path: text_of(self.path),
            ty: self.ty@,
            layout: self.layout,
            docs: text_of(self.docs),
        }
    }
}

#[derive(Debug, Clone, Copy, PartialEq, Eq, Structural)]
pub enum SymbolKind {
    Function,
    Struct,
    Enum,
    Constant,
}

/// A declared symbol in the outline of a document.
#[derive(Debug)]
pub struct DocumentSymbol {
    pub name: String,
    pub kind: SymbolKind,
    pub span: Span,
}

pub ghost struct Outline {
    pub name: Seq<char>,
    pub kind: SymbolKind,
    pub span: Span,
}

impl View for DocumentSymbol {
    type V = Outline;

    open spec fn view(&self) -> Outline {
        Outline { name: self.name@, kind: self.kind, span: self.span }
    }
}

/// What hovers are made from: a lowered program, its files and their modules, and the texts of
/// the floating-point numbers among its constants, by their bits.
#[derive(Clone, Copy)]
pub struct Lens<'a, 'h> {
    pub hir: &'a Hir<'h>,
    pub map: &'a SourceMap,
    /// The module path of each file, by its number
    pub modules: &'a Vec<String>,
    pub floats: &'a Vec<(u64, String)>,
}

pub ghost struct Scene<'h> {
    pub names: Seq<Seq<char>>,
    pub structs: Seq<Struct<'h>>,
    pub enums: Seq<Enum<'h>>,
    pub arrays: Seq<ArrayType>,
    pub functions: Seq<Function<'h>>,
    pub constants: Seq<&'h Constant<'h>>,
    pub docs: Seq<(Span, Seq<char>)>,
    pub files: Seq<FileView>,
    pub modules: Seq<Seq<char>>,
    pub floats: Seq<(u64, Seq<char>)>,
}

impl<'a, 'h> View for Lens<'a, 'h> {
    type V = Scene<'h>;

    open spec fn view(&self) -> Scene<'h> {
        Scene {
            names: self.hir.symbols@,
            structs: self.hir.structs@,
            enums: self.hir.enums@,
            arrays: self.hir.arrays@,
            functions: self.hir.functions@,
            constants: self.hir.constants@,
            docs: doc_views(self.hir.docs@),
            files: self.map@,
            modules: self.modules@.map_values(|module: String| module@),
            floats: self.floats@.map_values(|float: (u64, String)| (float.0, float.1@)),
        }
    }
}

/// A list of generic arguments as it is mangled, with `, ` for each `$`.
pub open spec fn args_text(out: Seq<char>, args: Seq<char>, at: nat) -> Seq<char>
    decreases args.len() - at,
{
    if at >= args.len() {
        out
    } else if args[at as int] == '$' {
        args_text(out + ", "@, args, at + 1)
    } else {
        args_text(out.push(args[at as int]), args, at + 1)
    }
}

/// A mangled name as the source writes it: `Base$A$B` is `Base<A, B>`.
pub open spec fn pretty_args(name: Seq<char>) -> Seq<char> {
    match first_char(name, '$', 0) {
        Some(at) => args_text(name.take(at as int) + "<"@, name, at + 1) + ">"@,
        None => name,
    }
}

/// The last segment of a qualified name, as the source writes it.
pub open spec fn short_name(qualified: Seq<char>) -> Seq<char> {
    pretty_args(last_segment(qualified))
}

/// The type that a member belongs to, by its qualified name: the second of three segments or
/// more.
pub open spec fn implementor_from_name(qualified: Seq<char>) -> Option<Seq<char>> {
    match first_colons(qualified, 0) {
        None => None,
        Some(first) => match first_colons(qualified, first + 2) {
            None => None,
            Some(second) => Some(pretty_args(qualified.subrange(first as int + 2, second as int))),
        },
    }
}

/// The names of generic parameters from `at` on, separated by commas.
pub open spec fn names_text(
    out: Seq<char>,
    names: Seq<Seq<char>>,
    generics: Seq<SymbolId>,
    at: nat,
) -> Seq<char>
    decreases generics.len() - at,
{
    if at >= generics.len() {
        out
    } else {
        let next = if at > 0 {
            out + ", "@
        } else {
            out
        };
        names_text(next + name_of(names, generics[at as int]), names, generics, at + 1)
    }
}

/// The part of a name before its first `$`.
pub open spec fn base_of(name: Seq<char>) -> Seq<char> {
    match first_char(name, '$', 0) {
        Some(at) => name.take(at as int),
        None => name,
    }
}

/// The first constant at or after `at` that is known by its bits, as text.
pub open spec fn float_text(floats: Seq<(u64, Seq<char>)>, bits: u64, at: nat) -> Option<Seq<char>>
    decreases floats.len() - at,
{
    if at >= floats.len() {
        None
    } else if floats[at as int].0 == bits {
        Some(floats[at as int].1)
    } else {
        float_text(floats, bits, at + 1)
    }
}

/// The documentation recorded for a declaration.
pub open spec fn doc_text(docs: Seq<(Span, Seq<char>)>, span: Span, at: nat) -> Option<Seq<char>>
    decreases docs.len() - at,
{
    if at >= docs.len() {
        None
    } else if docs[at as int].0 == span {
        Some(docs[at as int].1)
    } else {
        doc_text(docs, span, at + 1)
    }
}

/// The last function before `end` with the given number.
pub open spec fn function_with<'h>(functions: Seq<Function<'h>>, id: FunctionId, end: nat) -> Option<
    Function<'h>,
>
    decreases end,
{
    if end == 0 || end > functions.len() {
        None
    } else if functions[end - 1].id == id {
        Some(functions[end - 1])
    } else {
        function_with(functions, id, (end - 1) as nat)
    }
}

/// The last constant before `end` with the given name.
pub open spec fn constant_with<'h>(
    constants: Seq<&'h Constant<'h>>,
    name: SymbolId,
    end: nat,
) -> Option<Constant<'h>>
    decreases end,
{
    if end == 0 || end > constants.len() {
        None
    } else if constants[end - 1].name == name {
        Some(*constants[end - 1])
    } else {
        constant_with(constants, name, (end - 1) as nat)
    }
}

/// How many bits a value of the type takes when it is shown.
#[verifier::allow_in_spec]
pub fn shown_modulus(typ: Type) -> u128
    returns
        (match typ.kind() {
            TypeKind::I8 | TypeKind::U8 => 0x100u128,
            TypeKind::I16 | TypeKind::U16 => 0x1_0000u128,
            TypeKind::I32 | TypeKind::U32 | TypeKind::Char => 0x1_0000_0000u128,
            _ => 0x1_0000_0000_0000_0000u128,
        }),
{
    match typ.kind() {
        TypeKind::I8 | TypeKind::U8 => 0x100,
        TypeKind::I16 | TypeKind::U16 => 0x1_0000,
        TypeKind::I32 | TypeKind::U32 | TypeKind::Char => 0x1_0000_0000,
        _ => 0x1_0000_0000_0000_0000,
    }
}

#[verifier::allow_in_spec]
pub fn shown_unsigned(typ: Type) -> bool
    returns
        (match typ.kind() {
            TypeKind::U8 | TypeKind::U16 | TypeKind::U32 | TypeKind::U64 | TypeKind::Uptr => true,
            _ => false,
        }),
{
    match typ.kind() {
        TypeKind::U8 | TypeKind::U16 | TypeKind::U32 | TypeKind::U64 | TypeKind::Uptr => true,
        _ => false,
    }
}

/// An integer as a value of the type: reduced to the type's width, and if that makes it
/// negative followed by its bits.
pub open spec fn int_text(value: int, typ: Type) -> Seq<char> {
    let modulus = shown_modulus(typ) as int;
    let truncated = value % modulus;
    if shown_unsigned(typ) || truncated < modulus / 2 {
        decimal(truncated as nat)
    } else {
        signed_decimal(truncated - modulus) + " (0x"@ + hexadecimal(truncated as nat) + ")"@
    }
}

/// The quotient rounded towards zero.
pub open spec fn quotient(a: int, b: int) -> int {
    if a >= 0 && b > 0 {
        a / b
    } else if a < 0 && b > 0 {
        -((-a) / b)
    } else if a >= 0 {
        -(a / (-b))
    } else {
        (-a) / (-b)
    }
}

pub open spec fn fits(value: int) -> Option<i128> {
    if i128::MIN <= value <= i128::MAX {
        Some(value as i128)
    } else {
        None
    }
}

pub open spec fn eval_binary(operator: BinaryOperator, left: i128, right: i128) -> Option<i128> {
    match operator {
        BinaryOperator::Add => fits(left + right),
        BinaryOperator::Sub => fits(left - right),
        BinaryOperator::Mul => fits(left * right),
        BinaryOperator::Div => if right == 0 {
            None
        } else {
            fits(quotient(left as int, right as int))
        },
        BinaryOperator::Shl => if 0 <= right < 128 {
            Some(left << right)
        } else {
            None
        },
        BinaryOperator::Shr => if 0 <= right < 128 {
            Some(left >> right)
        } else {
            None
        },
        BinaryOperator::BitAnd => Some(left & right),
        BinaryOperator::BitOr => Some(left | right),
        BinaryOperator::BitXor => Some(left ^ right),
        _ => None,
    }
}

/// Whether a type is a generic parameter or a reference to one.
pub open spec fn carries_generic(typ: Type) -> bool {
    match typ.kind() {
        TypeKind::GenericParam(_) => true,
        TypeKind::Ref { to, .. } => Type::from_target(to).kind() is GenericParam,
        _ => false,
    }
}

impl<'h> Scene<'h> {
    pub open spec fn struct_at(self, id: StructId) -> Option<Struct<'h>> {
        if id.0 < self.structs.len() {
            Some(self.structs[id.0 as int])
        } else {
            None
        }
    }

    pub open spec fn enum_at(self, id: EnumId) -> Option<Enum<'h>> {
        if id.0 < self.enums.len() {
            Some(self.enums[id.0 as int])
        } else {
            None
        }
    }

    /// The name of a struct or enum, with its own parameters or the arguments it was made with.
    pub open spec fn nominal_name(self, name: SymbolId, generics: Seq<SymbolId>) -> Seq<char> {
        let raw = name_of(self.names, name);
        if generics.len() == 0 {
            short_name(raw)
        } else {
            names_text(base_of(last_segment(raw)) + "<"@, self.names, generics, 0) + ">"@
        }
    }

    /// A type other than a reference, as the source writes it.
    pub open spec fn plain_type(self, typ: Type, generics: Seq<SymbolId>) -> Seq<char> {
        match typ.kind() {
            TypeKind::Unit => "()"@,
            TypeKind::Str => "str"@,
            TypeKind::GenericParam(index) => if index < generics.len() {
                name_of(self.names, generics[index as int])
            } else {
                "T"@ + decimal(index as nat)
            },
            TypeKind::Struct(id) => match self.struct_at(id) {
                Some(structure) => self.nominal_name(structure.name, structure.generics@),
                None => type_text(typ),
            },
            TypeKind::Enum(id) => match self.enum_at(id) {
                Some(enumeration) => self.nominal_name(enumeration.name, enumeration.generics@),
                None => type_text(typ),
            },
            _ => type_text(typ),
        }
    }

    /// A type as the source writes it.
    pub open spec fn format_type(self, typ: Type, generics: Seq<SymbolId>) -> Seq<char> {
        match typ.kind() {
            TypeKind::Ref { mutable, to } => (if mutable {
                "&mut "@
            } else {
                "&"@
            }) + self.plain_type(Type::from_target(to), generics),
            _ => self.plain_type(typ, generics),
        }
    }

    /// Whether a struct or enum still has a generic parameter in it, so that it has no layout.
    pub open spec fn is_open(self, typ: Type) -> bool {
        match typ.kind() {
            TypeKind::Struct(id) => match self.struct_at(id) {
                Some(structure) => exists|i: int|
                    0 <= i < structure.fields@.len() && carries_generic(
                        (#[trigger] structure.fields@[i]).typ,
                    ),
                None => false,
            },
            TypeKind::Enum(id) => match self.enum_at(id) {
                Some(enumeration) => exists|i: int|
                    0 <= i < enumeration.variants@.len() && match (
                    #[trigger] enumeration.variants@[i]).payload {
                        Some(payload) => carries_generic(payload),
                        None => false,
                    },
                None => false,
            },
            _ => false,
        }
    }

    /// The size and alignment of a type, if its values exist at run time.
    pub open spec fn layout(self, typ: Type) -> Option<(u32, u32)> {
        match typ.kind() {
            TypeKind::Unit
            | TypeKind::Never
            | TypeKind::SelfType
            | TypeKind::GenericParam(_)
            | TypeKind::Error => None,
            _ => {
                let layout = layout_of(
                    cached_layouts(self.structs, self.enums),
                    self.arrays,
                    typ,
                    self.arrays.len(),
                );
                Some((layout.size, layout.align))
            },
        }
    }

    pub open spec fn closed_layout(self, typ: Type) -> Option<(u32, u32)> {
        if self.is_open(typ) {
            None
        } else {
            self.layout(typ)
        }
    }

    /// The module a declaration stands in.
    pub open spec fn module_of(self, span: Span) -> Option<Seq<char>> {
        if span == no_span() {
            None
        } else {
            match file_at(self.files, span.start, self.files.len()) {
                Some(file) => if file < self.modules.len() {
                    Some(self.modules[file as int])
                } else {
                    None
                },
                None => None,
            }
        }
    }

    /// The path of a member of a type: the type's module, and the type.
    pub open spec fn member_path(self, span: Span, implementor: Option<Seq<char>>) -> Option<
        Seq<char>,
    > {
        match (self.module_of(span), implementor) {
            (Some(module), Some(implementor)) => Some(module + "::"@ + implementor),
            (module, _) => module,
        }
    }

    /// The fields from `at` on, one to a line.
    pub open spec fn field_lines(self, out: Seq<char>, structure: Struct<'h>, at: nat) -> Seq<char>
        decreases MAX_HOVER_ITEMS - at,
    {
        if at >= MAX_HOVER_ITEMS || at >= structure.fields@.len() {
            out
        } else {
            let field = structure.fields@[at as int];
            self.field_lines(
                out + "    "@ + name_of(self.names, field.name) + ": "@ + self.format_type(
                    field.typ,
                    structure.generics@,
                ) + ",\n"@,
                structure,
                at + 1,
            )
        }
    }

    /// A struct's declaration, without the fields past the first few.
    pub open spec fn struct_def(self, structure: Struct<'h>) -> Seq<char> {
        let head = "struct "@ + self.nominal_name(structure.name, structure.generics@);
        if structure.fields@.len() == 0 {
            head
        } else {
            let lines = self.field_lines(head + " {\n"@, structure, 0);
            (if structure.fields@.len() > MAX_HOVER_ITEMS {
                lines + "    /* … */\n"@
            } else {
                lines
            }) + "}"@
        }
    }

    /// The variants from `at` on, one to a line.
    pub open spec fn variant_lines(self, out: Seq<char>, enumeration: Enum<'h>, at: nat) -> Seq<
        char,
    >
        decreases MAX_HOVER_ITEMS - at,
    {
        if at >= MAX_HOVER_ITEMS || at >= enumeration.variants@.len() {
            out
        } else {
            let variant = enumeration.variants@[at as int];
            let named = out + "    "@ + name_of(self.names, variant.name);
            let line = match variant.payload {
                Some(typ) => named + "("@ + self.format_type(typ, enumeration.generics@) + ")"@,
                None => named,
            };
            self.variant_lines(line + ",\n"@, enumeration, at + 1)
        }
    }

    /// An enum's declaration, without the variants past the first few.
    pub open spec fn enum_def(self, enumeration: Enum<'h>) -> Seq<char> {
        let head = "enum "@ + self.nominal_name(enumeration.name, enumeration.generics@);
        if enumeration.variants@.len() == 0 {
            head
        } else {
            let lines = self.variant_lines(head + " {\n"@, enumeration, 0);
            (if enumeration.variants@.len() > MAX_HOVER_ITEMS {
                lines + "    /* … */\n"@
            } else {
                lines
            }) + "}"@
        }
    }

    pub open spec fn local_name(self, locals: Seq<Local>, id: LocalId) -> Seq<char> {
        if id.0 < locals.len() {
            name_of(self.names, locals[id.0 as int].name)
        } else {
            Seq::empty()
        }
    }

    /// The parameters from `at` on, separated by commas.
    pub open spec fn params_text(self, out: Seq<char>, function: Function<'h>, at: nat) -> Seq<char>
        decreases function.params@.len() - at,
    {
        if at >= function.params@.len() {
            out
        } else {
            let param = function.params@[at as int];
            let next = if at > 0 {
                out + ", "@
            } else {
                out
            };
            let name = self.local_name(function.locals@, param.id);
            let text = if name == "self"@ {
                match param.typ.kind() {
                    TypeKind::Ref { mutable, .. } => if mutable {
                        next + "&mut self"@
                    } else {
                        next + "&self"@
                    },
                    _ => next + "self"@,
                }
            } else {
                next + name + ": "@ + self.format_type(param.typ, function.generics@)
            };
            self.params_text(text, function, at + 1)
        }
    }

    /// A function's declaration.
    pub open spec fn signature(self, out: Seq<char>, function: Function<'h>) -> Seq<char> {
        let public = if function.is_pub {
            out + "pub "@
        } else {
            out
        };
        let inlined = if function.inline {
            public + "inline "@
        } else {
            public
        };
        let constant = if function.is_const {
            inlined + "const "@
        } else {
            inlined
        };
        let named = constant + "fn "@ + short_name(name_of(self.names, function.name));
        let listed = self.params_text(named + "("@, function, 0) + ")"@;
        let result = self.format_type(function.return_type, function.generics@);
        if result == "()"@ {
            listed
        } else {
            listed + ": "@ + result
        }
    }

    /// The type a function belongs to.
    pub open spec fn implementor_of(self, function: Function<'h>) -> Option<Seq<char>> {
        match function.kind {
            FunctionKind::Method(method) => Some(
                self.format_type(method.receiver, function.generics@),
            ),
            _ => implementor_from_name(name_of(self.names, function.name)),
        }
    }

    pub open spec fn fn_hover(self, function: Function<'h>) -> Hover {
        let implementor = self.implementor_of(function);
        Hover {
            path: self.member_path(function.decl_span, implementor),
            ty: match implementor {
                Some(implementor) => self.signature("impl "@ + implementor + "\n"@, function),
                None => self.signature(Seq::empty(), function),
            },
            layout: None,
            docs: doc_text(self.docs, function.decl_span, 0),
        }
    }

    /// The declaration of a struct or enum.
    pub open spec fn type_hover(self, typ: Type) -> Option<Hover> {
        match typ.kind() {
            TypeKind::Struct(id) => match self.struct_at(id) {
                Some(structure) => Some(
                    Hover {
                        path: self.module_of(structure.decl_span),
                        ty: self.struct_def(structure),
                        layout: self.closed_layout(typ),
                        docs: doc_text(self.docs, structure.decl_span, 0),
                    },
                ),
                None => None,
            },
            TypeKind::Enum(id) => match self.enum_at(id) {
                Some(enumeration) => Some(
                    Hover {
                        path: self.module_of(enumeration.decl_span),
                        ty: self.enum_def(enumeration),
                        layout: self.closed_layout(typ),
                        docs: doc_text(self.docs, enumeration.decl_span, 0),
                    },
                ),
                None => None,
            },
            _ => None,
        }
    }

    /// The type of a value, with its layout.
    pub open spec fn value_hover(self, typ: Type, generics: Seq<SymbolId>) -> Hover {
        Hover {
            path: None,
            ty: self.format_type(typ, generics),
            layout: self.closed_layout(typ),
            docs: None,
        }
    }

    /// The value of a constant integer expression, if it can be told.
    pub open spec fn eval_const_int(self, expr: Expression<'h>) -> Option<i128>
        decreases expr,
    {
        match expr.kind {
            ExpressionKind::Literal(Literal::Int(value)) => Some(value as i128),
            ExpressionKind::Unary { operator, expr } => match operator {
                UnaryOperator::Neg => match self.eval_const_int(*expr) {
                    Some(value) => Some(
                        if value == i128::MIN {
                            value
                        } else {
                            (-value) as i128
                        },
                    ),
                    None => None,
                },
                UnaryOperator::Not => match self.eval_const_int(*expr) {
                    Some(value) => Some((-1 - value) as i128),
                    None => None,
                },
                _ => None,
            },
            ExpressionKind::Cast { from, .. } => self.eval_const_int(*from),
            ExpressionKind::Const(constant) => self.eval_const_int(*constant.value),
            ExpressionKind::TypeIntrinsic { kind, typ } => match self.layout(typ) {
                Some((size, align)) => Some(
                    match kind {
                        TypeIntrinsicKind::SizeOf => size as i128,
                        TypeIntrinsicKind::AlignOf => align as i128,
                    },
                ),
                None => None,
            },
            ExpressionKind::Binary { operator, left, right } => match self.eval_const_int(*left) {
                Some(left) => match self.eval_const_int(*right) {
                    Some(right) => eval_binary(operator, left, right),
                    None => None,
                },
                None => None,
            },
            _ => None,
        }
    }

    /// The value of a constant as text, if it can be told.
    pub open spec fn const_value(self, constant: Constant<'h>) -> Option<Seq<char>> {
        match constant.value.kind {
            ExpressionKind::Literal(Literal::Float(bits)) => float_text(self.floats, bits, 0),
            ExpressionKind::Literal(Literal::Bool(value)) => Some(
                if value {
                    "true"@
                } else {
                    "false"@
                },
            ),
            ExpressionKind::Literal(Literal::Char(value)) => Some(seq!['\'', value, '\'']),
            ExpressionKind::Literal(Literal::Str(symbol)) => Some(
                "\""@ + name_of(self.names, symbol) + "\""@,
            ),
            ExpressionKind::Unary { operator, expr } => match (operator, expr.kind) {
                (
                    UnaryOperator::Neg,
                    ExpressionKind::Literal(Literal::Float(bits)),
                ) => float_text(self.floats, negated_bits(bits), 0),
                _ => self.const_int(constant),
            },
            _ => self.const_int(constant),
        }
    }

    pub open spec fn const_int(self, constant: Constant<'h>) -> Option<Seq<char>> {
        match self.eval_const_int(*constant.value) {
            Some(value) => Some(int_text(value as int, constant.typ)),
            None => None,
        }
    }

    /// A constant's declaration, with its value where it can be told.
    pub open spec fn const_hover(self, constant: Constant<'h>) -> Hover {
        let qualified = name_of(self.names, constant.name);
        let public = if constant.is_pub {
            "pub const "@
        } else {
            "const "@
        };
        let typed = public + short_name(qualified) + ": "@ + self.format_type(
            constant.typ,
            Seq::empty(),
        );
        Hover {
            path: self.member_path(constant.decl_span, implementor_from_name(qualified)),
            ty: match self.const_value(constant) {
                Some(value) => typed + " = "@ + value,
                None => typed,
            },
            layout: None,
            docs: doc_text(self.docs, constant.decl_span, 0),
        }
    }
}

/// The bits of a floating-point number with its sign turned.
#[verifier::allow_in_spec]
pub fn negated_bits(bits: u64) -> u64
    returns
        (if bits >= 0x8000_0000_0000_0000 {
            (bits - 0x8000_0000_0000_0000) as u64
        } else {
            (bits + 0x8000_0000_0000_0000) as u64
        }),
{
    if bits >= 0x8000_0000_0000_0000 {
        bits - 0x8000_0000_0000_0000
    } else {
        bits + 0x8000_0000_0000_0000
    }
}

fn part_of(chars: &Vec<char>, from: usize, to: usize) -> (part: Vec<char>)
    requires
        from <= to <= chars@.len(),
    ensures
        part@ == chars@.subrange(from as int, to as int),
{
    let mut part: Vec<char> = Vec::new();
    let mut i: usize = from;
    while i < to
        invariant
            from <= i <= to <= chars@.len(),
            part@ == chars@.subrange(from as int, i as int),
        decreases to - i,
    {
        part.push(chars[i]);
        i = i + 1;
        assert(part@ =~= chars@.subrange(from as int, i as int));
    }
    part
}

fn text_from(chars: &Vec<char>, from: usize, to: usize) -> (text: String)
    requires
        from <= to <= chars@.len(),
    ensures
        text@ == chars@.subrange(from as int, to as int),
{
    let mut text = String::new();
    push_range(&mut text, chars, from, to);
    assert(text@ =~= chars@.subrange(from as int, to as int));
    text
}

fn pretty_args_text(name: &Vec<char>) -> (text: String)
    ensures
        text@ == pretty_args(name@),
{
    match find_char(name, '$', 0) {
        Some(at) => {
            let mut text = text_from(name, 0, at);
            assert(name@.subrange(0, at as int) =~= name@.take(at as int));
            push_text(&mut text, "<");
            let ghost start = text@;
            let len: usize = name.len();
            let mut i: usize = at + 1;
            while i < len
                invariant
                    at < i,
                    len == name@.len(),
                    args_text(start, name@, at as nat + 1) == args_text(text@, name@, i as nat),
                decreases name@.len() - i,
            {
                if name[i] == '$' {
                    push_text(&mut text, ", ");
                } else {
                    text.push(name[i]);
                }
                i = i + 1;
            }
            push_text(&mut text, ">");
            text
        },
        None => {
            let text = text_from(name, 0, name.len());
            assert(name@.subrange(0, name@.len() as int) =~= name@);
            text
        },
    }
}

fn short_name_text(qualified: &str) -> (text: String)
    ensures
        text@ == short_name(qualified@),
{
    let chars = chars_of(qualified);
    let start: usize = find_segment(&chars);
    let segment = part_of(&chars, start, chars.len());
    assert(segment@ =~= last_segment(qualified@));
    pretty_args_text(&segment)
}

fn implementor_text(qualified: &str) -> (text: Option<String>)
    ensures
        text_of(text) == implementor_from_name(qualified@),
{
    let chars = chars_of(qualified);
    let len: usize = chars.len();
    match find_colons(&chars, 0) {
        None => None,
        Some(first) => match find_colons(&chars, first + 2) {
            None => None,
            Some(second) => {
                let scope = part_of(&chars, first + 2, second);
                Some(pretty_args_text(&scope))
            },
        },
    }
}

fn int_to_text(value: i128, typ: Type) -> (text: String)
    ensures
        text@ == int_text(value as int, typ),
{
    let modulus: u128 = shown_modulus(typ);
    let truncated: u128 = reduce(value, modulus);
    let mut text = String::new();
    if shown_unsigned(typ) || truncated < modulus / 2 {
        push_decimal(&mut text, truncated);
        assert(text@ =~= int_text(value as int, typ));
    } else {
        push_signed(&mut text, truncated as i128 - modulus as i128);
        push_text(&mut text, " (0x");
        push_hexadecimal(&mut text, truncated);
        push_text(&mut text, ")");
        assert(text@ =~= int_text(value as int, typ));
    }
    text
}

fn reduce(value: i128, modulus: u128) -> (truncated: u128)
    requires
        modulus == 0x100 || modulus == 0x1_0000 || modulus == 0x1_0000_0000 || modulus
            == 0x1_0000_0000_0000_0000,
    ensures
        truncated == value as int % modulus as int,
{
    if value >= 0 {
        (value as u128) % modulus
    } else {
        let rest: u128 = (-(value + 1)) as u128 % modulus;
        proof {
            let m = modulus as int;
            let below = -(value as int + 1);
            vstd::arithmetic::div_mod::lemma_fundamental_div_mod(below, m);
            let q = below / m;
            assert(value as int == m * (-q - 1) + (m - 1 - rest)) by (nonlinear_arith)
                requires
                    below == -(value as int + 1),
                    below == m * q + rest as int,
            ;
            vstd::arithmetic::div_mod::lemma_fundamental_div_mod_converse(
                value as int,
                m,
                -q - 1,
                m - 1 - rest,
            );
        }
        modulus - 1 - rest
    }
}

fn magnitude(value: i128) -> (size: u128)
    ensures
        size == if value < 0 {
            -(value as int)
        } else {
            value as int
        },
{
    if value < 0 {
        ((-(value + 1)) as u128) + 1
    } else {
        value as u128
    }
}

fn divide(left: i128, right: i128) -> (value: Option<i128>)
    requires
        right != 0,
    ensures
        value == fits(quotient(left as int, right as int)),
{
    let size: u128 = magnitude(left) / magnitude(right);
    proof {
        assert(size <= magnitude_of(left as int)) by {
            vstd::arithmetic::div_mod::lemma_div_is_ordered_by_denominator(
                magnitude_of(left as int),
                1,
                magnitude_of(right as int),
            );
        }
    }
    if (left < 0) == (right < 0) {
        if size <= 0x7fff_ffff_ffff_ffff_ffff_ffff_ffff_ffff {
            Some(size as i128)
        } else {
            None
        }
    } else if size == 0 {
        Some(0)
    } else {
        Some(-((size - 1) as i128) - 1)
    }
}

spec fn magnitude_of(value: int) -> int {
    if value < 0 {
        -value
    } else {
        value
    }
}

fn eval_binary_int(operator: BinaryOperator, left: i128, right: i128) -> (value: Option<i128>)
    ensures
        value == eval_binary(operator, left, right),
{
    match operator {
        BinaryOperator::Add => left.checked_add(right),
        BinaryOperator::Sub => left.checked_sub(right),
        BinaryOperator::Mul => left.checked_mul(right),
        BinaryOperator::Div => if right == 0 {
            None
        } else {
            divide(left, right)
        },
        BinaryOperator::Shl => if 0 <= right && right < 128 {
            Some(left << right)
        } else {
            None
        },
        BinaryOperator::Shr => if 0 <= right && right < 128 {
            Some(left >> right)
        } else {
            None
        },
        BinaryOperator::BitAnd => Some(left & right),
        BinaryOperator::BitOr => Some(left | right),
        BinaryOperator::BitXor => Some(left ^ right),
        _ => None,
    }
}

impl<'a, 'h> Lens<'a, 'h> {
    fn struct_at(&self, id: StructId) -> (structure: Option<Struct<'h>>)
        ensures
            structure == self@.struct_at(id),
    {
        let index: usize = id.0 as usize;
        if index < self.hir.structs.len() {
            Some(self.hir.structs[index])
        } else {
            None
        }
    }

    fn enum_at(&self, id: EnumId) -> (enumeration: Option<Enum<'h>>)
        ensures
            enumeration == self@.enum_at(id),
    {
        let index: usize = id.0 as usize;
        if index < self.hir.enums.len() {
            Some(self.hir.enums[index])
        } else {
            None
        }
    }

    fn nominal_name(&self, name: SymbolId, generics: &[SymbolId]) -> (text: String)
        ensures
            text@ == self@.nominal_name(name, generics@),
    {
        let raw = self.hir.symbols.name(name);
        if generics.len() == 0 {
            return short_name_text(raw);
        }
        let chars = chars_of(raw);
        let start: usize = find_segment(&chars);
        let segment = part_of(&chars, start, chars.len());
        assert(segment@ =~= last_segment(raw@));
        let end: usize = match find_char(&segment, '$', 0) {
            Some(at) => at,
            None => segment.len(),
        };
        let mut text = text_from(&segment, 0, end);
        assert(text@ =~= base_of(segment@));
        push_text(&mut text, "<");
        let ghost head = text@;
        let mut i: usize = 0;
        while i < generics.len()
            invariant
                i <= generics@.len(),
                names_text(head, self@.names, generics@, 0) == names_text(
                    text@,
                    self@.names,
                    generics@,
                    i as nat,
                ),
            decreases generics@.len() - i,
        {
            if i > 0 {
                push_text(&mut text, ", ");
            }
            push_text(&mut text, self.hir.symbols.name(generics[i]));
            i = i + 1;
        }
        push_text(&mut text, ">");
        text
    }

    fn plain_type(&self, typ: Type, generics: &[SymbolId]) -> (text: String)
        ensures
            text@ == self@.plain_type(typ, generics@),
    {
        match typ.kind() {
            TypeKind::Unit => "()".to_owned(),
            TypeKind::Str => "str".to_owned(),
            TypeKind::GenericParam(index) => if (index as usize) < generics.len() {
                self.hir.symbols.name(generics[index as usize]).to_owned()
            } else {
                let mut text = "T".to_owned();
                push_decimal(&mut text, index as u128);
                text
            },
            TypeKind::Struct(id) => match self.struct_at(id) {
                Some(structure) => self.nominal_name(structure.name, structure.generics),
                None => typ.text(),
            },
            TypeKind::Enum(id) => match self.enum_at(id) {
                Some(enumeration) => self.nominal_name(enumeration.name, enumeration.generics),
                None => typ.text(),
            },
            _ => typ.text(),
        }
    }

    fn format_type(&self, typ: Type, generics: &[SymbolId]) -> (text: String)
        ensures
            text@ == self@.format_type(typ, generics@),
    {
        match typ.kind() {
            TypeKind::Ref { mutable, to } => {
                let mut text = if mutable {
                    "&mut ".to_owned()
                } else {
                    "&".to_owned()
                };
                let target = self.plain_type(Type::from_target(to), generics);
                push_text(&mut text, target.as_str());
                text
            },
            _ => self.plain_type(typ, generics),
        }
    }

    fn is_open(&self, typ: Type) -> (open: bool)
        ensures
            open == self@.is_open(typ),
    {
        match typ.kind() {
            TypeKind::Struct(id) => match self.struct_at(id) {
                Some(structure) => {
                    let mut i: usize = 0;
                    while i < structure.fields.len()
                        invariant
                            i <= structure.fields@.len(),
                            typ.kind() == TypeKind::Struct(id),
                            self@.struct_at(id) == Some(structure),
                            forall|k: int|
                                0 <= k < i ==> !carries_generic(
                                    (#[trigger] structure.fields@[k]).typ,
                                ),
                        decreases structure.fields@.len() - i,
                    {
                        if is_generic(structure.fields[i].typ) {
                            assert(carries_generic(structure.fields@[i as int].typ));
                            return true;
                        }
                        i = i + 1;
                    }
                    false
                },
                None => false,
            },
            TypeKind::Enum(id) => match self.enum_at(id) {
                Some(enumeration) => {
                    let mut i: usize = 0;
                    while i < enumeration.variants.len()
                        invariant
                            i <= enumeration.variants@.len(),
                            typ.kind() == TypeKind::Enum(id),
                            self@.enum_at(id) == Some(enumeration),
                            forall|k: int|
                                0 <= k < i ==> match (#[trigger] enumeration.variants@[k]).payload {
                                    Some(payload) => !carries_generic(payload),
                                    None => true,
                                },
                        decreases enumeration.variants@.len() - i,
                    {
                        let variant = enumeration.variants[i];
                        match variant.payload {
                            Some(payload) => {
                                if is_generic(payload) {
                                    assert(enumeration.variants@[i as int] == variant);
                                    return true;
                                }
                            },
                            None => {},
                        }
                        i = i + 1;
                    }
                    false
                },
                None => false,
            },
            _ => false,
        }
    }

    fn layout(&self, typ: Type) -> (layout: Option<(u32, u32)>)
        ensures
            layout == self@.layout(typ),
    {
        match typ.kind() {
            TypeKind::Unit
            | TypeKind::Never
            | TypeKind::SelfType
            | TypeKind::GenericParam(_)
            | TypeKind::Error => None,
            _ => Some(type_layout(typ, &self.hir.structs, &self.hir.enums, &self.hir.arrays)),
        }
    }

    fn closed_layout(&self, typ: Type) -> (layout: Option<(u32, u32)>)
        ensures
            layout == self@.closed_layout(typ),
    {
        if self.is_open(typ) {
            None
        } else {
            self.layout(typ)
        }
    }

    fn module_of(&self, span: Span) -> (module: Option<&'a str>)
        ensures
            (match module {
                Some(module) => Some(module@),
                None => None,
            }) == self@.module_of(span),
    {
        if span == Span::new(0, 0) {
            return None;
        }
        match self.map.file_of(span.start) {
            Some(file) => if file < self.modules.len() {
                assert(self@.modules[file as int] == self.modules@[file as int]@);
                Some(self.modules[file].as_str())
            } else {
                None
            },
            None => None,
        }
    }

    fn member_path(&self, span: Span, implementor: &Option<String>) -> (path: Option<String>)
        ensures
            text_of(path) == self@.member_path(span, text_of(*implementor)),
    {
        match self.module_of(span) {
            Some(module) => {
                let mut path = module.to_owned();
                match implementor {
                    Some(implementor) => {
                        push_text(&mut path, "::");
                        push_text(&mut path, implementor.as_str());
                    },
                    None => {},
                }
                Some(path)
            },
            None => None,
        }
    }

    fn doc_text(&self, span: Span) -> (docs: Option<String>)
        ensures
            text_of(docs) == doc_text(self@.docs, span, 0),
    {
        let mut i: usize = 0;
        while i < self.hir.docs.len()
            invariant
                i <= self.hir.docs@.len(),
                self@.docs == doc_views(self.hir.docs@),
                doc_text(self@.docs, span, 0) == doc_text(self@.docs, span, i as nat),
            decreases self.hir.docs@.len() - i,
        {
            assert(self@.docs[i as int] == (self.hir.docs@[i as int].0, self.hir.docs@[i as int].1@));
            if self.hir.docs[i].0 == span {
                return Some(self.hir.docs[i].1.to_owned());
            }
            i = i + 1;
        }
        None
    }

    fn struct_def(&self, structure: Struct<'h>) -> (text: String)
        ensures
            text@ == self@.struct_def(structure),
    {
        let mut text = "struct ".to_owned();
        let name = self.nominal_name(structure.name, structure.generics);
        push_text(&mut text, name.as_str());
        if structure.fields.len() == 0 {
            return text;
        }
        push_text(&mut text, " {\n");
        let ghost head = text@;
        let mut i: usize = 0;
        while i < MAX_HOVER_ITEMS && i < structure.fields.len()
            invariant
                i <= structure.fields@.len(),
                self@.field_lines(head, structure, 0) == self@.field_lines(
                    text@,
                    structure,
                    i as nat,
                ),
            decreases MAX_HOVER_ITEMS - i,
        {
            let field = structure.fields[i];
            push_text(&mut text, "    ");
            push_text(&mut text, self.hir.symbols.name(field.name));
            push_text(&mut text, ": ");
            let typ = self.format_type(field.typ, structure.generics);
            push_text(&mut text, typ.as_str());
            push_text(&mut text, ",\n");
            i = i + 1;
        }
        if structure.fields.len() > MAX_HOVER_ITEMS {
            push_text(&mut text, "    /* … */\n");
        }
        push_text(&mut text, "}");
        text
    }

    fn enum_def(&self, enumeration: Enum<'h>) -> (text: String)
        ensures
            text@ == self@.enum_def(enumeration),
    {
        let mut text = "enum ".to_owned();
        let name = self.nominal_name(enumeration.name, enumeration.generics);
        push_text(&mut text, name.as_str());
        if enumeration.variants.len() == 0 {
            return text;
        }
        push_text(&mut text, " {\n");
        let ghost head = text@;
        let mut i: usize = 0;
        while i < MAX_HOVER_ITEMS && i < enumeration.variants.len()
            invariant
                i <= enumeration.variants@.len(),
                self@.variant_lines(head, enumeration, 0) == self@.variant_lines(
                    text@,
                    enumeration,
                    i as nat,
                ),
            decreases MAX_HOVER_ITEMS - i,
        {
            let variant = enumeration.variants[i];
            push_text(&mut text, "    ");
            push_text(&mut text, self.hir.symbols.name(variant.name));
            match variant.payload {
                Some(typ) => {
                    push_text(&mut text, "(");
                    let payload = self.format_type(typ, enumeration.generics);
                    push_text(&mut text, payload.as_str());
                    push_text(&mut text, ")");
                },
                None => {},
            }
            push_text(&mut text, ",\n");
            i = i + 1;
        }
        if enumeration.variants.len() > MAX_HOVER_ITEMS {
            push_text(&mut text, "    /* … */\n");
        }
        push_text(&mut text, "}");
        text
    }

    fn local_name(&self, locals: &[Local], id: LocalId) -> (name: &'a str)
        ensures
            name@ == self@.local_name(locals@, id),
    {
        let index: usize = id.0 as usize;
        if index < locals.len() {
            self.hir.symbols.name(locals[index].name)
        } else {
            proof {
                reveal_strlit("");
                assert(""@ =~= Seq::<char>::empty());
            }
            ""
        }
    }

    fn push_params(&self, text: &mut String, function: &Function<'h>)
        ensures
            final(text)@ == self@.params_text(old(text)@, *function, 0),
    {
        let mut i: usize = 0;
        while i < function.params.len()
            invariant
                i <= function.params@.len(),
                self@.params_text(old(text)@, *function, 0) == self@.params_text(
                    text@,
                    *function,
                    i as nat,
                ),
            decreases function.params@.len() - i,
        {
            let param = function.params[i];
            if i > 0 {
                push_text(text, ", ");
            }
            let name = self.local_name(function.locals, param.id);
            if text_eq(name, "self") {
                match param.typ.kind() {
                    TypeKind::Ref { mutable, .. } => if mutable {
                        push_text(text, "&mut self");
                    } else {
                        push_text(text, "&self");
                    },
                    _ => push_text(text, "self"),
                }
            } else {
                push_text(text, name);
                push_text(text, ": ");
                let typ = self.format_type(param.typ, function.generics);
                push_text(text, typ.as_str());
            }
            i = i + 1;
        }
    }

    fn push_signature(&self, text: &mut String, function: &Function<'h>)
        ensures
            final(text)@ == self@.signature(old(text)@, *function),
    {
        if function.is_pub {
            push_text(text, "pub ");
        }
        if function.inline {
            push_text(text, "inline ");
        }
        if function.is_const {
            push_text(text, "const ");
        }
        push_text(text, "fn ");
        let name = short_name_text(self.hir.symbols.name(function.name));
        push_text(text, name.as_str());
        push_text(text, "(");
        self.push_params(text, function);
        push_text(text, ")");
        let result = self.format_type(function.return_type, function.generics);
        if !text_eq(result.as_str(), "()") {
            push_text(text, ": ");
            push_text(text, result.as_str());
        }
    }

    fn implementor_of(&self, function: &Function<'h>) -> (implementor: Option<String>)
        ensures
            text_of(implementor) == self@.implementor_of(*function),
    {
        match function.kind {
            FunctionKind::Method(method) => Some(
                self.format_type(method.receiver, function.generics),
            ),
            _ => implementor_text(self.hir.symbols.name(function.name)),
        }
    }

    /// The hover of a function.
    pub fn fn_hover(&self, function: &Function<'h>) -> (hover: HoverInfo)
        ensures
            hover@ == self@.fn_hover(*function),
    {
        let implementor = self.implementor_of(function);
        let path = self.member_path(function.decl_span, &implementor);
        let mut ty = String::new();
        match &implementor {
            Some(implementor) => {
                push_text(&mut ty, "impl ");
                assert(ty@ =~= "impl "@);
                push_text(&mut ty, implementor.as_str());
                push_text(&mut ty, "\n");
            },
            None => {},
        }
        self.push_signature(&mut ty, function);
        HoverInfo { path, ty, layout: None, docs: self.doc_text(function.decl_span) }
    }

    /// The hover of a struct or enum.
    pub fn type_hover(&self, typ: Type) -> (hover: Option<HoverInfo>)
        ensures
            (match hover {
                Some(hover) => Some(hover@),
                None => None,
            }) == self@.type_hover(typ),
    {
        match typ.kind() {
            TypeKind::Struct(id) => match self.struct_at(id) {
                Some(structure) => Some(
                    HoverInfo {
                        path: self.member_path(structure.decl_span, &None),
                        ty: self.struct_def(structure),
                        layout: self.closed_layout(typ),
                        docs: self.doc_text(structure.decl_span),
                    },
                ),
                None => None,
            },
            TypeKind::Enum(id) => match self.enum_at(id) {
                Some(enumeration) => Some(
                    HoverInfo {
                        path: self.member_path(enumeration.decl_span, &None),
                        ty: self.enum_def(enumeration),
                        layout: self.closed_layout(typ),
                        docs: self.doc_text(enumeration.decl_span),
                    },
                ),
                None => None,
            },
            _ => None,
        }
    }

    fn value_hover(&self, typ: Type, generics: &[SymbolId]) -> (hover: HoverInfo)
        ensures
            hover@ == self@.value_hover(typ, generics@),
    {
        HoverInfo {
            path: None,
            ty: self.format_type(typ, generics),
            layout: self.closed_layout(typ),
            docs: None,
        }
    }

    /// The value of a constant integer expression.
    pub fn eval_const_int(&self, expr: &Expression<'h>) -> (value: Option<i128>)
        ensures
            value == self@.eval_const_int(*expr),
        decreases *expr,
    {
        match expr.kind {
            ExpressionKind::Literal(Literal::Int(value)) => Some(value as i128),
            ExpressionKind::Unary { operator, expr } => match operator {
                UnaryOperator::Neg => match self.eval_const_int(expr) {
                    Some(value) => Some(
                        if value == i128::MIN {
                            value
                        } else {
                            -value
                        },
                    ),
                    None => None,
                },
                UnaryOperator::Not => match self.eval_const_int(expr) {
                    Some(value) => Some(-1 - value),
                    None => None,
                },
                _ => None,
            },
            ExpressionKind::Cast { from, .. } => self.eval_const_int(from),
            ExpressionKind::Const(constant) => self.eval_const_int(constant.value),
            ExpressionKind::TypeIntrinsic { kind, typ } => match self.layout(typ) {
                Some((size, align)) => Some(
                    match kind {
                        TypeIntrinsicKind::SizeOf => size as i128,
                        TypeIntrinsicKind::AlignOf => align as i128,
                    },
                ),
                None => None,
            },
            ExpressionKind::Binary { operator, left, right } => match self.eval_const_int(left) {
                Some(left) => match self.eval_const_int(right) {
                    Some(right) => eval_binary_int(operator, left, right),
                    None => None,
                },
                None => None,
            },
            _ => None,
        }
    }

    fn float_text(&self, bits: u64) -> (text: Option<String>)
        ensures
            text_of(text) == float_text(self@.floats, bits, 0),
    {
        let mut i: usize = 0;
        while i < self.floats.len()
            invariant
                i <= self.floats@.len(),
                self@.floats == self.floats@.map_values(|float: (u64, String)| (float.0, float.1@)),
                float_text(self@.floats, bits, 0) == float_text(self@.floats, bits, i as nat),
            decreases self.floats@.len() - i,
        {
            assert(self@.floats[i as int] == (self.floats@[i as int].0, self.floats@[i as int].1@));
            if self.floats[i].0 == bits {
                return Some(self.floats[i].1.as_str().to_owned());
            }
            i = i + 1;
        }
        None
    }

    fn const_int(&self, constant: &Constant<'h>) -> (text: Option<String>)
        ensures
            text_of(text) == self@.const_int(*constant),
    {
        match self.eval_const_int(constant.value) {
            Some(value) => Some(int_to_text(value, constant.typ)),
            None => None,
        }
    }

    /// The value of a constant as text.
    pub fn const_value(&self, constant: &Constant<'h>) -> (text: Option<String>)
        ensures
            text_of(text) == self@.const_value(*constant),
    {
        match constant.value.kind {
            ExpressionKind::Literal(Literal::Float(bits)) => self.float_text(bits),
            ExpressionKind::Literal(Literal::Bool(value)) => Some(
                if value {
                    "true".to_owned()
                } else {
                    "false".to_owned()
                },
            ),
            ExpressionKind::Literal(Literal::Char(value)) => {
                let mut text = String::new();
                text.push('\'');
                text.push(value);
                text.push('\'');
                assert(text@ =~= seq!['\'', value, '\'']);
                Some(text)
            },
            ExpressionKind::Literal(Literal::Str(symbol)) => {
                let mut text = "\"".to_owned();
                push_text(&mut text, self.hir.symbols.name(symbol));
                push_text(&mut text, "\"");
                Some(text)
            },
            ExpressionKind::Unary { operator, expr } => match (operator, expr.kind) {
                (
                    UnaryOperator::Neg,
                    ExpressionKind::Literal(Literal::Float(bits)),
                ) => self.float_text(negated_bits(bits)),
                _ => self.const_int(constant),
            },
            _ => self.const_int(constant),
        }
    }

    /// The hover of a constant.
    pub fn const_hover(&self, constant: &Constant<'h>) -> (hover: HoverInfo)
        ensures
            hover@ == self@.const_hover(*constant),
    {
        let qualified = self.hir.symbols.name(constant.name);
        let implementor = implementor_text(qualified);
        let path = self.member_path(constant.decl_span, &implementor);
        let mut ty = if constant.is_pub {
            "pub const ".to_owned()
        } else {
            "const ".to_owned()
        };
        let name = short_name_text(qualified);
        push_text(&mut ty, name.as_str());
        push_text(&mut ty, ": ");
        let none: Vec<SymbolId> = Vec::new();
        let typ = self.format_type(constant.typ, none.as_slice());
        assert(none@ =~= Seq::<SymbolId>::empty());
        push_text(&mut ty, typ.as_str());
        match self.const_value(constant) {
            Some(value) => {
                push_text(&mut ty, " = ");
                push_text(&mut ty, value.as_str());
            },
            None => {},
        }
        HoverInfo { path, ty, layout: None, docs: self.doc_text(constant.decl_span) }
    }

    fn function_with(&self, id: FunctionId) -> (function: Option<Function<'h>>)
        ensures
            function == function_with(self@.functions, id, self@.functions.len()),
    {
        let mut end: usize = self.hir.functions.len();
        while end > 0
            invariant
                end <= self.hir.functions@.len(),
                function_with(self@.functions, id, self@.functions.len()) == function_with(
                    self@.functions,
                    id,
                    end as nat,
                ),
            decreases end,
        {
            if self.hir.functions[end - 1].id == id {
                return Some(self.hir.functions[end - 1]);
            }
            end = end - 1;
        }
        None
    }

    fn constant_with(&self, name: SymbolId) -> (constant: Option<&'h Constant<'h>>)
        ensures
            (match constant {
                Some(constant) => Some(*constant),
                None => None,
            }) == constant_with(self@.constants, name, self@.constants.len()),
    {
        let mut end: usize = self.hir.constants.len();
        while end > 0
            invariant
                end <= self.hir.constants@.len(),
                constant_with(self@.constants, name, self@.constants.len()) == constant_with(
                    self@.constants,
                    name,
                    end as nat,
                ),
            decreases end,
        {
            let constant = self.hir.constants[end - 1];
            if constant.name == name {
                return Some(constant);
            }
            end = end - 1;
        }
        None
    }
}

fn is_generic(typ: Type) -> (is: bool)
    ensures
        is == carries_generic(typ),
{
    match typ.kind() {
        TypeKind::GenericParam(_) => true,
        TypeKind::Ref { to, .. } => match Type::from_target(to).kind() {
            TypeKind::GenericParam(_) => true,
            _ => false,
        },
        _ => false,
    }
}

/// A span as one number.
#[verifier::allow_in_spec]
pub fn span_key(span: Span) -> u64
    returns
        (span.start as u64 * 0x1_0000_0000 + span.end as u64) as u64,
{
    span.start as u64 * 0x1_0000_0000 + span.end as u64
}

/// Different spans have different keys.
pub proof fn lemma_span_key(a: Span, b: Span)
    ensures
        span_key(a) == span_key(b) <==> a == b,
{
}

/// What has been collected on the way through a program.
pub ghost struct Trail {
    pub hover: Seq<(Span, Hover)>,
    /// Definitions, by the key of the span that names them
    pub defs: Map<u64, Span>,
    pub hints: Seq<(Span, Seq<char>)>,
}

impl Trail {
    pub open spec fn hover(self, span: Span, hover: Hover) -> Trail {
        Trail { hover: self.hover.push((span, hover)), ..self }
    }

    pub open spec fn def(self, at: Span, target: Span) -> Trail {
        Trail { defs: self.defs.insert(span_key(at), target), ..self }
    }
}

/// The type of an expression.
pub open spec fn type_at(function: Function, id: ExprId) -> Type {
    match function.typeck.node_spec(id) {
        Some(node) => node.typ,
        None => Type::new(TypeKind::Unit),
    }
}

/// The constant an expression is a use of.
pub open spec fn const_at(function: Function, id: ExprId) -> Option<SymbolId> {
    match function.typeck.node_spec(id) {
        Some(node) => node.const_use,
        None => None,
    }
}

impl<'h> Scene<'h> {
    /// A binding: the hint behind its name, and its type.
    pub open spec fn binding(self, trail: Trail, function: Function<'h>, id: LocalId) -> Trail {
        if id.0 < function.locals@.len() {
            let local = function.locals@[id.0 as int];
            (Trail {
                hints: trail.hints.push(
                    (local.decl_span, self.format_type(local.typ, function.generics@)),
                ),
                ..trail
            }).hover(local.decl_span, self.value_hover(local.typ, function.generics@))
        } else {
            trail
        }
    }

    /// The constant that an expression uses.
    pub open spec fn used_constant(self, function: Function<'h>, id: ExprId) -> Option<
        Constant<'h>,
    > {
        match const_at(function, id) {
            Some(name) => constant_with(self.constants, name, self.constants.len()),
            None => None,
        }
    }

    /// The function that a call reaches.
    pub open spec fn callee(self, function: Function<'h>, expr: Expression<'h>) -> Option<
        Function<'h>,
    > {
        if expr.kind is Call || expr.kind is MethodCall {
            match function.typeck.node_spec(expr.id) {
                Some(node) => match node.def {
                    Some(def) => match def.function() {
                        Some(id) => function_with(self.functions, id, self.functions.len()),
                        None => None,
                    },
                    None => None,
                },
                None => None,
            }
        } else {
            None
        }
    }

    /// The hover of an expression: the function a call reaches, the declaration of a type that
    /// is named, or else the type of the value.
    pub open spec fn expr_hover(
        self,
        function: Function<'h>,
        expr: Expression<'h>,
        callee: Option<Function<'h>>,
    ) -> Hover {
        let typ = type_at(function, expr.id);
        match callee {
            Some(target) => self.fn_hover(target),
            None => if expr.kind is Struct || expr.kind is Path || expr.kind is Literal {
                match self.type_hover(typ) {
                    Some(hover) => hover,
                    None => self.value_hover(typ, function.generics@),
                }
            } else {
                self.value_hover(typ, function.generics@)
            },
        }
    }

    /// An expression and all it is made of.
    pub open spec fn expr(self, trail: Trail, function: Function<'h>, expr: Expression<'h>) -> Trail
        decreases expr, 0nat,
    {
        match self.used_constant(function, expr.id) {
            Some(constant) => {
                let hovered = trail.hover(expr.span, self.const_hover(constant));
                if constant.decl_span != no_span() {
                    hovered.def(expr.span, constant.decl_span)
                } else {
                    hovered
                }
            },
            None => {
                let callee = self.callee(function, expr);
                let next = trail.hover(expr.span, self.expr_hover(function, expr, callee));
                match expr.kind {
                    ExpressionKind::Local(id) => if id.0 < function.locals@.len() {
                        next.def(expr.span, function.locals@[id.0 as int].decl_span)
                    } else {
                        next
                    },
                    ExpressionKind::Call { callee: named, args } => self.exprs(
                        match callee {
                            Some(target) => next.def(named.span, target.decl_span),
                            None => next,
                        },
                        function,
                        args@,
                        0,
                    ),
                    ExpressionKind::MethodCall { receiver, args, .. } => self.exprs(
                        self.expr(
                            match callee {
                                Some(target) => next.def(expr.span, target.decl_span),
                                None => next,
                            },
                            function,
                            *receiver,
                        ),
                        function,
                        args@,
                        0,
                    ),
                    ExpressionKind::Unary { expr, .. } => self.expr(next, function, *expr),
                    ExpressionKind::Binary { left, right, .. } => self.expr(
                        self.expr(next, function, *left),
                        function,
                        *right,
                    ),
                    ExpressionKind::Field { base, .. } => self.expr(next, function, *base),
                    ExpressionKind::Assign { target, value } => self.expr(
                        self.expr(next, function, *target),
                        function,
                        *value,
                    ),
                    ExpressionKind::Struct { fields, .. } => self.fields(
                        next,
                        function,
                        fields@,
                        0,
                    ),
                    ExpressionKind::Array { elements } => self.exprs(next, function, elements@, 0),
                    ExpressionKind::ArrayRepeat { value, .. } => self.expr(next, function, *value),
                    ExpressionKind::Index { base, index } => self.expr(
                        self.expr(next, function, *base),
                        function,
                        *index,
                    ),
                    ExpressionKind::Syscall { args, .. } => self.exprs(next, function, args@, 0),
                    ExpressionKind::IntrinsicCall { args, .. } => self.exprs(
                        next,
                        function,
                        args@,
                        0,
                    ),
                    ExpressionKind::Cast { from, .. } => self.expr(next, function, *from),
                    ExpressionKind::Match { scrutinee, arms } => self.arms(
                        self.expr(next, function, *scrutinee),
                        function,
                        arms@,
                        0,
                    ),
                    ExpressionKind::Literal(_)
                    | ExpressionKind::Path(_)
                    | ExpressionKind::Const(_)
                    | ExpressionKind::TypeIntrinsic { .. } => next,
                }
            },
        }
    }

    /// The expressions from `at` on.
    pub open spec fn exprs(
        self,
        trail: Trail,
        function: Function<'h>,
        items: Seq<&'h Expression<'h>>,
        at: nat,
    ) -> Trail
        decreases items, (items.len() - at) as nat,
    {
        if at >= items.len() {
            trail
        } else {
            self.exprs(self.expr(trail, function, *items[at as int]), function, items, at + 1)
        }
    }

    /// The values of the fields from `at` on.
    pub open spec fn fields(
        self,
        trail: Trail,
        function: Function<'h>,
        items: Seq<(SymbolId, &'h Expression<'h>)>,
        at: nat,
    ) -> Trail
        decreases items, (items.len() - at) as nat,
    {
        if at >= items.len() {
            trail
        } else {
            self.fields(self.expr(trail, function, *items[at as int].1), function, items, at + 1)
        }
    }

    /// The arms from `at` on, the body of each before its guard.
    pub open spec fn arms(
        self,
        trail: Trail,
        function: Function<'h>,
        items: Seq<Arm<'h>>,
        at: nat,
    ) -> Trail
        decreases items, (items.len() - at) as nat,
    {
        if at >= items.len() {
            trail
        } else {
            let body = self.expr(trail, function, *items[at as int].body);
            let guarded = match items[at as int].guard {
                Some(guard) => self.expr(body, function, *guard),
                None => body,
            };
            self.arms(guarded, function, items, at + 1)
        }
    }

    /// A statement and all it is made of.
    pub open spec fn statement(
        self,
        trail: Trail,
        function: Function<'h>,
        statement: Statement<'h>,
    ) -> Trail
        decreases statement, 0nat,
    {
        match statement {
            Statement::LetInit { id, init } => self.expr(
                self.binding(trail, function, id),
                function,
                *init,
            ),
            Statement::LetUninit { id } => self.binding(trail, function, id),
            Statement::Expr(expr) => self.expr(trail, function, *expr),
            Statement::Return(Some(expr)) => self.expr(trail, function, *expr),
            Statement::Return(None) => trail,
            Statement::If { condition, then_block, else_block } => {
                let taken = self.block(
                    self.expr(trail, function, *condition),
                    function,
                    then_block,
                );
                match else_block {
                    Some(block) => self.block(taken, function, block),
                    None => taken,
                }
            },
            Statement::While { condition, body } => self.block(
                self.expr(trail, function, *condition),
                function,
                body,
            ),
            Statement::Loop { kind, body } => self.block(
                match kind {
                    LoopKind::Infinite => trail,
                    LoopKind::Range { binding, start, end, .. } => self.expr(
                        self.expr(
                            match binding {
                                Some(id) => self.binding(trail, function, id),
                                None => trail,
                            },
                            function,
                            *start,
                        ),
                        function,
                        *end,
                    ),
                    LoopKind::Iterable { binding, iterable } => self.expr(
                        self.binding(trail, function, binding),
                        function,
                        *iterable,
                    ),
                },
                function,
                body,
            ),
            Statement::Block(block) => self.block(trail, function, block),
            Statement::Break | Statement::Continue => trail,
        }
    }

    pub open spec fn block(self, trail: Trail, function: Function<'h>, block: Block<'h>) -> Trail
        decreases block, 1nat,
    {
        self.statements(trail, function, block.statements@, 0)
    }

    /// The statements from `at` on.
    pub open spec fn statements(
        self,
        trail: Trail,
        function: Function<'h>,
        items: Seq<Statement<'h>>,
        at: nat,
    ) -> Trail
        decreases items, (items.len() - at) as nat,
    {
        if at >= items.len() {
            trail
        } else {
            self.statements(
                self.statement(trail, function, items[at as int]),
                function,
                items,
                at + 1,
            )
        }
    }

    /// The parameters from `at` on that were written in the source.
    pub open spec fn params(self, trail: Trail, function: Function<'h>, at: nat) -> Trail
        decreases function.params@.len() - at,
    {
        if at >= function.params@.len() {
            trail
        } else {
            let param = function.params@[at as int];
            let next = if param.id.0 < function.locals@.len()
                && function.locals@[param.id.0 as int].decl_span != no_span() {
                trail.hover(
                    function.locals@[param.id.0 as int].decl_span,
                    Hover {
                        path: None,
                        ty: self.format_type(param.typ, function.generics@),
                        layout: self.layout(param.typ),
                        docs: None,
                    },
                )
            } else {
                trail
            };
            self.params(next, function, at + 1)
        }
    }

    /// The functions from `at` on.
    pub open spec fn functions(self, trail: Trail, at: nat) -> Trail
        decreases self.functions.len() - at,
    {
        if at >= self.functions.len() {
            trail
        } else {
            let function = self.functions[at as int];
            let declared = if function.decl_span != no_span() {
                trail.hover(function.decl_span, self.fn_hover(function))
            } else {
                trail
            };
            self.functions(
                self.block(self.params(declared, function, 0), function, function.body),
                at + 1,
            )
        }
    }

    /// The declaration of a type.
    pub open spec fn declared_type(self, trail: Trail, typ: Type, span: Span) -> Trail {
        if span == no_span() {
            trail
        } else {
            match self.type_hover(typ) {
                Some(hover) => trail.hover(span, hover),
                None => trail,
            }
        }
    }

    pub open spec fn struct_decls(self, trail: Trail, at: nat) -> Trail
        decreases self.structs.len() - at,
    {
        if at >= self.structs.len() {
            trail
        } else {
            self.struct_decls(
                self.declared_type(
                    trail,
                    Type::structure(StructId(at as u32)),
                    self.structs[at as int].decl_span,
                ),
                at + 1,
            )
        }
    }

    pub open spec fn enum_decls(self, trail: Trail, at: nat) -> Trail
        decreases self.enums.len() - at,
    {
        if at >= self.enums.len() {
            trail
        } else {
            self.enum_decls(
                self.declared_type(
                    trail,
                    Type::enumerable(self.enums[at as int].id),
                    self.enums[at as int].decl_span,
                ),
                at + 1,
            )
        }
    }

    pub open spec fn const_decls(self, trail: Trail, at: nat) -> Trail
        decreases self.constants.len() - at,
    {
        if at >= self.constants.len() {
            trail
        } else {
            let constant = *self.constants[at as int];
            let next = if constant.decl_span != no_span() {
                trail.hover(constant.decl_span, self.const_hover(constant))
            } else {
                trail
            };
            self.const_decls(next, at + 1)
        }
    }

    /// All there is to show of a program, in the order it is found.
    pub open spec fn trail(self) -> Trail {
        let start = Trail { hover: Seq::empty(), defs: Map::empty(), hints: Seq::empty() };
        self.const_decls(
            self.enum_decls(self.struct_decls(self.functions(start, 0), 0), 0),
            0,
        )
    }
}

pub open spec fn hover_views(items: Seq<(Span, HoverInfo)>) -> Seq<(Span, Hover)> {
    items.map_values(|item: (Span, HoverInfo)| (item.0, item.1@))
}

pub open spec fn hint_views(items: Seq<(Span, String)>) -> Seq<(Span, Seq<char>)> {
    items.map_values(|item: (Span, String)| (item.0, item.1@))
}

struct Walker<'a, 'h> {
    lens: Lens<'a, 'h>,
    hover: Vec<(Span, HoverInfo)>,
    defs: std::collections::HashMap<u64, Span>,
    hints: Vec<(Span, String)>,
}

impl<'a, 'h> View for Walker<'a, 'h> {
    type V = Trail;

    closed spec fn view(&self) -> Trail {
        Trail {
            hover: hover_views(self.hover@),
            defs: self.defs@,
            hints: hint_views(self.hints@),
        }
    }
}

impl<'a, 'h> Walker<'a, 'h> {
    fn push_hover(&mut self, span: Span, hover: HoverInfo)
        ensures
            final(self)@ == old(self)@.hover(span, hover@),
            final(self).lens == old(self).lens,
    {
        let ghost before = self.hover@;
        self.hover.push((span, hover));
        assert(hover_views(self.hover@) =~= hover_views(before).push((span, hover@)));
    }

    fn push_def(&mut self, at: Span, target: Span)
        ensures
            final(self)@ == old(self)@.def(at, target),
            final(self).lens == old(self).lens,
    {
        self.defs.insert(span_key(at), target);
    }

    fn binding(&mut self, function: &Function<'h>, id: LocalId)
        ensures
            final(self)@ == old(self).lens@.binding(old(self)@, *function, id),
            final(self).lens == old(self).lens,
    {
        let index: usize = id.0 as usize;
        if index < function.locals.len() {
            let local = function.locals[index];
            let text = self.lens.format_type(local.typ, function.generics);
            let ghost before = self.hints@;
            let ghost shown = text@;
            self.hints.push((local.decl_span, text));
            assert(hint_views(self.hints@) =~= hint_views(before).push((local.decl_span, shown)));
            let hover = self.lens.value_hover(local.typ, function.generics);
            self.push_hover(local.decl_span, hover);
        }
    }

    fn callee(&self, function: &Function<'h>, expr: &Expression<'h>) -> (callee: Option<
        Function<'h>,
    >)
        ensures
            callee == self.lens@.callee(*function, *expr),
    {
        match expr.kind {
            ExpressionKind::Call { .. } | ExpressionKind::MethodCall { .. } => {
                match function.typeck.type_dependent_def(expr.id) {
                    Some(def) => match def.function() {
                        Some(id) => self.lens.function_with(id),
                        None => None,
                    },
                    None => None,
                }
            },
            _ => None,
        }
    }

    fn expr_hover(
        &self,
        function: &Function<'h>,
        expr: &Expression<'h>,
        callee: &Option<Function<'h>>,
    ) -> (hover: HoverInfo)
        ensures
            hover@ == self.lens@.expr_hover(*function, *expr, *callee),
    {
        let typ = match function.typeck.node(expr.id) {
            Some(node) => node.typ,
            None => Type::new(TypeKind::Unit),
        };
        match callee {
            Some(target) => self.lens.fn_hover(target),
            None => match expr.kind {
                ExpressionKind::Struct { .. }
                | ExpressionKind::Path(_)
                | ExpressionKind::Literal(_) => match self.lens.type_hover(typ) {
                    Some(hover) => hover,
                    None => self.lens.value_hover(typ, function.generics),
                },
                _ => self.lens.value_hover(typ, function.generics),
            },
        }
    }

    fn used_constant(&self, function: &Function<'h>, id: ExprId) -> (constant: Option<
        &'h Constant<'h>,
    >)
        ensures
            (match constant {
                Some(constant) => Some(*constant),
                None => None,
            }) == self.lens@.used_constant(*function, id),
    {
        match function.typeck.const_use(id) {
            Some(name) => self.lens.constant_with(name),
            None => None,
        }
    }

    fn expr(&mut self, function: &Function<'h>, expr: &Expression<'h>)
        ensures
            final(self)@ == old(self).lens@.expr(old(self)@, *function, *expr),
            final(self).lens == old(self).lens,
        decreases *expr, 0nat,
    {
        match self.used_constant(function, expr.id) {
            Some(constant) => {
                let hover = self.lens.const_hover(constant);
                self.push_hover(expr.span, hover);
                if constant.decl_span != Span::new(0, 0) {
                    self.push_def(expr.span, constant.decl_span);
                }
                return;
            },
            None => {},
        }
        let resolved = self.callee(function, expr);
        let hover = self.expr_hover(function, expr, &resolved);
        self.push_hover(expr.span, hover);
        match expr.kind {
            ExpressionKind::Local(id) => {
                let index: usize = id.0 as usize;
                if index < function.locals.len() {
                    self.push_def(expr.span, function.locals[index].decl_span);
                }
            },
            ExpressionKind::Call { callee, args } => {
                match &resolved {
                    Some(target) => self.push_def(callee.span, target.decl_span),
                    None => {},
                }
                self.exprs(function, args);
            },
            ExpressionKind::MethodCall { receiver, args, .. } => {
                match &resolved {
                    Some(target) => self.push_def(expr.span, target.decl_span),
                    None => {},
                }
                self.expr(function, receiver);
                self.exprs(function, args);
            },
            ExpressionKind::Unary { expr, .. } => self.expr(function, expr),
            ExpressionKind::Binary { left, right, .. } => {
                self.expr(function, left);
                self.expr(function, right);
            },
            ExpressionKind::Field { base, .. } => self.expr(function, base),
            ExpressionKind::Assign { target, value } => {
                self.expr(function, target);
                self.expr(function, value);
            },
            ExpressionKind::Struct { fields, .. } => self.fields(function, fields),
            ExpressionKind::Array { elements } => self.exprs(function, elements),
            ExpressionKind::ArrayRepeat { value, .. } => self.expr(function, value),
            ExpressionKind::Index { base, index } => {
                self.expr(function, base);
                self.expr(function, index);
            },
            ExpressionKind::Syscall { args, .. } => self.exprs(function, args),
            ExpressionKind::IntrinsicCall { args, .. } => self.exprs(function, args),
            ExpressionKind::Cast { from, .. } => self.expr(function, from),
            ExpressionKind::Match { scrutinee, arms } => {
                self.expr(function, scrutinee);
                self.arms(function, arms);
            },
            ExpressionKind::Literal(_)
            | ExpressionKind::Path(_)
            | ExpressionKind::Const(_)
            | ExpressionKind::TypeIntrinsic { .. } => {},
        }
    }

    fn exprs(&mut self, function: &Function<'h>, items: &Vec<&'h Expression<'h>>)
        ensures
            final(self)@ == old(self).lens@.exprs(old(self)@, *function, items@, 0),
            final(self).lens == old(self).lens,
        decreases items@, 0nat,
    {
        let mut i: usize = 0;
        while i < items.len()
            invariant
                i <= items@.len(),
                self.lens == old(self).lens,
                old(self).lens@.exprs(old(self)@, *function, items@, 0) == self.lens@.exprs(
                    self@,
                    *function,
                    items@,
                    i as nat,
                ),
            decreases items@.len() - i,
        {
            assert(decreases_to!(items@ => items@[i as int]));
            self.expr(function, items[i]);
            i = i + 1;
        }
    }

    fn fields(&mut self, function: &Function<'h>, items: &Vec<(SymbolId, &'h Expression<'h>)>)
        ensures
            final(self)@ == old(self).lens@.fields(old(self)@, *function, items@, 0),
            final(self).lens == old(self).lens,
        decreases items@, 0nat,
    {
        let mut i: usize = 0;
        while i < items.len()
            invariant
                i <= items@.len(),
                self.lens == old(self).lens,
                old(self).lens@.fields(old(self)@, *function, items@, 0) == self.lens@.fields(
                    self@,
                    *function,
                    items@,
                    i as nat,
                ),
            decreases items@.len() - i,
        {
            assert(decreases_to!(items@ => items@[i as int]));
            assert(decreases_to!(items@[i as int] => items@[i as int].1));
            self.expr(function, items[i].1);
            i = i + 1;
        }
    }

    fn arms(&mut self, function: &Function<'h>, items: &Vec<Arm<'h>>)
        ensures
            final(self)@ == old(self).lens@.arms(old(self)@, *function, items@, 0),
            final(self).lens == old(self).lens,
        decreases items@, 0nat,
    {
        let mut i: usize = 0;
        while i < items.len()
            invariant
                i <= items@.len(),
                self.lens == old(self).lens,
                old(self).lens@.arms(old(self)@, *function, items@, 0) == self.lens@.arms(
                    self@,
                    *function,
                    items@,
                    i as nat,
                ),
            decreases items@.len() - i,
        {
            let arm = items[i];
            assert(decreases_to!(items@ => items@[i as int]));
            assert(decreases_to!(arm => arm.body));
            assert(decreases_to!(arm => arm.guard));
            self.expr(function, arm.body);
            match arm.guard {
                Some(guard) => self.expr(function, guard),
                None => {},
            }
            i = i + 1;
        }
    }

    fn statement(&mut self, function: &Function<'h>, statement: &Statement<'h>)
        ensures
            final(self)@ == old(self).lens@.statement(old(self)@, *function, *statement),
            final(self).lens == old(self).lens,
        decreases *statement, 0nat,
    {
        match *statement {
            Statement::LetInit { id, init } => {
                self.binding(function, id);
                self.expr(function, init);
            },
            Statement::LetUninit { id } => self.binding(function, id),
            Statement::Expr(expr) => self.expr(function, expr),
            Statement::Return(value) => {
                match value {
                    Some(expr) => self.expr(function, expr),
                    None => {},
                }
            },
            Statement::If { condition, then_block, else_block } => {
                self.expr(function, condition);
                self.block(function, &then_block);
                match else_block {
                    Some(block) => self.block(function, &block),
                    None => {},
                }
            },
            Statement::While { condition, body } => {
                self.expr(function, condition);
                self.block(function, &body);
            },
            Statement::Loop { kind, body } => {
                match kind {
                    LoopKind::Infinite => {},
                    LoopKind::Range { binding, start, end, .. } => {
                        match binding {
                            Some(id) => self.binding(function, id),
                            None => {},
                        }
                        self.expr(function, start);
                        self.expr(function, end);
                    },
                    LoopKind::Iterable { binding, iterable } => {
                        self.binding(function, binding);
                        self.expr(function, iterable);
                    },
                }
                self.block(function, &body);
            },
            Statement::Block(block) => self.block(function, &block),
            Statement::Break | Statement::Continue => {},
        }
    }

    fn block(&mut self, function: &Function<'h>, block: &Block<'h>)
        ensures
            final(self)@ == old(self).lens@.block(old(self)@, *function, *block),
            final(self).lens == old(self).lens,
        decreases *block, 1nat,
    {
        let items = block.statements;
        let mut i: usize = 0;
        while i < items.len()
            invariant
                i <= items@.len(),
                items == block.statements,
                self.lens == old(self).lens,
                old(self).lens@.statements(old(self)@, *function, items@, 0)
                    == self.lens@.statements(self@, *function, items@, i as nat),
            decreases items@.len() - i,
        {
            assert(decreases_to!(block.statements@ => block.statements@[i as int]));
            self.statement(function, &items[i]);
            i = i + 1;
        }
    }
}

/// Where an item goes in a sorted list: after all that start no later.
pub open spec fn sorted_place<T>(items: Seq<(Span, T)>, start: u32, end: nat) -> nat
    decreases end,
{
    if end == 0 || end > items.len() || items[end - 1].0.start <= start {
        end
    } else {
        sorted_place(items, start, (end - 1) as nat)
    }
}

pub open spec fn insert_sorted<T>(items: Seq<(Span, T)>, item: (Span, T)) -> Seq<(Span, T)> {
    items.insert(sorted_place(items, item.0.start, items.len()) as int, item)
}

/// The items sorted by where they start, those that start together in the order they came.
pub open spec fn sorted<T>(items: Seq<(Span, T)>) -> Seq<(Span, T)>
    decreases items.len(),
{
    if items.len() == 0 {
        items
    } else {
        insert_sorted(sorted(items.drop_last()), items.last())
    }
}

pub open spec fn is_sorted<T>(items: Seq<(Span, T)>) -> bool {
    forall|i: int, j: int|
        0 <= i <= j < items.len() ==> (#[trigger] items[i]).0.start <= (
        #[trigger] items[j]).0.start
}

proof fn lemma_sorted_place<T>(items: Seq<(Span, T)>, start: u32, end: nat)
    requires
        end <= items.len(),
    ensures
        ({
            let place = sorted_place(items, start, end);
            &&& place <= end
            &&& place > 0 ==> items[place - 1].0.start <= start
            &&& forall|i: int| place <= i < end ==> (#[trigger] items[i]).0.start > start
        }),
    decreases end,
{
    if end > 0 && items[end - 1].0.start > start {
        lemma_sorted_place(items, start, (end - 1) as nat);
    }
}

/// Sorting gives a list in order that holds just the same items.
pub proof fn lemma_sorted<T>(items: Seq<(Span, T)>)
    ensures
        is_sorted(sorted(items)),
        sorted(items).to_multiset() == items.to_multiset(),
        sorted(items).len() == items.len(),
    decreases items.len(),
{
    broadcast use vstd::seq_lib::group_to_multiset_ensures;

    if items.len() > 0 {
        let rest = sorted(items.drop_last());
        let item = items.last();
        lemma_sorted(items.drop_last());
        lemma_sorted_place(rest, item.0.start, rest.len());
        let place = sorted_place(rest, item.0.start, rest.len()) as int;
        let all = rest.insert(place, item);
        assert forall|i: int, j: int| 0 <= i <= j < all.len() implies (
        #[trigger] all[i]).0.start <= (#[trigger] all[j]).0.start by {
            if i < place && place > 0 {
                assert(rest[i].0.start <= rest[place - 1].0.start);
            }
        }
        assert(items =~= items.drop_last().push(item));
    }
}

/// Sorting looks at nothing but where items start.
proof fn lemma_sorted_views<T, U>(items: Seq<(Span, T)>, view: spec_fn(T) -> U)
    ensures
        sorted(items).map_values(|item: (Span, T)| (item.0, view(item.1))) == sorted(
            items.map_values(|item: (Span, T)| (item.0, view(item.1))),
        ),
    decreases items.len(),
{
    let f = |item: (Span, T)| (item.0, view(item.1));
    if items.len() > 0 {
        let rest = sorted(items.drop_last());
        lemma_sorted_views(items.drop_last(), view);
        assert(items.map_values(f).drop_last() =~= items.drop_last().map_values(f));
        lemma_place_views(rest, view, items.last().0.start, rest.len());
        lemma_sorted_place(rest, items.last().0.start, rest.len());
        let place = sorted_place(rest, items.last().0.start, rest.len()) as int;
        assert(rest.insert(place, items.last()).map_values(f) =~= rest.map_values(f).insert(
            place,
            f(items.last()),
        ));
    } else {
        assert(items.map_values(f) =~= sorted(items).map_values(f));
    }
}

proof fn lemma_place_views<T, U>(
    items: Seq<(Span, T)>,
    view: spec_fn(T) -> U,
    start: u32,
    end: nat,
)
    requires
        end <= items.len(),
    ensures
        sorted_place(items, start, end) == sorted_place(
            items.map_values(|item: (Span, T)| (item.0, view(item.1))),
            start,
            end,
        ),
    decreases end,
{
    if end > 0 {
        lemma_place_views(items, view, start, (end - 1) as nat);
    }
}

fn sort_by_start<T>(items: Vec<(Span, T)>) -> (all: Vec<(Span, T)>)
    ensures
        all@ == sorted(items@),
{
    let mut rest = items;
    let mut flipped: Vec<(Span, T)> = Vec::new();
    let ghost n = items@.len() as int;
    while rest.len() > 0
        invariant
            n == items@.len(),
            rest@.len() + flipped@.len() == n,
            rest@ == items@.take(rest@.len() as int),
            forall|k: int| 0 <= k < flipped@.len() ==> flipped@[k] == items@[n - 1 - k],
        decreases rest@.len(),
    {
        match rest.pop() {
            Some(item) => {
                flipped.push(item);
                assert(rest@ =~= items@.take(rest@.len() as int));
            },
            None => {},
        }
    }
    let mut all: Vec<(Span, T)> = Vec::new();
    assert(items@.take(0) =~= Seq::empty());
    while flipped.len() > 0
        invariant
            n == items@.len(),
            flipped@.len() <= n,
            forall|k: int| 0 <= k < flipped@.len() ==> flipped@[k] == items@[n - 1 - k],
            all@ == sorted(items@.take(n - flipped@.len())),
        decreases flipped@.len(),
    {
        let ghost done = items@.take(n - flipped@.len());
        match flipped.pop() {
            Some(item) => {
                let start: u32 = item.0.start;
                let mut place: usize = all.len();
                while place > 0 && all[place - 1].0.start > start
                    invariant
                        place <= all@.len(),
                        sorted_place(all@, start, all@.len()) == sorted_place(
                            all@,
                            start,
                            place as nat,
                        ),
                    decreases place,
                {
                    place = place - 1;
                }
                all.insert(place, item);
                proof {
                    let next = items@.take(n - flipped@.len());
                    assert(next.drop_last() =~= done);
                    assert(next.last() == item);
                }
            },
            None => {},
        }
    }
    assert(items@.take(n) =~= items@);
    all
}

/// The functions from `at` on that were written in the source, for the outline.
pub open spec fn outline(
    out: Seq<(Span, Outline)>,
    names: Seq<Seq<char>>,
    items: Seq<(SymbolId, Span)>,
    kind: SymbolKind,
    at: nat,
) -> Seq<(Span, Outline)>
    decreases items.len() - at,
{
    if at >= items.len() {
        out
    } else {
        let (name, span) = items[at as int];
        let next = if span == no_span() {
            out
        } else {
            out.push((span, Outline { name: short_name(name_of(names, name)), kind, span }))
        };
        outline(next, names, items, kind, at + 1)
    }
}

impl<'h> Scene<'h> {
    /// The declarations of a program, in the order of their kinds.
    pub open spec fn outline(self) -> Seq<(Span, Outline)> {
        let functions = self.functions.map_values(
            |function: Function<'h>| (function.name, function.decl_span),
        );
        let structs = self.structs.map_values(
            |structure: Struct<'h>| (structure.name, structure.decl_span),
        );
        let enums = self.enums.map_values(
            |enumeration: Enum<'h>| (enumeration.name, enumeration.decl_span),
        );
        let constants = self.constants.map_values(
            |constant: &'h Constant<'h>| (constant.name, constant.decl_span),
        );
        outline(
            outline(
                outline(
                    outline(Seq::empty(), self.names, functions, SymbolKind::Function, 0),
                    self.names,
                    structs,
                    SymbolKind::Struct,
                    0,
                ),
                self.names,
                enums,
                SymbolKind::Enum,
                0,
            ),
            self.names,
            constants,
            SymbolKind::Constant,
            0,
        )
    }
}

pub open spec fn outline_views(items: Seq<(Span, DocumentSymbol)>) -> Seq<(Span, Outline)> {
    items.map_values(|item: (Span, DocumentSymbol)| (item.0, item.1@))
}

pub open spec fn symbol_views(items: Seq<DocumentSymbol>) -> Seq<Outline> {
    items.map_values(|item: DocumentSymbol| item@)
}

fn collect_symbols(
    out: &mut Vec<(Span, DocumentSymbol)>,
    lens: &Lens,
    items: &Vec<(SymbolId, Span)>,
    kind: SymbolKind,
)
    ensures
        outline_views(final(out)@) == outline(
            outline_views(old(out)@),
            lens@.names,
            items@,
            kind,
            0,
        ),
{
    let mut i: usize = 0;
    while i < items.len()
        invariant
            i <= items@.len(),
            outline(outline_views(old(out)@), lens@.names, items@, kind, 0) == outline(
                outline_views(out@),
                lens@.names,
                items@,
                kind,
                i as nat,
            ),
        decreases items@.len() - i,
    {
        let (name, span) = items[i];
        if span != Span::new(0, 0) {
            let text = short_name_text(lens.hir.symbols.name(name));
            let ghost before = out@;
            let ghost shown = text@;
            out.push((span, DocumentSymbol { name: text, kind, span }));
            assert(outline_views(out@) =~= outline_views(before).push(
                (span, Outline { name: shown, kind, span }),
            ));
        }
        i = i + 1;
    }
}

/// Hovers, definitions, hints and outline of a program.
#[derive(Debug)]
pub struct SemanticAnalysis {
    pub diagnostics: Vec<RichDiagnostic>,
    /// Hovers, sorted by where they start
    pub hover_types: Vec<(Span, HoverInfo)>,
    /// Where names are defined, by the key of the span of the name
    pub goto_definitions: std::collections::HashMap<u64, Span>,
    /// The types of bindings, behind their names
    pub inlay_hints: Vec<(Span, String)>,
    pub document_symbols: Vec<DocumentSymbol>,
    pub source_map: SourceMap,
    /// Whether the program was lowered: recovered errors leave it set, and without it there is
    /// nothing to show
    pub ok: bool,
}

pub ghost struct Findings {
    pub diagnostics: Seq<RichView>,
    pub hover_types: Seq<(Span, Hover)>,
    pub goto_definitions: Map<u64, Span>,
    pub inlay_hints: Seq<(Span, Seq<char>)>,
    pub document_symbols: Seq<Outline>,
    pub files: Seq<FileView>,
    pub ok: bool,
}

impl View for SemanticAnalysis {
    type V = Findings;

    open spec fn view(&self) -> Findings {
        Findings {
            diagnostics: rich_views(self.diagnostics@),
            hover_types: hover_views(self.hover_types@),
            goto_definitions: self.goto_definitions@,
            inlay_hints: hint_views(self.inlay_hints@),
            document_symbols: symbol_views(self.document_symbols@),
            files: self.source_map@,
            ok: self.ok,
        }
    }
}

pub open spec fn seconds(items: Seq<(Span, Outline)>) -> Seq<Outline> {
    items.map_values(|item: (Span, Outline)| item.1)
}

impl<'h> Scene<'h> {
    /// What an editor shows of a lowered program.
    pub open spec fn findings(self) -> Findings {
        let trail = self.trail();
        Findings {
            diagnostics: Seq::empty(),
            hover_types: sorted(trail.hover),
            goto_definitions: trail.defs,
            inlay_hints: trail.hints,
            document_symbols: seconds(sorted(self.outline())),
            files: Seq::empty(),
            ok: true,
        }
    }
}

/// What is left of an analysis that did not get to a lowered program: its errors.
pub open spec fn failed_findings(diagnostics: Seq<RichView>, files: Seq<FileView>) -> Findings {
    Findings {
        diagnostics,
        hover_types: Seq::empty(),
        goto_definitions: Map::empty(),
        inlay_hints: Seq::empty(),
        document_symbols: Seq::empty(),
        files,
        ok: false,
    }
}

impl<'a, 'h> Walker<'a, 'h> {
    fn params(&mut self, function: &Function<'h>)
        ensures
            final(self)@ == old(self).lens@.params(old(self)@, *function, 0),
            final(self).lens == old(self).lens,
    {
        let mut i: usize = 0;
        while i < function.params.len()
            invariant
                i <= function.params@.len(),
                self.lens == old(self).lens,
                old(self).lens@.params(old(self)@, *function, 0) == self.lens@.params(
                    self@,
                    *function,
                    i as nat,
                ),
            decreases function.params@.len() - i,
        {
            let param = function.params[i];
            let index: usize = param.id.0 as usize;
            if index < function.locals.len() && function.locals[index].decl_span != Span::new(
                0,
                0,
            ) {
                let hover = HoverInfo {
                    path: None,
                    ty: self.lens.format_type(param.typ, function.generics),
                    layout: self.lens.layout(param.typ),
                    docs: None,
                };
                self.push_hover(function.locals[index].decl_span, hover);
            }
            i = i + 1;
        }
    }

    fn functions(&mut self)
        ensures
            final(self)@ == old(self).lens@.functions(old(self)@, 0),
            final(self).lens == old(self).lens,
    {
        let hir = self.lens.hir;
        let mut i: usize = 0;
        while i < hir.functions.len()
            invariant
                i <= hir.functions@.len(),
                hir == self.lens.hir,
                self.lens == old(self).lens,
                old(self).lens@.functions(old(self)@, 0) == self.lens@.functions(self@, i as nat),
            decreases hir.functions@.len() - i,
        {
            let function = &hir.functions[i];
            if function.decl_span != Span::new(0, 0) {
                let hover = self.lens.fn_hover(function);
                self.push_hover(function.decl_span, hover);
            }
            self.params(function);
            self.block(function, &function.body);
            i = i + 1;
        }
    }

    fn declared_type(&mut self, typ: Type, span: Span)
        ensures
            final(self)@ == old(self).lens@.declared_type(old(self)@, typ, span),
            final(self).lens == old(self).lens,
    {
        if span != Span::new(0, 0) {
            match self.lens.type_hover(typ) {
                Some(hover) => self.push_hover(span, hover),
                None => {},
            }
        }
    }

    fn declarations(&mut self)
        ensures
            final(self)@ == old(self).lens@.const_decls(
                old(self).lens@.enum_decls(old(self).lens@.struct_decls(old(self)@, 0), 0),
                0,
            ),
            final(self).lens == old(self).lens,
    {
        let hir = self.lens.hir;
        let ghost scene = self.lens@;
        let mut i: usize = 0;
        while i < hir.structs.len()
            invariant
                i <= hir.structs@.len(),
                hir == self.lens.hir,
                self.lens == old(self).lens,
                scene == self.lens@,
                scene.struct_decls(old(self)@, 0) == scene.struct_decls(self@, i as nat),
            decreases hir.structs@.len() - i,
        {
            let id = StructId(
                #[verifier::truncate]
                (i as u32),
            );
            self.declared_type(Type::structure(id), hir.structs[i].decl_span);
            i = i + 1;
        }
        let ghost with_structs = self@;
        let mut j: usize = 0;
        while j < hir.enums.len()
            invariant
                j <= hir.enums@.len(),
                hir == self.lens.hir,
                self.lens == old(self).lens,
                scene == self.lens@,
                scene.enum_decls(with_structs, 0) == scene.enum_decls(self@, j as nat),
            decreases hir.enums@.len() - j,
        {
            self.declared_type(Type::enumerable(hir.enums[j].id), hir.enums[j].decl_span);
            j = j + 1;
        }
        let ghost with_enums = self@;
        let mut k: usize = 0;
        while k < hir.constants.len()
            invariant
                k <= hir.constants@.len(),
                hir == self.lens.hir,
                self.lens == old(self).lens,
                scene == self.lens@,
                scene.const_decls(with_enums, 0) == scene.const_decls(self@, k as nat),
            decreases hir.constants@.len() - k,
        {
            let constant = hir.constants[k];
            if constant.decl_span != Span::new(0, 0) {
                let hover = self.lens.const_hover(constant);
                self.push_hover(constant.decl_span, hover);
            }
            k = k + 1;
        }
    }
}

fn outline_symbols(lens: &Lens) -> (symbols: Vec<(Span, DocumentSymbol)>)
    ensures
        outline_views(symbols@) == lens@.outline(),
{
    let hir = lens.hir;
    let mut symbols: Vec<(Span, DocumentSymbol)> = Vec::new();
    assert(outline_views(symbols@) =~= Seq::empty());
    let mut functions: Vec<(SymbolId, Span)> = Vec::new();
    let ghost function_pairs = hir.functions@.map_values(
        |function: Function| (function.name, function.decl_span),
    );
    let mut i: usize = 0;
    while i < hir.functions.len()
        invariant
            i <= hir.functions@.len(),
            functions@ == hir.functions@.map_values(
                |function: Function| (function.name, function.decl_span),
            ).take(i as int),
        decreases hir.functions@.len() - i,
    {
        functions.push((hir.functions[i].name, hir.functions[i].decl_span));
        i = i + 1;
        assert(functions@ =~= hir.functions@.map_values(
            |function: Function| (function.name, function.decl_span),
        ).take(i as int));
    }
    assert(functions@ =~= function_pairs);
    collect_symbols(&mut symbols, lens, &functions, SymbolKind::Function);
    let mut structs: Vec<(SymbolId, Span)> = Vec::new();
    let ghost struct_pairs = hir.structs@.map_values(
        |structure: Struct| (structure.name, structure.decl_span),
    );
    let mut j: usize = 0;
    while j < hir.structs.len()
        invariant
            j <= hir.structs@.len(),
            structs@ == hir.structs@.map_values(
                |structure: Struct| (structure.name, structure.decl_span),
            ).take(j as int),
        decreases hir.structs@.len() - j,
    {
        structs.push((hir.structs[j].name, hir.structs[j].decl_span));
        j = j + 1;
        assert(structs@ =~= hir.structs@.map_values(
            |structure: Struct| (structure.name, structure.decl_span),
        ).take(j as int));
    }
    assert(structs@ =~= struct_pairs);
    collect_symbols(&mut symbols, lens, &structs, SymbolKind::Struct);
    let mut enums: Vec<(SymbolId, Span)> = Vec::new();
    let ghost enum_pairs = hir.enums@.map_values(
        |enumeration: Enum| (enumeration.name, enumeration.decl_span),
    );
    let mut k: usize = 0;
    while k < hir.enums.len()
        invariant
            k <= hir.enums@.len(),
            enums@ == hir.enums@.map_values(
                |enumeration: Enum| (enumeration.name, enumeration.decl_span),
            ).take(k as int),
        decreases hir.enums@.len() - k,
    {
        enums.push((hir.enums[k].name, hir.enums[k].decl_span));
        k = k + 1;
        assert(enums@ =~= hir.enums@.map_values(
            |enumeration: Enum| (enumeration.name, enumeration.decl_span),
        ).take(k as int));
    }
    assert(enums@ =~= enum_pairs);
    collect_symbols(&mut symbols, lens, &enums, SymbolKind::Enum);
    let mut constants: Vec<(SymbolId, Span)> = Vec::new();
    let ghost constant_pairs = hir.constants@.map_values(
        |constant: &Constant| (constant.name, constant.decl_span),
    );
    let mut m: usize = 0;
    while m < hir.constants.len()
        invariant
            m <= hir.constants@.len(),
            constants@ == hir.constants@.map_values(
                |constant: &Constant| (constant.name, constant.decl_span),
            ).take(m as int),
        decreases hir.constants@.len() - m,
    {
        constants.push((hir.constants[m].name, hir.constants[m].decl_span));
        m = m + 1;
        assert(constants@ =~= hir.constants@.map_values(
            |constant: &Constant| (constant.name, constant.decl_span),
        ).take(m as int));
    }
    assert(constants@ =~= constant_pairs);
    collect_symbols(&mut symbols, lens, &constants, SymbolKind::Constant);
    symbols
}

fn strip(symbols: Vec<(Span, DocumentSymbol)>) -> (stripped: Vec<DocumentSymbol>)
    ensures
        symbol_views(stripped@) == seconds(outline_views(symbols@)),
{
    let mut rest = symbols;
    let mut flipped: Vec<DocumentSymbol> = Vec::new();
    let ghost n = symbols@.len() as int;
    while rest.len() > 0
        invariant
            n == symbols@.len(),
            rest@.len() + flipped@.len() == n,
            rest@ == symbols@.take(rest@.len() as int),
            forall|k: int| 0 <= k < flipped@.len() ==> flipped@[k] == symbols@[n - 1 - k].1,
        decreases rest@.len(),
    {
        match rest.pop() {
            Some(item) => {
                flipped.push(item.1);
                assert(rest@ =~= symbols@.take(rest@.len() as int));
            },
            None => {},
        }
    }
    let mut stripped: Vec<DocumentSymbol> = Vec::new();
    while flipped.len() > 0
        invariant
            n == symbols@.len(),
            stripped@.len() + flipped@.len() == n,
            forall|k: int| 0 <= k < flipped@.len() ==> flipped@[k] == symbols@[n - 1 - k].1,
            forall|k: int| 0 <= k < stripped@.len() ==> stripped@[k] == symbols@[k].1,
        decreases flipped@.len(),
    {
        match flipped.pop() {
            Some(item) => stripped.push(item),
            None => {},
        }
    }
    assert(symbol_views(stripped@) =~= seconds(outline_views(symbols@)));
    stripped
}

/// What an editor shows of a lowered program.
pub fn walk_hir<'h>(
    hir: &Hir<'h>,
    map: &SourceMap,
    modules: &Vec<String>,
    floats: &Vec<(u64, String)>,
) -> (analysis: SemanticAnalysis)
    ensures
        analysis@ == (Lens { hir, map, modules, floats })@.findings(),
{
    let lens = Lens { hir, map, modules, floats };
    let mut walker = Walker {
        lens,
        hover: Vec::new(),
        defs: std::collections::HashMap::new(),
        hints: Vec::new(),
    };
    assert(walker@.hover =~= Seq::empty());
    assert(walker@.hints =~= Seq::empty());
    assert(walker@.defs =~= Map::empty());
    walker.functions();
    walker.declarations();
    let Walker { lens: _, hover, defs, hints } = walker;
    let hover_types = sort_by_start(hover);
    let symbols = outline_symbols(&lens);
    let by_place = sort_by_start(symbols);
    proof {
        lemma_sorted_views(hover@, |info: HoverInfo| info@);
        assert(hover_views(hover@) =~= hover@.map_values(
            |item: (Span, HoverInfo)| (item.0, (|info: HoverInfo| info@)(item.1)),
        ));
        assert(hover_views(hover_types@) =~= hover_types@.map_values(
            |item: (Span, HoverInfo)| (item.0, (|info: HoverInfo| info@)(item.1)),
        ));
        lemma_sorted_views(symbols@, |symbol: DocumentSymbol| symbol@);
        assert(outline_views(symbols@) =~= symbols@.map_values(
            |item: (Span, DocumentSymbol)| (item.0, (|symbol: DocumentSymbol| symbol@)(item.1)),
        ));
        assert(outline_views(by_place@) =~= by_place@.map_values(
            |item: (Span, DocumentSymbol)| (item.0, (|symbol: DocumentSymbol| symbol@)(item.1)),
        ));
    }
    let analysis = SemanticAnalysis {
        diagnostics: Vec::new(),
        hover_types,
        goto_definitions: defs,
        inlay_hints: hints,
        document_symbols: strip(by_place),
        source_map: SourceMap::new(),
        ok: true,
    };
    assert(analysis@.diagnostics =~= Seq::empty());
    analysis
}

/// The texts that stand for files, of each path the last.
pub open spec fn overlay_map(items: Seq<(String, String)>) -> Map<Seq<char>, Seq<char>>
    decreases items.len(),
{
    if items.len() == 0 {
        Map::empty()
    } else {
        overlay_map(items.drop_last()).insert(items.last().0@, items.last().1@)
    }
}

/// What to analyse: the program that starts in a file, with some files replaced by texts.
#[derive(Debug)]
pub struct Analysis {
    pub entry: String,
    pub overlays: Vec<(String, String)>,
}

impl Analysis {
    /// The texts that stand for files.
    pub open spec fn overlaid(self) -> Map<Seq<char>, Seq<char>> {
        overlay_map(self.overlays@)
    }

    /// An analysis of the program that starts in the given file.
    pub fn new(entry: String) -> (analysis: Analysis)
        ensures
            analysis.entry == entry,
            analysis.overlaid() == Map::<Seq<char>, Seq<char>>::empty(),
    {
        Analysis { entry, overlays: Vec::new() }
    }

    /// Lets a text, such as an unsaved buffer, stand for a file.
    pub fn with_overlay(self, path: String, content: String) -> (analysis: Analysis)
        ensures
            analysis.entry == self.entry,
            analysis.overlaid() == self.overlaid().insert(path@, content@),
    {
        let mut overlays = self.overlays;
        overlays.push((path, content));
        assert(overlays@.drop_last() =~= self.overlays@);
        Analysis { entry: self.entry, overlays }
    }

    /// Lets several texts stand for files at once.
    pub fn with_overlays(self, overlays: Vec<(String, String)>) -> (analysis: Analysis)
        ensures
            analysis.entry == self.entry,
            analysis.overlaid() == self.overlaid().union_prefer_right(overlay_map(overlays@)),
    {
        let mut all = self.overlays;
        let mut added = overlays;
        proof {
            lemma_overlays_appended(self.overlays@, overlays@);
        }
        all.append(&mut added);
        Analysis { entry: self.entry, overlays: all }
    }

    /// The text that stands for a file.
    pub fn overlay(&self, path: &str) -> (content: Option<&str>)
        ensures
            match content {
                Some(content) => self.overlaid().contains_key(path@) && self.overlaid()[path@]
                    == content@,
                None => !self.overlaid().contains_key(path@),
            },
    {
        let ghost all = self.overlays@;
        let mut i: usize = self.overlays.len();
        assert(all.take(i as int) =~= all);
        while i > 0
            invariant
                i <= self.overlays@.len(),
                all == self.overlays@,
                self.overlaid().contains_key(path@) == overlay_map(
                    all.take(i as int),
                ).contains_key(path@),
                self.overlaid().contains_key(path@) ==> self.overlaid()[path@] == overlay_map(
                    all.take(i as int),
                )[path@],
            decreases i,
        {
            i -= 1;
            assert(all.take(i + 1).drop_last() =~= all.take(i as int));
            if text_eq(self.overlays[i].0.as_str(), path) {
                return Some(self.overlays[i].1.as_str());
            }
        }
        None
    }

    /// The outcome of an analysis: of a program that was lowered what an editor shows of it and
    /// the errors worked around, and else the errors alone.
    pub fn conclude<'h>(
        outcome: &Result<Hir<'h>, (Vec<HirError<&'h str>>, ModuleError<&'h str>)>,
        map: SourceMap,
        project: &str,
        root: &str,
        std_root: &str,
        floats: &Vec<(u64, String)>,
    ) -> (analysis: SemanticAnalysis)
        ensures
            analysis@ == (match *outcome {
                Ok(hir) => Findings {
                    diagnostics: rich_errors(error_views(hir.diagnostics@)),
                    files: map@,
                    ..Scene {
                        modules: modules_of_files(map@, project@, root@, std_root@),
                        ..(Lens { hir: &hir, map: &map, modules: arbitrary(), floats })@
                    }.findings()
                },
                Err((errors, error)) => failed_findings(
                    rich_errors(error_views(errors@)).push(
                        module_rich(
                            error@,
                            match error@.place() {
                                Some(span) => span,
                                None => no_span(),
                            },
                        ),
                    ),
                    map@,
                ),
            }),
            analysis.ok == (*outcome is Ok),
    {
        match outcome {
            Ok(hir) => {
                let modules = module_paths(&map, project, root, std_root);
                let walked = walk_hir(hir, &map, &modules, floats);
                SemanticAnalysis {
                    diagnostics: rich_list(&hir.diagnostics),
                    hover_types: walked.hover_types,
                    goto_definitions: walked.goto_definitions,
                    inlay_hints: walked.inlay_hints,
                    document_symbols: walked.document_symbols,
                    source_map: map,
                    ok: walked.ok,
                }
            },
            Err((errors, error)) => {
                let mut diagnostics = rich_list(errors);
                let ghost before = rich_views(diagnostics@);
                let span = match error.span() {
                    Some(span) => span,
                    None => Span::default(),
                };
                diagnostics.push(error.rich(span));
                assert(rich_views(diagnostics@) =~= before.push(module_rich(error@, span)));
                SemanticAnalysis::failed(diagnostics, map)
            },
        }
    }
}

impl SemanticAnalysis {
    /// An analysis that got no further than its errors.
    pub fn failed(diagnostics: Vec<RichDiagnostic>, source_map: SourceMap) -> (analysis: Self)
        ensures
            analysis@ == failed_findings(rich_views(diagnostics@), source_map@),
            !analysis.ok,
    {
        let analysis = SemanticAnalysis {
            diagnostics,
            hover_types: Vec::new(),
            goto_definitions: std::collections::HashMap::new(),
            inlay_hints: Vec::new(),
            document_symbols: Vec::new(),
            source_map,
            ok: false,
        };
        assert(analysis@.hover_types =~= Seq::empty());
        assert(analysis@.goto_definitions =~= Map::empty());
        assert(analysis@.inlay_hints =~= Seq::empty());
        assert(analysis@.document_symbols =~= Seq::empty());
        analysis
    }
}

proof fn lemma_overlays_appended(first: Seq<(String, String)>, second: Seq<(String, String)>)
    ensures
        overlay_map(first + second) == overlay_map(first).union_prefer_right(overlay_map(second)),
    decreases second.len(),
{
    if second.len() == 0 {
        assert(first + second =~= first);
        assert(overlay_map(first).union_prefer_right(overlay_map(second)) =~= overlay_map(first));
    } else {
        lemma_overlays_appended(first, second.drop_last());
        assert((first + second).drop_last() =~= first + second.drop_last());
        assert(overlay_map(first + second) =~= overlay_map(first).union_prefer_right(
            overlay_map(second),
        ));
    }
}

/// Errors in structured form.
pub open spec fn rich_errors(errors: Seq<HirError<Seq<char>>>) -> Seq<RichView> {
    errors.map_values(|error: HirError<Seq<char>>| rich_of(error.kind, error.span))
}

fn rich_list<'h>(errors: &Vec<HirError<&'h str>>) -> (list: Vec<RichDiagnostic>)
    ensures
        rich_views(list@) == rich_errors(error_views(errors@)),
{
    let ghost wanted = rich_errors(error_views(errors@));
    let mut list: Vec<RichDiagnostic> = Vec::new();
    let mut i: usize = 0;
    while i < errors.len()
        invariant
            i <= errors@.len(),
            list@.len() == i,
            wanted == rich_errors(error_views(errors@)),
            forall|j: int| 0 <= j < i ==> (#[trigger] list@[j])@ == wanted[j],
        decreases errors@.len() - i,
    {
        assert(error_views(errors@)[i as int] == errors@[i as int]@);
        list.push(errors[i].kind.rich_text(errors[i].span));
        i += 1;
    }
    assert(rich_views(list@) =~= wanted);
    list
}

/// The module path of each file.
pub open spec fn modules_of_files(
    files: Seq<FileView>,
    project: Seq<char>,
    root: Seq<char>,
    std_root: Seq<char>,
) -> Seq<Seq<char>> {
    files.map_values(|file: FileView| file_module(file.name, project, root, std_root))
}

/// The module path of each file.
pub fn module_paths(map: &SourceMap, project: &str, root: &str, std_root: &str) -> (modules: Vec<
    String,
>)
    ensures
        modules@.map_values(|module: String| module@) == modules_of_files(
            map@,
            project@,
            root@,
            std_root@,
        ),
{
    let ghost wanted = modules_of_files(map@, project@, root@, std_root@);
    let mut modules: Vec<String> = Vec::new();
    let mut i: usize = 0;
    while i < map.files.len()
        invariant
            i <= map.files@.len(),
            modules@.len() == i,
            wanted == modules_of_files(map@, project@, root@, std_root@),
            forall|j: int| 0 <= j < i ==> (#[trigger] modules@[j])@ == wanted[j],
        decreases map.files@.len() - i,
    {
        assert(map@[i as int] == map.files@[i as int]@);
        modules.push(file_module_text(map.files[i].name.as_str(), project, root, std_root));
        i += 1;
    }
    assert(modules@.map_values(|module: String| module@) =~= wanted);
    modules
}

/// Of a program that was not lowered there is nothing to show but its errors.
pub proof fn lemma_failed_findings(diagnostics: Seq<RichView>, files: Seq<FileView>)
    ensures
        !failed_findings(diagnostics, files).ok,
        failed_findings(diagnostics, files).hover_types.len() == 0,
        failed_findings(diagnostics, files).inlay_hints.len() == 0,
        failed_findings(diagnostics, files).document_symbols.len() == 0,
        failed_findings(diagnostics, files).goto_definitions.dom() == Set::<u64>::empty(),
{
    assert(failed_findings(diagnostics, files).goto_definitions.dom() =~= Set::<u64>::empty());
}

} // verus!
