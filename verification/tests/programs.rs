//! Whole programs, written as source text and lowered.

use nyx::analysis::{module_paths, span_key, walk_hir, Analysis, SemanticAnalysis};
use nyx::arena::Arena;
use nyx::ast;
use nyx::ast::{BinaryOperator, Span, Spanned, UnaryOperator};
use nyx::hir::declarations::Declarations;
use nyx::hir::body::FunctionBuilder;
use nyx::hir::error::{ComparisonInterface, ConstFnViolationKind, HirError, HirErrorKind};
use nyx::diagnostic::{AsDiagnostic, RichDiagnostic, Severity};
use nyx::hir::layout::{struct_field, type_layout};
use nyx::hir::monomorph::expand::monomorphise;
use nyx::hir::program::{lower, Hir};
use nyx::hir::scope::Scope;
use nyx::hir::tree::{
    Expression, ExpressionKind, Function, FunctionKind, Intrinsic, Literal, LocalId, PatternKind,
    Res, Statement, SyscallCode,
};
use nyx::hir::type_resolver::MAX_DEPTH;
use nyx::hir::types::{StructId, Type, TypeKind};
use nyx::module::error::ModuleError;
use nyx::module::graph::ModuleFile;
use nyx::module::loader::ModuleLoader;
use nyx::module::resolver::ModuleResolver;
use nyx::module::sources::Sources;
use nyx::source_map::SourceMap;

#[derive(Debug, Clone, PartialEq)]
enum Token {
    Word(String),
    Int(i64),
    Float(f64),
    Text(String),
    Char(char),
    Doc(String),
    Sign(&'static str),
    End,
}

const SIGNS: [&str; 37] = [
    "..=", "<<", ">>", "==", "!=", "<=", ">=", "&&", "||", "->", "::", "..", "(", ")", "{", "}",
    "[", "]", "<", ">", "=", "+", "-", "*", "/", "&", "|", "^", "!", ",", ";", ":", ".", "?", "@",
    "#", "_",
];

/// Source text into tokens with their places.
fn tokens(source: &str) -> Vec<(Token, Span)> {
    let text: Vec<char> = source.chars().collect();
    let mut out = Vec::new();
    let mut at = 0;
    while at < text.len() {
        let start = at;
        let c = text[at];
        if c.is_whitespace() {
            at += 1;
            continue;
        }
        let token = if c == '/' && text.get(at + 1) == Some(&'/') {
            let is_doc = text.get(at + 2) == Some(&'/');
            while at < text.len() && text[at] != '\n' {
                at += 1;
            }
            if !is_doc {
                continue;
            }
            let line: String = text[start + 3..at].iter().collect();
            Token::Doc(line.strip_prefix(' ').unwrap_or(&line).to_string())
        } else if c.is_ascii_alphabetic() || (c == '_' && is_word(text.get(at + 1))) {
            while is_word(text.get(at)) {
                at += 1;
            }
            Token::Word(text[start..at].iter().collect())
        } else if c.is_ascii_digit() {
            while text.get(at).is_some_and(char::is_ascii_digit) {
                at += 1;
            }
            let fraction = text.get(at + 1).is_some_and(char::is_ascii_digit);
            if text.get(at) == Some(&'.') && fraction {
                at += 1;
                while text.get(at).is_some_and(char::is_ascii_digit) {
                    at += 1;
                }
                Token::Float(text[start..at].iter().collect::<String>().parse().unwrap())
            } else {
                Token::Int(text[start..at].iter().collect::<String>().parse().unwrap())
            }
        } else if c == '"' {
            at += 1;
            while text[at] != '"' {
                at += 1;
            }
            at += 1;
            Token::Text(text[start + 1..at - 1].iter().collect())
        } else if c == '\'' {
            at += 3;
            Token::Char(text[start + 1])
        } else {
            let rest: String = text[at..].iter().take(3).collect();
            let sign = SIGNS.iter().find(|sign| rest.starts_with(**sign)).unwrap();
            at += sign.len();
            Token::Sign(sign)
        };
        out.push((token, Span { start: start as u32, end: at as u32 }));
    }
    let end = text.len() as u32;
    out.push((Token::End, Span { start: end, end }));
    out
}

fn is_word(c: Option<&char>) -> bool {
    c.is_some_and(|c| c.is_ascii_alphanumeric() || *c == '_')
}

/// Reads a program into the parsed form, in memory that is never given back.
struct Reader {
    tokens: Vec<(Token, Span)>,
    at: usize,
    arena: &'static Arena,
    struct_literals: bool,
}

fn keep<T>(value: T) -> &'static T {
    Box::leak(Box::new(value))
}

type Ast<T> = &'static Vec<T>;

impl Reader {
    fn new(source: &str) -> Reader {
        let arena: &'static Arena = Box::leak(Box::new(Arena::new()));
        Reader { tokens: tokens(source), at: 0, arena, struct_literals: true }
    }

    fn text(&self, text: &str) -> &'static str {
        self.arena.place_str(text)
    }

    fn peek(&self) -> &Token {
        &self.tokens[self.at].0
    }

    fn ahead(&self, by: usize) -> &Token {
        &self.tokens[(self.at + by).min(self.tokens.len() - 1)].0
    }

    fn here(&self) -> u32 {
        self.tokens[self.at].1.start
    }

    fn done(&self) -> u32 {
        if self.at == 0 {
            0
        } else {
            self.tokens[self.at - 1].1.end
        }
    }

    fn since(&self, start: u32) -> Span {
        Span { start, end: self.done() }
    }

    fn is(&self, sign: &str) -> bool {
        matches!(self.peek(), Token::Sign(s) if *s == sign)
    }

    fn is_word(&self, word: &str) -> bool {
        matches!(self.peek(), Token::Word(w) if w == word)
    }

    fn eat(&mut self, sign: &str) -> bool {
        if self.is(sign) {
            self.at += 1;
            true
        } else {
            false
        }
    }

    fn eat_word(&mut self, word: &str) -> bool {
        if self.is_word(word) {
            self.at += 1;
            true
        } else {
            false
        }
    }

    fn want(&mut self, sign: &str) {
        assert!(self.eat(sign), "expected {sign}, got {:?} at {}", self.peek(), self.here());
    }

    fn name(&mut self) -> &'static str {
        let name = match self.peek() {
            Token::Word(word) => word.clone(),
            Token::Sign("_") => "_".to_string(),
            other => panic!("expected a name, got {other:?} at {}", self.here()),
        };
        self.at += 1;
        self.text(&name)
    }

    fn program(&mut self) -> Ast<ast::Statement<'static>> {
        let mut statements = Vec::new();
        while *self.peek() != Token::End {
            statements.push(self.statement());
        }
        keep(statements)
    }

    fn docs(&mut self) -> Ast<&'static str> {
        let mut lines = Vec::new();
        while let Token::Doc(line) = self.peek().clone() {
            lines.push(self.text(&line));
            self.at += 1;
        }
        keep(lines)
    }

    fn starts_item(&self) -> bool {
        match self.peek() {
            Token::Doc(_) => true,
            Token::Word(word) => matches!(
                word.as_str(),
                "fn" | "pub" | "struct" | "enum" | "interface" | "impl" | "const" | "use"
            ),
            _ => false,
        }
    }

    fn item(&mut self) -> ast::Item<'static> {
        let docs = self.docs();
        let start = self.here();
        let is_pub = self.eat_word("pub");
        let kind = if self.is_word("fn") || self.is_function_ahead() {
            ast::ItemKind::Fn(keep(self.function(start, is_pub, None)))
        } else if self.eat_word("const") {
            ast::ItemKind::Const(keep(self.constant(start, is_pub)))
        } else if self.eat_word("struct") {
            ast::ItemKind::Struct(keep(self.structure(start, is_pub)))
        } else if self.eat_word("enum") {
            ast::ItemKind::Enum(keep(self.enumeration(start, is_pub)))
        } else if self.eat_word("interface") {
            ast::ItemKind::Interface(keep(self.interface(start, is_pub)))
        } else if self.eat_word("impl") {
            ast::ItemKind::Impl(keep(self.implementation(start)))
        } else if self.eat_word("use") {
            let mut path = vec![self.name()];
            let mut items = Vec::new();
            while self.eat("::") {
                if self.eat("{") {
                    while !self.eat("}") {
                        let start = self.here();
                        let value = self.name();
                        items.push(Spanned { value, span: self.since(start) });
                        self.eat(",");
                    }
                } else {
                    path.push(self.name());
                }
            }
            self.want(";");
            let span = self.since(start);
            ast::ItemKind::Use(keep(ast::UseDecl { path: keep(path), items: keep(items), span }))
        } else {
            panic!("expected an item, got {:?}", self.peek())
        };
        ast::Item { docs, kind }
    }

    fn is_function_ahead(&self) -> bool {
        self.is_word("const") && matches!(self.ahead(1), Token::Word(w) if w == "fn")
    }

    fn generics(&mut self) -> Ast<ast::GenericBound<'static>> {
        let mut generics = Vec::new();
        if self.eat("<") {
            while !self.eat(">") {
                let name = self.name();
                let mut bounds = Vec::new();
                if self.eat(":") {
                    bounds.push(self.typ());
                    while self.eat("+") {
                        bounds.push(self.typ());
                    }
                }
                generics.push(ast::GenericBound { name, bounds: keep(bounds) });
                self.eat(",");
            }
        }
        keep(generics)
    }

    fn params(&mut self) -> (Option<ast::Receiver>, Ast<ast::Parameter<'static>>) {
        let mut receiver = None;
        let mut params = Vec::new();
        self.want("(");
        while !self.eat(")") {
            let start = self.here();
            if self.eat("&") {
                let mutable = self.eat_word("mut");
                assert!(self.eat_word("self"));
                receiver = Some(ast::Receiver { mutable, span: self.since(start) });
            } else {
                let mutable = self.eat_word("mut");
                let name = self.name();
                self.want(":");
                let typ = self.typ();
                params.push(ast::Parameter { name, typ, mutable, span: self.since(start) });
            }
            self.eat(",");
        }
        (receiver, keep(params))
    }

    fn function(
        &mut self,
        start: u32,
        is_pub: bool,
        impl_type: Option<&'static str>,
    ) -> ast::Function<'static> {
        let is_const = self.eat_word("const");
        assert!(self.eat_word("fn"));
        let name = self.name();
        let generics = self.generics();
        let (receiver, params) = self.params();
        let return_type = if self.eat(":") { Some(self.typ()) } else { None };
        let body = self.block();
        ast::Function {
            name,
            generics,
            receiver,
            params,
            return_type,
            body,
            impl_type,
            is_const,
            is_pub,
            inline: false,
            span: self.since(start),
        }
    }

    fn constant(&mut self, start: u32, is_pub: bool) -> ast::Const<'static> {
        let name = self.name();
        self.want(":");
        let typ = self.typ();
        self.want("=");
        let value = self.expr();
        self.want(";");
        ast::Const { name, typ, value, is_pub, span: self.since(start) }
    }

    fn structure(&mut self, start: u32, is_pub: bool) -> ast::Struct<'static> {
        let name = self.name();
        let generics = self.generics();
        let mut fields = Vec::new();
        self.want("{");
        while !self.eat("}") {
            let start = self.here();
            let name = self.name();
            self.want(":");
            let typ = self.typ();
            fields.push(ast::Field { name, typ, span: self.since(start) });
            self.eat(",");
        }
        let repr = self.representation();
        let span = self.since(start);
        ast::Struct { name, generics, fields: keep(fields), repr, is_pub, span }
    }

    fn representation(&mut self) -> ast::StructRepr {
        let mut repr = ast::StructRepr { kind: ast::StructReprKind::Default, align: None };
        if self.eat_word("as") {
            repr.kind = if self.name() == "packed" {
                ast::StructReprKind::Packed
            } else {
                ast::StructReprKind::Extern
            };
            if self.eat(",") {
                assert!(self.eat_word("align"));
                self.want("(");
                if let Token::Int(align) = *self.peek() {
                    repr.align = Some(align as u32);
                }
                self.at += 1;
                self.want(")");
            }
        }
        repr
    }

    fn enumeration(&mut self, start: u32, is_pub: bool) -> ast::Enum<'static> {
        let name = self.name();
        let generics = self.generics();
        let mut variants = Vec::new();
        self.want("{");
        while !self.eat("}") {
            let start = self.here();
            let name = self.name();
            let mut payload = None;
            if self.eat("(") {
                payload = Some(self.typ());
                self.want(")");
            }
            let mut value = None;
            if self.eat("=") {
                let negative = self.eat("-");
                if let Token::Int(number) = *self.peek() {
                    value = Some(if negative { -number } else { number });
                }
                self.at += 1;
            }
            variants.push(ast::EnumVariant { name, value, payload, span: self.since(start) });
            self.eat(",");
        }
        let repr = if self.eat_word("as") { Some(self.typ()) } else { None };
        let span = self.since(start);
        ast::Enum { name, generics, repr, variants: keep(variants), is_pub, span }
    }

    fn interface(&mut self, start: u32, is_pub: bool) -> ast::Interface<'static> {
        let name = self.name();
        let generics = self.generics();
        let mut superinterfaces = Vec::new();
        if self.eat(":") {
            superinterfaces.push(self.name());
            while self.eat("+") {
                superinterfaces.push(self.name());
            }
        }
        let mut methods = Vec::new();
        let mut member_docs = Vec::new();
        self.want("{");
        while !self.eat("}") {
            let lines = self.docs();
            let start = self.here();
            assert!(self.eat_word("fn"));
            let name = self.name();
            let generics = self.generics();
            let (receiver, params) = self.params();
            let return_type = if self.eat(":") { Some(self.typ()) } else { None };
            let default = if self.eat(";") { None } else { Some(self.block()) };
            let span = self.since(start);
            member_docs.push(ast::MemberDocs { span, lines });
            methods.push(ast::InterfaceMethod {
                name,
                generics,
                receiver,
                params,
                return_type,
                default,
                span,
            });
        }
        ast::Interface {
            name,
            generics,
            superinterfaces: keep(superinterfaces),
            methods: keep(methods),
            member_docs: keep(member_docs),
            is_pub,
            span: self.since(start),
        }
    }

    fn implementation(&mut self, start: u32) -> ast::Impl<'static> {
        let receiver_start = self.here();
        let name = self.name();
        let generics = self.generics();
        let value = match ast::Type::primitive(name) {
            Some(primitive) => primitive,
            None if generics.is_empty() => ast::Type::Named(name),
            None => {
                let span = self.since(receiver_start);
                let args = generics
                    .iter()
                    .map(|g| Spanned { value: ast::Type::Named(g.name), span })
                    .collect();
                ast::Type::Generic(name, keep(args))
            },
        };
        let receiver = Spanned { value, span: self.since(receiver_start) };
        let mut interface = None;
        let mut interface_type = None;
        if self.eat_word("with") {
            let typ = self.typ();
            interface = match typ.value {
                ast::Type::Named(name) | ast::Type::Generic(name, _) => Some(name),
                _ => None,
            };
            interface_type = Some(typ);
        }
        let mut methods: Vec<&'static ast::Function<'static>> = Vec::new();
        let mut constants = Vec::new();
        let mut member_docs = Vec::new();
        self.want("{");
        while !self.eat("}") {
            let lines = self.docs();
            let start = self.here();
            let is_pub = self.eat_word("pub");
            if self.is_word("fn") || self.is_function_ahead() {
                methods.push(keep(self.function(start, is_pub, Some(name))));
            } else {
                assert!(self.eat_word("const"));
                constants.push(self.constant(start, is_pub));
            }
            member_docs.push(ast::MemberDocs { span: self.since(start), lines });
        }
        ast::Impl {
            name,
            generics,
            receiver,
            interface,
            interface_type,
            methods: keep(methods).as_slice(),
            constants: keep(constants),
            member_docs: keep(member_docs),
            span: self.since(start),
        }
    }

    fn typ(&mut self) -> Spanned<ast::Type<'static>> {
        let start = self.here();
        let value = self.bare_type();
        Spanned { value, span: self.since(start) }
    }

    fn bare_type(&mut self) -> ast::Type<'static> {
        if self.eat("&") {
            let mutable = self.eat_word("mut");
            if self.eat("[") {
                let element = self.bare_type();
                self.want("]");
                return ast::Type::Slice(keep(element), mutable);
            }
            if self.is_word("str") {
                self.at += 1;
                return ast::Type::Str;
            }
            let target = self.bare_type();
            if matches!(target, ast::Type::SelfType) && !mutable {
                return ast::Type::RefSelf;
            }
            return ast::Type::Ref(keep(target), mutable);
        }
        if self.eat("[") {
            let element = self.bare_type();
            self.want(";");
            let count = match *self.peek() {
                Token::Int(count) => count as u64,
                ref other => panic!("expected a length, got {other:?}"),
            };
            self.at += 1;
            self.want("]");
            return ast::Type::Array(keep(element), count);
        }
        let name = self.name();
        if name == "Self" {
            return ast::Type::SelfType;
        }
        if let Some(primitive) = ast::Type::primitive(name) {
            return primitive;
        }
        if self.is("<") {
            let args = self.type_args();
            return ast::Type::Generic(name, args);
        }
        ast::Type::Named(name)
    }

    fn type_args(&mut self) -> Ast<Spanned<ast::Type<'static>>> {
        let mut args = Vec::new();
        self.want("<");
        while !self.eat(">") {
            args.push(self.typ());
            self.eat(",");
        }
        keep(args)
    }

    fn block(&mut self) -> ast::Block<'static> {
        let start = self.here();
        self.want("{");
        let outer = self.struct_literals;
        self.struct_literals = true;
        let mut statements = Vec::new();
        while !self.eat("}") {
            statements.push(self.statement());
        }
        self.struct_literals = outer;
        ast::Block { statements: keep(statements), span: self.since(start) }
    }

    fn condition(&mut self) -> ast::Expression<'static> {
        let outer = self.struct_literals;
        self.struct_literals = false;
        let condition = self.expr();
        self.struct_literals = outer;
        condition
    }

    fn statement(&mut self) -> ast::Statement<'static> {
        if self.starts_item() {
            return ast::Statement::Item(self.item());
        }
        let start = self.here();
        if self.is("{") {
            return ast::Statement::Block(self.block());
        }
        if self.eat_word("let") {
            let mutable = self.eat_word("mut");
            let name_start = self.here();
            let name = self.name();
            let name_span = self.since(name_start);
            let typ = if self.eat(":") { Some(self.typ()) } else { None };
            let value = if self.eat("=") { Some(self.expr()) } else { None };
            self.want(";");
            let span = self.since(start);
            return ast::Statement::Let(ast::Let { name, name_span, typ, value, mutable, span });
        }
        if self.eat_word("return") {
            let value = if self.is(";") { None } else { Some(self.expr()) };
            self.want(";");
            return ast::Statement::Return(ast::Return { value, span: self.since(start) });
        }
        if self.eat_word("break") {
            self.want(";");
            return ast::Statement::Break(self.since(start));
        }
        if self.eat_word("continue") {
            self.want(";");
            return ast::Statement::Continue(self.since(start));
        }
        if self.is_word("if") {
            return ast::Statement::If(self.branch());
        }
        if self.eat_word("while") {
            let condition = self.condition();
            let body = self.block();
            let span = self.since(start);
            return ast::Statement::While(ast::While { condition, body, span });
        }
        if self.eat_word("loop") {
            let header = self.loop_header();
            let body = self.block();
            let span = self.since(start);
            return ast::Statement::Loop(ast::Loop { header, body, span });
        }
        if self.eat_word("match") {
            let scrutinee = self.condition();
            let mut arms = Vec::new();
            self.want("{");
            while !self.eat("}") {
                arms.push(self.arm());
                self.eat(",");
            }
            let span = self.since(start);
            return ast::Statement::Match(ast::Match { scrutinee, arms: keep(arms), span });
        }
        let expr = self.expr();
        let closed = self.eat(";");
        ast::Statement::Expr(expr, closed)
    }

    fn branch(&mut self) -> ast::If<'static> {
        let start = self.here();
        assert!(self.eat_word("if"));
        let condition = self.condition();
        let then_branch = if self.is("{") {
            self.block()
        } else {
            let start = self.here();
            let statements = keep(vec![self.statement()]);
            ast::Block { statements, span: self.since(start) }
        };
        let mut else_branch = None;
        if self.eat_word("else") {
            let branch = if self.is_word("if") {
                ast::Else::If(self.branch())
            } else {
                ast::Else::Block(self.block())
            };
            else_branch = Some(keep(branch));
        }
        ast::If { condition, then_branch, else_branch, span: self.since(start) }
    }

    fn loop_header(&mut self) -> ast::LoopHeader<'static> {
        if self.is("{") {
            return ast::LoopHeader::Infinite;
        }
        let mut binding = None;
        if matches!(self.ahead(1), Token::Word(word) if word == "in") {
            let start = self.here();
            let name = self.name();
            binding = Some(Spanned { value: name, span: self.since(start) });
            self.at += 1;
        }
        let start = self.condition();
        let inclusive = self.eat("..=");
        if inclusive || self.eat("..") {
            let end = self.condition();
            return ast::LoopHeader::Range { binding, start, end, inclusive };
        }
        ast::LoopHeader::Iterable { binding: binding.unwrap(), iterable: start }
    }

    fn arm(&mut self) -> ast::Arm<'static> {
        let start = self.here();
        let pattern = self.pattern();
        let guard = if self.eat_word("if") { Some(self.expr()) } else { None };
        self.want("->");
        let body = self.expr();
        ast::Arm { pattern, guard, body, span: self.since(start) }
    }

    fn pattern(&mut self) -> Spanned<ast::Pattern<'static>> {
        let start = self.here();
        let first = self.simple_pattern();
        if !self.is("|") {
            return first;
        }
        let mut patterns = vec![first];
        while self.eat("|") {
            patterns.push(self.simple_pattern());
        }
        Spanned { value: ast::Pattern::Or(keep(patterns)), span: self.since(start) }
    }

    fn simple_pattern(&mut self) -> Spanned<ast::Pattern<'static>> {
        let start = self.here();
        let value = match self.peek().clone() {
            Token::Sign("_") => {
                self.at += 1;
                ast::Pattern::Wildcard
            },
            Token::Int(number) => {
                self.at += 1;
                ast::Pattern::Literal(ast::PatternLit::Int(number))
            },
            Token::Float(number) => {
                self.at += 1;
                ast::Pattern::Literal(ast::PatternLit::Float(number.to_bits()))
            },
            Token::Char(c) => {
                self.at += 1;
                ast::Pattern::Literal(ast::PatternLit::Char(c))
            },
            Token::Word(word) if word == "true" || word == "false" => {
                self.at += 1;
                ast::Pattern::Literal(ast::PatternLit::Bool(word == "true"))
            },
            _ => {
                let mut name = self.name();
                let mut qualifier = None;
                if self.eat("::") {
                    qualifier = Some(name);
                    name = self.name();
                }
                let mut sub = None;
                if self.eat("(") {
                    sub = Some(keep(self.pattern()));
                    self.want(")");
                }
                if qualifier.is_none() && sub.is_none() {
                    ast::Pattern::Ident(name)
                } else {
                    ast::Pattern::Variant { qualifier, name, sub }
                }
            },
        };
        Spanned { value, span: self.since(start) }
    }

    fn expr(&mut self) -> ast::Expression<'static> {
        let start = self.here();
        let target = self.binary(0);
        if self.is("=") {
            self.at += 1;
            let value = self.expr();
            return ast::Expression::Assignment(ast::Assignment {
                target: keep(target),
                value: keep(value),
                span: self.since(start),
            });
        }
        target
    }

    fn operator(&self) -> Option<(BinaryOperator, u32)> {
        let Token::Sign(sign) = self.peek() else {
            return None;
        };
        Some(match *sign {
            "||" => (BinaryOperator::Or, 1),
            "&&" => (BinaryOperator::And, 2),
            "==" => (BinaryOperator::Eq, 3),
            "!=" => (BinaryOperator::Ne, 3),
            "<" => (BinaryOperator::Lt, 4),
            "<=" => (BinaryOperator::LtEq, 4),
            ">" => (BinaryOperator::Gt, 4),
            ">=" => (BinaryOperator::GtEq, 4),
            "|" => (BinaryOperator::BitOr, 5),
            "^" => (BinaryOperator::BitXor, 6),
            "&" => (BinaryOperator::BitAnd, 7),
            "<<" => (BinaryOperator::Shl, 8),
            ">>" => (BinaryOperator::Shr, 8),
            "+" => (BinaryOperator::Add, 9),
            "-" => (BinaryOperator::Sub, 9),
            "*" => (BinaryOperator::Mul, 10),
            "/" => (BinaryOperator::Div, 10),
            _ => return None,
        })
    }

    fn binary(&mut self, level: u32) -> ast::Expression<'static> {
        let start = self.here();
        let mut left = self.cast();
        while let Some((operator, strength)) = self.operator() {
            if strength <= level {
                break;
            }
            self.at += 1;
            let right = self.binary(strength);
            left = ast::Expression::Binary(ast::Binary {
                left: keep(left),
                operator,
                right: keep(right),
                span: self.since(start),
            });
        }
        left
    }

    fn cast(&mut self) -> ast::Expression<'static> {
        let start = self.here();
        let mut expr = self.unary();
        while self.eat_word("as") {
            let target_type = self.typ();
            expr = ast::Expression::Cast(ast::Cast {
                expr: keep(expr),
                target_type,
                span: self.since(start),
            });
        }
        expr
    }

    fn unary(&mut self) -> ast::Expression<'static> {
        let start = self.here();
        let operator = if self.eat("-") {
            UnaryOperator::Neg
        } else if self.eat("!") {
            UnaryOperator::Not
        } else if self.eat("*") {
            UnaryOperator::Deref
        } else if self.eat("&") {
            if self.eat_word("mut") {
                UnaryOperator::RefMut
            } else {
                UnaryOperator::Ref
            }
        } else {
            return self.postfix();
        };
        let expr = self.unary();
        ast::Expression::Unary(ast::Unary {
            operator,
            expr: keep(expr),
            span: self.since(start),
        })
    }

    fn args(&mut self) -> Ast<ast::Expression<'static>> {
        let outer = self.struct_literals;
        self.struct_literals = true;
        let mut args = Vec::new();
        self.want("(");
        while !self.eat(")") {
            args.push(self.expr());
            self.eat(",");
        }
        self.struct_literals = outer;
        keep(args)
    }

    fn no_args(&self) -> Ast<Spanned<ast::Type<'static>>> {
        keep(Vec::new())
    }

    fn postfix(&mut self) -> ast::Expression<'static> {
        let start = self.here();
        let mut expr = self.primary();
        loop {
            if self.eat(".") {
                let field = self.name();
                let expr_ref = keep(expr);
                expr = ast::Expression::Field(ast::FieldAccess {
                    expr: expr_ref,
                    field,
                    span: self.since(start),
                });
            } else if self.is("(") {
                let args = self.args();
                expr = ast::Expression::Call(ast::Call {
                    callee: keep(expr),
                    args,
                    type_args: self.no_args(),
                    span: self.since(start),
                });
            } else if self.eat("[") {
                let index = self.expr();
                self.want("]");
                expr = ast::Expression::Index(ast::IndexAccess {
                    base: keep(expr),
                    index: keep(index),
                    span: self.since(start),
                });
            } else {
                return expr;
            }
        }
    }

    fn fields(&mut self) -> Ast<ast::FieldInit<'static>> {
        let mut fields = Vec::new();
        self.want("{");
        while !self.eat("}") {
            let start = self.here();
            let name = self.name();
            self.want(":");
            let value = self.expr();
            fields.push(ast::FieldInit { name, value, span: self.since(start) });
            self.eat(",");
        }
        keep(fields)
    }

    fn primary(&mut self) -> ast::Expression<'static> {
        let start = self.here();
        match self.peek().clone() {
            Token::Int(number) => {
                self.at += 1;
                ast::Expression::Integer(number, self.since(start))
            },
            Token::Float(number) => {
                self.at += 1;
                ast::Expression::Float(number.to_bits(), self.since(start))
            },
            Token::Text(text) => {
                self.at += 1;
                ast::Expression::String(self.text(&text), self.since(start))
            },
            Token::Char(c) => {
                self.at += 1;
                ast::Expression::Char(c, self.since(start))
            },
            Token::Sign("(") => {
                self.at += 1;
                let expr = self.expr();
                self.want(")");
                expr
            },
            Token::Sign("[") => self.array(start),
            Token::Word(word) if word == "true" || word == "false" => {
                self.at += 1;
                ast::Expression::Bool(word == "true", self.since(start))
            },
            Token::Word(_) | Token::Sign("_") => self.named(start),
            other => panic!("expected an expression, got {other:?} at {start}"),
        }
    }

    fn array(&mut self, start: u32) -> ast::Expression<'static> {
        self.want("[");
        let mut elements = Vec::new();
        while !self.eat("]") {
            elements.push(self.expr());
            if self.eat(";") {
                let count = match *self.peek() {
                    Token::Int(count) => count as u64,
                    ref other => panic!("expected a count, got {other:?}"),
                };
                self.at += 1;
                self.want("]");
                return ast::Expression::ArrayRepeat(ast::ArrayRepeat {
                    value: keep(elements[0]),
                    count,
                    span: self.since(start),
                });
            }
            self.eat(",");
        }
        let span = self.since(start);
        ast::Expression::Array(ast::ArrayLiteral { elements: keep(elements), span })
    }

    /// A question about a type, such as `size_of(i32)`.
    fn question(
        &mut self,
        start: u32,
        qualifier: Option<&'static str>,
        name: &str,
    ) -> Option<ast::Expression<'static>> {
        let kind = match name {
            "size_of" => ast::TypeIntrinsicKind::SizeOf,
            "align_of" => ast::TypeIntrinsicKind::AlignOf,
            _ => return None,
        };
        self.want("(");
        let typ = self.typ();
        self.want(")");
        let span = self.since(start);
        Some(ast::Expression::TypeIntrinsic(ast::TypeIntrinsic { kind, qualifier, typ, span }))
    }

    fn named(&mut self, start: u32) -> ast::Expression<'static> {
        let name = self.name();
        if let Some(question) = self.question(start, None, name) {
            return question;
        }
        if self.eat("::") {
            if self.is("<") {
                let type_args = self.type_args();
                if self.is("{") {
                    let fields = self.fields();
                    let span = self.since(start);
                    return ast::Expression::Struct(ast::StructLiteral {
                        name,
                        fields,
                        type_args,
                        span,
                    });
                }
                let callee_span = Span { start, end: start + name.len() as u32 };
                let callee = keep(ast::Expression::Identifier(name, callee_span));
                let args = self.args();
                let span = self.since(start);
                return ast::Expression::Call(ast::Call { callee, args, type_args, span });
            }
            let member = self.name();
            if let Some(question) = self.question(start, Some(name), member) {
                return question;
            }
            let mut type_args = self.no_args();
            if self.is("::") {
                self.at += 1;
                type_args = self.type_args();
            }
            if self.is("(") {
                let args = self.args();
                return ast::Expression::QualifiedCall(ast::QualifiedCall {
                    qualifier: name,
                    name: member,
                    args,
                    type_args,
                    span: self.since(start),
                });
            }
            return ast::Expression::QualifiedName(ast::QualifiedName {
                qualifier: name,
                name: member,
                span: self.since(start),
            });
        }
        if self.struct_literals && self.is("{") {
            let fields = self.fields();
            return ast::Expression::Struct(ast::StructLiteral {
                name,
                fields,
                type_args: self.no_args(),
                span: self.since(start),
            });
        }
        ast::Expression::Identifier(name, self.since(start))
    }
}

/// The statements of a file whose spans start from `base`.
fn parse_at(source: &str, base: u32) -> &'static Vec<ast::Statement<'static>> {
    let mut reader = Reader::new(source);
    for (_, span) in reader.tokens.iter_mut() {
        *span = Span { start: span.start + base, end: span.end + base };
    }
    reader.program()
}

/// The statements of a program.
fn parse(source: &str) -> &'static Vec<ast::Statement<'static>> {
    Reader::new(source).program()
}

fn arena() -> &'static Arena {
    Box::leak(Box::new(Arena::new()))
}

/// The lowered program, or what is wrong with it.
fn lowered(
    statements: &'static Vec<ast::Statement<'static>>,
) -> Result<Hir<'static>, HirError<&'static str>> {
    lower(statements, arena())
}

fn lower_ok(source: &str) -> Hir<'static> {
    match lowered(parse(source)) {
        Ok(hir) => hir,
        Err(error) => panic!("unexpected error {error:?}"),
    }
}

fn lower_err(source: &str) -> HirError<&'static str> {
    match lowered(parse(source)) {
        Ok(_) => panic!("expected an error"),
        Err(error) => error,
    }
}

/// The column of an offset in its line.
fn column(source: &str, offset: u32) -> usize {
    let before = &source[..offset as usize];
    before.len() - before.rfind('\n').map_or(0, |at| at + 1)
}

fn span_text(source: &str, span: Span) -> &str {
    &source[span.start as usize..span.end as usize]
}

fn lower_kind(source: &str) -> HirErrorKind<&'static str> {
    lower_err(source).kind
}

#[test]
fn hir_top_level_non_function() {
    let kind = lower_kind("let x: i32 = 1;");
    assert_eq!(kind, HirErrorKind::TopLevelNonFunction);
}

#[test]
fn hir_duplicate_function() {
    let kind = lower_kind(
        "fn foo(): i32 { 1 }
         fn foo(): i32 { 2 }"
    );
    assert_eq!(kind, HirErrorKind::DuplicateFunction { name: "foo" });
}

#[test]
fn hir_duplicate_method() {
    let kind = lower_kind(
        "struct Counter { value: i32 }
         impl Counter { fn get(&self): i32 { self.value } }
         impl Counter { fn get(&self): i32 { self.value } }"
    );
    assert_eq!(kind, HirErrorKind::DuplicateMethod { struct_name: "Counter", name: "get" });
}

#[test]
fn hir_undeclared_identifier() {
    let kind = lower_kind("fn main() { x + 1; }");
    assert_eq!(kind, HirErrorKind::UndeclaredIdentifier { name: "x" });
}

#[test]
fn hir_unknown_function() {
    let kind = lower_kind("fn main() { foo(); }");
    assert_eq!(kind, HirErrorKind::UnknownFunction { name: "foo" });
}

#[test]
fn hir_unknown_method() {
    let kind = lower_kind(
        "struct Point { x: i32 }
         fn main() { let p = Point { x: 1 }; p.frobnicate(); }"
    );
    assert_eq!(kind, HirErrorKind::UnknownMethod { struct_name: "Point", name: "frobnicate" });
}

#[test]
fn hir_unknown_type_in_let() {
    let kind = lower_kind("fn main() { let x: Phantom = 1; }");
    assert_eq!(kind, HirErrorKind::UnknownType { name: "Phantom" });
}

#[test]
fn hir_unknown_type_in_param() {
    let kind = lower_kind("fn foo(x: Ghost): i32 { 0 }");
    assert_eq!(kind, HirErrorKind::UnknownType { name: "Ghost" });
}

#[test]
fn hir_duplicate_struct() {
    let kind = lower_kind(
        "struct Foo { x: i32 }
         struct Foo { y: i32 }"
    );
    assert_eq!(kind, HirErrorKind::DuplicateStruct { name: "Foo" });
}

#[test]
fn hir_duplicate_field_in_struct() {
    let kind = lower_kind("struct Bad { x: i32, x: i64 }");
    assert_eq!(kind, HirErrorKind::DuplicateField { name: "x" });
}

#[test]
fn hir_duplicate_field_in_literal() {
    let kind = lower_kind(
        "struct Point { x: i32, y: i32 }
         fn main() { let p = Point { x: 1, x: 2 }; }"
    );
    assert_eq!(kind, HirErrorKind::DuplicateField { name: "x" });
}

#[test]
fn hir_invalid_field_access() {
    let kind = lower_kind(
        "struct Point { x: i32 }
         fn make(): Point { Point { x: 1 } }
         fn main(): i32 { make().x }"
    );
    assert_eq!(kind, HirErrorKind::InvalidFieldAccess);
}

#[test]
fn hir_unknown_field() {
    let kind = lower_kind(
        "struct Point { x: i32 }
         fn main() { let p = Point { x: 1 }; let _ = p.z; }"
    );
    assert_eq!(kind, HirErrorKind::UnknownField { struct_name: "Point", field: "z" });
}

#[test]
fn hir_missing_field_in_literal() {
    let kind = lower_kind(
        "struct Point { x: i32, y: i32 }
         fn main() { let p = Point { x: 1 }; }"
    );
    assert_eq!(kind, HirErrorKind::MissingField { struct_name: "Point", field: "y" });
}

#[test]
fn hir_circular_struct() {
    let kind = lower_kind(
        "struct A { b: B }
         struct B { a: A }"
    );
    assert_eq!(kind, HirErrorKind::CircularStruct { name: "A" });
}

#[test]
fn hir_arity_mismatch_too_many() {
    let kind = lower_kind(
        "fn add(a: i32, b: i32): i32 { a + b }
         fn main() { add(1, 2, 3); }"
    );
    assert_eq!(kind, HirErrorKind::ArityMismatch { name: "nyx::add", expected: 2, found: 3 });
}

#[test]
fn hir_arity_mismatch_too_few() {
    let kind = lower_kind(
        "fn add(a: i32, b: i32): i32 { a + b }
         fn main() { add(1); }"
    );
    assert_eq!(kind, HirErrorKind::ArityMismatch { name: "nyx::add", expected: 2, found: 1 });
}

#[test]
fn hir_arity_mismatch_method() {
    let kind = lower_kind(
        "struct Counter { value: i32 }
         impl Counter { fn add(&mut self, delta: i32) { self.value = self.value + delta; } }
         fn main() { let mut c = Counter { value: 0 }; c.add(1, 2); }"
    );
    assert_eq!(kind, HirErrorKind::ArityMismatch { name: "add", expected: 1, found: 2 });
}

#[test]
fn hir_duplicate_bind() {
    let kind = lower_kind(
        "fn main() {
             let x: i32 = 1;
             let x: i32 = 2;
         }"
    );
    assert_eq!(kind, HirErrorKind::DuplicateBind { name: "x" });
}

#[test]
fn hir_missing_initialiser() {
    let kind = lower_kind("fn main() { let x; }");
    assert_eq!(kind, HirErrorKind::MissingInitialiser { name: "x" });
}

#[test]
fn hir_receiver_outside_impl() {
    let kind = lower_kind("fn foo(&self): i32 { 0 }");
    assert_eq!(kind, HirErrorKind::ReceiverOutsideImpl);
}

#[test]
fn hir_type_mismatch_let_annotation() {
    let kind = lower_kind(
        "fn main() {
             let x: i32 = true;
         }"
    );
    assert_eq!(
        kind,
        HirErrorKind::TypeMismatch {
            expected: TypeKind::I32.into(),
            found: TypeKind::Bool.into()
        }
    );
}

#[test]
fn hir_type_mismatch_return_type() {
    let kind = lower_kind("fn foo(): i32 { true }");
    assert_eq!(
        kind,
        HirErrorKind::TypeMismatch {
            expected: TypeKind::I32.into(),
            found: TypeKind::Bool.into()
        }
    );
}

#[test]
fn hir_type_mismatch_if_condition() {
    let kind = lower_kind("fn main() { if 42 { } }");
    assert_eq!(
        kind,
        HirErrorKind::TypeMismatch {
            expected: TypeKind::Bool.into(),
            found: TypeKind::I32.into()
        }
    );
}

#[test]
fn hir_type_mismatch_while_condition() {
    let kind = lower_kind("fn main() { while 1 { } }");
    assert_eq!(
        kind,
        HirErrorKind::TypeMismatch {
            expected: TypeKind::Bool.into(),
            found: TypeKind::I32.into()
        }
    );
}

#[test]
fn hir_immutable_bind_variable() {
    let kind = lower_kind(
        "fn main() {
             let x: i32 = 1;
             x = 2;
         }"
    );
    assert_eq!(kind, HirErrorKind::ImmutableBind { name: "x" });
}

#[test]
fn hir_immutable_bind_field_via_shared_self() {
    let kind = lower_kind(
        "struct Counter { value: i32 }
         impl Counter { fn bad(&self) { self.value = 1; } }"
    );
    assert_eq!(kind, HirErrorKind::ImmutableBind { name: "self" });
}

#[test]
fn hir_immutable_bind_mut_method_on_immutable_var() {
    let kind = lower_kind(
        "struct Counter { value: i32 }
         impl Counter { fn inc(&mut self) { self.value = self.value + 1; } }
         fn main() {
             let c = Counter { value: 0 };
             c.inc();
         }"
    );
    assert_eq!(kind, HirErrorKind::ImmutableBind { name: "c" });
}

#[test]
fn hir_const_fn_violation() {
    let kind = lower_kind(
        "fn helper(): i32 { 42 }
         const fn bad(): i32 { helper() }"
    );
    assert!(
        matches!(
            kind,
            HirErrorKind::ConstFnViolation(ConstFnViolationKind::NonConstCall { .. })
        ),
        "got {kind:?}"
    );
    if let HirErrorKind::ConstFnViolation(ConstFnViolationKind::NonConstCall { name }) = kind {
        assert_eq!(name, "nyx::helper");
    }
}

#[test]
fn hir_duplicate_interface() {
    let kind = lower_kind(
        "interface Greet { fn hello(&self); }
         interface Greet { fn bye(&self); }"
    );
    assert_eq!(kind, HirErrorKind::DuplicateInterface { name: "Greet" });
}

#[test]
fn hir_unknown_interface_in_impl() {
    let kind = lower_kind(
        "struct Foo { x: i32 }
         impl Foo with Ghost { fn hello(&self) { } }"
    );
    assert_eq!(kind, HirErrorKind::UnknownInterface { name: "Ghost" });
}

#[test]
fn hir_unknown_interface_in_superinterface() {
    let kind = lower_kind("interface Child: NonExistent { fn method(&self); }");
    assert_eq!(kind, HirErrorKind::UnknownInterface { name: "NonExistent" });
}

#[test]
fn hir_missing_interface_method() {
    let kind = lower_kind(
        "interface Greet {
             fn hello(&self): i32;
             fn bye(&self): i32;
         }
         struct Foo { x: i32 }
         impl Foo with Greet { fn hello(&self): i32 { 1 } }"
    );
    assert_eq!(
        kind,
        HirErrorKind::MissingInterfaceMethod {
            struct_name: "Foo",
            interface_name: "Greet",
            method_name: "bye",
        }
    );
}

#[test]
fn hir_missing_superinterface_impl() {
    let kind = lower_kind(
        "interface Base { fn base(&self): i32; }
         interface Derived: Base { fn derived(&self): i32; }
         struct Foo { x: i32 }
         impl Foo with Derived { fn derived(&self): i32 { 1 } }"
    );
    assert_eq!(
        kind,
        HirErrorKind::MissingSuperinterfaceImpl {
            struct_name: "Foo",
            interface_name: "Derived",
            superinterface_name: "Base",
        }
    );
}

#[test]
fn hir_interface_signature_mismatch_return_type() {
    let kind = lower_kind(
        "interface Shape { fn area(&self): i64; }
         struct Rect { w: i32, h: i32 }
         impl Rect with Shape { fn area(&self): i32 { self.w * self.h } }"
    );
    assert!(matches!(kind, HirErrorKind::InterfaceSignatureMismatch { .. }), "got {kind:?}");
    if let HirErrorKind::InterfaceSignatureMismatch {
        struct_name,
        interface_name,
        method_name,
        ..
    } = kind
    {
        assert_eq!(struct_name, "Rect");
        assert_eq!(interface_name, "Shape");
        assert_eq!(method_name, "area");
    }
}

#[test]
fn hir_interface_signature_mismatch_extra_param() {
    let kind = lower_kind(
        "interface Namer { fn name(&self): i32; }
         struct Foo { x: i32 }
         impl Foo with Namer { fn name(&self, extra: i32): i32 { extra } }"
    );
    assert!(matches!(kind, HirErrorKind::InterfaceSignatureMismatch { .. }), "got {kind:?}");
    if let HirErrorKind::InterfaceSignatureMismatch { method_name, .. } = kind {
        assert_eq!(method_name, "name");
    }
}

#[test]
fn hir_interface_signature_mismatch_wrong_receiver_mutability() {
    let kind = lower_kind(
        "interface Mutator { fn mutate(&mut self); }
         struct Foo { x: i32 }
         impl Foo with Mutator { fn mutate(&self) { } }"
    );
    assert!(matches!(kind, HirErrorKind::InterfaceSignatureMismatch { .. }), "got {kind:?}");
}

#[test]
fn unknown_identifier() {
    let statements = parse("fn main() { x + 1; }");
    let err = lowered(statements).err().unwrap();

    assert_eq!(err.kind, HirErrorKind::UndeclaredIdentifier { name: "x" })
}

#[test]
fn missing_return() {
    let statements = parse("fn answer(): i32 {}");
    let err = lowered(statements).err().unwrap();
    assert_eq!(
        err.kind,
        HirErrorKind::MissingReturn { name: "nyx::answer", expected: TypeKind::I32.into() }
    );

    let statements = parse(r#"
            fn sign(x: i32): i32 {
                if x < 0 {
                    return -1;
                }
            }
        "#);
    let err = lowered(statements).err().unwrap();
    assert!(matches!(err.kind, HirErrorKind::MissingReturn { .. }));

    let statements = parse(r#"
            fn sign(x: i32): i32 {
                if x < 0 {
                    return -1;
                }

                1
            }
        "#);
    assert!(lowered(statements).is_ok());
}

#[test]
fn mutability() {
    let statements = parse(r#"
            fn main() {
                let x: i32 = 1;
                x = 2;
            }
        "#);

    let err = lowered(statements).err().unwrap();
    assert_eq!(err.kind, HirErrorKind::ImmutableBind { name: "x" });

    let statements = parse(r#"
            fn main() {
                let mut x: i32 = 1;
                x = 2;
            }
        "#);

    assert!(lowered(statements).is_ok());
}

#[test]
fn range_endpoints_must_be_integers() {
    let statements = parse(r#"
            fn main() {
                loop 1.0..2.0 { }
            }
        "#);

    let err = lowered(statements).err().unwrap();
    assert_eq!(err.kind, HirErrorKind::InvalidRangeType { typ: TypeKind::F64.into() })
}

#[test]
fn loop_over_inferred_array() {
    let statements = parse(r#"
            fn main(): i32 {
                let values = [2, 3, 5];
                let mut total = 0;
                loop value in values {
                    total = total + value;
                }
                total
            }
        "#);
    let hir = lowered(statements).ok().unwrap();
    assert_eq!(hir.arrays[0].element, TypeKind::I32.into());

    for (annotation, expected) in [
        ("u8", TypeKind::U8),
        ("i16", TypeKind::I16),
        ("u32", TypeKind::U32),
        ("i64", TypeKind::I64),
    ] {
        let source = format!(
            r#"
                fn main() {{
                    let values = [1, 2, 3];
                    let mut total: {annotation} = 0;
                    loop value in values {{
                        total = total + value;
                    }}
                }}
            "#
        );
        let statements = parse(&source);
        let hir = lowered(statements).ok().unwrap();
        assert_eq!(hir.arrays[0].element, expected.into(), "element should be {annotation}");
    }
}

#[test]
fn loop_control_requires_a_loop() {
    let statements = parse("fn main() { break; }");
    let err = lowered(statements).err().unwrap();

    assert_eq!(err.kind, HirErrorKind::LoopControlOutsideLoop { kind: "break" });
}

#[test]
fn bitwise_and_shifts_typechecking() {
    let source_ok = r#"
            fn main() {
                let a: i32 = 1;
                let b: i32 = 2;
                let c: i32 = a & b;
                let d: i32 = a | b;
                let e: i32 = a ^ b;
                let f: i32 = !a;
                let g: i32 = a << b;
                let h: i32 = a >> b;

                let x: bool = true;
                let y: bool = false;
                let z: bool = x & y;
                let w: bool = x | y;
                let v: bool = x ^ y;
                let u: bool = !x;
            }
        "#;
    let statements = parse(source_ok);
    assert!(lowered(statements).is_ok());

    let source_err_shift = r#"
            fn main() {
                let a: bool = true;
                let b: i32 = 2;
                let c: bool = a << b;
            }
        "#;
    let statements = parse(source_err_shift);
    let err = lowered(statements).err().unwrap();
    assert!(matches!(err.kind, HirErrorKind::TypeMismatch { .. }));

    let source_err_not = r#"
            fn main() {
                let a: f64 = 1.0;
                let b: f64 = !a;
            }
        "#;
    let statements = parse(source_err_not);
    let err = lowered(statements).err().unwrap();
    assert!(matches!(err.kind, HirErrorKind::TypeMismatch { .. }));
}

#[test]
fn if_condition_must_be_bool() {
    let statements = parse(r#"
            fn main() {
                let x: i64 = 1;
                if x { }
            }
        "#);

    let err = lowered(statements).err().unwrap();
    assert_eq!(
        err.kind,
        HirErrorKind::TypeMismatch {
            expected: TypeKind::Bool.into(),
            found: TypeKind::I64.into()
        }
    )
}

#[test]
fn duplicated_function() {
    let statements = parse(r#"
            fn foo(): i32 { 1 }
            fn foo(): i32 { 2 }
        "#);

    let err = lowered(statements).err().unwrap();

    assert_eq!(err.kind, HirErrorKind::DuplicateFunction { name: "foo" });
}

#[test]
fn arity_mismatch_too_many() {
    let statements = parse(r#"
            fn add(a: i32, b: i32): i32 { a + b }
            fn main() { add(1, 2, 3); }
        "#);

    let err = lowered(statements).err().unwrap();

    assert_eq!(
        err.kind,
        HirErrorKind::ArityMismatch { name: "nyx::add", expected: 2, found: 3 }
    );
}

#[test]
fn unknown_function() {
    let statements = parse("fn main() { foo(); }");

    let err = lowered(statements).err().unwrap();

    assert_eq!(err.kind, HirErrorKind::UnknownFunction { name: "foo" });
}

#[test]
fn type_mismatch_in_let() {
    let statements = parse(r#"
            fn add(a: i32, b: i32): i32 { a + b }
            fn main() {
                let x: i32 = add(1, 2);
                let y: bool = add(1, 2);
            }
        "#);

    let err = lowered(statements).err().unwrap();
    assert_eq!(
        err.kind,
        HirErrorKind::TypeMismatch {
            expected: TypeKind::Bool.into(),
            found: TypeKind::I32.into()
        }
    )
}

#[test]
fn type_inference_from_expr() {
    let statements = parse("fn main() { let x = 1 + 2; }");
    let hir = lowered(statements).ok().unwrap();

    let main = &hir.functions[0];
    assert_eq!(main.locals[0].typ, TypeKind::I32.into());
}

#[test]
fn top_level_non_function() {
    let statements = parse("let x: i64 = 1;");
    let err = lowered(statements).err().unwrap();

    assert_eq!(err.kind, HirErrorKind::TopLevelNonFunction)
}

#[test]
fn integer_literal_as_function_arg_typed_i64() {
    let statements = parse(r#"
            fn foo(x: i64): i64 { x }
            fn main() { foo(1); }
        "#);

    let hir = lowered(statements).ok().unwrap();

    assert_eq!(hir.functions.len(), 2);
    let foo = &hir.functions[0];
    assert_eq!(foo.return_type, TypeKind::I64.into());
    assert_eq!(foo.params.len(), 1);
    assert_eq!(foo.params[0].typ, TypeKind::I64.into());

    let main = &hir.functions[1];
    let call_id = match &main.body.statements[0] {
        Statement::Expr(expr) => *expr,
        other => panic!("expected Expr statement, got {other:?}"),
    };
    assert_eq!(main.typeck.type_of(call_id.id), TypeKind::I64.into());
    let arg = match &call_id.kind {
        ExpressionKind::Call { args, .. } => {
            assert_eq!(args.len(), 1);
            args[0]
        },
        other => panic!("expected Call expression, got {other:?}"),
    };
    assert_eq!(main.typeck.type_of(arg.id), TypeKind::I64.into());
    assert_eq!(arg.kind, 1.into());
}

#[test]
fn float_literal_defaults_to_f64() {
    let statements = parse("fn main() { let x = 3.14; }");
    let hir = lowered(statements).ok().unwrap();

    let func = &hir.functions[0];
    assert_eq!(func.locals.len(), 1);
    assert_eq!(func.locals[0].typ, TypeKind::F64.into());
}

#[test]
fn integer_literal_defaults_to_i32_in_binary_expr() {
    let statements = parse("fn main() { let x = 1 + 2; }");
    let hir = lowered(statements).ok().unwrap();

    let func = &hir.functions[0];
    assert_eq!(func.locals[0].typ, TypeKind::I32.into());

    let stmt = &func.body.statements[0];
    assert!(matches!(stmt, Statement::LetInit { id: LocalId(0), .. }));
}

#[test]
fn float_literal_widens_to_f32() {
    let statements = parse("fn main() { let x: f32 = 3.14; }");
    let hir = lowered(statements).ok().unwrap();

    let func = &hir.functions[0];
    assert_eq!(func.locals.len(), 1);
    assert_eq!(func.locals[0].typ, TypeKind::F32.into());
}

#[test]
fn mutable_assign_widens_literal() {
    let statements = parse(r#"
            fn main() {
                let mut x: i64 = 0;
                x = 99;
            }
        "#);
    let hir = lowered(statements).ok().unwrap();

    let func = &hir.functions[0];
    assert_eq!(func.locals.len(), 1);
    assert_eq!(func.locals[0].typ, TypeKind::I64.into());
    assert!(func.locals[0].mutable);

    let assign_id = match &func.body.statements[1] {
        Statement::Expr(expr) => *expr,
        other => panic!("expected Expr statement, got {other:?}"),
    };
    assert_eq!(func.typeck.type_of(assign_id.id), TypeKind::I64.into());
    let (target_id, value) = match &assign_id.kind {
        ExpressionKind::Assign { target, value } => match &target.kind {
            ExpressionKind::Local(id) => (*id, *value),
            _ => panic!("expected local assignment target"),
        },
        other => panic!("expected Assign expression, got {other:?}"),
    };

    assert_eq!(target_id, LocalId(0));
    assert_eq!(func.typeck.type_of(value.id), TypeKind::I64.into());
    assert_eq!(value.kind, 99.into());
}

#[test]
fn integer_literal_widens_in_binary_with_i64_local() {
    let statements = parse(r#"
            fn main() {
                let x: i64 = 10;
                let y = x + 1;
            }
        "#);
    let hir = lowered(statements).ok().unwrap();

    let func = &hir.functions[0];
    assert_eq!(func.locals.len(), 2);
    assert_eq!(func.locals[0].typ, TypeKind::I64.into());
    assert_eq!(func.locals[1].typ, TypeKind::I64.into());

    let y_stmt = &func.body.statements[1];
    assert!(matches!(y_stmt, Statement::LetInit { id: LocalId(1), .. }));
}

#[test]
fn new_integer_types_accepted() {
    let src = r#"
            fn bytes(a: i8, b: u8, c: i16, d: u16): i32 {
                0
            }
        "#;

    assert!(lowered(parse(src)).is_ok());
}

#[test]
fn integer_literal_widens() {
    let src = r#"
            fn main() {
                let x: i16 = 100;
                let y: u8 = 42;
            }
        "#;

    assert!(lowered(parse(src)).is_ok());
}

#[test]
fn uptr_iptr_type_resolution() {
    let src = r#"
            fn main() {
                let a: uptr = 10;
                let b: iptr = 20;
            }
        "#;

    let hir = lowered(parse(src)).ok().unwrap();
    let func = &hir.functions[0];

    assert_eq!(func.locals[0].typ, TypeKind::Uptr.into());
    assert_eq!(func.locals[1].typ, TypeKind::Iptr.into());
}

#[test]
fn uptr_iptr_literal_widening() {
    let src = r#"
            fn main() {
                let a: uptr = 100;
                let b: iptr = 200;
            }
        "#;

    let hir = lowered(parse(src)).ok().unwrap();
    let func = &hir.functions[0];

    let init_a = match &func.body.statements[0] {
        Statement::LetInit { init: e, .. } => *e,
        other => panic!("expected Let with init, got {other:?}"),
    };
    assert_eq!(func.typeck.type_of(init_a.id), TypeKind::Uptr.into());
    assert_eq!(init_a.kind, 100.into());

    let init_b = match &func.body.statements[1] {
        Statement::LetInit { init: e, .. } => *e,
        other => panic!("expected Let with init, got {other:?}"),
    };
    assert_eq!(func.typeck.type_of(init_b.id), TypeKind::Iptr.into());
    assert_eq!(init_b.kind, 200.into());
}

#[test]
fn uptr_arithmetic() {
    let src = r#"
            fn add(a: uptr, b: uptr): uptr { a + b }
        "#;

    let hir = lowered(parse(src)).ok().unwrap();
    let func = &hir.functions[0];

    assert_eq!(func.return_type, TypeKind::Uptr.into());
    assert_eq!(func.params[0].typ, TypeKind::Uptr.into());
    assert_eq!(func.params[1].typ, TypeKind::Uptr.into());
}

#[test]
fn iptr_arithmetic() {
    let src = r#"
            fn scale(base: iptr, factor: iptr): iptr { base * factor }
        "#;

    let hir = lowered(parse(src)).ok().unwrap();
    let func = &hir.functions[0];

    assert_eq!(func.return_type, TypeKind::Iptr.into());
    assert_eq!(func.params[0].typ, TypeKind::Iptr.into());
    assert_eq!(func.params[1].typ, TypeKind::Iptr.into());
}

#[test]
fn uptr_range() {
    let src = r#"
            fn triangle(limit: uptr): uptr {
                let mut acc: uptr = 0;
                loop i in 1..=limit {
                    acc = acc + i;
                }
                acc
            }
        "#;

    assert!(lowered(parse(src)).is_ok());
}

#[test]
fn uptr_iptr_mixed_type_mismatch() {
    let src = r#"
            fn main() {
                let a: uptr = 1;
                let b: iptr = a;
            }
        "#;

    let err = lowered(parse(src)).err().unwrap();
    assert_eq!(
        err.kind,
        HirErrorKind::TypeMismatch {
            expected: TypeKind::Iptr.into(),
            found: TypeKind::Uptr.into()
        }
    );
}

#[test]
fn bare_int_literal_defaults_to_i32() {
    let src = r#"
            fn main() {
                let x = 0;
                let f = 1.0;
            }
        "#;

    let hir = lowered(parse(src)).ok().unwrap();
    let func = &hir.functions[0];

    assert_eq!(func.locals[0].typ, TypeKind::I32.into(), "unconstrained integer falls back");
    assert_eq!(func.locals[1].typ, TypeKind::F64.into(), "float literal unchanged");
}

#[test]
fn int_binding_back_propagates_from_later_annotation() {
    let src = r#"
            fn main() {
                let x = 0;
                let y: i64 = x;
            }
        "#;

    let hir = lowered(parse(src)).ok().unwrap();
    let func = &hir.functions[0];

    assert_eq!(func.locals[0].typ, TypeKind::I64.into(), "use against i64 pins the literal");
    assert_eq!(func.locals[1].typ, TypeKind::I64.into());
}

#[test]
fn int_binding_conflicting_uses_report_mismatch() {
    let src = r#"
            fn main() {
                let x = 0;
                let y: u8 = x;
                let z: u32 = x;
            }
        "#;

    let err = lowered(parse(src)).err().unwrap();
    assert_eq!(
        err.kind,
        HirErrorKind::TypeMismatch {
            expected: TypeKind::U32.into(),
            found: TypeKind::U8.into()
        }
    );
}

#[test]
fn mixed_width_arithmetic_still_errors() {
    let src = r#"
            fn main() {
                let a: i32 = 1;
                let b: uptr = 2;
                let c = a + b;
            }
        "#;

    let err = lowered(parse(src)).err().unwrap();
    assert_eq!(
        err.kind,
        HirErrorKind::TypeMismatch {
            expected: TypeKind::I32.into(),
            found: TypeKind::Uptr.into()
        }
    );
}

#[test]
fn struct_fields_remain_in_source_order() {
    let src = r#"
            struct Packed {
                a: i8,
                b: i64,
                c: i32,
            }

            fn main() {
                let value: Packed = Packed { a: 1, b: 2, c: 3 };
            }
        "#;

    let hir = lowered(parse(src)).ok().unwrap();

    assert_eq!(hir.structs.len(), 1);
    let field_names: Vec<_> =
        hir.structs[0].fields.iter().map(|field| hir.symbols.get(field.name)).collect();
    assert_eq!(field_names, vec!["a", "b", "c"]);

    let func = &hir.functions[0];
    assert_eq!(func.locals[0].typ, Type::structure(StructId(0)));
}

#[test]
fn nested_struct_fields_are_resolved() {
    let src = r#"
            struct Inner {
                n: i32,
            }

            struct Outer {
                inner: Inner,
                flag: bool,
            }

            fn main() {
                let value = Outer {
                    inner: Inner { n: 1 },
                    flag: true,
                };
            }
        "#;

    let hir = lowered(parse(src)).ok().unwrap();
    assert_eq!(hir.structs.len(), 2);

    let outer_inner = hir.structs[1]
        .fields
        .iter()
        .find(|field| hir.symbols.get(field.name) == "inner")
        .unwrap();
    assert_eq!(outer_inner.typ, Type::structure(StructId(0)));
}

#[test]
fn enum_payload_can_reference_a_later_struct() {
    let src = r#"
            enum Msg {
                ChangeColour(Colour),
            }

            struct Colour {
                r: u8,
                g: u8,
                b: u8,
            }
        "#;

    let hir = lowered(parse(src)).ok().unwrap();
    assert_eq!(hir.enums[0].variants[0].payload, Some(Type::structure(StructId(0))));
}

#[test]
fn circular_structs_are_rejected() {
    let src = r#"
            struct A {
                b: B,
            }

            struct B {
                a: A,
            }

            fn main() { }
        "#;

    let err = lowered(parse(src)).err().unwrap();
    assert_eq!(err.kind, HirErrorKind::CircularStruct { name: "A" });
}

#[test]
fn struct_literal_requires_all_fields() {
    let src = r#"
            struct Point {
                x: i32,
                y: i32,
            }

            fn main() {
                let point = Point { x: 1 };
            }
        "#;

    let err = lowered(parse(src)).err().unwrap();
    assert_eq!(err.kind, HirErrorKind::MissingField { struct_name: "Point", field: "y" });
}

#[test]
fn struct_literal_rejects_unknown_field_with_span() {
    let src = "struct Point{x:i32}\nfn main(){let p=Point{z:1};}";

    let err = lowered(parse(src)).err().unwrap();
    assert_eq!(err.kind, HirErrorKind::UnknownField { struct_name: "Point", field: "z" });
    assert_eq!(column(src, err.span.start), 22);
    assert_eq!(column(src, err.span.end), 25);
}

#[test]
fn struct_literal_rejects_duplicate_field_with_span() {
    let src = "struct Point{x:i32}\nfn main(){let p=Point{x:1,x:2};}";

    let err = lowered(parse(src)).err().unwrap();
    assert_eq!(err.kind, HirErrorKind::DuplicateField { name: "x" });
    assert_eq!(column(src, err.span.start), 26);
    assert_eq!(column(src, err.span.end), 29);
}

#[test]
fn immutable_field_assignment_reports_assignment_span() {
    let src = "struct Point{x:i32}\nfn main(){let p=Point{x:1};p.x=2;}";

    let err = lowered(parse(src)).err().unwrap();
    assert_eq!(err.kind, HirErrorKind::ImmutableBind { name: "p" });
    assert_eq!(column(src, err.span.start), 27);
    assert_eq!(column(src, err.span.end), 30);
}

#[test]
fn chained_field_access() {
    let src = r#"
            struct Point { x: i64, y: i64 }
            struct Rect { top_left: Point, bottom_right: Point }
 
            fn main(): i64 {
                let p1 = Point { x: 0, y: 10 };
                let p2 = Point { x: 10, y: 0 };
                let r = Rect { top_left: p1, bottom_right: p2 };
                r.bottom_right.x
            }
        "#;

    assert!(lowered(parse(src)).is_ok());
}

#[test]
fn impl_blocks_collect_methods_for_same_struct() {
    let src = r#"
            struct Counter { value: i32 }

            impl Counter {
                fn value(&self): i32 { self.value }
            }

            impl Counter {
                fn add(&mut self, delta: i32) {
                    self.value = self.value + delta;
                }
            }

            fn main(): i32 {
                let mut counter = Counter { value: 40 };
                counter.add(2);
                counter.value()
            }
        "#;

    let hir = lowered(parse(src)).ok().unwrap();
    assert_eq!(hir.functions.len(), 3);
    assert!(hir.functions.iter().any(|f| matches!(f.kind, FunctionKind::Method(_))));
}

#[test]
fn duplicate_methods_across_impl_blocks_are_rejected() {
    let src = r#"
            struct Counter { value: i32 }

            impl Counter {
                fn value(&self): i32 { self.value }
            }

            impl Counter {
                fn value(&self): i32 { self.value }
            }
        "#;

    let err = lowered(parse(src)).err().unwrap();
    assert_eq!(
        err.kind,
        HirErrorKind::DuplicateMethod { struct_name: "Counter", name: "value" }
    );
    assert_eq!(column(src, err.span.start), 16);
}

#[test]
fn mut_self_method_requires_mutable_receiver() {
    let src = r#"
            struct Counter { value: i32 }

            impl Counter {
                fn add(&mut self, delta: i32) {
                    self.value = self.value + delta;
                }
            }

            fn main() {
                let counter = Counter { value: 40 };
                counter.add(2);
            }
        "#;

    let err = lowered(parse(src)).err().unwrap();
    assert_eq!(err.kind, HirErrorKind::ImmutableBind { name: "counter" });
}

#[test]
fn shared_self_cannot_assign_fields() {
    let src = r#"
            struct Counter { value: i32 }

            impl Counter {
                fn set(&self, value: i32) {
                    self.value = value;
                }
            }
        "#;

    let err = lowered(parse(src)).err().unwrap();
    assert_eq!(err.kind, HirErrorKind::ImmutableBind { name: "self" });
}

#[test]
fn wrong_interface_parameters_impl() {
    let src = r#"
        interface StorageEngine {
            fn flush(&self): bool;
            fn read_page(&self): i64;
        }

        struct BTreeStorage {
            page_size: i64,
        }

        impl BTreeStorage with StorageEngine {
            fn flush(&self): bool { true }
            fn read_page(&self, page_id: i64): i64 { self.page_size }
        }
        "#;

    let err = lowered(parse(src)).err().expect("known bug");
    assert!(matches!(
        err.kind,
        HirErrorKind::InterfaceSignatureMismatch {
            struct_name,
            interface_name,
            method_name,
            ..
        } if struct_name == "BTreeStorage"
            && interface_name == "StorageEngine"
            && method_name == "read_page"
    ));
}

#[test]
fn primitive_orphan_rule_is_enforced() {
    let src = r#"
            impl i64 {
                fn val(&self): i64 { *self }
            }
        "#;

    let err = lowered(parse(src)).err().unwrap();
    assert_eq!(err.kind, HirErrorKind::OrphanImpl { name: "i64" });
}

fn const_value<'hir>(expr: &Expression<'hir>) -> &'hir Expression<'hir> {
    match expr.kind {
        ExpressionKind::Const(constant) => constant.value,
        ref other => panic!("expected Const node, got {other:?}"),
    }
}

#[test]
fn const_top_level() {
    let src = r#"
            const ANSWER: i32 = 42;
            fn main(): i32 {
                ANSWER
            }
        "#;
    let hir = lowered(parse(src)).ok().unwrap();
    let func = &hir.functions[0];
    let ret_expr = match &func.body.statements[0] {
        Statement::Return(Some(expr)) => *expr,
        other => panic!("expected Return statement, got {other:?}"),
    };
    assert_eq!(func.typeck.type_of(ret_expr.id), TypeKind::I32.into());
    assert_eq!(const_value(ret_expr).kind, 42.into());
}

#[test]
fn const_scoped_and_qualified() {
    let src = r#"
            struct Dummy {}
            impl Dummy {
                pub const VALUE: uptr = 127;
            }
            fn main(): uptr {
                Dummy::VALUE
            }
        "#;
    let hir = lowered(parse(src)).ok().unwrap();
    let func = &hir.functions[0];
    let ret_expr = match &func.body.statements[0] {
        Statement::Return(Some(expr)) => *expr,
        other => panic!("expected Return statement, got {other:?}"),
    };
    assert_eq!(func.typeck.type_of(ret_expr.id), TypeKind::Uptr.into());
    assert_eq!(const_value(ret_expr).kind, 127.into());
}

#[test]
fn const_primitive_scoped_in_std() {
    let src = r#"
            impl i8 {
                pub const MAX: uptr = 127;
            }
            fn main(): uptr {
                i8::MAX
            }
        "#;
    let declarations = Declarations::collect(parse(src)).ok().unwrap();
    let mut scope = Scope::new(arena());
    scope.in_std = true;
    let (scope, outcome) = scope.extend(&declarations);
    outcome.ok().unwrap();
    let (_, outcome) = scope.lower_matching_functions(&declarations, None);
    let functions = outcome.ok().unwrap();
    let main_func = &functions[0];
    let ret_expr = match &main_func.body.statements[0] {
        Statement::Return(Some(expr)) => *expr,
        other => panic!("expected Return statement, got {other:?}"),
    };
    assert_eq!(main_func.typeck.type_of(ret_expr.id), TypeKind::Uptr.into());
    assert_eq!(const_value(ret_expr).kind, 127.into());
}

#[test]
fn const_nested_evaluation() {
    let src = r#"
            const A: i32 = 10;
            const B: i32 = A + 2;
            fn main(): i32 {
                B
            }
        "#;
    let hir = lowered(parse(src)).ok().unwrap();
    let func = &hir.functions[0];
    let ret_expr = match &func.body.statements[0] {
        Statement::Return(Some(expr)) => *expr,
        other => panic!("expected Return statement, got {other:?}"),
    };
    assert_eq!(func.typeck.type_of(ret_expr.id), TypeKind::I32.into());
    match &const_value(ret_expr).kind {
        ExpressionKind::Binary { left, operator, right } => {
            assert_eq!(*operator, BinaryOperator::Add);
            assert_eq!(const_value(left).kind, 10.into());
            assert_eq!(right.kind, 2.into());
        },
        other => panic!("expected Binary expression, got {other:?}"),
    };
}

#[test]
fn const_circular_dependency() {
    let src = r#"
            const A: i32 = B;
            const B: i32 = A;
            fn main() {}
        "#;
    let err = lowered(parse(src)).err().unwrap();
    assert!(matches!(
        err.kind,
        HirErrorKind::CircularConstant { name } if name == "A" || name == "B"
    ));
}

#[test]
fn const_duplicate_declaration() {
    let src = r#"
            const X: i32 = 1;
            const X: i32 = 2;
            fn main() {}
        "#;
    let err = lowered(parse(src)).err().unwrap();
    assert_eq!(err.kind, HirErrorKind::DuplicateConstant { name: "X" });
}

#[test]
fn const_scoped_duplicate_declaration() {
    let src = r#"
            struct Dummy {}
            impl Dummy {
                pub const VALUE: i32 = 1;
                pub const VALUE: i32 = 2;
            }
            fn main() {}
        "#;
    let err = lowered(parse(src)).err().unwrap();
    assert_eq!(err.kind, HirErrorKind::DuplicateConstant { name: "Dummy::VALUE" });
}

#[test]
fn const_undefined_reference() {
    let src = r#"
            const A: i32 = UNDEFINED;
            fn main() {}
        "#;
    let err = lowered(parse(src)).err().unwrap();
    assert_eq!(err.kind, HirErrorKind::UndeclaredIdentifier { name: "UNDEFINED" });
}

#[test]
fn const_shadowing() {
    let src = r#"
            const ANSWER: i32 = 42;
            fn main(): i32 {
                let ANSWER: i32 = 100;
                ANSWER
            }
        "#;
    let hir = lowered(parse(src)).ok().unwrap();
    let func = &hir.functions[0];
    let ret_expr = match &func.body.statements[1] {
        Statement::Return(Some(expr)) => *expr,
        other => panic!("expected Return statement, got {other:?}"),
    };
    assert_eq!(func.typeck.type_of(ret_expr.id), TypeKind::I32.into());
    assert!(matches!(ret_expr.kind, ExpressionKind::Local(_)));
}

#[test]
fn const_in_function_body_is_a_const_use_not_a_local() {
    let src = r#"
            fn main(): i32 {
                const ANSWER: i32 = 42;
                ANSWER
            }
        "#;
    let hir = lowered(parse(src)).ok().unwrap();
    let func = &hir.functions[0];

    assert_eq!(func.body.statements.len(), 1);
    assert!(func.locals.is_empty());

    let ret_expr = match &func.body.statements[0] {
        Statement::Return(Some(expr)) => *expr,
        other => panic!("expected Return statement, got {other:?}"),
    };
    assert_eq!(func.typeck.type_of(ret_expr.id), TypeKind::I32.into());
    assert_eq!(const_value(ret_expr).kind, 42.into());
}

#[test]
fn const_in_function_body_folds_binary_use() {
    let src = r#"
            fn main(): i32 {
                const BASE: i32 = 10;
                BASE + 2
            }
        "#;
    let hir = lowered(parse(src)).ok().unwrap();
    let func = &hir.functions[0];

    let ret_expr = match &func.body.statements[0] {
        Statement::Return(Some(expr)) => *expr,
        other => panic!("expected Return statement, got {other:?}"),
    };
    match &ret_expr.kind {
        ExpressionKind::Binary { left, right, .. } => {
            assert_eq!(const_value(left).kind, 10.into());
            assert_eq!(right.kind, 2.into());
        },
        other => panic!("expected Binary expression, got {other:?}"),
    }
}

#[test]
fn const_in_function_body_references_earlier_const() {
    let src = r#"
            fn main(): i32 {
                const A: i32 = 10;
                const B: i32 = A + 5;
                B
            }
        "#;
    let hir = lowered(parse(src)).ok().unwrap();
    let func = &hir.functions[0];

    let ret_expr = match &func.body.statements[0] {
        Statement::Return(Some(expr)) => *expr,
        other => panic!("expected Return statement, got {other:?}"),
    };
    assert_eq!(func.typeck.type_of(ret_expr.id), TypeKind::I32.into());
    // B's value is `A + 5`, with A itself a nested constant reference
    match &const_value(ret_expr).kind {
        ExpressionKind::Binary { left, right, .. } => {
            assert_eq!(const_value(left).kind, 10.into());
            assert_eq!(right.kind, 5.into());
        },
        other => panic!("expected Binary expression, got {other:?}"),
    }
}

#[test]
fn const_in_function_body_cannot_capture_local() {
    let src = r#"
            fn main(): i32 {
                let x: i32 = 5;
                const BAD: i32 = x;
                0
            }
        "#;
    let err = lowered(parse(src)).err().unwrap();
    assert_eq!(err.kind, HirErrorKind::NonConstValue { name: "x" });
}

#[test]
fn const_in_function_body_rejects_duplicate() {
    let src = r#"
            fn main(): i32 {
                const N: i32 = 1;
                const N: i32 = 2;
                N
            }
        "#;
    let err = lowered(parse(src)).err().unwrap();
    assert_eq!(err.kind, HirErrorKind::DuplicateConstant { name: "N" });
}

#[test]
fn nested_non_const_item_is_rejected() {
    let src = r#"
            fn main() {
                struct Inner {}
            }
        "#;
    let err = lowered(parse(src)).err().unwrap();
    assert_eq!(err.kind, HirErrorKind::NestedItem { kind: "struct" });
}

#[test]
fn literal_pattern_integer() {
    let src = r#"
            fn classify(x: i32): i32 {
                match x {
                    0 -> 10,
                    1 -> 20,
                    _ -> 30,
                }
            }
        "#;
    let hir = lowered(parse(src)).ok().unwrap();
    let func = &hir.functions[0];
    let match_expr = match &func.body.statements[0] {
        Statement::Return(Some(expr)) => *expr,
        other => panic!("expected return, got {other:?}"),
    };
    let arms = match &match_expr.kind {
        ExpressionKind::Match { arms, .. } => *arms,
        other => panic!("expected Match, got {other:?}"),
    };
    assert_eq!(arms.len(), 3);
    assert!(matches!(arms[0].pattern.kind, PatternKind::Literal(Literal::Int(0))));
    assert!(matches!(arms[1].pattern.kind, PatternKind::Literal(Literal::Int(1))));
    assert!(matches!(arms[2].pattern.kind, PatternKind::Wildcard));
}

#[test]
fn literal_pattern_bool() {
    let src = r#"
            fn negate(b: bool): bool {
                match b {
                    true -> false,
                    false -> true,
                }
            }
        "#;
    let hir = lowered(parse(src)).ok().unwrap();
    let func = &hir.functions[0];
    let match_expr = match &func.body.statements[0] {
        Statement::Return(Some(expr)) => *expr,
        other => panic!("expected return, got {other:?}"),
    };
    let arms = match &match_expr.kind {
        ExpressionKind::Match { arms, .. } => *arms,
        other => panic!("expected Match, got {other:?}"),
    };
    assert!(matches!(arms[0].pattern.kind, PatternKind::Literal(Literal::Bool(true))));
    assert!(matches!(arms[1].pattern.kind, PatternKind::Literal(Literal::Bool(false))));
}

#[test]
fn or_pattern_folds_into_single_or_node() {
    let src = r#"
            enum Dir { N = 0, S = 1, E = 2, W = 3 } as u8
            fn is_horizontal(d: Dir): bool {
                match d {
                    Dir::E | Dir::W -> true,
                    _ -> false,
                }
            }
        "#;

    let hir = lowered(parse(src)).ok().unwrap();
    let func = &hir.functions[0];
    let match_expr = match &func.body.statements[0] {
        Statement::Return(Some(expr)) => *expr,
        other => panic!("expected return, got {other:?}"),
    };
    let arms = match &match_expr.kind {
        ExpressionKind::Match { arms, .. } => *arms,
        other => panic!("expected Match, got {other:?}"),
    };
    assert_eq!(arms.len(), 2);
    assert!(matches!(arms[0].pattern.kind, PatternKind::Or(pats) if pats.len() == 2));
    assert!(matches!(arms[1].pattern.kind, PatternKind::Wildcard));
}

#[test]
fn match_arm_guard_attached() {
    let src = r#"
            fn sign(x: i32): i32 {
                match x {
                    n if n > 0 -> 1,
                    _ -> 0,
                }
            }
        "#;

    let hir = lowered(parse(src)).ok().unwrap();
    let func = &hir.functions[0];
    let match_expr = match &func.body.statements[0] {
        Statement::Return(Some(expr)) => *expr,
        other => panic!("expected return, got {other:?}"),
    };
    let arms = match &match_expr.kind {
        ExpressionKind::Match { arms, .. } => *arms,
        other => panic!("expected Match, got {other:?}"),
    };
    assert_eq!(arms.len(), 2);
    assert!(arms[0].guard.is_some(), "first arm must have a guard");
    assert!(arms[1].guard.is_none(), "wildcard arm must have no guard");
}

#[test]
fn generic_free_function_is_monomorphised() {
    let src = r#"
            fn pick<T>(a: T, b: T): T { a }
            fn main(): i32 { pick(7, 9) }
        "#;
    let hir = lowered(parse(src)).ok().unwrap();

    let name = |f: &Function| hir.symbols.get(f.name).to_owned();

    let pick = hir
        .functions
        .iter()
        .find(|f| name(f).contains("pick$i32"))
        .expect("specialised pick$i32 instance");
    assert_eq!(pick.params[0].typ, TypeKind::I32.into());
    assert_eq!(pick.return_type, TypeKind::I32.into());
    assert!(
        hir.functions.iter().all(|f| !name(f).ends_with("pick")),
        "the open template body must not be emitted"
    );

    let main = hir.functions.iter().find(|f| name(f) == "nyx::main").unwrap();
    let call = match &main.body.statements[0] {
        Statement::Return(Some(expr)) => *expr,
        other => panic!("expected return, got {other:?}"),
    };
    assert!(matches!(call.kind, ExpressionKind::Call { .. }));
    assert_eq!(main.typeck.type_dependent_def(call.id), Some(Res::Function(pick.id)));
}

#[test]
fn generic_turbofish_selects_instance() {
    let src = r#"
            fn id<T>(x: T): T { x }
            fn main(): i64 { id::<i64>(5) }
        "#;
    let hir = lowered(parse(src)).ok().unwrap();
    let name = |f: &Function| hir.symbols.get(f.name).to_owned();

    let instance = hir
        .functions
        .iter()
        .find(|f| name(f).contains("id$i64"))
        .expect("specialised id$i64 instance");
    assert_eq!(instance.params[0].typ, TypeKind::I64.into());
}

#[test]
fn generic_free_fn_resolves_generic_method() {
    let src = r#"
            struct Box<T> { val: T }
            impl Box<T> { fn get(&self): T { self.val } }
            fn unwrap<T>(b: &Box<T>): T { b.get() }
            fn main(): i64 { unwrap::<i64>(&Box::<i64> { val: 7 }) }
        "#;
    let hir = lowered(parse(src)).ok().unwrap();
    let name = |f: &Function| hir.symbols.get(f.name).to_owned();

    assert!(
        hir.functions
            .iter()
            .any(|f| name(f).contains("Box$i64") && name(f).contains("get")),
        "expected a specialised get method on Box$i64"
    );
}

#[test]
fn array_constant_index_out_of_bounds() {
    let src = "fn main(){let a:[i32;3]=[1,2,3];a[5];}";
    let err = lowered(parse(src)).err().unwrap();
    assert_eq!(err.kind, HirErrorKind::IndexOutOfBounds { index: 5, len: 3 });
    assert_eq!(span_text(src, err.span), "a[5]");
}

#[test]
fn indexing_a_non_indexable_type_is_rejected() {
    let src = "fn main(){let x:i32=1;x[0];}";
    let err = lowered(parse(src)).err().unwrap();
    assert!(matches!(err.kind, HirErrorKind::NotIndexable { .. }));
    assert_eq!(span_text(src, err.span), "x[0]");
}

#[test]
fn a_non_integer_index_is_rejected() {
    let src = "fn main(){let a:[i32;2]=[1,2];let b:bool=true;a[b];}";
    let err = lowered(parse(src)).err().unwrap();
    assert!(matches!(err.kind, HirErrorKind::TypeMismatch { .. }));
}

#[test]
fn writing_an_immutable_array_element_is_rejected() {
    let src = "fn main(){let a:[i32;2]=[1,2];a[0]=9;}";
    let err = lowered(parse(src)).err().unwrap();
    assert_eq!(err.kind, HirErrorKind::ImmutableBind { name: "a" });
    assert_eq!(span_text(src, err.span), "a[0]");
}

#[test]
fn writing_through_a_shared_slice_is_rejected() {
    let src = "fn set(s:&[i32]){s[0]=9;}";
    let err = lowered(parse(src)).err().unwrap();
    assert_eq!(err.kind, HirErrorKind::AssignBehindSharedRef);
    assert_eq!(span_text(src, err.span), "s[0]");
}

const APP: &str = "my_app";
const PROJECT: &str = "/project";
const STD: &str = "/std";

fn resolver() -> ModuleResolver<'static> {
    ModuleResolver::new(APP, PROJECT, STD)
}

/// Files that are only there in memory.
struct Files {
    files: Vec<(&'static str, &'static str)>,
}

impl Files {
    fn new() -> Files {
        Files { files: Vec::new() }
    }

    fn with(mut self, path: &'static str, content: &'static str) -> Files {
        self.files.push((path, content));
        self
    }

    /// The files as the loader takes them, and the map of their places.
    fn parsed(&self) -> (Vec<ModuleFile<'static>>, SourceMap) {
        let mut map = SourceMap::new();
        let mut files = Vec::new();
        for (path, content) in &self.files {
            let (_, base) = map.add_file(path.to_string(), content.to_string());
            let statements = parse_at(content, base);
            files.push(ModuleFile { path, canonical: path, statements });
        }
        (files, map)
    }

    fn loaded(&self, entry: &'static str) -> Hir<'static> {
        self.load(entry).unwrap_or_else(|error| panic!("unexpected error {error:?}"))
    }

    fn load(&self, entry: &'static str) -> Result<Hir<'static>, ModuleError<&'static str>> {
        let loader = ModuleLoader::new(APP, PROJECT, STD, arena());
        loader.load(entry, &self.parsed().0).map_err(|(_, error)| error)
    }
}

/// A small standard library.
fn with_std() -> Files {
    Files::new()
        .with("/std/process.nyx", "pub fn exit(code: i32) { syscall(SYS_EXIT, code); }")
        .with("/std/io.nyx", "pub fn println(text: str) { }")
        .with(
            "/std/mem.nyx",
            "pub fn size_of(): uptr { return 0; } pub fn align_of(): uptr { return 0; }",
        )
        .with("/std/default.nyx", "pub interface Default { fn default(): Self; }")
        .with("/std/cmp.nyx", "pub interface PartialEq { fn eq(&self, other: &Self): bool; }")
}

fn function_named<'a>(hir: &'a Hir<'static>, name: &str) -> &'a Function<'static> {
    hir.functions.iter().find(|f| hir.symbols.get(f.name) == name).unwrap()
}

/// The expression that a body starts with.
fn first_value(function: &Function<'static>) -> &'static Expression<'static> {
    match function.body.statements[0] {
        Statement::Expr(expr) => expr,
        Statement::Return(Some(expr)) => expr,
        _ => panic!("expected expression or return statement"),
    }
}

/// The answer to a question about a type.
fn answer(hir: &Hir<'static>, expr: &Expression<'static>) -> u32 {
    match expr.kind {
        ExpressionKind::TypeIntrinsic { kind, typ } => {
            let (size, align) = type_layout(typ, &hir.structs, &hir.enums, &hir.arrays);
            match kind {
                ast::TypeIntrinsicKind::SizeOf => size,
                ast::TypeIntrinsicKind::AlignOf => align,
            }
        },
        ref other => panic!("expected a question about a type, got {other:?}"),
    }
}

#[test]
fn module_resolve_simple_path() {
    let path = resolver().resolve_path(&vec![APP, "math"], Span::default(), arena()).unwrap();

    assert_eq!(path, "/project/math.nyx");
}

#[test]
fn module_resolve_nested_path() {
    let segments = vec![APP, "utils", "io", "file"];
    let path = resolver().resolve_path(&segments, Span::default(), arena()).unwrap();

    assert_eq!(path, "/project/utils/io/file.nyx");
}

#[test]
fn module_reject_unknown_root() {
    let segments = vec!["other", "foo"];
    let err = resolver().resolve_path(&segments, Span::default(), arena()).unwrap_err();

    match err {
        ModuleError::UnknownRoot { name, .. } => assert_eq!(name, "other"),
        _ => panic!("expected unknownroot error"),
    }
}

#[test]
fn module_reject_empty_path() {
    let err = resolver().resolve_path(&vec![], Span::default(), arena()).unwrap_err();

    assert!(matches!(err, ModuleError::EmptyPath));
}

#[test]
fn module_reject_root_only() {
    let err = resolver().resolve_path(&vec![APP], Span::default(), arena()).unwrap_err();

    assert!(matches!(err, ModuleError::EmptyPath));
}

#[test]
fn module_import_and_call() {
    let files = Files::new()
        .with("/project/math.nyx", "pub fn add(a: i32, b: i32): i32 { a + b }")
        .with(
            "/project/main.nyx",
            r#"
                use my_app::math;
                fn main(): i32 { math::add(1, 2) }
                "#,
        );
    let hir = files.loaded("/project/main.nyx");
    assert_eq!(hir.functions.len(), 2);
}

#[test]
fn module_file_not_found() {
    let err = Files::new().load("/project/missing.nyx").err().unwrap();

    assert!(matches!(err, ModuleError::FileNotFound { .. }));
}

#[test]
fn module_circular_import() {
    let files = Files::new()
        .with(
            "/project/a.nyx",
            r#"
            use my_app::b::{foo};
            pub fn bar(): i32 { foo() }
            "#,
        )
        .with(
            "/project/b.nyx",
            r#"
            use my_app::a::{bar};
            pub fn foo(): i32 { bar() }
            "#,
        )
        .with(
            "/project/main.nyx",
            r#"
            use my_app::a::{bar};
            fn main(): i32 { bar() }
            "#,
        );
    let err = files.load("/project/main.nyx").err().unwrap();

    assert!(matches!(err, ModuleError::CircularImport { .. }));
}

#[test]
fn module_non_pub_return_unknown_function() {
    let files = Files::new()
        .with("/project/math.nyx", "fn secret(a: i32): i32 { a + 1 }")
        .with(
            "/project/main.nyx",
            r#"
            use my_app::math::{secret};
            fn main(): i32 { secret(1) }
            "#,
        );
    let err = files.load("/project/main.nyx").err().unwrap();

    assert!(matches!(err, ModuleError::UnknownExport { .. }));
}

#[test]
fn module_arity_mismatch_across_modules() {
    let files = Files::new()
        .with("/project/math.nyx", "pub fn add(a: i32, b: i32): i32 { a + b }")
        .with(
            "/project/main.nyx",
            r#"
            use my_app::math::{add};
            fn main(): i32 { add(1) }
            "#,
        );
    let err = files.load("/project/main.nyx").err().unwrap();

    assert!(matches!(err, ModuleError::Diagnostic(_)));
}

#[test]
fn module_nested_path() {
    let segments = vec![APP, "std", "collections", "map"];
    let path = resolver().resolve_path(&segments, Span::default(), arena()).unwrap();

    assert_eq!(path, "/project/std/collections/map.nyx");
}

#[test]
fn module_duplicate_function_across_modules_rejected() {
    let files = Files::new()
        .with("/project/math.nyx", "pub fn add(a: i32, b: i32): i32 { a + b }")
        .with(
            "/project/main.nyx",
            r#"
            use my_app::math::{add};
            fn add(a: i32, b: i32): i32 { a - b }
            fn main(): i32 { add(1, 2) }
            "#,
        );
    let err = files.load("/project/main.nyx").err().unwrap();

    assert!(matches!(err, ModuleError::Diagnostic(_)));
}

#[test]
fn module_syscall_primitive_is_std_only() {
    let files = with_std().with(
        "/project/main.nyx",
        r#"
            use std::process;
            fn main() {
                syscall(SYS_EXIT, 0);
            }
            "#,
    );
    let err = files.load("/project/main.nyx").err().unwrap();

    assert!(matches!(err, ModuleError::Diagnostic(_)));
}

#[test]
fn module_struct_orphan_rule_rejected() {
    let files = Files::new()
        .with("/project/types.nyx", "pub struct Point { x: i32, y: i32 }")
        .with(
            "/project/main.nyx",
            r#"
            use my_app::types::{Point};
            impl Point {
                fn sum(&self): i32 { self.x + self.y }
            }
            fn main(): i32 { 0 }
            "#,
        );
    let err = files.load("/project/main.nyx").err().unwrap();

    assert!(matches!(err, ModuleError::Diagnostic(_)));
}

#[test]
fn module_test_size_of_and_align_of_primitives() {
    let files = with_std().with(
        "/project/main.nyx",
        r#"
                use std::mem;
                fn main(): uptr {
                    let a = mem::size_of(i32);
                    let b = mem::align_of(i64);
                    a + b
                }
                "#,
    );
    let hir = files.loaded("/project/main.nyx");
    let main = function_named(&hir, "nyx::main");
    let init = |at: usize| match main.body.statements[at] {
        Statement::LetInit { init, .. } => init,
        _ => panic!("expected let statement"),
    };
    assert_eq!(answer(&hir, init(0)), 4);
    assert_eq!(main.typeck.type_of(init(0).id), Type::new(TypeKind::Uptr));
    assert_eq!(answer(&hir, init(1)), 8);
    assert_eq!(main.typeck.type_of(init(1).id), Type::new(TypeKind::Uptr));
}

#[test]
fn module_test_size_of_and_align_of_structs() {
    let files = with_std().with(
        "/project/main.nyx",
        r#"
                use std::mem;
                struct Foo {
                    a: i8,
                    b: i64,
                    c: i32,
                }
                fn main(): uptr {
                    mem::size_of(Foo)
                }
                "#,
    );
    let hir = files.loaded("/project/main.nyx");
    let main = function_named(&hir, "nyx::main");
    let value = first_value(main);
    assert_eq!(answer(&hir, value), 16);
    assert_eq!(main.typeck.type_of(value.id), Type::new(TypeKind::Uptr));
}

#[test]
fn module_test_size_of_without_qualifier() {
    let files = with_std().with(
        "/project/main.nyx",
        r#"
                use std::mem::{size_of};
                fn main(): uptr {
                    size_of(i8)
                }
                "#,
    );
    let hir = files.loaded("/project/main.nyx");
    let main = function_named(&hir, "nyx::main");
    assert_eq!(answer(&hir, first_value(main)), 1);
}

#[test]
fn module_qualified_std_intrinsics_keep_call_arguments() {
    let files = with_std().with(
        "/project/main.nyx",
        r#"
            use std::io;
            fn main() {
                io::println("ok");
            }
            "#,
    );
    let hir = files.loaded("/project/main.nyx");
    let main = function_named(&hir, "nyx::main");
    assert!(matches!(
        main.body.statements[0],
        Statement::Expr(Expression {
            kind: ExpressionKind::IntrinsicCall { intrinsic: Intrinsic::PrintLn, args },
            ..
        }) if args.len() == 1
    ));
}

#[test]
fn mod_resolve_simple_path() {
    let path = resolver().resolve_path(&vec![APP, "math"], Span::default(), arena()).unwrap();

    assert_eq!(path, "/project/math.nyx");
}

#[test]
fn mod_resolve_nested_path() {
    let segments = vec![APP, "utils", "io", "file"];
    let path = resolver().resolve_path(&segments, Span::default(), arena()).unwrap();

    assert_eq!(path, "/project/utils/io/file.nyx");
}

#[test]
fn mod_reject_unknown_root() {
    let segments = vec!["other", "foo"];
    let err = resolver().resolve_path(&segments, Span::default(), arena()).unwrap_err();

    match err {
        ModuleError::UnknownRoot { name, .. } => assert_eq!(name, "other"),
        _ => panic!("expected unknownroot error"),
    }
}

#[test]
fn mod_reject_empty_path() {
    let err = resolver().resolve_path(&vec![], Span::default(), arena()).unwrap_err();

    assert!(matches!(err, ModuleError::EmptyPath));
}

#[test]
fn mod_reject_root_only() {
    let err = resolver().resolve_path(&vec![APP], Span::default(), arena()).unwrap_err();

    assert!(matches!(err, ModuleError::EmptyPath));
}

#[test]
fn mod_import_and_call() {
    let files = Files::new()
        .with("/project/math.nyx", "pub fn add(a: i32, b: i32): i32 { a + b }")
        .with(
            "/project/main.nyx",
            r#"
                use my_app::math;
                fn main(): i32 { math::add(1, 2) }
                "#,
        );
    let hir = files.loaded("/project/main.nyx");
    assert_eq!(hir.functions.len(), 2);
}

#[test]
fn mod_file_not_found() {
    let err = Files::new().load("/project/missing.nyx").err().unwrap();

    assert!(matches!(err, ModuleError::FileNotFound { .. }));
}

#[test]
fn mod_circular_import() {
    let files = Files::new()
        .with(
            "/project/a.nyx",
            r#"
            use my_app::b::{foo};
            pub fn bar(): i32 { foo() }
            "#,
        )
        .with(
            "/project/b.nyx",
            r#"
            use my_app::a::{bar};
            pub fn foo(): i32 { bar() }
            "#,
        )
        .with(
            "/project/main.nyx",
            r#"
            use my_app::a::{bar};
            fn main(): i32 { bar() }
            "#,
        );
    let err = files.load("/project/main.nyx").err().unwrap();

    assert!(matches!(err, ModuleError::CircularImport { .. }));
}

#[test]
fn mod_non_pub_return_unknown_function() {
    let files = Files::new()
        .with("/project/math.nyx", "fn secret(a: i32): i32 { a + 1 }")
        .with(
            "/project/main.nyx",
            r#"
            use my_app::math::{secret};
            fn main(): i32 { secret(1) }
            "#,
        );
    let err = files.load("/project/main.nyx").err().unwrap();

    assert!(matches!(err, ModuleError::UnknownExport { .. }));
}

#[test]
fn mod_arity_mismatch_across_modules() {
    let files = Files::new()
        .with("/project/math.nyx", "pub fn add(a: i32, b: i32): i32 { a + b }")
        .with(
            "/project/main.nyx",
            r#"
            use my_app::math::{add};
            fn main(): i32 { add(1) }
            "#,
        );
    let err = files.load("/project/main.nyx").err().unwrap();

    assert!(matches!(err, ModuleError::Diagnostic(_)));
}

#[test]
fn mod_nested_path() {
    let segments = vec![APP, "std", "collections", "map"];
    let path = resolver().resolve_path(&segments, Span::default(), arena()).unwrap();

    assert_eq!(path, "/project/std/collections/map.nyx");
}

#[test]
fn mod_duplicate_function_across_modules_rejected() {
    let files = Files::new()
        .with("/project/math.nyx", "pub fn add(a: i32, b: i32): i32 { a + b }")
        .with(
            "/project/main.nyx",
            r#"
            use my_app::math::{add};
            fn add(a: i32, b: i32): i32 { a - b }
            fn main(): i32 { add(1, 2) }
            "#,
        );
    let err = files.load("/project/main.nyx").err().unwrap();

    assert!(matches!(err, ModuleError::Diagnostic(_)));
}

#[test]
fn mod_syscall_primitive_is_std_only() {
    let files = with_std().with(
        "/project/main.nyx",
        r#"
            use std::process;
            fn main() {
                syscall(SYS_EXIT, 0);
            }
            "#,
    );
    let err = files.load("/project/main.nyx").err().unwrap();

    assert!(matches!(err, ModuleError::Diagnostic(_)));
}

#[test]
fn mod_struct_orphan_rule_rejected() {
    let files = Files::new()
        .with("/project/types.nyx", "pub struct Point { x: i32, y: i32 }")
        .with(
            "/project/main.nyx",
            r#"
            use my_app::types::{Point};
            impl Point {
                fn sum(&self): i32 { self.x + self.y }
            }
            fn main(): i32 { 0 }
            "#,
        );
    let err = files.load("/project/main.nyx").err().unwrap();

    assert!(matches!(err, ModuleError::Diagnostic(_)));
}

#[test]
fn mod_test_size_of_and_align_of_primitives() {
    let files = with_std().with(
        "/project/main.nyx",
        r#"
                use std::mem;
                fn main(): uptr {
                    let a = mem::size_of(i32);
                    let b = mem::align_of(i64);
                    a + b
                }
                "#,
    );
    let hir = files.loaded("/project/main.nyx");
    let main = function_named(&hir, "nyx::main");
    let init = |at: usize| match main.body.statements[at] {
        Statement::LetInit { init, .. } => init,
        _ => panic!("expected let statement"),
    };
    assert_eq!(answer(&hir, init(0)), 4);
    assert_eq!(main.typeck.type_of(init(0).id), Type::new(TypeKind::Uptr));
    assert_eq!(answer(&hir, init(1)), 8);
    assert_eq!(main.typeck.type_of(init(1).id), Type::new(TypeKind::Uptr));
}

#[test]
fn mod_test_size_of_and_align_of_structs() {
    let files = with_std().with(
        "/project/main.nyx",
        r#"
                use std::mem;
                struct Foo {
                    a: i8,
                    b: i64,
                    c: i32,
                }
                fn main(): uptr {
                    mem::size_of(Foo)
                }
                "#,
    );
    let hir = files.loaded("/project/main.nyx");
    let main = function_named(&hir, "nyx::main");
    let value = first_value(main);
    assert_eq!(answer(&hir, value), 16);
    assert_eq!(main.typeck.type_of(value.id), Type::new(TypeKind::Uptr));
}

#[test]
fn mod_test_size_of_without_qualifier() {
    let files = with_std().with(
        "/project/main.nyx",
        r#"
                use std::mem::{size_of};
                fn main(): uptr {
                    size_of(i8)
                }
                "#,
    );
    let hir = files.loaded("/project/main.nyx");
    let main = function_named(&hir, "nyx::main");
    assert_eq!(answer(&hir, first_value(main)), 1);
}

#[test]
fn mod_qualified_std_intrinsics_keep_call_arguments() {
    let files = with_std().with(
        "/project/main.nyx",
        r#"
            use std::io;
            fn main() {
                io::println("ok");
            }
            "#,
    );
    let hir = files.loaded("/project/main.nyx");
    let main = function_named(&hir, "nyx::main");
    assert!(matches!(
        main.body.statements[0],
        Statement::Expr(Expression {
            kind: ExpressionKind::IntrinsicCall { intrinsic: Intrinsic::PrintLn, args },
            ..
        }) if args.len() == 1
    ));
}

#[test]
fn mod_single_file_function() {
    let files = Files::new().with("/project/main.nyx", "fn main(): i32 { 42 }");
    let hir = files.loaded("/project/main.nyx");

    assert_eq!(hir.functions.len(), 1);
    let main = function_named(&hir, "nyx::main");
    assert_eq!(main.return_type, Type::new(TypeKind::I32));
}

#[test]
fn mod_transitive_dependency() {
    let files = Files::new()
        .with("/project/base.nyx", "pub fn one(): i32 { 1 }")
        .with(
            "/project/mid.nyx",
            r#"
            use my_app::base::{one};
            pub fn two(): i32 { one() + one() }
            "#,
        )
        .with(
            "/project/main.nyx",
            r#"
            use my_app::mid::{two};
            fn main(): i32 { two() }
            "#,
        );

    let hir = files.loaded("/project/main.nyx");
    assert_eq!(hir.functions.len(), 3);
}

#[test]
fn mod_same_dependency_imported_twice_was_not_duplicated() {
    let files = Files::new()
        .with("/project/math.nyx", "pub fn add(a: i32, b: i32): i32 { a + b }")
        .with(
            "/project/util.nyx",
            r#"
            use my_app::math::{add};
            pub fn add_one(x: i32): i32 { add(x, 1) }
            "#,
        )
        .with(
            "/project/main.nyx",
            r#"
            use my_app::math::{add};
            use my_app::util::{add_one};
            fn main(): i32 { add(add_one(1), 1) }
            "#,
        );

    let hir = files.loaded("/project/main.nyx");
    let add_count =
        hir.functions.iter().filter(|f| hir.symbols.get(f.name) == "nyx::add").count();
    assert_eq!(add_count, 1, "add should appear exactly once in the merged HIR");
}

#[test]
fn mod_empty_module_is_valid() {
    let files = Files::new().with("/project/empty.nyx", "").with(
        "/project/main.nyx",
        r#"
            use my_app::empty;
            fn main(): i32 { 42 }
            "#,
    );

    let hir = files.loaded("/project/main.nyx");
    assert_eq!(hir.functions.len(), 1);
}

#[test]
fn mod_namespace_import_with_qualified_call() {
    let files = Files::new()
        .with(
            "/project/main.nyx",
            r#"
            use my_app::math::{add};
            fn main(): i32 {
                add(1, 2)
            }
            "#,
        )
        .with("/project/math.nyx", "pub fn add(a: i32, b: i32): i32 { a + b }");

    let hir = files.loaded("/project/main.nyx");
    assert_eq!(hir.functions.len(), 2);
}

#[test]
fn mod_qualified_import() {
    let files = with_std().with(
        "/project/main.nyx",
        r#"
            use std::process;
            fn main() {
                process::exit(0);
            }
            "#,
    );

    let hir = files.loaded("/project/main.nyx");
    assert_eq!(hir.functions.len(), 2);

    let main = function_named(&hir, "nyx::main");
    let has_exit_call = main.body.statements.iter().any(|stmt| match stmt {
        Statement::Expr(Expression { kind: ExpressionKind::Call { args, .. }, .. }) => {
            args.len() == 1
                && args[0].kind == ExpressionKind::Literal(Literal::Int(0))
                && main.typeck.type_of(args[0].id) == Type::new(TypeKind::I32)
        },
        _ => false,
    });
    assert!(has_exit_call);

    let exit = function_named(&hir, "nyx::exit");
    let emits_exit_syscall = exit.body.statements.iter().any(|stmt| {
        matches!(
            stmt,
            Statement::Expr(Expression {
                kind: ExpressionKind::Syscall { code: SyscallCode::Exit, args },
                ..
            }) if args.len() == 1
        )
    });
    assert!(emits_exit_syscall);
}

#[test]
fn mod_struct_in_single_mod() {
    let files = Files::new().with(
        "/project/main.nyx",
        r#"
            struct Point {
                x: i64,
                y: i64,
            }

            fn make(x: i64, y: i64): Point {
                Point { x: x, y: y }
            }

            fn main(): i64 {
                let point = make(3, 4);
                point.x
            }
            "#,
    );

    let hir = files.loaded("/project/main.nyx");
    assert_eq!(hir.functions.len(), 2);
    assert_eq!(hir.structs.len(), 1);
}

#[test]
fn test_size_of_and_align_of_struct_representations() {
    let files = with_std().with(
        "/project/main.nyx",
        r#"
                use std::mem;

                struct DefaultLayout { a: i8, b: i64, c: i32 }
                struct ExternLayout { a: i8, b: i64, c: i32 } as extern
                struct PackedLayout { a: i8, b: i64, c: i32 } as packed, align(4)
                struct RustLikePacked8 { a: i8, b: i64, c: i32 } as packed, align(8)
                struct RustLikePacked32 { a: i8, b: i64, c: i32 } as packed, align(32)

                fn main(): uptr {
                    mem::size_of(DefaultLayout)
                    + mem::size_of(ExternLayout)
                    + mem::size_of(PackedLayout)
                    + mem::align_of(PackedLayout)
                }
                "#,
    );

    let hir = files.loaded("/project/main.nyx");
    assert_eq!(hir.structs[0].layout.size, 16);
    assert_eq!(hir.structs[0].layout.align, 8);
    assert_eq!(hir.structs[1].layout.size, 24);
    assert_eq!(hir.structs[1].layout.align, 8);
    assert_eq!(hir.structs[2].layout.size, 16);
    assert_eq!(hir.structs[2].layout.align, 4);
    assert_eq!(hir.structs[3].layout.size, 24);
    assert_eq!(hir.structs[3].layout.align, 8);
    assert_eq!(hir.structs[4].layout.size, 24);
    assert_eq!(hir.structs[4].layout.align, 8);
    let main = function_named(&hir, "nyx::main");
    assert_eq!(main.typeck.type_of(first_value(main).id), Type::new(TypeKind::Uptr));
}

#[test]
fn test_size_of_and_align_of_enums() {
    let files = with_std().with(
        "/project/main.nyx",
        r#"
                use std::mem;

                enum Status { Ok, Err = 7 } as u16

                fn main(): uptr {
                    mem::size_of(Status) + mem::align_of(Status)
                }
                "#,
    );

    let hir = files.loaded("/project/main.nyx");
    assert_eq!(hir.enums.len(), 1);
    let main = function_named(&hir, "nyx::main");
    assert_eq!(main.typeck.type_of(first_value(main).id), Type::new(TypeKind::Uptr));
}

#[test]
fn exported_enum_supports_impl_and_self_interface_methods() {
    let files = with_std()
        .with(
            "/project/status.nyx",
            r#"
                use std::default::{Default};
                use std::cmp::{PartialEq};

                pub enum Status { Ready = 1, Done = 2 } as u8

                impl Status {
                    fn code(&self): u8 { 7 }
                    fn touch(&mut self): u8 { 9 }
                }

                impl Status with Default {
                    fn default(): Self { Status::Ready }
                }

                impl Status with PartialEq {
                    fn eq(&self, other: &Self): bool { true }
                }
                "#,
        )
        .with(
            "/project/main.nyx",
            r#"
                use my_app::status::{Status};
                use std::mem;

                fn main(): u8 {
                    let mut status = Status::default();

                    if mem::size_of(Status) != 1 return 1;
                    if mem::align_of(Status) != 1 return 2;
                    if !status.eq(&Status::Done) return 3;
                    status.touch()
                }
                "#,
        );

    let hir = files.loaded("/project/main.nyx");
    assert_eq!(hir.enums.len(), 1);
    assert!(hir.functions.iter().any(|f| hir.symbols.get(f.name).contains("Status")));
}

/// What an editor shows of a file that holds the given text.
fn analyse(tag: &str, content: &str) -> SemanticAnalysis {
    let entry = arena().place_str(&format!("/tmp/nyx_analysis_{tag}.nyx"));
    let analysis =
        Analysis::new(entry.to_string()).with_overlay(entry.to_string(), content.to_string());
    let mut map = SourceMap::new();
    let text = analysis.overlay(&analysis.entry).unwrap();
    let (_, base) = map.add_file(analysis.entry.clone(), text.to_string());
    let files =
        vec![ModuleFile { path: entry, canonical: entry, statements: parse_at(text, base) }];
    let loader = ModuleLoader::new("tmp", "/tmp", STD, arena()).recovering();
    let outcome = loader.load(entry, &files);
    Analysis::conclude(&outcome, map, "tmp", "/tmp", STD, &Vec::new())
}

#[test]
fn valid_buffer_analyses_with_hints() {
    let a = analyse("valid", "fn main() { let x = 232; }");
    assert!(a.ok, "valid source must analyse into HIR");
    assert!(a.diagnostics.is_empty());
    assert!(a.inlay_hints.iter().any(|(_, ty)| ty == "i32"), "expected the `: i32` hint");
}

#[test]
fn unknown_param_type_keeps_features_alive() {
    let a = analyse("param", "fn poisoned(a: Nonexistent): i32 { 1 }\nfn main() { let x = 232; }");
    assert!(a.ok, "recovery must still produce a HIR with live features");
    assert_eq!(a.diagnostics.len(), 1, "exactly the unknown type: {:?}", a.diagnostics);
    assert!(a.inlay_hints.iter().any(|(_, ty)| ty == "i32"), "main still gets its hint");
    assert!(
        a.hover_types.iter().any(|(_, h)| h.ty.contains("fn poisoned")),
        "the poisoned function still hovers as a signature"
    );
}

#[test]
fn errors_in_two_functions_are_both_reported() {
    let a = analyse(
        "two_fns",
        r#"
            fn first(): i32 { true }
            fn second() { let x: bool = 232; }
            fn main() { let y = 1; }
            "#,
    );
    assert!(a.ok, "recovery must still produce a HIR with live features");
    assert_eq!(a.diagnostics.len(), 2, "one error per function: {:?}", a.diagnostics);
    assert!(a.inlay_hints.iter().any(|(_, ty)| ty == "i32"), "main still gets its hint");
}

#[test]
fn unknown_struct_field_type_still_registers_the_struct() {
    let a = analyse(
        "struct_field",
        r#"
            struct Holder { value: Missing, count: i32 }
            fn main() { let h = 1; }
            "#,
    );
    assert!(a.ok, "recovery must still produce a HIR with live features");
    assert_eq!(a.diagnostics.len(), 1, "{:?}", a.diagnostics);
    assert!(
        a.hover_types.iter().any(|(_, h)| h.ty.contains("struct Holder")),
        "the struct must survive a poisoned field"
    );
    assert!(
        a.document_symbols.iter().any(|s| s.name == "Holder"),
        "the outline still lists the struct"
    );
}

#[test]
fn doc_comments_surface_on_item_hover() {
    let a = analyse(
        "docs",
        r#"
            /// Adds two numbers.
            fn add(a: i32, b: i32): i32 { a + b }

            /// A 2D point.
            struct Point { x: i32, y: i32 }

            /// The answer.
            const ANSWER: i32 = 42;

            fn main() {
                let p = Point { x: 1, y: 2 };
                let _ = add(p.x, p.y) + ANSWER;
            }
            "#,
    );
    assert!(a.ok, "{:?}", a.diagnostics);

    let doc_of = |needle: &str| {
        a.hover_types
            .iter()
            .find(|(_, hover)| hover.ty.contains(needle))
            .and_then(|(_, hover)| hover.docs.as_deref())
    };

    assert_eq!(doc_of("fn add"), Some("Adds two numbers."));
    assert_eq!(doc_of("struct Point"), Some("A 2D point."));
    assert_eq!(doc_of("const ANSWER"), Some("The answer."));
    assert_eq!(doc_of("fn main"), None, "an undocumented item has no docs");
}

#[test]
fn impl_method_docs_surface_on_hover() {
    let a = analyse(
        "impl_docs",
        r#"
            struct Point { x: i32 }
            impl Point {
                /// the horizontal coordinate
                fn get(&self): i32 { self.x }
            }
            fn main() {
                let p = Point { x: 1 };
                let _ = p.get();
            }
            "#,
    );
    assert!(a.ok, "{:?}", a.diagnostics);

    let doc = a
        .hover_types
        .iter()
        .find(|(_, hover)| hover.ty.contains("fn get"))
        .and_then(|(_, hover)| hover.docs.as_deref());
    assert_eq!(doc, Some("the horizontal coordinate"));
}

#[test]
fn fieldless_enums_auto_size_while_payload_enums_keep_the_tag() {
    let a = analyse(
        "enum_repr",
        r#"
            enum Direction { North, West, East, South }
            enum Tiny { No, Yes(bool) }
            fn main() {
                let _ = Direction::North;
                let _ = Tiny::No;
            }
            "#,
    );
    assert!(a.ok, "{:?}", a.diagnostics);

    let layout_of = |needle: &str| {
        a.hover_types
            .iter()
            .find_map(|(_, hover)| hover.ty.contains(needle).then_some(hover.layout))
            .flatten()
    };

    assert_eq!(layout_of("enum Direction"), Some((1, 1)));
    assert_eq!(layout_of("enum Tiny"), Some((8, 4)));
}

#[test]
fn broken_initialiser_keeps_the_binding_alive() {
    let a = analyse("broken_init", "fn main() { let d = unknown_fn(); let e = d; }");
    assert!(a.ok, "recovery must still produce a HIR with live features");
    assert_eq!(a.diagnostics.len(), 1, "only the unknown call, once: {:?}", a.diagnostics);
    assert!(
        a.inlay_hints.iter().any(|(_, ty)| ty == "{unknown}"),
        "d stays declared with a poison hint: {:?}",
        a.inlay_hints
    );
}

#[test]
fn duplicate_functions_report_without_killing_analysis() {
    let a = analyse("dup_fn", "fn twice() {}\nfn twice() {}\nfn main() { let z = 42; }");
    assert!(a.ok, "recovery must still produce a HIR with live features");
    assert!(!a.diagnostics.is_empty());
    assert!(a.inlay_hints.iter().any(|(_, ty)| ty == "i32"), "main still gets its hint");
}

#[test]
fn rich_diagnostic_carries_plain_structure() {
    let err = lower_err("fn main() { foo(); }");
    let span = err.span;
    let rich = err.kind.rich(span);

    assert_eq!(rich.severity, Severity::Error);
    // plain text, no ANSI escape sequences
    assert!(!rich.message.contains('\u{1b}'));
    assert!(rich.message.contains("foo"));
    let primary = rich.primary.expect("primary label");
    assert_eq!(primary.span, span);
    assert!(rich.help.is_some());
}

fn mono_debug(src: &str) -> String {
    let mut statements = parse(src).clone();
    monomorphise(&mut statements, arena()).unwrap();
    format!("{statements:#?}")
}

#[test]
fn infers_fn_type_args_without_turbofish() {
    // `pick(7, 9)` must produce a concrete `pick$i32` and a call to it
    let out = mono_debug(
        r#"
            fn pick<T>(a: T, b: T): T { a }
            fn main(): i32 { pick(7, 9) }
            "#,
    );
    assert!(out.contains("pick$i32"), "expected concrete fn pick$i32 in:\n{out}");
}

#[test]
fn infers_struct_type_args_without_turbofish() {
    // `Pair { a: 2, b: 5 }` must produce a concrete struct `Pair$i32`
    let out = mono_debug(
        r#"
            struct Pair<T> { a: T, b: T }
            fn main(): i32 {
                let p = Pair { a: 2, b: 5 };
                0
            }
            "#,
    );
    assert!(out.contains("Pair$i32"), "expected concrete struct Pair$i32 in:\n{out}");
}

#[test]
fn turbofish_path_still_works() {
    let out = mono_debug(
        r#"
            fn id<T>(x: T): T { x }
            fn main(): i32 { id::<i32>(3) }
            "#,
    );
    assert!(out.contains("id$i32"), "expected concrete fn id$i32 in:\n{out}");
}

#[test]
fn collects_instantiation_from_type_annotation() {
    let out = mono_debug(
        r#"
            struct Box<T> { val: T }
            fn make(): Box<i32> { Box::<i32> { val: 1 } }
            fn main(): i32 {
                let b: Box<i32> = make();
                0
            }
            "#,
    );
    assert!(out.contains("Box$i32"), "expected concrete struct Box$i32 in:\n{out}");
}

#[test]
fn rewrites_generic_in_interface_method_signature() {
    let out = mono_debug(
        r#"
            enum Optional<T> { Some(T), None }
            enum Ordering { Less, Equal, Greater }
            interface PartialOrd<Rhs> {
                fn partial_compare(&self, other: &Rhs): Optional<Ordering>;
            }
            fn main(): i32 { 0 }
            "#,
    );
    assert!(
        out.contains("Optional$Ordering"),
        "expected Optional$Ordering generated and rewritten in:\n{out}"
    );
    assert!(out.contains("\"Rhs\""), "interface generic param Rhs must be preserved:\n{out}");
}

#[test]
fn repeated_enums_and_variants_are_rejected() {
    let kind = lower_kind("enum A { X } enum A { Y } fn main() { }");
    assert_eq!(kind, HirErrorKind::DuplicateEnum { name: "A" });
    let kind = lower_kind("enum A { X, X } fn main() { }");
    assert_eq!(kind, HirErrorKind::DuplicateVariant { name: "X" });
}

#[test]
fn an_empty_array_needs_a_type() {
    let kind = lower_kind("fn main() { let a = []; }");
    assert_eq!(kind, HirErrorKind::EmptyArrayType);
}

#[test]
fn casts_between_unrelated_types_are_rejected() {
    let kind = lower_kind("struct P { x: i32 } fn main() { let p = P { x: 1 }; let n = p as i32; }");
    assert!(matches!(kind, HirErrorKind::InvalidCast { .. }), "{kind:?}");
}

#[test]
fn only_places_can_be_assigned_to() {
    let kind = lower_kind("fn f(): i32 { 1 } fn main() { f() = 2; }");
    assert_eq!(kind, HirErrorKind::InvalidAssignmentTarget);
}

#[test]
fn constant_functions_call_constant_functions() {
    let kind = lower_kind("fn f(): i32 { 1 } const fn g(): i32 { f() } fn main() { }");
    let violation = ConstFnViolationKind::NonConstCall { name: "nyx::f" };
    assert_eq!(kind, HirErrorKind::ConstFnViolation(violation));
}

#[test]
fn structs_are_compared_through_an_interface() {
    let source = "struct P { x: i32 }
        fn main() { let a = P { x: 1 }; let b = P { x: 1 }; let c = a == b; }";
    match lower_kind(source) {
        HirErrorKind::OperatorRequiresInterface { op, operand, required } => {
            assert_eq!(op, "==");
            assert_eq!(operand, "P");
            assert_eq!(required, ComparisonInterface::Equality);
        },
        other => panic!("unexpected {other:?}"),
    }
    let source = "struct P { x: i32 }
        fn main() { let a = P { x: 1 }; let b = P { x: 1 }; let c = a < b; }";
    match lower_kind(source) {
        HirErrorKind::OperatorRequiresInterface { required, .. } => {
            assert_eq!(required, ComparisonInterface::Order)
        },
        other => panic!("unexpected {other:?}"),
    }
}

#[test]
fn bounds_are_held_against_arguments() {
    let source = "interface Show { fn show(&self): i32; }
        struct P { x: i32 }
        fn shown<T: Show>(value: T): i32 { 0 }
        fn main() { let n = shown::<P>(P { x: 1 }); }";
    match lower_kind(source) {
        HirErrorKind::UnsatisfiedBound { bound_name, .. } => assert_eq!(bound_name, "Show"),
        other => panic!("unexpected {other:?}"),
    }
}

#[test]
fn instances_go_as_deep_as_asked() {
    let program = parse("struct Wrap<T> { inner: &Wrap<Wrap<T> > }");
    let declarations = Declarations::partition(program, &Vec::new(), arena()).unwrap();
    let (mut scope, outcome) = Scope::new(arena()).extend(&declarations);
    outcome.unwrap();
    let args = [Type::new(TypeKind::I32)];
    match scope.instantiate_generic("Wrap", &args, Span::default(), 5).unwrap_err().kind {
        HirErrorKind::InstantiationTooDeep { name } => assert_eq!(name, "Wrap"),
        other => panic!("unexpected {other:?}"),
    }
}

#[test]
fn types_nest_deeply() {
    let levels = 80;
    let source = format!(
        "struct Box<T> {{ value: T }} fn take(b: {}i32{}) {{ }} fn main() {{ }}",
        "Box<".repeat(levels),
        " >".repeat(levels)
    );
    let hir = lower_ok(&source);
    assert_eq!(hir.structs.len(), levels);
}

#[test]
fn an_underscore_is_bound_once() {
    let kind = lower_kind("fn main() { let _ = 1; let _ = 2; }");
    assert_eq!(kind, HirErrorKind::DuplicateBind { name: "_" });
    lower_ok("fn main() { let _ = 1; if true { let _ = 2; } }");
}

#[test]
fn an_instance_is_no_code_of_the_standard_library() {
    let generic = "fn quit<T>(value: T) { syscall(SYS_EXIT, 0); } fn main() { quit::<i32>(1); }";
    let plain = "fn quit(value: i32) { syscall(SYS_EXIT, 0); } fn main() { quit(1); }";
    Files::new().with("/std/main.nyx", plain).loaded("/std/main.nyx");
    let err = Files::new().with("/std/main.nyx", generic).load("/std/main.nyx").err().unwrap();
    assert!(matches!(err, ModuleError::Diagnostic(_)), "{err:?}");
}

#[test]
fn a_method_call_needs_all_methods() {
    let library = "fn helper(): i32 { 1 }
        impl i32 { fn wrapping_add(&self, other: i32): i32 { helper() } }";
    let kept = |main: &'static str| {
        let files = Files::new().with("/std/int.nyx", library).with("/project/main.nyx", main);
        let hir = files.loaded("/project/main.nyx");
        hir.functions.iter().any(|f| hir.symbols.get(f.name).ends_with("helper"))
    };
    let shape = "struct P { x: i32 } impl P { fn get(&self): i32 { self.x } }
        fn main(): i32 { let p = P { x: 1 }; p.get() }";
    assert!(kept(shape));
    assert!(!kept("fn main(): i32 { 1 }"));
}

/// Whether an inference variable shows up in a type.
fn is_open(hir: &Hir<'static>, typ: Type) -> bool {
    match typ.kind() {
        TypeKind::Infer(_) => true,
        TypeKind::Array(id) => is_open(hir, hir.arrays[id.0 as usize].element),
        TypeKind::Slice { element, .. } => is_open(hir, Type::from_target(element)),
        TypeKind::Ref { to, .. } => is_open(hir, Type::from_target(to)),
        _ => false,
    }
}

#[test]
fn no_type_of_a_body_is_open_at_any_depth() {
    let hir = lower_ok(
        "const PAIR: [i32; 2] = [1, 2];
         fn same<T>(a: T): T { a }
         fn main() {
             let xs = [1, 2];
             let grid = [[1], [2]];
             let r = &xs;
             let y = 3;
             let z: i64 = y;
             let n = same(4);
         }",
    );
    assert_eq!(hir.functions.len(), 2);
    for function in &hir.functions {
        for local in function.locals {
            assert!(!is_open(&hir, local.typ));
        }
        for node in function.typeck.nodes {
            assert!(!is_open(&hir, node.typ));
            for arg in node.args.unwrap_or(&[]) {
                assert!(!is_open(&hir, *arg));
            }
        }
    }
    assert_eq!(hir.constants.len(), 1);
    for constant in &hir.constants {
        assert!(!constant.typeck.nodes.is_empty());
        assert!(constant.typeck.nodes.iter().all(|node| !is_open(&hir, node.typ)));
    }
    let main = hir.functions.iter().find(|f| hir.symbols.get(f.name) == "nyx::main").unwrap();
    let types: Vec<TypeKind> = main.locals.iter().map(|local| local.typ.kind()).collect();
    assert_eq!(&types[3..], &[TypeKind::I64, TypeKind::I64, TypeKind::I32]);
}

#[test]
fn the_files_of_a_program_are_looked_for_in_turn() {
    let resolver = ModuleResolver::new(APP, PROJECT, STD);
    let main = "use my_app::a; use my_app::b; use other::c; fn main() { }";
    let mut sources = Sources::new("/project/main.nyx", resolver, arena());
    assert_eq!(sources.next(), Some("/project/main.nyx"));
    assert_eq!(sources.next(), Some("/project/main.nyx"));
    assert!(!sources.again("/project/main.nyx"));
    sources.read("/project/main.nyx", parse(main));
    assert_eq!(sources.next(), Some("/project/a.nyx"));
    sources.read("/project/a.nyx", parse("use my_app::b; use my_app::main; use my_app::d;"));
    assert_eq!(sources.next(), Some("/project/b.nyx"));
    assert!(sources.again("/project/a.nyx"));
    assert_eq!(sources.next(), Some("/project/d.nyx"));
    sources.absent();
    let mut library = Vec::new();
    while let Some(path) = sources.next() {
        library.push(path);
        sources.absent();
    }
    assert_eq!(
        library,
        ["/std/int.nyx", "/std/float.nyx", "/std/char.nyx", "/std/default.nyx"]
    );
    let found: Vec<(&str, &str)> =
        sources.files().iter().map(|file| (file.path, file.canonical)).collect();
    assert_eq!(
        found,
        [
            ("/project/main.nyx", "/project/main.nyx"),
            ("/project/a.nyx", "/project/a.nyx"),
            ("/project/b.nyx", "/project/a.nyx"),
        ]
    );
}

#[test]
fn statements_have_no_place_at_the_top() {
    assert_eq!(lower_kind("let x = 1;"), HirErrorKind::TopLevelNonFunction);
    let err = Files::new().with("/project/main.nyx", "let x = 1;").load("/project/main.nyx");
    assert!(err.is_err());
}

#[test]
fn structs_that_hold_each_other_are_circular() {
    let source = "struct A { b: B } struct B { c: C } struct C { a: A } fn main() { }";
    assert!(matches!(lower_kind(source), HirErrorKind::CircularStruct { .. }));
    let hir = lower_ok("struct A { b: B } struct B { c: C } struct C { a: &A } fn main() { }");
    assert_eq!(hir.structs[0].layout.size, 8);
}

#[test]
fn fields_are_apart_and_aligned() {
    let hir = lower_ok("struct S { a: i8, b: i64, c: i16, d: i32 } fn main() { }");
    let offsets: Vec<u32> = hir.structs[0].fields.iter().map(|field| field.offset).collect();
    assert_eq!(offsets, vec![14, 0, 12, 8]);
    assert_eq!(hir.structs[0].layout.size, 16);
    let d = hir.symbols.get_id("d").unwrap();
    let origin = Type::structure(StructId(0));
    assert_eq!(struct_field(origin, d, &hir.structs).offset, 8);
}

#[test]
fn an_enum_holds_its_largest_payload() {
    let hir = lower_ok("enum E { A, B(i64), C(i8) } fn main() { }");
    assert_eq!(hir.enums[0].layout.size, 16);
    assert_eq!(hir.enums[0].payload_offset, 8);
}

#[test]
fn a_generic_call_gets_one_instance() {
    let hir = lower_ok(
        "fn id<T>(x: T): T { x } fn main() { let a = id::<i32>(1); let b = id::<i32>(2); }",
    );
    let instances =
        hir.functions.iter().filter(|f| hir.symbols.get(f.name).contains("id$i32")).count();
    assert_eq!(instances, 1);
}

#[test]
fn a_use_found_twice_gets_one_copy() {
    let mut statements = parse(
        "fn pick<T>(a: T, b: T): T { a } fn main(): i32 { pick(7, 9) + pick::<i32>(1, 2) }",
    )
    .clone();
    monomorphise(&mut statements, arena()).unwrap();
    assert_eq!(statements.len(), 2);
    match statements[1] {
        ast::Statement::Item(ast::Item { kind: ast::ItemKind::Fn(copy), .. }) => {
            assert_eq!(copy.name, "pick$i32");
            assert!(copy.generics.is_empty());
        },
        ref other => panic!("unexpected {other:?}"),
    }
}

#[test]
fn a_module_without_templates_is_left_alone() {
    let before = parse("struct P { x: i32 } fn main(): i32 { let p = P { x: 1 }; p.x }");
    let mut after = before.clone();
    monomorphise(&mut after, arena()).unwrap();
    assert_eq!(format!("{before:?}"), format!("{after:?}"));
}

#[test]
fn copies_bring_their_methods_along() {
    let out = mono_debug(
        "struct Cell<T> { value: T } impl Cell<T> { fn get(&self): T { self.value } }
         fn main(): i32 { let c = Cell { value: &1 }; 0 }",
    );
    assert!(out.contains("Cell$ref_i32"), "{out}");
    assert!(out.contains("impl_type: Some(\n"), "{out}");
}

#[test]
fn a_constant_is_copied_into_a_body() {
    let program = parse("const N: i32 = 1 + 2; fn main() { }");
    let hir = lowered(program).ok().unwrap();
    let constant = hir.constants[0];
    let function = match program[1] {
        ast::Statement::Item(ast::Item { kind: ast::ItemKind::Fn(function), .. }) => function,
        _ => panic!("expected a function"),
    };
    let mut builder = FunctionBuilder::new(Scope::new(arena()), function);
    let place = Span { start: 70, end: 71 };
    let copy = builder.splice_const(constant.value, constant.typeck, place);
    assert_eq!(copy.typ, Type::new(TypeKind::I32));
    assert_eq!(copy.span, place);
    assert_eq!(copy.expr.id.0, 2);
    assert_eq!(builder.nodes.len(), 3);
    match copy.expr.kind {
        ExpressionKind::Binary { operator, left, right } => {
            assert_eq!(operator, BinaryOperator::Add);
            assert_eq!(left.kind, ExpressionKind::Literal(Literal::Int(1)));
            assert_eq!(right.kind, ExpressionKind::Literal(Literal::Int(2)));
            assert_eq!(left.span, place);
        },
        ref other => panic!("unexpected {other:?}"),
    }
}

#[test]
fn unused_library_functions_are_left_out() {
    let files = Files::new()
        .with("/std/util.nyx", "pub fn used(): i32 { helper() } pub fn unused(): i32 { 2 } fn helper(): i32 { 1 }")
        .with("/project/main.nyx", "use std::util; fn main(): i32 { util::used() }");
    let hir = files.loaded("/project/main.nyx");
    let names: Vec<&str> = hir.functions.iter().map(|f| hir.symbols.get(f.name)).collect();
    assert_eq!(names, vec!["nyx::used", "nyx::helper", "nyx::main"]);
}

#[test]
fn the_entry_comes_last() {
    let files = Files::new()
        .with("/project/main.nyx", "use my_app::a::{one}; fn main(): i32 { one() }")
        .with("/project/a.nyx", "pub fn one(): i32 { 1 }");
    let hir = files.loaded("/project/main.nyx");
    assert_eq!(hir.symbols.get(hir.functions.last().unwrap().name), "nyx::main");
}

#[test]
fn a_failed_analysis_has_nothing_to_show() {
    let loader = ModuleLoader::new("tmp", "/tmp", STD, arena()).recovering();
    let outcome = loader.load("/tmp/missing.nyx", &Vec::new());
    let a = Analysis::conclude(&outcome, SourceMap::new(), "tmp", "/tmp", STD, &Vec::new());
    assert!(!a.ok);
    assert!(a.hover_types.is_empty() && a.inlay_hints.is_empty());
    assert_eq!(a.diagnostics.len(), 1);
}

#[test]
fn overlays_stand_for_files() {
    let analysis = Analysis::new("/p/main.nyx".to_string())
        .with_overlay("/p/a.nyx".to_string(), "one".to_string())
        .with_overlays(vec![
            ("/p/a.nyx".to_string(), "two".to_string()),
            ("/p/b.nyx".to_string(), "three".to_string()),
        ]);
    assert_eq!(analysis.overlay("/p/a.nyx"), Some("two"));
    assert_eq!(analysis.overlay("/p/b.nyx"), Some("three"));
    assert_eq!(analysis.overlay("/p/c.nyx"), None);
}

#[test]
fn definitions_are_found_by_the_span_of_a_use() {
    let content = "fn main() { let x = 232; let y = x; }";
    let a = analyse("defs", content);
    let at = content.rfind('x').unwrap() as u32;
    let key = span_key(Span { start: at, end: at + 1 });
    let target = a.goto_definitions[&key];
    assert_eq!(span_text(content, target), "x");
    let starts: Vec<u32> = a.hover_types.iter().map(|(span, _)| span.start).collect();
    let mut sorted = starts.clone();
    sorted.sort();
    assert_eq!(starts, sorted);
}

#[test]
fn float_constants_are_shown_by_the_given_text() {
    let program = "const HALF: f64 = 0.5; fn main() { }";
    let hir = lower_ok(program);
    let mut map = SourceMap::new();
    map.add_file("/tmp/main.nyx".to_string(), program.to_string());
    let modules = module_paths(&map, "tmp", "/tmp", STD);
    assert_eq!(modules, vec!["tmp".to_string()]);
    let floats = vec![(0.5f64.to_bits(), "0.5".to_string())];
    let a = walk_hir(&hir, &map, &modules, &floats);
    let shown = &a.hover_types.iter().find(|(_, h)| h.ty.contains("HALF")).unwrap().1;
    assert_eq!(shown.ty, "const HALF: f64 = 0.5");
}

#[test]
fn interfaces_are_dispatched_statically() {
    let hir = lower_ok(
        r#"
        interface Sink {
            fn push(&mut self, value: i32);
            fn total(&self): i32;
        }

        struct Counter {
            value: i32,
        }

        impl Counter with Sink {
            fn push(&mut self, value: i32) {
                self.value = self.value + value;
            }

            fn total(&self): i32 {
                self.value
            }
        }

        fn collect<S: Sink>(sink: &mut S): i32 {
            loop value in 1..=4 {
                sink.push(value);
            }
            sink.total()
        }

        fn main(): i32 {
            let mut counter = Counter { value: 0 };
            collect(&mut counter)
        }
        "#,
    );
    assert!(hir.functions.iter().any(|f| hir.symbols.get(f.name).contains("collect$")));
}

#[test]
fn arrays_coerce_to_slices() {
    let hir = lower_ok(
        r#"
        fn sum(values: &[i32]): i32 {
            let mut total = 0;

            loop value in values {
                total = total + value;
            }

            total
        }

        fn main(): i32 {
            let values: [i32; 5] = [1, 2, 3, 4, 5];
            sum(&values)
        }
        "#,
    );
    assert_eq!(hir.functions.len(), 2);
}

#[test]
fn constant_functions_may_call_themselves() {
    let hir = lower_ok(
        r#"
        const fn fibonacci(n: i32): i32 {
            if n < 2 { return n; }
            else { return fibonacci(n - 1) + fibonacci(n - 2); }
        }

        fn main(): i32 {
            fibonacci(10)
        }
        "#,
    );
    assert!(hir.functions[0].is_const);
}

#[test]
fn patterns_bind_payloads() {
    let hir = lower_ok(
        r#"
        struct Point {
            x: i32,
            y: i32,
        }

        enum Shape {
            Empty,
            At(Point),
        }

        fn score(shape: Shape): i32 {
            match shape {
                Shape::Empty -> 0,
                Shape::At(point) -> point.x * point.x + point.y * point.y,
            }
        }

        fn main(): i32 {
            score(Shape::At(Point { x: 3, y: 4 }))
        }
        "#,
    );
    assert_eq!(hir.functions.len(), 2);
}

#[test]
fn a_shared_reference_does_not_allow_mutable_methods() {
    let error = lower_err(
        r#"
        struct Counter { value: i32 }

        impl Counter {
            fn add(&mut self, delta: i32) {
                self.value = self.value + delta;
            }
        }

        fn bump(counter: &Counter) {
            counter.add(1);
        }
        "#,
    );
    assert_eq!(error.kind, HirErrorKind::ImmutableBind { name: "counter" });
}

#[test]
fn no_inference_variable_is_left() {
    let hir = lower_ok(
        r#"
        fn first(values: &[i64]): i64 { values[0] }

        fn main(): i32 {
            let open = 1;
            let pinned = 2;
            let wide: i64 = pinned;
            let nested = [[1, 2], [3, 4]];
            let seen = first(&[5, 6]);
            open
        }
        "#,
    );
    for function in &hir.functions {
        assert!(function.locals.iter().all(|local| !local.typ.is_infer()));
        assert!(function.typeck.nodes.iter().all(|node| !node.typ.is_infer()));
    }
    assert!(hir.arrays.iter().all(|array| !array.element.is_infer()));
    let main = hir.functions.iter().find(|f| hir.symbols.get(f.name).ends_with("main")).unwrap();
    let typ = |name: &str| {
        let local = main.locals.iter().find(|l| hir.symbols.get(l.name) == name).unwrap();
        local.typ
    };
    assert_eq!(typ("open"), Type::new(TypeKind::I32));
    assert_eq!(typ("pinned"), Type::new(TypeKind::I64));
}

#[test]
fn nothing_is_recorded_without_recovery() {
    let hir = lower_ok("fn main(): i32 { 1 }");
    assert!(hir.diagnostics.is_empty());

    let entry = arena().place_str("/tmp/nyx_plain.nyx");
    let text = "fn f(): i32 { true }\nfn main(): i32 { unknown }";
    let files = || vec![ModuleFile { path: entry, canonical: entry, statements: parse(text) }];
    let strict = ModuleLoader::new("tmp", "/tmp", STD, arena()).load(entry, &files());
    assert!(matches!(strict, Err((errors, _)) if errors.is_empty()));

    let lenient = ModuleLoader::new("tmp", "/tmp", STD, arena()).recovering().load(entry, &files());
    assert_eq!(lenient.unwrap().diagnostics.len(), 2);
}

#[test]
fn ids_of_earlier_modules_stay() {
    let first = parse("struct A { x: i32 }\nfn one(): i32 { 1 }");
    let second = parse("struct B { a: A }\nfn two(): i32 { one() }");
    let first = Declarations::partition(first, &Vec::new(), arena()).unwrap();
    let second = Declarations::partition(second, &Vec::new(), arena()).unwrap();
    let (scope, outcome) = Scope::new(arena()).extend(&first);
    outcome.unwrap();
    let names: Vec<String> =
        scope.signatures.iter().map(|s| scope.symbols.get(s.name).to_string()).collect();
    let (scope, outcome) = scope.extend(&second);
    outcome.unwrap();
    assert_eq!(scope.signatures.len(), names.len() + 1);
    for (signature, name) in scope.signatures.iter().zip(&names) {
        assert_eq!(scope.symbols.get(signature.name), name);
    }
    assert_eq!(scope.structs.len(), 2);
    assert_eq!(scope.symbols.get(scope.structs[0].name), "A");
}

#[test]
fn failed_analysis_has_only_its_errors() {
    let error = RichDiagnostic::bare("cannot parse".to_string());
    let analysis = SemanticAnalysis::failed(vec![error], SourceMap::new());
    assert!(!analysis.ok);
    assert_eq!(analysis.diagnostics.len(), 1);
    assert!(analysis.hover_types.is_empty());
    assert!(analysis.goto_definitions.is_empty());
    assert!(analysis.inlay_hints.is_empty());
    assert!(analysis.document_symbols.is_empty());
}

#[test]
fn every_call_goes_to_a_lowered_function() {
    let hir = lower_ok(
        r#"
        fn same<T>(value: T): T { value }
        fn twice<T>(value: T): T { same(same(value)) }

        fn main(): i32 {
            let flag = twice(true);
            let wide: i64 = same(2);
            twice(1)
        }
        "#,
    );
    let mut calls = 0;
    for function in &hir.functions {
        for node in function.typeck.nodes.iter() {
            if let Some(Res::Function(callee)) = node.def {
                calls += 1;
                assert!(hir.functions.iter().any(|f| f.id == callee));
            }
        }
    }
    assert!(calls >= 7);
}

#[test]
fn a_module_leaves_earlier_items_alone() {
    let first = parse("struct A { x: i32, y: bool } enum E { P, Q(i64) } fn one(): i32 { 1 }");
    let second = parse(
        "struct Box<T> { value: T } impl Box<T> { fn get(&self): T { self.value } }
         struct B { a: A }
         enum F { R(E) }
         fn two(b: Box<i32>): i32 { b.get() + one() }",
    );
    let first = Declarations::partition(first, &Vec::new(), arena()).unwrap();
    let second = Declarations::partition(second, &Vec::new(), arena()).unwrap();
    let (scope, outcome) = Scope::new(arena()).extend(&first);
    outcome.unwrap();
    let structs = scope.structs.clone();
    let enums = scope.enums.clone();
    let named = [scope.struct_map.clone().len(), scope.enum_map.clone().len()];
    let functions = scope.functions.clone();
    let (scope, outcome) = scope.extend(&second);
    outcome.unwrap();
    assert_eq!(named, [1, 1]);
    assert_eq!(&scope.structs[..1], &structs[..]);
    assert_eq!(&scope.enums[..1], &enums[..]);
    assert_eq!(scope.structs[0].fields.len(), 2);
    assert_eq!(scope.enums[0].variants.len(), 2);
    for (name, id) in functions.iter() {
        assert_eq!(scope.functions.get(name), Some(id));
    }
    assert_eq!(scope.structs.len(), 3);
    for (i, definition) in scope.structs.iter().enumerate() {
        assert_eq!(definition.id.0 as usize, i);
    }
    for (i, definition) in scope.enums.iter().enumerate() {
        assert_eq!(definition.id.0 as usize, i);
    }
}

#[test]
fn an_instance_is_made_once() {
    let program = parse(
        "struct Box<T> { value: T } impl Box<T> { fn get(&self): T { self.value } }
         enum Maybe<T> { Some(T), None }",
    );
    let declarations = Declarations::partition(program, &Vec::new(), arena()).unwrap();
    let (mut scope, outcome) = Scope::new(arena()).extend(&declarations);
    outcome.unwrap();
    let args = [Type::new(TypeKind::I32)];
    let first = Span { start: 1, end: 2 };
    let second = Span { start: 8, end: 9 };
    let boxed = scope.instantiate_generic("Box", &args, first, MAX_DEPTH).unwrap();
    let maybe = scope.instantiate_generic("Maybe", &args, first, MAX_DEPTH).unwrap();
    let sizes = |scope: &Scope| {
        [
            scope.structs.len(),
            scope.enums.len(),
            scope.signatures.len(),
            scope.functions.len(),
            scope.methods.len(),
            scope.struct_map.len(),
            scope.enum_map.len(),
        ]
    };
    let before = sizes(&scope);
    assert_eq!(&before[..3], &[1, 1, 1]);
    assert_eq!(scope.instantiate_generic("Box", &args, second, MAX_DEPTH).unwrap(), boxed);
    assert_eq!(scope.instantiate_generic("Maybe", &args, second, MAX_DEPTH).unwrap(), maybe);
    assert_eq!(sizes(&scope), before);
}

#[test]
fn a_later_constant_takes_the_place_of_its_namesake() {
    let first = parse("const A: i32 = 1; const N: i32 = 2;");
    let second = parse("const M: i32 = 3; const N: i32 = 7;");
    let first = Declarations::partition(first, &Vec::new(), arena()).unwrap();
    let second = Declarations::partition(second, &Vec::new(), arena()).unwrap();
    let (scope, outcome) = Scope::new(arena()).extend(&first);
    outcome.unwrap();
    let (scope, outcome) = scope.extend(&second);
    outcome.unwrap();
    let shown: Vec<(&str, ExpressionKind)> = scope
        .constants
        .iter()
        .map(|constant| (scope.symbols.get(constant.name), constant.value.kind))
        .collect();
    assert_eq!(
        shown,
        vec![
            ("nyx::A", ExpressionKind::Literal(Literal::Int(1))),
            ("nyx::N", ExpressionKind::Literal(Literal::Int(7))),
            ("nyx::M", ExpressionKind::Literal(Literal::Int(3))),
        ]
    );
}

#[test]
fn a_guard_stays_as_it_is() {
    let out = mono_debug(
        "fn same<T>(a: T): T { a }
         fn pick<T>(a: T, n: i32): i32 { match n { 0 if same::<T>(a) == a -> 1, _ -> 2 } }
         fn main(): i32 { pick::<i64>(3, 0) }",
    );
    assert!(out.contains("pick$i64"), "{out}");
    assert!(!out.contains("same$i64"), "{out}");
}

#[test]
fn guards_arrays_and_loops_ask_for_no_copies() {
    let out = mono_debug(
        "fn same<T>(a: T): T { a }
         fn main(): i32 {
             let xs = [same::<i64>(3)];
             loop { same::<u8>(3); break; }
             match 1 { 0 if same::<i16>(3) == 3 -> 1, _ -> 3 }
         }",
    );
    assert!(!out.contains("same$"), "{out}");
    let out = mono_debug("fn same<T>(a: T): T { a } fn main() { let x = same::<i64>(3); }");
    assert!(out.contains("name: \"same$i64\""), "{out}");
}

#[test]
fn a_callee_comes_before_its_type_arguments() {
    let entry = arena().place_str("/tmp/nyx_callee.nyx");
    let text = "fn one(): i32 { 1 }\nfn main(): i32 { one::<Missing>(); 2 }";
    let files = vec![ModuleFile { path: entry, canonical: entry, statements: parse(text) }];
    let loader = ModuleLoader::new("tmp", "/tmp", STD, arena()).recovering();
    let hir = loader.load(entry, &files).unwrap();
    assert_eq!(hir.diagnostics.len(), 1);
    let main = hir.functions.iter().find(|f| hir.symbols.get(f.name) == "nyx::main").unwrap();
    assert_eq!(main.typeck.nodes.len(), 2);
}
