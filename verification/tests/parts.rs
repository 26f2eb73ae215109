//! The smaller parts of the library, one by one.

use nyx::arena::{Arena, SourceArena};
use nyx::ast;
use nyx::ast::{Span, Spanned};
use nyx::diagnostic::{
    add_file, reset, take_source_map, AsDiagnostic, Builder, Diagnostic, NyxError, RichDiagnostic,
};
use nyx::hir::arrays::ArrayTable;
use nyx::hir::error::{HirError, HirErrorKind};
use nyx::hir::infer::InferTable;
use nyx::hir::interfaces::substitute_self;
use nyx::hir::monomorph::subst::subst_type_simple;
use nyx::hir::symbols::{assembly_label, Mangler, SymbolTable};
use nyx::hir::topo::topological_sort;
use nyx::hir::tree::Intrinsic;
use nyx::hir::types::{
    tag, EnumId, EnumRepr, RefTarget, RefTargetKind, StructId, Type, TypeKind,
};
use nyx::module::error::ModuleError;
use nyx::module::paths::file_module_text;
use nyx::source_map::{FileId, SourceMap};

#[test]
fn the_arena_keeps_what_it_is_given() {
    let arena = Arena::new();
    let number = arena.place(7u32);
    let list = arena.place_slice(&vec![1u8, 2, 3]);
    let text = arena.place_str("abc");
    assert_eq!(*number, 7);
    assert_eq!(list, &[1, 2, 3]);
    assert_eq!(text, "abc");
    let sources = SourceArena::new();
    assert_eq!(sources.store("fn main() { }".to_string()), "fn main() { }");
}

#[test]
fn names_are_interned_once() {
    let mut table = SymbolTable::new();
    let a = table.insert("alpha");
    let b = table.insert("beta");
    assert_ne!(a, b);
    assert_eq!(table.insert("alpha"), a);
    assert_eq!(table.get(a), "alpha");
    assert_eq!(table.get_id("beta"), Some(b));
    assert_eq!(table.get_id("gamma"), None);
    assert_eq!(table.into_symbols(), vec!["alpha".to_string(), "beta".to_string()]);
}

#[test]
fn names_are_joined_and_become_labels() {
    let mangler = Mangler::new("math");
    assert_eq!(mangler.item("add"), "math::add");
    assert_eq!(mangler.scoped_item("Point", "sum"), "math::Point::sum");
    assert_eq!(assembly_label("nyx::Point::sum"), "nyx.Point.sum");
    assert_eq!(assembly_label("a:b:::c"), "a:b.:c");
}

#[test]
fn variables_take_the_type_they_meet() {
    let mut table = InferTable::new();
    let a = table.fresh();
    let b = table.fresh();
    let long = Type::new(TypeKind::I64);
    assert_eq!(table.unify(a, b), Ok(()));
    assert_eq!(table.unify(b, long), Ok(()));
    assert_eq!(table.resolve_or_default(a), long);
    assert_eq!(table.unify(a, Type::new(TypeKind::Bool)), Err(()));
    let c = table.fresh();
    assert_eq!(table.resolve_or_default(c), Type::new(TypeKind::I32));
}

#[test]
fn array_types_are_interned_once() {
    let mut arrays = ArrayTable::new();
    let byte = Type::new(TypeKind::U8);
    let first = arrays.intern(byte, 4);
    assert_eq!(arrays.intern(byte, 4), first);
    assert_ne!(arrays.intern(byte, 5), first);
    assert_eq!(arrays.get(first).len, 4);
}

#[test]
fn nodes_come_after_what_they_depend_on() {
    let order = topological_sort(&vec![vec![1, 2], vec![2], vec![]]).unwrap();
    assert_eq!(order, vec![2, 1, 0]);
    assert!(topological_sort(&vec![vec![1], vec![0]]).is_err());
}

#[test]
fn files_follow_each_other() {
    let mut map = SourceMap::new();
    assert!(map.is_empty());
    assert_eq!(map.add_file("a".to_string(), "xyz".to_string()), (FileId(0), 0));
    assert_eq!(map.add_file("b".to_string(), "".to_string()), (FileId(1), 4));
    assert_eq!(map.add_file("c".to_string(), "é".to_string()), (FileId(2), 5));
    assert_eq!(map.add_file("d".to_string(), "1".to_string()), (FileId(3), 8));
    assert_eq!(map.file_of(3), Some(0));
    assert_eq!(map.file_of(4), Some(1));
    assert_eq!(map.file_of(7), Some(2));
    assert_eq!(map.file_of(100), Some(3));
    let taken = take_source_map(&mut map);
    assert_eq!(taken.files.len(), 4);
    assert!(map.is_empty());
}

#[test]
fn a_file_stands_for_a_module() {
    assert_eq!(file_module_text("/app/src/io/file.nyx", "app", "/app", "/std"), "app::src::io::file");
    assert_eq!(file_module_text("/app/main.nyx", "app", "/app", "/std"), "app");
    assert_eq!(file_module_text("/std/io.nyx", "app", "/app", "/std"), "std::io");
    assert_eq!(file_module_text("/other/x.nyx", "app", "/app", "/std"), "x");
}

#[test]
fn a_path_keeps_the_dot_it_begins_with() {
    assert_eq!(file_module_text("a/b.nyx", "p", ".", "/std"), "b");
    assert_eq!(file_module_text("./a/b.nyx", "p", ".", "/std"), "p::a::b");
    assert_eq!(file_module_text("./a/./b.nyx", "p", "./a", "/std"), "p::b");
    assert_eq!(file_module_text("/./a/b.nyx", "p", "/a", "/std"), "p::b");
    assert_eq!(file_module_text(".", "p", "/a", "/std"), "p");
}

/// A text without the codes that paint it.
fn unpainted(text: &str) -> String {
    let mut plain = String::new();
    let mut inside = false;
    for c in text.chars() {
        if c == '\u{1b}' {
            inside = true;
        } else if inside {
            inside = c != 'm';
        } else {
            plain.push(c);
        }
    }
    plain
}

#[test]
fn files_of_one_name_show_their_own_text() {
    let mut map = SourceMap::new();
    let (_, first) = map.add_file("same.nyx".to_string(), "let alpha = 1;".to_string());
    let (_, second) = map.add_file("same.nyx".to_string(), "let omega = 22;".to_string());
    let report = Builder::new("named alike".to_string())
        .primary(Span { start: first + 4, end: first + 9 }, "one".to_string())
        .secondary(Span { start: second + 4, end: second + 9 }, "other".to_string())
        .build(&map);
    let text = unpainted(&report.display());
    for part in ["let alpha = 1;", "let omega = 22;"] {
        assert!(text.contains(part), "{part} in {text}");
    }
}

#[test]
fn a_tag_is_the_position_of_a_kind() {
    let to = RefTarget::new(RefTargetKind::Struct(StructId(9)));
    let kinds = [
        (TypeKind::Unit, 0),
        (TypeKind::I8, 1),
        (TypeKind::Struct(StructId(7)), 17),
        (TypeKind::Enum(EnumId(3, EnumRepr::U8)), 18),
        (TypeKind::SelfType, 19),
        (TypeKind::Ref { mutable: true, to }, 20),
        (TypeKind::Error, 26),
    ];
    for (kind, position) in kinds {
        assert_eq!(tag(Type::new(kind).bits()), position);
        assert_eq!(Type::new(kind).kind(), kind);
    }
}

#[test]
fn a_target_is_a_type_of_the_same_kind() {
    let target = RefTarget::new(RefTargetKind::Struct(StructId(9)));
    assert_eq!(target.kind(), RefTargetKind::Struct(StructId(9)));
    let typ = Type::from_target(target);
    assert_eq!(typ.kind(), TypeKind::Struct(StructId(9)));
    assert_eq!(RefTarget::from_type(typ), Some(target));
    assert_eq!(RefTarget::from_type(Type::refer(target, false)), None);
}

#[test]
fn self_is_replaced_for_good() {
    let shape = Type::structure(StructId(4));
    let this = RefTarget::new(RefTargetKind::SelfType);
    let behind = Type::refer(this, true);
    let replaced = substitute_self(behind, shape);
    assert_eq!(substitute_self(Type::new(TypeKind::SelfType), shape), shape);
    assert_eq!(replaced, Type::refer(RefTarget::from_type(shape).unwrap(), true));
    assert_eq!(substitute_self(replaced, shape), replaced);
    let number = Type::new(TypeKind::I64);
    assert_eq!(substitute_self(number, shape), number);
}

#[test]
fn a_report_without_a_place_is_its_message() {
    let map = SourceMap::new();
    let plain = Builder::new("nothing there".to_string()).build(&map);
    assert_eq!(plain.display(), "nothing there");
}

#[test]
fn a_report_shows_the_place() {
    let mut map = SourceMap::new();
    map.add_file("first.nyx".to_string(), "fn one() { }".to_string());
    let (_, base) = map.add_file("second.nyx".to_string(), "fn two() { }\nfn two() { }".to_string());
    let report = Builder::new("declared twice".to_string())
        .primary(Span { start: base + 16, end: base + 19 }, "again here".to_string())
        .secondary(Span { start: base + 3, end: base + 6 }, "first here".to_string())
        .note("names are shared".to_string())
        .help("rename one".to_string())
        .build(&map);
    let text = report.display();
    for part in ["declared twice", "again here", "first here", "names are shared", "rename one"] {
        assert!(text.contains(part), "{part} in {text}");
    }
    assert!(text.contains("second.nyx:2:4"), "{text}");
    assert!(!text.contains("first.nyx"), "{text}");
}

#[test]
fn errors_render_with_their_labels() {
    let mut map = SourceMap::new();
    map.add_file("main.nyx".to_string(), "fn main() { foo(); }".to_string());
    let span = Span { start: 12, end: 15 };
    let kind = HirErrorKind::UnknownFunction { name: "foo" };
    let message = kind.message();
    let text = HirError::new(kind, span).into_diagnostic(span, &map).display();
    assert!(text.contains(&message), "{text}");
    assert!(text.contains("main.nyx:1:13"), "{text}");
}

#[test]
fn plain_diagnostics_keep_their_text() {
    let rich = RichDiagnostic::bare("broken".to_string());
    assert_eq!(rich.text(), "broken");
    let diagnostic = Diagnostic::from_builder(Builder::new("gone".to_string()), &SourceMap::new());
    assert_eq!(NyxError::from(diagnostic).text(), "gone\n");
}

#[test]
fn module_errors_say_what_is_missing() {
    let span = Span { start: 1, end: 2 };
    let error = ModuleError::UnknownRoot { name: "other", span };
    assert_eq!(error.span(), Some(span));
    assert!(error.message().contains("other"));
    let rich = ModuleError::EmptyPath.rich(Span::default());
    assert!(rich.help.is_some());
}

#[test]
fn a_reset_map_forgets_its_files() {
    let mut map = SourceMap::new();
    let (_, first) = add_file(&mut map, "a.nyx".to_string(), "abc".to_string());
    let (_, second) = add_file(&mut map, "b.nyx".to_string(), "d".to_string());
    assert!(second > first);
    reset(&mut map);
    assert!(map.files.is_empty());
    let (_, again) = add_file(&mut map, "c.nyx".to_string(), "e".to_string());
    assert_eq!(again, first);
}

#[test]
fn wrapping_intrinsics_are_arithmetic() {
    assert!(Intrinsic::WrappingMul.is_wrapping());
    assert!(!Intrinsic::Len.is_wrapping());
}

#[test]
fn three_types_have_32_bits() {
    for kind in [TypeKind::I32, TypeKind::U32, TypeKind::F32] {
        assert!(Type::new(kind).is_32_bit());
    }
    assert!(!Type::new(TypeKind::I64).is_32_bit());
}

#[test]
fn type_arguments_keep_their_places() {
    let arena = Arena::new();
    let outer = Span { start: 4, end: 9 };
    let inner = Span { start: 6, end: 7 };
    let open = Spanned { value: ast::Type::Named("T"), span: inner };
    let nested = ast::Type::Generic("Box", arena.place(vec![open]));
    let typ = ast::Type::Generic("Pair", arena.place(vec![Spanned { value: nested, span: outer }]));
    let env = vec![("T", ast::Type::I64)];
    let ast::Type::Generic(name, args) = subst_type_simple(&typ, &env, &arena) else { panic!() };
    assert_eq!((name, args.len(), args[0].span), ("Pair", 1, outer));
    let ast::Type::Generic(name, args) = args[0].value else { panic!() };
    assert_eq!((name, args.len(), args[0].span), ("Box", 1, inner));
    assert!(matches!(args[0].value, ast::Type::I64));
}

#[test]
fn a_map_tells_whether_it_has_room() {
    let mut map = SourceMap::new();
    assert!(map.can_add());
    map.add_file("a.nyx".to_string(), "fn main() { }".to_string());
    assert!(map.can_add());
    map.files[0].start = u32::MAX - 14;
    assert!(map.can_add());
    map.files[0].start = u32::MAX - 13;
    assert!(!map.can_add());
}
