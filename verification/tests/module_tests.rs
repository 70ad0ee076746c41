use aeonmi::ast::ASTNode;
use aeonmi::enhanced_error::ErrorKind;
use aeonmi::module_system::{analyze_module, join, CompilationContext, ModuleImport, ModuleResolver};

fn s(x: &str) -> String {
    x.to_string()
}

fn import(path: &[&str], items: Option<&[&str]>) -> ASTNode {
    ASTNode::Import {
        path: path.iter().map(|p| s(p)).collect(),
        items: items.map(|it| it.iter().map(|i| s(i)).collect()),
    }
}

fn func(name: &str) -> ASTNode {
    ASTNode::new_function(name, vec![], vec![])
}

fn program(stmts: Vec<ASTNode>) -> ASTNode {
    ASTNode::Program(stmts)
}

fn sorted(mut v: Vec<String>) -> Vec<String> {
    v.sort();
    v
}

#[test]
fn analysis_collects_imports_exports_and_dependencies() {
    let ast = program(vec![
        import(&["std", "io"], Some(&["read", "write"])),
        import(&["math"], None),
        func("f"),
        ASTNode::StructDecl { name: s("S"), fields: vec![], line: 1, column: 1 },
        ASTNode::Module {
            path: vec![s("inner")],
            body: vec![
                ASTNode::EnumDecl { name: s("E"), variants: vec![s("A")], line: 2, column: 1 },
                import(&["util"], None),
                func("f"),
            ],
        },
        ASTNode::Return(Box::new(ASTNode::Identifier(s("x")))),
    ]);
    let (imports, exports, deps) = analyze_module(&ast);
    assert_eq!(sorted(exports), vec![s("E"), s("S"), s("f")]);
    assert_eq!(sorted(deps), vec![s("math"), s("std::io"), s("util")]);
    let keys: Vec<String> = imports.iter().map(|(k, _)| k.clone()).collect();
    assert_eq!(sorted(keys), vec![s("math"), s("read,write"), s("util")]);
    let (_, io) = imports.iter().find(|(k, _)| k == "read,write").unwrap();
    assert_eq!(io.path, vec![s("std"), s("io")]);
    assert_eq!(io.items, Some(vec![s("read"), s("write")]));
    assert_eq!(io.alias, None);
}

#[test]
fn join_uses_the_separator_between_parts() {
    assert_eq!(join(&vec![s("a"), s("b"), s("c")], "::"), "a::b::c");
    assert_eq!(join(&vec![s("a")], ","), "a");
    assert_eq!(join(&vec![], ","), "");
}

fn project() -> ModuleResolver {
    let mut r = ModuleResolver::new(s("."));
    r.add_module(s("main"), s("main.aeon"), program(vec![import(&["a"], None), import(&["b"], Some(&["g"]))]));
    r.add_module(s("a"), s("a.aeon"), program(vec![import(&["c"], None), func("fa")]));
    r.add_module(s("b"), s("b.aeon"), program(vec![import(&["c"], None), func("g")]));
    r.add_module(s("c"), s("c.aeon"), program(vec![func("h")]));
    r
}

#[test]
fn compilation_order_puts_dependencies_first() {
    let r = project();
    let order = r.resolve_dependencies("main").unwrap();
    assert_eq!(order, vec![s("c"), s("a"), s("b"), s("main")]);
    assert_eq!(r.get_compilation_order("b").unwrap(), vec![s("c"), s("b")]);
    assert_eq!(r.get_compilation_order("c").unwrap(), vec![s("c")]);
}

#[test]
fn circular_dependency_is_refused() {
    let mut r = ModuleResolver::new(s("."));
    r.add_module(s("x"), s("x.aeon"), program(vec![import(&["y"], None)]));
    r.add_module(s("y"), s("y.aeon"), program(vec![import(&["x"], None)]));
    let e = r.resolve_dependencies("x").unwrap_err();
    assert_eq!(e.kind, ErrorKind::CircularDependency);
    assert_eq!(e.message, "Circular dependency detected involving module 'x'");
    let mut r = ModuleResolver::new(s("."));
    r.add_module(s("self_ref"), s("s.aeon"), program(vec![import(&["self_ref"], None)]));
    assert_eq!(r.resolve_dependencies("self_ref").unwrap_err().kind, ErrorKind::CircularDependency);
}

#[test]
fn missing_dependency_is_refused() {
    let mut r = ModuleResolver::new(s("."));
    r.add_module(s("main"), s("main.aeon"), program(vec![import(&["ghost"], None)]));
    let e = r.resolve_dependencies("main").unwrap_err();
    assert_eq!(e.kind, ErrorKind::ModuleNotFound);
    assert_eq!(e.message, "Module 'ghost' not found in search paths");
    let e = r.resolve_dependencies("nowhere").unwrap_err();
    assert_eq!(e.message, "Module 'nowhere' not found in search paths");
}

#[test]
fn imports_are_checked_against_exports() {
    let r = project();
    let ok = ModuleImport { path: vec![s("b")], items: Some(vec![s("g")]), alias: None };
    assert!(r.validate_import("main", &ok).is_ok());
    let bad = ModuleImport { path: vec![s("b")], items: Some(vec![s("g"), s("zz"), s("yy")]), alias: None };
    let e = r.validate_import("main", &bad).unwrap_err();
    assert_eq!(e.kind, ErrorKind::ImportError);
    assert_eq!(e.message, "Module 'b' does not export 'zz'");
    let missing = ModuleImport { path: vec![s("q"), s("r")], items: None, alias: None };
    let e = r.validate_import("main", &missing).unwrap_err();
    assert_eq!(e.kind, ErrorKind::ModuleNotFound);
    assert_eq!(e.message, "Module 'q::r' not found");
    assert!(r.validate_all_imports().is_ok());
}

#[test]
fn symbols_are_found_in_the_modules_that_export_them() {
    let r = project();
    assert_eq!(r.find_symbol_module("g").unwrap().name, "b");
    assert_eq!(r.find_symbol_module("h").unwrap().path, "c.aeon");
    assert!(r.find_symbol_module("nothing").is_none());
}

#[test]
fn a_module_is_loaded_once() {
    let mut r = project();
    r.add_module(s("c"), s("other.aeon"), program(vec![]));
    assert_eq!(r.find_symbol_module("h").unwrap().path, "c.aeon");
}

#[test]
fn project_compiles_in_order_and_reports_bad_imports() {
    let mut ctx = CompilationContext::new(s("."), s("main"));
    ctx.resolver.add_module(s("main"), s("main.aeon"), program(vec![import(&["lib"], Some(&["f"]))]));
    ctx.resolver.add_module(s("lib"), s("lib.aeon"), program(vec![func("f")]));
    assert!(ctx.compile_project().is_ok());
    assert_eq!(ctx.compilation_order, vec![s("lib"), s("main")]);
    assert_eq!(ctx.get_modules().len(), 2);

    let mut bad = CompilationContext::new(s("."), s("main"));
    bad.resolver.add_module(s("main"), s("main.aeon"), program(vec![import(&["lib"], Some(&["nope"]))]));
    bad.resolver.add_module(s("lib"), s("lib.aeon"), program(vec![func("f")]));
    let e = bad.compile_project().unwrap_err();
    assert_eq!(e.message, "Module 'lib' does not export 'nope'");
    assert_eq!(bad.compilation_order, vec![s("lib"), s("main")]);
}
