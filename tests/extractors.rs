use loctree::analyzer::{analyze_content, language_of, Language};
use loctree::css::analyze_css_file;
use loctree::js::analyze_js_file;
use loctree::names::{brace_list_to_names, parse_rust_brace_names};
use loctree::py::analyze_py_file;
use loctree::rust_lang::analyze_rust_file;
use loctree::types::{ImportKind, ReexportKind};

#[test]
fn detects_commands_reexports_and_exports() {
    let content = r#"
import defaultThing from "./dep";
import type { Foo } from "./types";
import "./side.css";
export { bar } from "./reexports";
export * from "./star";
export const localValue = 1;
export default function MyComp() {}
export { namedA, namedB as aliasB };
const dyn = import("./lazy");
safeInvoke("cmd_safe");
invokeSnake("cmd_snake");
invoke("cmd_invoke");
safeInvoke<Foo.Bar>("cmd_generic_safe");
invokeSnake<MyType>("cmd_generic_snake");
invoke<Inline<Ok>>("cmd_generic_invoke");
invokeAudioCamel<Baz>("cmd_audio_generic");
        "#;

    let analysis = analyze_js_file(content, "app.tsx".to_string());

    assert!(analysis
        .imports
        .iter()
        .any(|i| i.source == "./dep" && matches!(i.kind, ImportKind::Static)));
    assert!(analysis
        .imports
        .iter()
        .any(|i| i.source == "./side.css" && matches!(i.kind, ImportKind::SideEffect)));
    assert!(analysis.reexports.iter().any(|r| r.source == "./reexports"));
    assert!(analysis.reexports.iter().any(|r| r.source == "./star"));
    assert!(analysis.dynamic_imports.iter().any(|s| s == "./lazy"));

    let commands: Vec<_> = analysis
        .command_calls
        .iter()
        .map(|c| c.name.clone())
        .collect();
    assert!(commands.contains(&"cmd_safe".to_string()));
    assert!(commands.contains(&"cmd_snake".to_string()));
    assert!(commands.contains(&"cmd_invoke".to_string()));
    assert!(commands.contains(&"cmd_generic_safe".to_string()));
    assert!(commands.contains(&"cmd_generic_snake".to_string()));
    assert!(commands.contains(&"cmd_generic_invoke".to_string()));
    assert!(commands.contains(&"cmd_audio_generic".to_string()));

    let export_names: Vec<_> = analysis.exports.iter().map(|e| e.name.clone()).collect();
    assert!(export_names.contains(&"localValue".to_string()));
    assert!(export_names.contains(&"MyComp".to_string()));
    assert!(export_names.contains(&"namedA".to_string()));
}

#[test]
fn script_command_lines_are_one_based() {
    let content = "const a = 1;\n\nsafeInvoke(\"ping\");\n";
    let analysis = analyze_js_file(content, "a.ts".to_string());
    assert_eq!(analysis.command_calls.len(), 1);
    assert_eq!(analysis.command_calls[0].name, "ping");
    assert_eq!(analysis.command_calls[0].line, 3);
}

#[test]
fn script_named_reexports_are_exports_too() {
    let analysis = analyze_js_file("export { a, b as c } from \"./x\";\n", "m.ts".to_string());
    assert_eq!(analysis.reexports.len(), 1);
    match &analysis.reexports[0].kind {
        ReexportKind::Named(names) => assert_eq!(names, &vec!["a".to_string(), "c".to_string()]),
        ReexportKind::Star => panic!("expected a named re-export"),
    }
    let reexported: Vec<_> = analysis
        .exports
        .iter()
        .filter(|e| e.kind == "reexport")
        .map(|e| e.name.clone())
        .collect();
    assert_eq!(reexported, vec!["a".to_string(), "c".to_string()]);
    assert!(analysis.reexports[0].resolved.is_none());
}

#[test]
fn anonymous_default_export_is_named_default() {
    let analysis = analyze_js_file("export default function () {}\n", "d.ts".to_string());
    assert_eq!(analysis.exports.len(), 1);
    assert_eq!(analysis.exports[0].name, "default");
    assert_eq!(analysis.exports[0].kind, "default");
}

#[test]
fn stylesheet_url_import() {
    let analysis = analyze_css_file("@import url(\"reset.css\");\n", "main.css".to_string());
    assert_eq!(analysis.imports.len(), 1);
    assert_eq!(analysis.imports[0].source, "reset.css");
    assert!(matches!(analysis.imports[0].kind, ImportKind::Static));
    assert!(analysis.exports.is_empty());
    assert!(analysis.reexports.is_empty());
}

#[test]
fn stylesheet_import_forms() {
    let analysis = analyze_css_file("@import \"a.css\";\n@import url(b.css);\n", "s.css".to_string());
    let sources: Vec<_> = analysis.imports.iter().map(|i| i.source.clone()).collect();
    assert_eq!(sources, vec!["a.css".to_string(), "b.css".to_string()]);
}

#[test]
fn rust_module_items() {
    let content = "use std::fmt;\npub use crate::a::{B, c as D, self};\npub use crate::m::*;\npub use crate::x::Y as Z;\npub use crate::p::Q;\npub fn run() {}\npub(crate) struct S;\npub const K: u8 = 1;\n#[tauri::command]\npub async fn greet() {}\n";
    let analysis = analyze_rust_file(content, "lib.rs".to_string());
    let imports: Vec<_> = analysis.imports.iter().map(|i| i.source.clone()).collect();
    assert_eq!(
        imports,
        vec![
            "std::fmt".to_string(),
            "crate::a::{B, c as D, self}".to_string(),
            "crate::m::*".to_string(),
            "crate::x::Y as Z".to_string(),
            "crate::p::Q".to_string()
        ]
    );
    assert_eq!(analysis.reexports.len(), 4);
    match &analysis.reexports[0].kind {
        ReexportKind::Named(n) => assert_eq!(n, &vec!["B".to_string(), "D".to_string()]),
        ReexportKind::Star => panic!("expected names"),
    }
    assert!(matches!(analysis.reexports[1].kind, ReexportKind::Star));
    assert_eq!(analysis.reexports[2].source, "crate::x::Y");
    match &analysis.reexports[2].kind {
        ReexportKind::Named(n) => assert_eq!(n, &vec!["Z".to_string()]),
        ReexportKind::Star => panic!("expected names"),
    }
    match &analysis.reexports[3].kind {
        ReexportKind::Named(n) => assert_eq!(n, &vec!["Q".to_string()]),
        ReexportKind::Star => panic!("expected names"),
    }
    let exports: Vec<_> = analysis
        .exports
        .iter()
        .map(|e| (e.name.clone(), e.kind.clone()))
        .collect();
    assert_eq!(
        exports,
        vec![
            ("B".to_string(), "reexport".to_string()),
            ("D".to_string(), "reexport".to_string()),
            ("Z".to_string(), "reexport".to_string()),
            ("Q".to_string(), "reexport".to_string()),
            ("run".to_string(), "decl".to_string()),
            ("greet".to_string(), "decl".to_string()),
            ("S".to_string(), "decl".to_string()),
            ("K".to_string(), "decl".to_string()),
        ]
    );
    assert_eq!(analysis.command_handlers.len(), 1);
    assert_eq!(analysis.command_handlers[0].name, "greet");
    assert_eq!(analysis.command_handlers[0].line, 10);
}

#[test]
fn python_module_items() {
    let content = "import os, sys as system  # comment\nfrom .pkg.mod import *\nfrom x import (a, b)\nm = importlib.import_module(\"plugins.one\")\n__all__ = ['alpha', \"beta\"]\ndef visible():\n    pass\ndef _hidden():\n    pass\nclass Thing:\n    pass\n";
    let analysis = analyze_py_file(content, "m.py".to_string());
    let imports: Vec<_> = analysis.imports.iter().map(|i| i.source.clone()).collect();
    assert_eq!(
        imports,
        vec!["os".to_string(), "sys".to_string(), ".pkg.mod".to_string(), "x".to_string()]
    );
    assert_eq!(analysis.reexports.len(), 1);
    assert_eq!(analysis.reexports[0].source, ".pkg.mod");
    assert!(matches!(analysis.reexports[0].kind, ReexportKind::Star));
    assert_eq!(analysis.dynamic_imports, vec!["plugins.one".to_string()]);
    let exports: Vec<_> = analysis
        .exports
        .iter()
        .map(|e| (e.name.clone(), e.kind.clone()))
        .collect();
    assert_eq!(
        exports,
        vec![
            ("alpha".to_string(), "__all__".to_string()),
            ("beta".to_string(), "__all__".to_string()),
            ("visible".to_string(), "def".to_string()),
            ("Thing".to_string(), "class".to_string()),
        ]
    );
}

#[test]
fn brace_lists() {
    assert_eq!(
        brace_list_to_names(" a, b as c ,, d "),
        vec!["a".to_string(), "c".to_string(), "d".to_string()]
    );
    assert_eq!(
        parse_rust_brace_names("self, A, b as C"),
        vec!["A".to_string(), "C".to_string()]
    );
}

#[test]
fn language_by_extension() {
    assert_eq!(language_of("src/app.tsx"), Some(Language::Script));
    assert_eq!(language_of("styles/main.css"), Some(Language::Stylesheet));
    assert_eq!(language_of("pkg/mod.py"), Some(Language::Python));
    assert_eq!(language_of("src/lib.rs"), Some(Language::Rust));
    assert_eq!(language_of("README.md"), None);
    assert_eq!(language_of(".ts"), None);
}

#[test]
fn extraction_is_repeatable() {
    let content = "export const X = 1;\nimport(\"./a\");\n";
    let first = analyze_content(Language::Script, content, "x.ts".to_string());
    let second = analyze_content(Language::Script, content, "x.ts".to_string());
    let names = |f: &loctree::types::FileAnalysis| -> Vec<String> {
        f.exports.iter().map(|e| e.name.clone()).collect()
    };
    assert_eq!(names(&first), names(&second));
    assert_eq!(first.dynamic_imports, second.dynamic_imports);
    assert_eq!(first.path, second.path);
}

#[test]
fn python_methods_are_not_exported() {
    let content = "class A:\n    def method(self):\n        pass\n    class Inner:\n        pass\ndef _private():\n    pass\ndef public():\n    pass\n";
    let analysis = analyze_py_file(content, "m.py".to_string());
    let mut exports: Vec<_> = analysis
        .exports
        .iter()
        .map(|e| (e.name.clone(), e.kind.clone()))
        .collect();
    exports.sort();
    assert_eq!(
        exports,
        vec![("A".to_string(), "class".to_string()), ("public".to_string(), "def".to_string())]
    );
}

#[test]
fn extension_case_is_ignored() {
    assert_eq!(language_of("src/A.TS"), Some(Language::Script));
    assert_eq!(language_of("lib/Main.Rs"), Some(Language::Rust));
}
