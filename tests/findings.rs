use loctree::aggregate::{
    dynamic_display_order, graph_reexport_edges,
    build_export_index, find_cascades, has_repeated, is_dev_file, make_group, summarize_dynamic,
};
use loctree::analyzer::{default_analyzer_exts, summarize_root, with_resolutions};
use loctree::commands::{missing_handlers, unused_handlers};
use loctree::js::analyze_js_file;
use loctree::rust_lang::analyze_rust_file;
use loctree::types::FileAnalysis;

fn script(path: &str, content: &str) -> FileAnalysis {
    analyze_js_file(content, path.to_string())
}

#[test]
fn duplicate_export_across_two_files() {
    let files = vec![
        script("a.ts", "export const X = 1;\n"),
        script("b.ts", "export const X = 2;\n"),
    ];
    let summary = summarize_root(&files);
    assert_eq!(summary.files_analyzed, 2);
    assert_eq!(summary.duplicates.len(), 1);
    assert_eq!(summary.ranked.len(), 1);
    let g = &summary.ranked[0];
    assert_eq!(g.name, "X");
    assert_eq!(g.score, 4);
    assert_eq!(g.prod_count, 2);
    assert_eq!(g.dev_count, 0);
    assert_eq!(g.canonical, "a.ts");
    assert_eq!(g.refactors, vec!["b.ts".to_string()]);
}

#[test]
fn dev_files_weigh_less_and_are_not_canonical() {
    let files = vec![
        "src/__tests__/x.test.ts".to_string(),
        "src/x.ts".to_string(),
        "src/x.stories.tsx".to_string(),
    ];
    let g = make_group(&"X".to_string(), &files);
    assert_eq!(g.dev_count, 2);
    assert_eq!(g.prod_count, 1);
    assert_eq!(g.score, 4);
    assert_eq!(g.canonical, "src/x.ts");
    assert_eq!(
        g.refactors,
        vec!["src/__tests__/x.test.ts".to_string(), "src/x.stories.tsx".to_string()]
    );
    let all_dev = vec!["b/__tests__/y.ts".to_string(), "a/__tests__/y.ts".to_string()];
    let h = make_group(&"Y".to_string(), &all_dev);
    assert_eq!(h.canonical, "b/__tests__/y.ts");
    assert_eq!(h.score, 2);
}

#[test]
fn dev_file_markers() {
    assert!(is_dev_file("src/__tests__/a.ts"));
    assert!(is_dev_file("src/Button.stories.tsx"));
    assert!(is_dev_file("src/story.ts"));
    assert!(!is_dev_file("src/app.ts"));
}

#[test]
fn ranking_by_score_then_size() {
    let files = vec![
        script("a.ts", "export const A = 1;\nexport const B = 1;\n"),
        script("b.ts", "export const A = 1;\nexport const B = 1;\n"),
        script("c.ts", "export const B = 1;\n"),
        script("x.test/__tests__/d.ts", "export const C = 1;\n"),
        script("e.ts", "export const C = 1;\n"),
    ];
    let summary = summarize_root(&files);
    let order: Vec<_> = summary.ranked.iter().map(|g| (g.name.clone(), g.score)).collect();
    assert_eq!(
        order,
        vec![("B".to_string(), 6), ("A".to_string(), 4), ("C".to_string(), 3)]
    );
}

#[test]
fn same_file_twice_is_not_a_duplicate() {
    let files = vec![script("a.ts", "export const X = 1;\nexport { X };\n")];
    let index = build_export_index(&files);
    assert_eq!(index.len(), 1);
    assert_eq!(index[0].files, vec!["a.ts".to_string()]);
    assert!(summarize_root(&files).ranked.is_empty());
}

#[test]
fn cascade_through_a_reexporting_file() {
    let a = script("a.ts", "export { y } from \"./mid\";\n");
    let mid = script("mid.ts", "export { z } from \"./leaf\";\n");
    let leaf = script("leaf.ts", "export const z = 1;\n");
    let a = with_resolutions(a, vec![Some("mid.ts".to_string())]);
    let mid = with_resolutions(mid, vec![Some("leaf.ts".to_string())]);
    let files = vec![a, mid, leaf];
    let cascades = find_cascades(&files);
    assert_eq!(cascades, vec![("a.ts".to_string(), "mid.ts".to_string())]);
}

#[test]
fn missing_handler_for_a_call() {
    let files = vec![script("app.ts", "safeInvoke(\"ping\");\n")];
    let missing = missing_handlers(&files);
    assert_eq!(missing.len(), 1);
    assert_eq!(missing[0].name, "ping");
    assert_eq!(missing[0].locations, vec![("app.ts".to_string(), 1)]);
    assert!(unused_handlers(&files).is_empty());
}

#[test]
fn matched_and_unused_handlers() {
    let fe = script("app.ts", "invoke(\"greet\");\n");
    let be = analyze_rust_file(
        "#[tauri::command]\nfn greet() {}\n#[tauri::command]\npub fn idle() {}\n",
        "main.rs".to_string(),
    );
    let files = vec![fe, be];
    assert!(missing_handlers(&files).is_empty());
    let unused = unused_handlers(&files);
    assert_eq!(unused.len(), 1);
    assert_eq!(unused[0].name, "idle");
    assert_eq!(unused[0].locations, vec![("main.rs".to_string(), 4)]);
}

#[test]
fn repeated_dynamic_import() {
    let files = vec![script(
        "a.ts",
        "import(\"./lazy\");\nimport(\"./lazy\");\nimport(\"./other\");\n",
    )];
    let d = summarize_dynamic(&files);
    assert_eq!(d.len(), 1);
    assert_eq!(d[0].file, "a.ts");
    assert_eq!(d[0].sources.len(), 3);
    assert!(d[0].self_import);
    assert!(!d[0].many_sources);
}

#[test]
fn many_dynamic_sources() {
    let content = "import('./a');import('./b');import('./c');import('./d');import('./e');import('./f');";
    let d = summarize_dynamic(&vec![script("m.ts", content)]);
    assert!(d[0].many_sources);
    assert!(!d[0].self_import);
    assert!(!has_repeated(&vec!["x".to_string(), "y".to_string()]));
}

#[test]
fn default_extensions() {
    assert_eq!(
        default_analyzer_exts(),
        vec!["ts", "tsx", "js", "jsx", "mjs", "cjs"]
            .into_iter()
            .map(String::from)
            .collect::<Vec<_>>()
    );
}

#[test]
fn dynamic_summaries_by_source_count() {
    let files = vec![
        script("a.ts", "import('./x');\n"),
        script("b.ts", "import('./x');\nimport('./y');\n"),
        script("c.ts", "import('./z');\n"),
    ];
    let d = summarize_dynamic(&files);
    assert_eq!(dynamic_display_order(&d), vec![1, 0, 2]);
}

#[test]
fn reexport_graph_edges() {
    let a = with_resolutions(
        script("a.ts", "export * from \"./b\";\nexport * from \"pkg\";\n"),
        vec![Some("b.ts".to_string()), None],
    );
    let files = vec![a, script("b.ts", "export const B = 1;\n")];
    assert_eq!(
        graph_reexport_edges(&files),
        vec![("a.ts".to_string(), "b.ts".to_string(), "reexport".to_string())]
    );
}
