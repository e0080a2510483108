use loctree::args::{
    extension_set, parse_args, parse_color_mode, parse_extensions, parse_summary_limit, ColorMode,
    Mode, OutputMode,
};
use loctree::html::{escape_html, linkify, render_html_report, GraphJson, ReportSection};
use loctree::open::{
    editor_command, goto_argument, is_suspicious_path, parse_open_request, url_decode_component,
    url_encode_component, OpenRequest,
};
use loctree::resolve::{
    choose_open_root, first_existing, path_starts_with, relativize, resolve_plan,
};

#[test]
fn resolve_plan_probes_extensions_in_order() {
    let exts = vec!["ts".to_string(), "tsx".to_string()];
    let plan = resolve_plan("src/app.tsx", "./dep", &exts).unwrap();
    assert_eq!(plan.candidate, "src/./dep");
    assert_eq!(
        plan.probes,
        vec!["src/./dep.ts".to_string(), "src/./dep.tsx".to_string(), "src/./dep".to_string()]
    );
    let with_ext = resolve_plan("src/app.tsx", "./side.css", &exts).unwrap();
    assert_eq!(with_ext.probes, vec!["src/./side.css".to_string()]);
    assert!(resolve_plan("src/app.tsx", "react", &exts).is_none());
    assert!(resolve_plan("", "./x", &exts).is_none());
}

#[test]
fn first_existing_probe_wins() {
    assert_eq!(first_existing(false, &vec![false, true, true]), Some(1));
    assert_eq!(first_existing(false, &vec![false, false]), None);
    assert_eq!(first_existing(true, &vec![true]), None);
}

#[test]
fn relative_to_root() {
    assert_eq!(relativize("/home/p/src/mid.ts", "/home/p"), "src/mid.ts");
    assert_eq!(relativize("/home/p/src/mid.ts", "/home/p/"), "src/mid.ts");
    assert_eq!(relativize("/other/mid.ts", "/home/p"), "/other/mid.ts");
    assert_eq!(relativize("/home/pp/x.ts", "/home/p"), "/home/pp/x.ts");
    assert!(path_starts_with("/home/p/a.ts", "/home/p"));
    assert!(!path_starts_with("/home/p/../x", "/home/q"));
}

#[test]
fn url_component_round_trip() {
    assert_eq!(url_encode_component("src/a b.ts"), "src%2Fa%20b.ts");
    assert_eq!(url_encode_component("é"), "%C3%A9");
    assert_eq!(url_decode_component("src%2Fa%20b.ts"), Some("src/a b.ts".to_string()));
    assert_eq!(url_decode_component("%4"), None);
    assert_eq!(url_decode_component("%zz"), None);
    assert_eq!(url_decode_component("%+F"), Some("\u{f}".to_string()));
}

#[test]
fn open_requests() {
    match parse_open_request("GET /open?f=src%2Fa.ts&l=12 HTTP/1.1") {
        OpenRequest::Open { file, line } => {
            assert_eq!(file, "src/a.ts");
            assert_eq!(line, 12);
        }
        _ => panic!("expected an open request"),
    }
    match parse_open_request("GET /open?f=a.ts&l=0 HTTP/1.1") {
        OpenRequest::Open { line, .. } => assert_eq!(line, 1),
        _ => panic!("expected an open request"),
    }
    assert!(matches!(parse_open_request("GET /open?l=3 HTTP/1.1"), OpenRequest::BadRequest));
    assert!(matches!(parse_open_request("GET /other HTTP/1.1"), OpenRequest::NotFound));
    assert!(matches!(parse_open_request(""), OpenRequest::NotFound));
}

#[test]
fn editor_invocations() {
    assert_eq!(
        editor_command("code -g {file}:{line}", "/p/a.ts", 7),
        vec!["code".to_string(), "-g".to_string(), "/p/a.ts:7".to_string()]
    );
    assert_eq!(goto_argument("/p/a.ts", 0), "/p/a.ts:1");
    assert!(is_suspicious_path("a\nb"));
    assert!(!is_suspicious_path("/p/a.ts"));
}

#[test]
fn html_escaping_and_links() {
    assert_eq!(escape_html("<a href=\"x\">&</a>"), "&lt;a href=&quot;x&quot;&gt;&amp;&lt;/a&gt;");
    assert_eq!(linkify(None, "a<b.ts", 3), "a&lt;b.ts:3");
    assert_eq!(
        linkify(Some("http://127.0.0.1:9"), "src/a.ts", 3),
        "<a href=\"http://127.0.0.1:9/open?f=src%2Fa.ts&l=3\">src/a.ts:3</a>"
    );
}

#[test]
fn html_report_sections() {
    let section = ReportSection {
        root: "my<root>".to_string(),
        files_analyzed: 2,
        ranked_dups: Vec::new(),
        cascades: vec![("a.ts".to_string(), "mid.ts".to_string())],
        dynamic: Vec::new(),
        analyze_limit: 8,
        missing_handlers: Vec::new(),
        unused_handlers: Vec::new(),
        command_counts: (0, 0),
        open_base: None,
        graph: Some(GraphJson { nodes_json: "[]".to_string(), edges_json: "[]".to_string() }),
    };
    let html = render_html_report(&vec![section]);
    assert!(html.starts_with("<!DOCTYPE html>"));
    assert!(html.ends_with("</body></html>"));
    assert!(html.contains("<h2>my&lt;root&gt;</h2><p class=\"muted\">Files analyzed: 2</p>"));
    assert!(html.contains("<li><code>a.ts</code> \u{2192} <code>mid.ts</code></li>"));
    assert!(html.contains("All frontend calls have matching handlers."));
    assert!(html.contains("id=\"graph-my_root_\""));
}

#[test]
fn flag_values() {
    assert_eq!(parse_color_mode("never"), Ok(ColorMode::Never));
    assert_eq!(
        parse_color_mode("blue"),
        Err("--color expects auto|always|never".to_string())
    );
    assert_eq!(parse_summary_limit("+12"), Ok(12));
    assert!(parse_summary_limit("0").is_err());
    assert!(parse_summary_limit("x").is_err());
    assert_eq!(
        parse_extensions(" .TS, tsx,ts, ,"),
        Some(vec!["ts".to_string(), "tsx".to_string()])
    );
    assert_eq!(parse_extensions(" , ."), None);
}

#[test]
fn extension_set_from_lowered() {
    assert_eq!(
        extension_set(&vec!["ts".to_string(), "".to_string(), "ts".to_string(), "js".to_string()]),
        Some(vec!["ts".to_string(), "js".to_string()])
    );
    assert_eq!(extension_set(&vec!["".to_string()]), None);
}

#[test]
fn command_lines() {
    let args: Vec<String> = ["-A", "--json", "--limit", "3", "--ext=ts,.JS", "-I", "dist", "src", "--color"]
        .iter()
        .map(|s| s.to_string())
        .collect();
    let p = parse_args(&args).unwrap();
    assert!(p.mode == Mode::AnalyzeImports);
    assert!(p.output == OutputMode::Json);
    assert_eq!(p.analyze_limit, 3);
    assert_eq!(p.extensions, Some(vec!["ts".to_string(), "js".to_string()]));
    assert_eq!(p.ignore_patterns, vec!["dist".to_string()]);
    assert_eq!(p.root_list, vec!["src".to_string()]);
    assert!(p.color == ColorMode::Always);

    let defaults = parse_args(&Vec::new()).unwrap();
    assert_eq!(defaults.root_list, vec![".".to_string()]);
    assert_eq!(defaults.analyze_limit, 8);
    assert_eq!(defaults.summary_limit, 5);

    let bad = parse_args(&vec!["--limit".to_string(), "0".to_string()]);
    assert_eq!(bad.err(), Some("--limit requires a positive integer".to_string()));
    let missing = parse_args(&vec!["--html-report".to_string()]);
    assert_eq!(missing.err(), Some("--html-report requires a file path".to_string()));
    let summary = parse_args(&vec!["--summary".to_string(), "-A".to_string()]).unwrap();
    assert!(summary.summary);
    assert_eq!(summary.summary_limit, 5);
    assert!(summary.mode == Mode::AnalyzeImports);
}

#[test]
fn graph_json_is_escaped_in_script() {
    let section = ReportSection {
        root: "r".to_string(),
        files_analyzed: 1,
        ranked_dups: Vec::new(),
        cascades: Vec::new(),
        dynamic: Vec::new(),
        analyze_limit: 8,
        missing_handlers: Vec::new(),
        unused_handlers: Vec::new(),
        command_counts: (0, 0),
        open_base: None,
        graph: Some(GraphJson {
            nodes_json: "[\"</script><b>&\"]".to_string(),
            edges_json: "[]".to_string(),
        }),
    };
    let html = render_html_report(&vec![section]);
    assert!(html.contains("nodes:[\"\\u003c/script\\u003e\\u003cb\\u003e\\u0026\"],edges:[]"));
    assert!(!html.contains("</script><b>"));
}

#[test]
fn open_root_choice() {
    let roots = vec!["/a".to_string(), "/b".to_string(), "/c".to_string()];
    let canon = vec![
        Some("/elsewhere/x.ts".to_string()),
        None,
        Some("/c/x.ts".to_string()),
    ];
    assert_eq!(choose_open_root(&roots, &canon), Some(2));
    let all = vec![Some("/b/x.ts".to_string()); 3];
    assert_eq!(choose_open_root(&roots, &all), Some(1));
    let none = vec![Some("/d/x.ts".to_string()); 3];
    assert_eq!(choose_open_root(&roots, &none), None);
}
