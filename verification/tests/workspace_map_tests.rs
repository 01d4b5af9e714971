use rovdex::symbols::{extract_symbols, SymbolPatterns};
use rovdex::workspace_map::{detect_language, is_key_file, relative_display_path, should_visit, MapBuilder, WorkspaceMapOptions};

fn add(builder: &mut MapBuilder, patterns: &SymbolPatterns, path: &str, content: &str) {
    let name = path.rsplit('/').next().unwrap_or(path);
    let ext = name.rsplit_once('.').map(|(_, e)| e);
    let size = content.len() as u64;
    if let Some(language) = builder.accept_file(Some(path), Some(name), ext, Some(size)) {
        builder.add_file(patterns, path, &language, content);
    }
}

#[test]
fn scans_workspace_and_extracts_symbols() {
    let patterns = SymbolPatterns::compile().ok().expect("patterns");
    let mut builder = MapBuilder::new(String::from("/tmp/demo"), WorkspaceMapOptions::default());
    add(&mut builder, &patterns, "Cargo.toml", "[package]\nname = \"demo\"\nversion = \"0.1.0\"\n");
    add(&mut builder, &patterns, "src/main.rs", "pub struct App;\nfn main() {}\n");
    let map = builder.finish();

    assert_eq!(map.scanned_files, 2);
    assert!(map.languages.get("rust").is_some());
    assert!(map
        .key_files
        .iter()
        .any(|file| file.path == "src/main.rs" && file.symbols.contains(&String::from("App"))));
}

#[test]
fn symbols_come_from_declarations() {
    let names = extract_symbols("pub struct App;\n  enum Mode {}\nexport async function run() {}\nlet x = 1;\nclass Widget {}\n", 8)
        .ok()
        .expect("symbols");
    assert_eq!(names, vec!["App", "Mode", "run", "Widget"]);
    let capped = extract_symbols("fn a() {}\nfn b() {}\nfn c() {}\n", 2).ok().expect("symbols");
    assert_eq!(capped, vec!["a", "b"]);
    let zero = extract_symbols("fn a() {}\nfn b() {}\n", 0).ok().expect("symbols");
    assert_eq!(zero, vec!["a"]);
}

#[test]
fn languages_come_from_names_and_extensions() {
    assert_eq!(detect_language(Some("Cargo.toml"), Some("toml")), Some(String::from("toml")));
    assert_eq!(detect_language(Some("README.MD"), Some("MD")), Some(String::from("markdown")));
    assert_eq!(detect_language(Some("x.TSX"), Some("TSX")), Some(String::from("typescript")));
    assert_eq!(detect_language(Some("x.bin"), Some("bin")), None);
    assert_eq!(detect_language(Some("Makefile"), None), None);
}

#[test]
fn key_files_and_skipped_directories() {
    assert!(is_key_file("Cargo.toml"));
    assert!(is_key_file("crates/core/src/lib.rs"));
    assert!(!is_key_file("src/app.rs"));
    assert!(!should_visit(1, true, "target"));
    assert!(should_visit(0, true, "target"));
    assert!(should_visit(2, false, "node_modules"));
    assert_eq!(relative_display_path("src\\main.rs"), "src/main.rs");
}

#[test]
fn map_renders_as_markdown() {
    let patterns = SymbolPatterns::compile().ok().expect("patterns");
    let mut builder = MapBuilder::new(String::from("/tmp/demo"), WorkspaceMapOptions::default());
    add(&mut builder, &patterns, "src/lib.rs", "pub trait Tool {}\n");
    let map = builder.finish();
    let text = map.render_markdown();
    assert!(text.starts_with("Workspace map:\n- root: /tmp/demo\n- scanned_files: 1\n- total_lines: 1\n"));
    assert!(text.contains("- languages: rust(1)\n"));
    assert!(text.contains("  - src (1)\n"));
    assert!(text.contains("  - src/lib.rs [rust] lines=1 symbols=Tool\n"));
}

#[test]
fn language_and_directory_counts_sum_to_the_scanned_files() {
    let patterns = SymbolPatterns::compile().ok().expect("patterns");
    let mut builder = MapBuilder::new(String::from("/tmp/demo"), WorkspaceMapOptions::default());
    add(&mut builder, &patterns, "src/main.rs", "fn main() {}\n");
    add(&mut builder, &patterns, "src/lib.rs", "pub struct A;\n");
    add(&mut builder, &patterns, "README.md", "# demo\n");
    add(&mut builder, &patterns, "web/app.ts", "export class App {}\n");
    add(&mut builder, &patterns, "blob.bin", "zz");
    let map = builder.finish();
    assert_eq!(map.scanned_files, 4);
    let languages: usize = map.languages.entries.iter().map(|(_, n)| *n).sum();
    assert_eq!(languages, 4);
    assert_eq!(map.languages.get("rust"), Some(&2));
    let directories: usize = map.directories.iter().map(|d| d.file_count).sum();
    assert_eq!(directories, 4);
}
