use deepseek_code::context::{
    build_structure_summary, build_system_prompt, estimate_tokens, git_status_text, has_extension,
    memory_entry, priority_exts, searches_entry, shows_entry, strip_md, time_harness_system_section,
    ContextEngine, FileContext, KeyFileCollector, TreeEntry,
};

#[test]
fn time_harness_section_is_clock_free_and_has_decision_procedure() {
    let section = time_harness_system_section();
    assert!(!section.contains("Current wall-clock time"), "frozen clock leaked back: {section}");
    assert!(section.contains("[time_harness now=...]"), "authoritative clock not referenced: {section}");
    assert!(section.contains("Decision procedure"), "decision chain missing: {section}");
    assert!(section.contains("potentially wrong"), "label-verification rule missing: {section}");
    assert!(section.contains("content-embedded"), "content freshness rule missing: {section}");
}

#[test]
fn tokens_follow_the_script() {
    assert_eq!(estimate_tokens(""), 0);
    assert_eq!(estimate_tokens("abcdefgh"), 2);
    assert!(estimate_tokens("你好世界") >= 2);
}

fn leaf(name: &str) -> TreeEntry {
    TreeEntry { name: name.to_string(), is_dir: false, children: vec![] }
}

#[test]
fn the_structure_is_a_sorted_tree() {
    let src = TreeEntry {
        name: "src".to_string(),
        is_dir: true,
        children: vec![leaf("main.rs"), leaf("lib.rs")],
    };
    let s = build_structure_summary(vec![src, leaf("b.md"), leaf(".env"), leaf("a.md")]);
    assert_eq!(
        s,
        "## Project Structure\n\n```\na.md\nb.md\nsrc/\n  lib.rs\n  main.rs\n```\n"
    );
}

#[test]
fn hidden_and_generated_names_are_left_out() {
    assert!(shows_entry(".deepseek-code"));
    assert!(!searches_entry(".deepseek-code"));
    assert!(!shows_entry(".git"));
    assert!(!shows_entry("node_modules"));
    assert!(shows_entry("src"));
    assert!(searches_entry("src"));
    assert_eq!(priority_exts()[0], "toml");
    assert!(has_extension("a.rs", "rs"));
    assert!(!has_extension("ars", "rs"));
}

fn file(path: &str, n: usize) -> (String, String) {
    (path.to_string(), "x".repeat(n))
}

#[test]
fn key_files_are_bounded() {
    let mut c = KeyFileCollector::new(2);
    assert!(c.wants_more());
    let (p, t) = file("a.rs", 40);
    c.offer(p, t, "rs");
    let (p, t) = file("huge.rs", 400_000);
    c.offer(p, t, "rs");
    let (p, t) = file("b.rs", 80);
    c.offer(p, t, "rs");
    assert!(!c.wants_more());
    let kept = c.finish();
    assert!(kept.len() <= 2);
    assert!(kept.iter().all(|f| f.path != "huge.rs"));
    assert!(kept.iter().any(|f| f.path == "a.rs" && f.estimated_tokens == 10));
}

#[test]
fn memories_and_git_status_are_shaped() {
    assert_eq!(strip_md("note.md"), "note");
    assert_eq!(strip_md("note"), "note");
    assert!(memory_entry("note.txt", "x").is_none());
    assert!(memory_entry("note.md", "remember me").unwrap().contains("remember me"));
    assert!(git_status_text(false, "M a").is_none());
    assert!(git_status_text(true, " M a\n").unwrap().contains("a"));
}

#[test]
fn a_scan_counts_what_the_prompt_takes() {
    let mut e = ContextEngine::new("/w".to_string());
    assert!(!e.should_compact());
    let f = FileContext {
        path: "a.rs".to_string(),
        content: "fn a() {}".to_string(),
        language: "rs".to_string(),
        estimated_tokens: 2,
    };
    let p = e.scan_workspace("12345678".to_string(), vec![f], Some("clean".to_string()), vec![]);
    assert_eq!(p.workspace_root, "/w");
    let b = e.breakdown();
    assert_eq!(b.structure_tokens, 2);
    assert_eq!(b.key_files_tokens, 2);
    assert_eq!(b.max_tokens, 1_048_576);
    let with = build_system_prompt(&p, true);
    let without = build_system_prompt(&p, false);
    assert!(with.contains("Decision procedure"));
    assert!(!without.contains("Decision procedure"));
    e.token_usage = 580_001;
    assert!(e.should_compact());
}
