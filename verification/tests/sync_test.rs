use coda_cli::commands::sync::{context_md, index_md, plural, ManifestDocEntry, PageDetail, SyncManifest, TableDetail};
use coda_cli::commands::sync_report::{
    completion_text, doc_dir, doc_read_payload, dry_run_notice, dry_run_preview, sync_summary, SyncRetry,
    GITIGNORE_TEXT,
};
use coda_cli::commands::sync_run::{SyncEffect, SyncRun, SyncStats, SyncStep};
use coda_cli::error::CodaError;
use coda_cli::json::Json;

fn to_json(v: &serde_json::Value) -> Json {
    match v {
        serde_json::Value::Null => Json::Null,
        serde_json::Value::Bool(b) => Json::Bool(*b),
        serde_json::Value::Number(n) => Json::Number(n.to_string()),
        serde_json::Value::String(s) => Json::Str(s.clone()),
        serde_json::Value::Array(a) => Json::Array(a.iter().map(to_json).collect()),
        serde_json::Value::Object(m) => Json::Object(m.iter().map(|(k, x)| (k.clone(), to_json(x))).collect()),
    }
}

/// A value written as JSON text.
fn j(text: &str) -> Json {
    to_json(&serde_json::from_str::<serde_json::Value>(text).expect("test JSON"))
}

fn field<'a>(v: &'a Json, key: &str) -> &'a Json {
    v.get(key).unwrap_or_else(|| panic!("no field {key} in {v:?}"))
}

fn entry(slug: &str, title: &str, pages: usize, tables: usize) -> ManifestDocEntry {
    ManifestDocEntry {
        slug: slug.to_string(),
        title: title.to_string(),
        synced_at: "2026-01-01T00:00:00+00:00".to_string(),
        page_count: pages,
        table_count: tables,
    }
}

#[test]
fn context_md_format() {
    let page_details = vec![
        PageDetail { slug: "overview-abc".to_string(), title: "Overview".to_string(), has_content: true },
        PageDetail { slug: "empty-page-xyz".to_string(), title: "Empty Page".to_string(), has_content: false },
    ];
    let table_details = vec![(
        "coda://docs/d/tables/t1".to_string(),
        TableDetail {
            slug: "tasks-t1".to_string(),
            name: "Tasks".to_string(),
            column_names: vec!["Name".into(), "Status".into(), "Owner".into()],
            row_count: 42,
        },
    )];
    let content = context_md("Test Doc", "2026-01-01T00:00:00+00:00", "coda://docs/abc", &page_details, &table_details);
    assert!(content.contains("# Test Doc"));
    assert!(content.contains("Source: coda://docs/abc"));
    assert!(content.contains("overview-abc.md — \"Overview\""));
    assert!(content.contains("empty-page-xyz.json — \"Empty Page\" (no content)"));
    assert!(content.contains("tables/tasks-t1/"));
    assert!(content.contains("3 columns, 42 rows"));
    assert!(content.contains("Columns: Name, Status, Owner"));
}

#[test]
fn context_md_truncates_many_columns() {
    let many_cols: Vec<String> = (0..25).map(|i| format!("Col{}", i)).collect();
    let table_details = vec![(
        "uri".to_string(),
        TableDetail { slug: "big-table".to_string(), name: "Big Table".to_string(), column_names: many_cols, row_count: 10 },
    )];
    let content = context_md("Doc", "now", "uri", &Vec::new(), &table_details);
    assert!(content.contains("...and 5 more"));
}

#[test]
fn gitignore_not_overwritten() {
    assert_eq!(GITIGNORE_TEXT, "# Synced Coda data — do not commit\n*\n");
}

#[test]
fn index_md_with_docs() {
    let mut manifest = SyncManifest::new();
    manifest.upsert_doc("coda://docs/abc", entry("q2-planning-abc", "Q2 Planning", 5, 2));
    manifest.upsert_doc("coda://docs/xyz", entry("project-tracker-xyz", "Project Tracker", 3, 1));
    let content = index_md("2026-01-01T00:00:00+00:00", &manifest);
    assert!(content.contains("# Synced Coda Docs"));
    assert!(content.contains("\"Q2 Planning\" (5 pages, 2 tables)"));
    assert!(content.contains("\"Project Tracker\" (3 pages, 1 table)"));
    assert!(content.contains("Source: coda://docs/abc"));
    assert!(content.contains("Not every Coda doc is synced here"));
    assert!(content.find("Project Tracker").unwrap() < content.find("Q2 Planning").unwrap());
}

#[test]
fn index_md_empty() {
    let manifest = SyncManifest::new();
    let content = index_md("2026-01-01T00:00:00+00:00", &manifest);
    assert!(content.contains("No docs synced yet"));
}

#[test]
fn manifest_upsert_replaces_the_record_of_a_document() {
    let mut manifest = SyncManifest::new();
    manifest.upsert_doc("coda://docs/abc", entry("a-abc", "Zeta", 1, 0));
    manifest.upsert_doc("coda://docs/xyz", entry("b-xyz", "Alpha", 2, 0));
    manifest.upsert_doc("coda://docs/abc", entry("a-abc", "Beta", 4, 1));
    assert_eq!(manifest.docs.len(), 2);
    assert_eq!(manifest.docs[0].0, "coda://docs/xyz");
    assert_eq!(manifest.docs[1].0, "coda://docs/abc");
    assert_eq!(manifest.docs[1].1.page_count, 4);
}

#[test]
fn plural_forms() {
    assert_eq!(plural(1, "page"), "1 page");
    assert_eq!(plural(0, "table"), "0 tables");
    assert_eq!(plural(3, "page"), "3 pages");
}

#[test]
fn sync_retry_repeats_every_failure_with_growing_pauses() {
    let mut r = SyncRetry::new(3);
    let not_ready = CodaError::Api { status: 409, message: "not ready".into() };
    let (ms, notice) = r.after_failure("document_read", &not_ready).unwrap();
    assert_eq!(ms, 3000);
    assert_eq!(notice, "[sync] Retrying document_read (attempt 1/5)...\n");
    let (ms, _) = r.after_failure("document_read", &CodaError::Validation("x".into())).unwrap();
    assert_eq!(ms, 2000);
    for _ in 0..3 {
        assert!(r.after_failure("t", &not_ready).is_some());
    }
    assert!(r.after_failure("t", &not_ready).is_none());
}

#[test]
fn dry_run_preview_lists_pages_and_paths() {
    let doc = j(r#"{"document": {"title": "Q2 Planning"}, "pages": [
        {"title": "Goals", "canvasUri": "coda://docs/abc/pages/canvas-xyz"},
        {"pageUri": "coda://docs/abc/pages/p9"}]}"#);
    let preview = dry_run_preview("coda://docs/abc", ".coda", &doc);
    assert_eq!(field(&preview, "dryRun"), &Json::Bool(true));
    assert_eq!(field(&preview, "docSlug"), &j(r#""q2-planning-abc""#));
    assert_eq!(field(&preview, "pageCount"), &j("2"));
    let pages = field(&preview, "pages").as_array().unwrap();
    assert_eq!(field(&pages[0], "slug"), &j(r#""goals-xyz""#));
    assert_eq!(field(&pages[1], "title"), &j(r#""?""#));
    assert_eq!(field(field(&preview, "paths"), "tablesDir"), &j(r#"".coda/docs/q2-planning-abc/pages/tables/""#));
    assert_eq!(dry_run_notice("coda://docs/abc", ".coda"), "[sync] Dry run: would sync coda://docs/abc to .coda\n");
    assert_eq!(doc_read_payload("coda://docs/abc"), j(r#"{"contentTypesToInclude": ["tables"], "uri": "coda://docs/abc"}"#));
}

#[test]
fn summary_of_a_finished_sync() {
    let stats = SyncStats {
        doc_uri: "coda://docs/abc".into(),
        doc_title: "Q2".into(),
        doc_slug: "q2-abc".into(),
        pages_synced: 2,
        tables_synced: 1,
        rows_synced: 7,
        errors: vec!["Page 'x': boom".into()],
    };
    let s = sync_summary(&stats, ".coda");
    assert_eq!(
        s.to_text(),
        r#"{"docDir":".coda/docs/q2-abc","docUri":"coda://docs/abc","errors":["Page 'x': boom"],"pages":2,"root":".coda","rows":7,"synced":true,"tables":1}"#
    );
    assert_eq!(doc_dir("/tmp/", "d"), "/tmp/docs/d");
    let text = completion_text(&stats, ".coda", "NOTES.md");
    assert!(text.contains("\n\nAdd to your NOTES.md:\n\n"));
    assert!(text.starts_with("\n--- Sync complete ---\nDoc:    Q2\nPages:  2 synced\nTables: 1 synced (7 rows)\nPath:   .coda/docs/q2-abc\n"));
    assert!(text.contains("\n## Coda Data\n- Start with `.coda/INDEX.md`"));
    assert!(text.ends_with("Tip: .coda/.gitignore already excludes synced data from git.\n"));
}

#[test]
fn sync_stops_when_the_document_cannot_be_read() {
    let (mut run, _effects, step) = SyncRun::start("coda://docs/abc", false, 100, "2026-01-01T00:00:00+00:00");
    match step {
        SyncStep::Call { tool, payload } => {
            assert_eq!(tool, "document_read");
            assert_eq!(field(&payload, "uri"), &j(r#""coda://docs/abc""#));
        }
        _ => panic!("a sync starts by reading the document"),
    }
    let (_, step) = run.next(Err(CodaError::Api { status: 404, message: "gone".into() }), "2026-01-01T00:00:01+00:00");
    assert!(matches!(step, SyncStep::Finish(Err(CodaError::Api { status: 404, .. }))));
}

#[test]
fn sync_writes_the_document_files() {
    let (mut run, _effects, _step) = SyncRun::start("coda://docs/abc", true, 100, "2026-01-01T00:00:00+00:00");
    let (effects, step) = run.next(Ok(j(r#"{"document": {"title": "Plan"}, "pages": []}"#)), "2026-01-01T00:00:01+00:00");
    let wrote_doc = effects.iter().any(|e| matches!(e, SyncEffect::WriteJson(p, _) if p.ends_with("__doc.json")));
    assert!(wrote_doc);
    match step {
        SyncStep::Finish(Ok(stats)) => {
            assert_eq!(stats.doc_slug, "plan-abc");
            assert_eq!(stats.pages_synced, 0);
        }
        _ => panic!("a document without pages is synced at once"),
    }
}

fn page_step_effects(tables_only: bool) -> Vec<SyncEffect> {
    let (mut run, _effects, _step) = SyncRun::start("coda://docs/abc", tables_only, 100, "2026-01-01T00:00:00+00:00");
    let (_, step) = run.next(Ok(j(
        r#"{"document": {"title": "Plan"}, "pages": [{"title": "Goals", "canvasUri": "coda://docs/abc/canvases/c1"}]}"#,
    )), "2026-01-01T00:00:01+00:00");
    assert!(matches!(step, SyncStep::Call { ref tool, .. } if tool == "page_read"));
    let (effects, step) = run.next(Ok(j(r##"{"content": "# Goals\n- ship", "tables": []}"##)), "2026-01-01T00:00:02+00:00");
    assert!(matches!(step, SyncStep::Finish(Ok(_))));
    effects
}

#[test]
fn tables_only_sync_writes_no_page_files() {
    let page_file = |e: &SyncEffect| match e {
        SyncEffect::WriteText(p, _) => p.contains("/pages/"),
        SyncEffect::WriteJson(p, _) => p.contains("/pages/") && !p.contains("/pages/tables/"),
        _ => false,
    };
    let full = page_step_effects(false);
    assert!(full.iter().any(|e| matches!(e, SyncEffect::WriteText(p, _) if p == "plan-abc/pages/goals-c1.md")));
    assert!(full.iter().any(|e| matches!(e, SyncEffect::WriteJson(p, _) if p == "plan-abc/pages/goals-c1.json")));
    let only_tables = page_step_effects(true);
    assert!(!only_tables.iter().any(page_file));
    assert!(only_tables.iter().any(|e| matches!(e, SyncEffect::WriteText(p, _) if p == "plan-abc/CONTEXT.md")));
}

#[test]
fn each_record_is_stamped_with_the_time_of_its_step() {
    let (mut run, _effects, _step) = SyncRun::start("coda://docs/abc", false, 100, "2026-01-01T00:00:00+00:00");
    let _ = run.next(Ok(j(
        r#"{"document": {"title": "Plan"}, "pages": [{"title": "Goals", "canvasUri": "coda://docs/abc/canvases/c1"}]}"#,
    )), "2026-01-01T00:00:01+00:00");
    let (effects, _) = run.next(Ok(j(r#"{"content": "x", "tables": []}"#)), "2026-01-01T00:00:09+00:00");
    let sync = effects.iter().find_map(|e| match e {
        SyncEffect::WriteJson(p, v) if p.ends_with("__sync.json") => Some(v),
        _ => None,
    }).expect("the sync record");
    let page = field(field(sync, "pages"), "coda://docs/abc/canvases/c1");
    assert_eq!(field(page, "synced_at"), &j(r#""2026-01-01T00:00:09+00:00""#));
    assert_eq!(field(sync, "synced_at"), &j(r#""2026-01-01T00:00:09+00:00""#));
}
