use coda_cli::slug::{id_from_uri, parse_coda_url, resolve_doc_input, slugify};

#[test]
fn basic_slugify() {
    assert_eq!(slugify("Q2 Planning Doc", "AbCdEf"), "q2-planning-doc-abcdef");
}

#[test]
fn special_characters() {
    assert_eq!(slugify("My Doc!!! (v2) — final", "X1Y2Z3"), "my-doc-v2-final-x1y2z3");
}

#[test]
fn empty_name() {
    assert_eq!(slugify("", "abc123"), "untitled-abc123");
}

#[test]
fn empty_id() {
    assert_eq!(slugify("Hello World", ""), "hello-world");
}

#[test]
fn long_name_truncated() {
    let long_name = "a".repeat(100);
    let slug = slugify(&long_name, "abc123");
    // 80 chars + hyphen + 6 char suffix = 87
    assert!(slug.len() <= 87, "slug too long: {} chars", slug.len());
    assert!(slug.ends_with("-abc123"));
}

#[test]
fn consecutive_special_chars() {
    assert_eq!(slugify("hello---world   test", "ab"), "hello-world-test-ab");
}

#[test]
fn id_from_uri_doc() {
    assert_eq!(id_from_uri("coda://docs/AbCdEf"), "AbCdEf");
}

#[test]
fn id_from_uri_page() {
    assert_eq!(id_from_uri("coda://docs/abc/pages/xyz"), "xyz");
}

#[test]
fn id_from_uri_strips_canvas_prefix() {
    assert_eq!(id_from_uri("coda://docs/abc/canvases/canvas-KOsNISRf_L"), "KOsNISRf_L");
}

#[test]
fn id_from_uri_strips_grid_prefix() {
    assert_eq!(id_from_uri("coda://docs/abc/tables/grid-k4rNzi0nC9"), "k4rNzi0nC9");
}

#[test]
fn id_from_uri_strips_section_prefix() {
    assert_eq!(id_from_uri("coda://docs/abc/pages/section-3Z3gQv17hj"), "3Z3gQv17hj");
}

#[test]
fn parse_url_basic() {
    assert_eq!(parse_coda_url("https://coda.io/d/My-Doc_dAbCdEf"), Some("AbCdEf".into()));
}

#[test]
fn parse_url_with_page() {
    assert_eq!(parse_coda_url("https://coda.io/d/My-Doc_dAbCdEf/Page_suXyZ"), Some("AbCdEf".into()));
}

#[test]
fn parse_url_no_title() {
    assert_eq!(parse_coda_url("https://coda.io/d/_dAbCdEf"), Some("AbCdEf".into()));
}

#[test]
fn parse_url_trailing_slash() {
    assert_eq!(parse_coda_url("https://coda.io/d/My-Doc_dAbCdEf/"), Some("AbCdEf".into()));
}

#[test]
fn parse_url_http() {
    assert_eq!(parse_coda_url("http://coda.io/d/My-Doc_dAbCdEf"), Some("AbCdEf".into()));
}

#[test]
fn parse_url_not_coda() {
    assert_eq!(parse_coda_url("https://google.com/d/My-Doc_dAbCdEf"), None);
}

#[test]
fn parse_url_no_d_prefix() {
    assert_eq!(parse_coda_url("https://coda.io/d/Bad_URL"), None);
}

#[test]
fn parse_url_empty_id() {
    assert_eq!(parse_coda_url("https://coda.io/d/My-Doc_d"), None);
}

#[test]
fn resolve_input_uri_passthrough() {
    assert_eq!(resolve_doc_input("coda://docs/abc").unwrap(), "coda://docs/abc");
}

#[test]
fn resolve_input_url_conversion() {
    assert_eq!(resolve_doc_input("https://coda.io/d/My-Doc_dAbCdEf").unwrap(), "coda://docs/AbCdEf");
}

#[test]
fn resolve_input_invalid_url() {
    assert!(resolve_doc_input("https://google.com/stuff").is_err());
}

#[test]
fn resolve_input_twice_gives_the_same_uri() {
    let once = resolve_doc_input("https://coda.io/d/Plan_dXy12").unwrap();
    assert_eq!(resolve_doc_input(&once).unwrap(), once);
}

#[test]
fn resolved_url_id_reads_back() {
    let uri = resolve_doc_input("https://coda.io/d/Plan_dXy12/Sub_su9").unwrap();
    assert_eq!(id_from_uri(&uri), "Xy12");
}

#[test]
fn slug_has_no_edge_hyphens() {
    let s = slugify("--Hello--", "");
    assert!(!s.starts_with('-') && !s.ends_with('-'));
    assert_eq!(s, "hello");
}

#[test]
fn slug_is_lowercase_single_hyphens_and_its_own_slug() {
    for (name, id) in [("Q2 Planning Doc", "AbCdEfGhIj"), ("--Hello,  World!!--", "x_y-Z"), ("ÄÖÜ Straße", ""), ("", "")] {
        let r = slugify(name, id);
        let base = slugify(name, "");
        assert!(r.chars().all(|c| c.is_ascii_lowercase() || c.is_ascii_digit() || c == '-'));
        assert!(!r.contains("--") && !r.starts_with('-') && !r.ends_with('-'));
        assert!(r == base || r.starts_with(&format!("{base}-")));
        assert!(!base.is_empty() && base.len() <= 80);
        assert_eq!(slugify(&base, ""), base);
    }
}

#[test]
fn id_from_uri_is_a_slash_free_suffix() {
    for uri in ["coda://docs/AbC/canvases/canvas-KOs", "grid-x", "a/b/", "", "coda://docs/abc/tables/section-q_9"] {
        let id = id_from_uri(uri);
        assert!(uri.ends_with(&id));
        assert!(!id.contains('/'));
    }
}
