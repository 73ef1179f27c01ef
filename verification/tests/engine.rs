use novos::config::{BuildSettings, Config, SiteMetadata};
use novos::models::Post;
use novos::paginate::paginate;
use novos::parser::{parse_frontmatter, render_shortcode};
use novos::paths::{
    is_raster_path, page_output_path, post_output_path, replace_extension, resolve_path,
    tag_output_path, webp_sibling,
};
use novos::plan::{aggregates_due, collect_content, ingest_posts, select_stale, sort_posts, PostSource};
use novos::render::{finalize_page, pick_tag_template, process_html};
use novos::rewrite::rewrite_to_webp;
use novos::rss::{format_rss_date, generate_rss};
use novos::scaffold::{init_config_text, interpret_confirm, interpret_input};
use novos::search::{build_search_index, strip_markdown};
use novos::stale::{is_stale, BuildStamp};
use novos::stylesheet::{compiles_directly, css_output_name, is_partial};
use novos::taxonomy::build_taxonomies;
use novos::text::{lowercase, u64_to_dec};
use novos::watch::{event_triggers_rebuild, path_is_ignored, RebuildQueue};

fn post(slug: &str, date: &str, tags: &[&str], body: &str, mtime: u64) -> Post {
    Post {
        slug: slug.to_string(),
        title: slug.to_string(),
        date: date.to_string(),
        tags: tags.iter().map(|t| t.to_string()).collect(),
        raw_content: body.to_string(),
        mtime,
    }
}

fn config() -> Config {
    Config {
        theme: None,
        posts_dir: "./posts".to_string(),
        posts_outdir: "".to_string(),
        pages_dir: "./pages".to_string(),
        output_dir: "./.build".to_string(),
        template_path: "./index.html".to_string(),
        includes_dir: "./includes".to_string(),
        static_dir: "./static".to_string(),
        view_template_path: "./includes/view_template.html".to_string(),
        base_url: "https://example.com".to_string(),
        base: "".to_string(),
        site: SiteMetadata {
            title: "a novos site".to_string(),
            description: "".to_string(),
            author: "".to_string(),
            generate_rss: true,
            generate_search: true,
            paginate: false,
            posts_per_page: 10,
        },
        build: BuildSettings {
            clean_output: true,
            sass_style: "expanded".to_string(),
            minify_html: false,
            use_syntect: true,
            syntax_theme: "base16-ocean.dark".to_string(),
            syntax_theme_path: None,
            convert_to_webp: false,
            custom_syntax_dir: None,
        },
    }
}

#[test]
fn staleness_truth_table() {
    // newer source, destination present: write
    assert!(is_stale(10, 5, true));
    // older source, destination present: skip
    assert!(!is_stale(5, 10, true));
    // equal timestamps, destination present: skip
    assert!(!is_stale(10, 10, true));
    // absent destination always forces a write
    assert!(is_stale(0, 10, false));
    assert!(is_stale(10, 5, false));
}

#[test]
fn stale_selection_matches_rule() {
    let posts = vec![
        post("a", "2024-01-01", &[], "", 100),
        post("b", "2024-01-02", &[], "", 50),
        post("c", "2024-01-03", &[], "", 80),
    ];
    let exists = vec![true, true, false];
    let stale = select_stale(&posts, &exists, 80);
    assert_eq!(stale, vec![true, false, true]);
}

#[test]
fn unchanged_rebuild_writes_nothing() {
    let posts = vec![
        post("a", "2024-01-01", &[], "", 10),
        post("b", "2024-01-02", &[], "", 20),
    ];
    let exists = vec![true, true];
    let stale = select_stale(&posts, &exists, 20);
    assert!(stale.iter().all(|s| !s));
}

#[test]
fn build_stamp_cycle() {
    let mut stamp = BuildStamp::new();
    assert_eq!(stamp.snapshot(), 0);
    stamp.complete(123);
    assert_eq!(stamp.snapshot(), 123);
}

#[test]
fn pagination_counts_and_slices() {
    let pages = paginate(7, 3);
    assert_eq!(pages.len(), 3);
    assert_eq!((pages[0].start, pages[0].end), (0, 3));
    assert_eq!((pages[1].start, pages[1].end), (3, 6));
    assert_eq!((pages[2].start, pages[2].end), (6, 7));
    assert_eq!(pages[0].number, 1);
    assert!(!pages[0].has_prev && pages[0].has_next);
    assert!(pages[1].has_prev && pages[1].has_next);
    assert!(pages[2].has_prev && !pages[2].has_next);
    assert!(pages.iter().all(|p| p.total == 3));
}

#[test]
fn pagination_exact_fit_and_empty() {
    let pages = paginate(6, 3);
    assert_eq!(pages.len(), 2);
    assert_eq!((pages[1].start, pages[1].end), (3, 6));
    assert_eq!(paginate(0, 5).len(), 0);
    assert_eq!(paginate(1, 5).len(), 1);
}

#[test]
fn pagination_concatenation_reproduces_list() {
    let n = 10usize;
    let pages = paginate(n, 4);
    let mut seen: Vec<usize> = Vec::new();
    for p in &pages {
        for i in p.start..p.end {
            seen.push(i);
        }
    }
    let expected: Vec<usize> = (0..n).collect();
    assert_eq!(seen, expected);
}

#[test]
fn taxonomy_membership() {
    let posts = vec![
        post("a", "2024-01-03", &["rust", "web"], "", 0),
        post("b", "2024-01-02", &["rust"], "", 0),
        post("c", "2024-01-01", &[], "", 0),
    ];
    let groups = build_taxonomies(&posts);
    assert_eq!(groups.len(), 2);
    let rust = groups.iter().find(|g| g.tag == "rust").unwrap();
    assert_eq!(rust.items, vec![0, 1]);
    let web = groups.iter().find(|g| g.tag == "web").unwrap();
    assert_eq!(web.items, vec![0]);
    // an item appears in a tag's group exactly when it carries the tag
    for (i, p) in posts.iter().enumerate() {
        for g in &groups {
            let listed = g.items.contains(&i);
            let carries = p.tags.contains(&g.tag);
            assert_eq!(listed, carries);
        }
    }
}

#[test]
fn rewrite_internal_path() {
    let out = rewrite_to_webp("<img src=\"photo.png\">", "https://example.com");
    assert_eq!(out, "<img src=\"photo.webp\">");
}

#[test]
fn rewrite_leaves_foreign_domain() {
    let out = rewrite_to_webp("<img src=\"https://other.com/a.jpg\">", "https://example.com");
    assert_eq!(out, "<img src=\"https://other.com/a.jpg\">");
}

#[test]
fn rewrite_rewrites_own_domain() {
    let out = rewrite_to_webp("<img src=\"https://example.com/a.jpg\">", "https://example.com");
    assert_eq!(out, "<img src=\"https://example.com/a.webp\">");
}

#[test]
fn rewrite_skips_query_strings() {
    let out = rewrite_to_webp("<img src=\"img.png?v=2\">", "https://example.com");
    assert_eq!(out, "<img src=\"img.png?v=2\">");
}

#[test]
fn rewrite_mime_types() {
    let out = rewrite_to_webp("<source type=\"image/png\"> Image/JPEG", "https://example.com");
    assert_eq!(out, "<source type=\"image/webp\"> image/webp");
}

#[test]
fn rewrite_case_insensitive_extension_and_css_url() {
    let out = rewrite_to_webp("background: url(bg.JPEG);", "https://example.com");
    assert_eq!(out, "background: url(bg.webp);");
}

#[test]
fn theme_overlay_project_wins() {
    let theme = Some("themes/dark".to_string());
    // both exist: always the project path
    assert_eq!(resolve_path("sass", &theme, true, true), "sass");
    // only the theme has it
    assert_eq!(resolve_path("sass", &theme, false, true), "themes/dark/sass");
    // neither has it: the project path, unchanged
    assert_eq!(resolve_path("sass", &theme, false, false), "sass");
    assert_eq!(resolve_path("sass", &None, false, false), "sass");
}

#[test]
fn debounce_burst_yields_one_rebuild() {
    let mut q = RebuildQueue::new(100);
    for _ in 0..37 {
        q.offer();
    }
    assert!(q.pending >= 1);
    let rebuilds = q.consume_cycle();
    assert_eq!(rebuilds, 1);
    assert_eq!(q.pending, 0);
    // nothing pending afterwards: no further rebuild is due
    q.offer();
    assert_eq!(q.pending, 1);
}

#[test]
fn bounded_queue_drops_when_full() {
    let mut q = RebuildQueue::new(2);
    q.offer();
    q.offer();
    q.offer();
    assert_eq!(q.pending, 2);
}

#[test]
fn ignore_filter() {
    let ignores = vec![".git".to_string(), "target".to_string()];
    assert!(path_is_ignored("./.git/objects/x", "x", &ignores));
    assert!(path_is_ignored("./src/.hidden", ".hidden", &ignores));
    assert!(path_is_ignored("./notes/#draft#", "#draft#", &ignores));
    assert!(path_is_ignored("./notes/file~", "file~", &ignores));
    assert!(!path_is_ignored("./posts/hello.md", "hello.md", &ignores));
}

#[test]
fn event_filtering() {
    let ignores = vec![".git".to_string()];
    let paths = vec!["./.git/x".to_string(), "./posts/a.md".to_string()];
    let names = vec!["x".to_string(), "a.md".to_string()];
    assert!(event_triggers_rebuild(&paths, &names, &ignores, true, false));
    // all paths ignored: nothing happens
    let paths2 = vec!["./.git/x".to_string()];
    let names2 = vec!["x".to_string()];
    assert!(!event_triggers_rebuild(&paths2, &names2, &ignores, true, false));
    // wrong kind: nothing happens
    assert!(!event_triggers_rebuild(&paths, &names, &ignores, false, false));
}

#[test]
fn frontmatter_full_block() {
    let raw = "---\ntitle: \"Hello World\"\ndate: 2024-01-15\ntags: rust, web, \n---\n# Body\ntext";
    let p = parse_frontmatter(raw, "hello", 42);
    assert_eq!(p.slug, "hello");
    assert_eq!(p.title, "Hello World");
    assert_eq!(p.date, "2024-01-15");
    assert_eq!(p.tags, vec!["rust".to_string(), "web".to_string()]);
    assert_eq!(p.raw_content, "# Body\ntext");
    assert_eq!(p.mtime, 42);
}

#[test]
fn frontmatter_absent() {
    let p = parse_frontmatter("just text", "slug", 1);
    assert_eq!(p.title, "slug");
    assert_eq!(p.date, "");
    assert!(p.tags.is_empty());
    assert_eq!(p.raw_content, "just text");
}

#[test]
fn frontmatter_unterminated_block() {
    let p = parse_frontmatter("---\ntitle: x\n", "s", 0);
    assert_eq!(p.title, "s");
    assert_eq!(p.raw_content, "---\ntitle: x\n");
}

#[test]
fn frontmatter_later_lines_override() {
    let raw = "---\ntitle: first\ntitle: second\n---\nbody";
    let p = parse_frontmatter(raw, "s", 0);
    assert_eq!(p.title, "second");
}

#[test]
fn frontmatter_unknown_keys_ignored() {
    let raw = "---\nlayout: wide\ndate: 2020-05-05\n---\nbody";
    let p = parse_frontmatter(raw, "s", 0);
    assert_eq!(p.title, "s");
    assert_eq!(p.date, "2020-05-05");
}

#[test]
fn shortcode_positional_arguments() {
    let args = vec!["rust".to_string(), "fast".to_string()];
    let out = render_shortcode("<b>{%% 1 %%}</b> is {%% 2 %%}", &args);
    assert_eq!(out, "<b>rust</b> is fast");
}

#[test]
fn shortcode_without_arguments() {
    let args: Vec<String> = Vec::new();
    assert_eq!(render_shortcode("plain {%% 1 %%}", &args), "plain {%% 1 %%}");
}

#[test]
fn sorting_is_newest_first() {
    let posts = vec![
        post("old", "2023-01-01", &[], "", 0),
        post("new", "2024-06-01", &[], "", 0),
        post("mid", "2023-07-01", &[], "", 0),
    ];
    let sorted = sort_posts(posts);
    let slugs: Vec<&str> = sorted.iter().map(|p| p.slug.as_str()).collect();
    assert_eq!(slugs, vec!["new", "mid", "old"]);
}

#[test]
fn collection_parses_and_sorts() {
    let sources = vec![
        PostSource {
            slug: "a".to_string(),
            raw: "---\ndate: 2023-01-01\n---\nx".to_string(),
            mtime: 1,
        },
        PostSource {
            slug: "b".to_string(),
            raw: "---\ndate: 2024-01-01\n---\ny".to_string(),
            mtime: 2,
        },
    ];
    let posts = collect_content(&sources);
    assert_eq!(posts.len(), 2);
    assert_eq!(posts[0].slug, "b");
    assert_eq!(posts[1].slug, "a");
    let parsed = ingest_posts(&sources);
    assert_eq!(parsed[0].slug, "a");
    assert_eq!(parsed[0].raw_content, "x");
}

#[test]
fn output_paths() {
    assert_eq!(post_output_path(".build", "posts/", "hello"), ".build/posts/hello.html");
    assert_eq!(post_output_path(".build", "", "hello"), ".build/hello.html");
    assert_eq!(page_output_path(".build", 1), ".build/index.html");
    assert_eq!(page_output_path(".build", 12), ".build/page/12/index.html");
    assert_eq!(tag_output_path(".build", "RusT"), ".build/tags/rust.html");
}

#[test]
fn extension_replacement() {
    assert_eq!(webp_sibling("img/a.png"), "img/a.webp");
    assert_eq!(webp_sibling("img/a.b.JPG"), "img/a.b.webp");
    assert_eq!(replace_extension("style.scss", "css"), "style.css");
    assert_eq!(replace_extension("noext", "css"), "noext.css");
    assert_eq!(replace_extension("dir.v2/noext", "css"), "dir.v2/noext.css");
}

#[test]
fn raster_detection() {
    assert!(is_raster_path("a/b.png"));
    assert!(is_raster_path("a/b.JPeG"));
    assert!(is_raster_path("c.jpg"));
    assert!(!is_raster_path("a/b.svg"));
    assert!(!is_raster_path("a/.png"));
    assert!(!is_raster_path("apng"));
}

#[test]
fn stylesheet_decisions() {
    assert!(compiles_directly("main.scss"));
    assert!(compiles_directly("print.sass"));
    assert!(!compiles_directly("_partial.scss"));
    assert!(!compiles_directly("main.css"));
    assert!(is_partial("_x.scss"));
    assert_eq!(css_output_name("main.scss"), "main.css");
}

#[test]
fn html_processing_injects_script() {
    let out = process_html("<html><body>hi</body></html>".to_string(), false, true);
    let pos_script = out.find("novos-live-reload").unwrap();
    let pos_close = out.find("</body>").unwrap();
    assert!(pos_script < pos_close);
    // without a body tag the script is appended
    let out2 = process_html("bare".to_string(), false, true);
    assert!(out2.starts_with("bare"));
    assert!(out2.contains("novos-live-reload"));
    // outside serve mode nothing is injected
    let out3 = process_html("<body>x</body>".to_string(), false, false);
    assert_eq!(out3, "<body>x</body>");
}

#[test]
fn html_minification_changes_text() {
    let input = "<p>  Hello,   world!  </p>".to_string();
    let out = process_html(input.clone(), true, false);
    assert_ne!(out, input);
    assert!(out.len() < input.len());
    assert!(out.contains("Hello,"));
}

#[test]
fn finalize_applies_rewrite() {
    let out = finalize_page(
        "<img src=\"a.png\">".to_string(),
        false,
        false,
        true,
        "https://example.com",
    );
    assert_eq!(out, "<img src=\"a.webp\">");
}

#[test]
fn tag_template_choice() {
    assert_eq!(pick_tag_template(true), "tag.html");
    assert_eq!(pick_tag_template(false), "index.html");
}

#[test]
fn rss_date_formatting() {
    assert_eq!(format_rss_date("2024-01-15"), "Mon, 15 Jan 2024 00:00:00 +0000");
    // an unparseable date falls back to a non-empty clock reading
    assert!(!format_rss_date("not a date").is_empty());
}

#[test]
fn rss_document_contents() {
    let posts = vec![post("hello", "2024-01-15", &[], "Some body text", 0)];
    let xml = generate_rss(&posts, &config());
    assert!(xml.contains("<title>Novos</title>"));
    assert!(xml.contains("<link>https://example.com/hello.html</link>"));
    assert!(xml.contains("Mon, 15 Jan 2024 00:00:00 +0000"));
    assert!(xml.contains("Some body text"));
}

#[test]
fn markdown_stripping() {
    assert_eq!(strip_markdown("# Hi\n\nplain body"), "Hi plain body");
    assert_eq!(strip_markdown("`x` y"), "x  y");
    assert_eq!(strip_markdown(""), "");
}

#[test]
fn search_index_snippets() {
    let long_body = "word ".repeat(60);
    let posts = vec![post("a", "2024-01-01", &["t"], &long_body, 0)];
    let entries = build_search_index(&posts);
    assert_eq!(entries.len(), 1);
    assert_eq!(entries[0].slug, "a");
    assert_eq!(entries[0].tags, vec!["t".to_string()]);
    assert_eq!(entries[0].snippet.chars().count(), 140);
}

#[test]
fn prompt_interpretation() {
    assert!(interpret_confirm(" YES ", false));
    assert!(!interpret_confirm("n", true));
    assert!(interpret_confirm("", true));
    assert!(!interpret_confirm("", false));
    assert!(interpret_confirm("maybe", true));
    assert_eq!(interpret_input("  ", "default"), "default");
    assert_eq!(interpret_input(" typed ", "default"), "typed");
}

#[test]
fn generated_config_text() {
    let text = init_config_text(
        "https://example.com",
        "My Site",
        "me",
        true,
        false,
        true,
        false,
        false,
        true,
        "compressed",
    );
    assert!(text.starts_with("base_url = \"https://example.com\"\n"));
    assert!(text.contains("title = \"My Site\""));
    assert!(text.contains("generate_rss = true"));
    assert!(text.contains("generate_search = false"));
    assert!(text.contains("sass_style = \"compressed\""));
    // the generated file is valid configuration
    let parsed: toml::Value = toml::from_str(&text).unwrap();
    assert_eq!(
        parsed["site"]["title"].as_str(),
        Some("My Site"),
    );
}

#[test]
fn decimal_rendering() {
    assert_eq!(u64_to_dec(0), "0");
    assert_eq!(u64_to_dec(7), "7");
    assert_eq!(u64_to_dec(120), "120");
    assert_eq!(u64_to_dec(98765), "98765");
}

#[test]
fn lowercase_wrapper_changes_case() {
    assert_eq!(lowercase("MiXeD"), "mixed");
    assert_eq!(lowercase(""), "");
}

use novos::template::{resolve_tags, Binding, NamedText};

#[test]
fn tag_resolution_fields_and_vars() {
    let cfg = config();
    let p = post("s", "2024-01-01", &["a", "b"], "BODY", 0);
    let mut vars: Vec<Binding> = Vec::new();
    let out = resolve_tags(
        "Hello {% title %} on {% date %}: {% content %} {% tags %}{% set x = 1 %}[{% print x %}]{% unknown %}",
        &cfg,
        "<ul/>",
        &p,
        None,
        0,
        &mut vars,
        vec![],
        vec![],
    );
    assert_eq!(
        out,
        "Hello s on 2024-01-01: BODY <span class=\"tag\">a</span> <span class=\"tag\">b</span>[1]{% unknown %}"
    );
    assert_eq!(vars.len(), 1);
    assert_eq!(vars[0].key, "x");
    assert_eq!(vars[0].value, "1");
}

#[test]
fn tag_resolution_site_fields_and_posts() {
    let cfg = config();
    let p = post("s", "", &[], "", 0);
    let mut vars: Vec<Binding> = Vec::new();
    let out = resolve_tags(
        "{% site_title %}|{% base_url %}|{% base %}|{% posts %}",
        &cfg,
        "<ul>items</ul>",
        &p,
        None,
        0,
        &mut vars,
        vec![],
        vec![],
    );
    assert_eq!(out, "a novos site|https://example.com||<ul>items</ul>");
}

#[test]
fn tag_resolution_includes() {
    let cfg = config();
    let p = post("s", "", &[], "", 0);
    let mut vars: Vec<Binding> = Vec::new();
    let includes = vec![NamedText {
        name: "nav.html".to_string(),
        text: "NAV {% site_title %}".to_string(),
    }];
    let out = resolve_tags(
        "A {% include nav.html %} B",
        &cfg,
        "",
        &p,
        None,
        0,
        &mut vars,
        includes,
        vec![],
    );
    assert_eq!(out, "A NAV a novos site B");
}

#[test]
fn tag_resolution_recursion_cutoff() {
    let cfg = config();
    let p = post("s", "", &[], "", 0);
    let mut vars: Vec<Binding> = Vec::new();
    let includes = vec![NamedText {
        name: "self".to_string(),
        text: "{% include self %}".to_string(),
    }];
    let out = resolve_tags(
        "{% include self %}",
        &cfg,
        "",
        &p,
        None,
        0,
        &mut vars,
        includes,
        vec![],
    );
    assert_eq!(out, "{% include self %}");
}

#[test]
fn tag_resolution_shortcodes() {
    let cfg = config();
    let p = post("s", "", &[], "", 0);
    let mut vars: Vec<Binding> = Vec::new();
    let shortcodes = vec![NamedText {
        name: "img".to_string(),
        text: "<img src=\"{%% 1 %%}\" alt=\"{%% 2 %%}\">".to_string(),
    }];
    let out = resolve_tags(
        "{% .img photo.png dog %}",
        &cfg,
        "",
        &p,
        None,
        0,
        &mut vars,
        vec![],
        shortcodes,
    );
    assert_eq!(out, "<img src=\"photo.png\" alt=\"dog\">");
}

#[test]
fn tag_resolution_body_override_and_later_set_wins() {
    let cfg = config();
    let p = post("s", "", &[], "raw", 0);
    let mut vars: Vec<Binding> = Vec::new();
    let out = resolve_tags(
        "{% set x = a %}{% set x = b %}{% content %} {% x %}",
        &cfg,
        "",
        &p,
        Some("rendered"),
        0,
        &mut vars,
        vec![],
        vec![],
    );
    assert_eq!(out, "rendered b");
}

#[test]
fn tag_resolution_unterminated_tag() {
    let cfg = config();
    let p = post("s", "", &[], "", 0);
    let mut vars: Vec<Binding> = Vec::new();
    let out = resolve_tags("a {% oops", &cfg, "", &p, None, 0, &mut vars, vec![], vec![]);
    assert_eq!(out, "a a {% oops");
}

#[test]
fn rewrite_consumes_closing_delimiter() {
    // the first match consumes the shared space, so the second reference
    // has no opening delimiter left and stays unchanged
    let out = rewrite_to_webp(" a.png b.png ", "https://example.com");
    assert_eq!(out, " a.webp b.png ");
    // with distinct delimiters both match
    let out2 = rewrite_to_webp("\"a.png\",\"b.png\"", "https://example.com");
    assert_eq!(out2, "\"a.webp\",\"b.webp\"");
}

#[test]
fn pagination_single_item_pages() {
    let pages = paginate(3, 1);
    assert_eq!(pages.len(), 3);
    for (k, p) in pages.iter().enumerate() {
        assert_eq!(p.start, k);
        assert_eq!(p.end, k + 1);
    }
}

#[test]
fn rss_date_out_of_range_years_fall_back() {
    // a signed or five-digit year parses as a date the mail format cannot
    // represent; formatting must fall back to the clock, never abort
    let a = format_rss_date("-0001-01-01");
    assert!(!a.is_empty());
    assert!(!a.contains("-0001"));
    let b = format_rss_date("+10000-01-01");
    assert!(!b.is_empty());
    assert!(!b.contains("10000"));
    let posts = vec![post("odd", "+10000-01-01", &[], "body", 0)];
    let xml = generate_rss(&posts, &config());
    assert!(xml.contains("<link>https://example.com/odd.html</link>"));
}

#[test]
fn unicode_whitespace_is_trimmed_and_delimits() {
    // no-break space trims like any whitespace
    assert_eq!(interpret_input("\u{a0}typed\u{a0}", "d"), "typed");
    // and opens and closes an image reference
    let out = rewrite_to_webp("\u{a0}a.png\u{a0}", "https://example.com");
    assert_eq!(out, "\u{a0}a.webp\u{a0}");
    // front-matter values lose surrounding unicode whitespace too
    let p = parse_frontmatter("---\ndate:\u{2009}2024-01-01\u{2009}\n---\nx", "s", 0);
    assert_eq!(p.date, "2024-01-01");
}

#[test]
fn aggregates_follow_staleness() {
    // nothing stale and every collection-derived output present: none is due
    assert!(!aggregates_due(&vec![false, false], true));
    // one stale item makes all of them due
    assert!(aggregates_due(&vec![false, true], true));
    // an absent collection-derived output forces re-emission
    assert!(aggregates_due(&vec![false, false], false));
    // an empty, fully-present site writes nothing
    assert!(!aggregates_due(&vec![], true));
}
