use blog::debounce::Debouncer;
use blog::render::{escape_html, render_code_block, render_markdown, summary_of, CodeHtml};
use blog::response::{CrawlerHints, ErrorResponse, HtmlResponse};

#[test]
fn escape_neutralizes_markup() {
    assert_eq!(escape_html("<a href=\"x\">&'</a>"), "&lt;a href=&quot;x&quot;&gt;&amp;&#39;&lt;/a&gt;");
    assert_eq!(escape_html("plain"), "plain");
}

#[test]
fn markdown_paragraphs_and_code_blocks() {
    let html = render_markdown("Hello <b>world</b>\n\n```x\n<b>\n```\n");
    assert_eq!(
        html,
        "<p>Hello &lt;b&gt;world&lt;/b&gt;</p>\n<pre><code>&lt;b&gt;</code></pre>\n"
    );
}

#[test]
fn markdown_recognized_language_is_annotated() {
    let html = render_markdown("```rust\nlet x = 1;\n```");
    assert_eq!(
        html,
        "<pre><code class=\"language-rust\">let x = 1;</code></pre>\n"
    );
}

#[test]
fn markdown_unclosed_fence_renders_rest_as_code() {
    let html = render_markdown("```\nraw & text");
    assert_eq!(html, "<pre><code>raw &amp; text</code></pre>\n");
}

#[test]
fn fallback_rendering_for_unknown_language() {
    // An unrecognized language tag falls back to escaped plain text
    // instead of failing.
    match render_code_block("no-such-language", "a < b") {
        CodeHtml::Plain(s) => assert_eq!(s, "<pre><code>a &lt; b</code></pre>"),
        CodeHtml::Highlighted(_) => panic!("unknown language must not be highlighted"),
    }
    match render_code_block("rust", "a < b") {
        CodeHtml::Highlighted(s) => {
            assert_eq!(s, "<pre><code class=\"language-rust\">a &lt; b</code></pre>")
        },
        CodeHtml::Plain(_) => panic!("recognized language must be highlighted"),
    }
}

#[test]
fn summary_is_first_paragraph_line() {
    assert_eq!(summary_of("\n\nReal text & more\nsecond line"), "Real text &amp; more");
    // Blank lines and fence lines are passed over.
    assert_eq!(summary_of("\n```rust\nlet x = 1;"), "let x = 1;");
    assert_eq!(summary_of(""), "");
    assert_eq!(summary_of("\n\n   \n"), "");
}

#[test]
fn debounce_coalesces_a_burst_into_one_signal() {
    let mut d = Debouncer::new(10);
    // Three events within the window: the deadline extends each time.
    d.note_event(0);
    d.note_event(4);
    d.note_event(8);
    // Before the extended deadline nothing fires.
    assert!(!d.poll(17));
    // At the deadline exactly one signal fires.
    assert!(d.poll(18));
    // And the machine is idle again.
    assert!(!d.poll(100));
}

#[test]
fn debounce_separated_events_fire_twice() {
    let mut d = Debouncer::new(10);
    d.note_event(0);
    assert!(d.poll(10));
    // A second event more than a window later starts a new burst.
    d.note_event(30);
    assert!(!d.poll(39));
    assert!(d.poll(40));
}

#[test]
fn error_responses_map_to_status_codes() {
    assert_eq!(ErrorResponse::Internal.status_code(), 500);
    assert_eq!(ErrorResponse::PostNotFound.status_code(), 404);
    assert_eq!(ErrorResponse::StaticResourceNotFound.status_code(), 404);
    assert_eq!(ErrorResponse::RouteNotFound.status_code(), 404);
    assert_eq!(ErrorResponse::Internal.status_text(), "500 Internal Server Error");
    assert_eq!(ErrorResponse::PostNotFound.status_text(), "404 Not Found");
}

#[test]
fn crawler_hints_meta_lists() {
    assert_eq!(
        CrawlerHints::restrictive().meta_list(),
        "noindex,nofollow,noarchive,nocache,nosnippet,noimageindex"
    );
    assert_eq!(CrawlerHints::permissive().meta_list(), "index,follow");
    assert_eq!(
        CrawlerHints::permissive().with_index(false).meta_list(),
        "noindex,follow"
    );
    assert_eq!(
        CrawlerHints::restrictive().with_archive(true).with_snippet(true).with_image_index(true).meta_list(),
        "noindex,nofollow"
    );
    let mut buf = String::from("robots: ");
    CrawlerHints::permissive().with_follow(false).write_meta_list_to(&mut buf);
    assert_eq!(buf, "robots: index,nofollow");
}

#[test]
fn html_response_builder_accumulates() {
    let r = HtmlResponse::new();
    assert_eq!(r.status, 200);
    assert_eq!(r.title, "untitled");
    assert!(r.head.is_none());
    assert!(r.body.is_none());
    let r = r
        .with_status(404)
        .with_title_static("gone")
        .with_body("<p>missing</p>".to_string())
        .with_crawler_permissive();
    assert_eq!(r.status, 404);
    assert_eq!(r.title, "gone");
    assert_eq!(r.body.as_deref(), Some("<p>missing</p>"));
    assert_eq!(r.crawler_hints, CrawlerHints::permissive());
    let d = HtmlResponse::default();
    assert_eq!(d.status, 200);
}
