use bookbinder::dom::HtmlNode;
use bookbinder::extract::extract_content;
use bookbinder::pipeline::{
    chapter_html, dump_data_args, merge_command_args, render_command_args, update_info_args,
};
use bookbinder::text::parse_u64;
use bookbinder::PipelineError;

fn leaf(tag: &str, id: Option<&str>, markup: &str, text: &str) -> HtmlNode {
    HtmlNode {
        tag: String::from(tag),
        id: id.map(String::from),
        markup: String::from(markup),
        text: String::from(text),
        children: Vec::new(),
    }
}

fn node(tag: &str, id: Option<&str>, markup: &str, children: Vec<HtmlNode>) -> HtmlNode {
    HtmlNode {
        tag: String::from(tag),
        id: id.map(String::from),
        markup: String::from(markup),
        text: String::new(),
        children,
    }
}

#[test]
fn extraction_stops_at_copyright_heading() {
    // Content root with children [A, B, HeadingCopyright, C]:
    // only A and B are emitted, C is never reached.
    let copyright = node(
        "div",
        None,
        "<div><h4> Copyright </h4></div>",
        vec![leaf("h4", None, "<h4> Copyright </h4>", " Copyright ")],
    );
    let parent = node(
        "div",
        None,
        "<div>...</div>",
        vec![
            leaf("div", Some("book_header"), "<div id=book_header></div>", ""),
            leaf("p", None, "<p>A</p>", "A"),
            leaf("p", None, "<p>B</p>", "B"),
            copyright,
            leaf("p", None, "<p>C</p>", "C"),
        ],
    );
    let root = node("", None, "", vec![node("html", None, "<html>", vec![parent])]);
    let frags = extract_content(&root, "adjust();").unwrap();
    assert_eq!(
        frags,
        vec![
            String::from("<p>A</p>"),
            String::from("<p>B</p>"),
            String::from("<script>adjust();</script>"),
        ]
    );
}

#[test]
fn extraction_passes_scripts_and_links_through() {
    let script = leaf("script", None, "<script>s1</script>", "");
    let link = leaf("link", None, "<link rel=stylesheet>", "");
    let parent = node(
        "div",
        None,
        "<div>...</div>",
        vec![
            node("div", Some("book_header"), "<div id=book_header></div>", vec![script]),
            leaf("div", Some("book_switch"), "<div id=book_switch>nav</div>", "nav"),
            leaf("p", None, "<p>body</p>", "body"),
        ],
    );
    let root = node("", None, "", vec![link, parent]);
    let frags = extract_content(&root, "x").unwrap();
    // Scripts come first wherever they sat, then links, then content with
    // both chrome children skipped, then the injected fragment.
    assert_eq!(
        frags,
        vec![
            String::from("<script>s1</script>"),
            String::from("<link rel=stylesheet>"),
            String::from("<p>body</p>"),
            String::from("<script>x</script>"),
        ]
    );
}

#[test]
fn extraction_without_marker_is_parse_error() {
    let root = node("html", None, "<html>", vec![leaf("p", None, "<p>x</p>", "x")]);
    assert_eq!(
        extract_content(&root, "x").map(|v| v.len()),
        Err(PipelineError::Parse)
    );
}

#[test]
fn extraction_checks_only_first_heading() {
    // The first h4 of a child decides: if its trimmed text is not
    // exactly `Copyright`, the child is emitted and the walk goes on.
    let decoy = node(
        "div",
        None,
        "<div>two headings</div>",
        vec![
            leaf("h4", None, "<h4>Notes</h4>", "Notes"),
            leaf("h4", None, "<h4>Copyright</h4>", "Copyright"),
        ],
    );
    let parent = node(
        "div",
        None,
        "<div>...</div>",
        vec![
            leaf("div", Some("book_header"), "<div id=book_header></div>", ""),
            decoy,
            leaf("p", None, "<p>after</p>", "after"),
        ],
    );
    let root = node("", None, "", vec![parent]);
    let frags = extract_content(&root, "j").unwrap();
    assert_eq!(
        frags,
        vec![
            String::from("<div>two headings</div>"),
            String::from("<p>after</p>"),
            String::from("<script>j</script>"),
        ]
    );
}

#[test]
fn chapter_html_wraps_style_then_fragments() {
    let frags = vec![String::from("<p>x</p>"), String::from("<p>y</p>")];
    assert_eq!(
        chapter_html("b{color:red}", &frags),
        "<style>b{color:red}</style><p>x</p><p>y</p>"
    );
}

#[test]
fn render_args_exact() {
    let args = render_command_args("htmls/g/00_A.html", "pdfs/g/00_A.pdf");
    assert_eq!(
        args,
        vec![
            String::from("--headless"),
            String::from("--run-all-compositor-stages-before-draw"),
            String::from("--no-pdf-header-footer"),
            String::from("--print-to-pdf-no-header"),
            String::from("--print-to-pdf=pdfs/g/00_A.pdf"),
            String::from("htmls/g/00_A.html"),
        ]
    );
}

#[test]
fn merge_args_keep_chapter_order() {
    let pdfs = vec![String::from("pdfs/g/00_A.pdf"), String::from("pdfs/g/01_B.pdf")];
    let args = merge_command_args(&pdfs);
    assert_eq!(
        args,
        vec![
            String::from("pdfs/g/00_A.pdf"),
            String::from("pdfs/g/01_B.pdf"),
            String::from("cat"),
            String::from("output"),
            String::from("merged.pdf"),
        ]
    );
}

#[test]
fn metadata_tool_args_exact() {
    assert_eq!(
        dump_data_args("pdfs/g/00_A.pdf"),
        vec![
            String::from("pdfs/g/00_A.pdf"),
            String::from("dump_data"),
            String::from("output"),
            String::from("meta.txt"),
        ]
    );
    assert_eq!(
        update_info_args("gpugems"),
        vec![
            String::from("merged.pdf"),
            String::from("update_info"),
            String::from("meta.txt"),
            String::from("output"),
            String::from("gpugems.pdf"),
        ]
    );
}

#[test]
fn parse_u64_edges() {
    assert_eq!(parse_u64(""), None);
    assert_eq!(parse_u64("12x"), None);
    assert_eq!(parse_u64("007"), Some(7));
    assert_eq!(parse_u64("18446744073709551615"), Some(u64::MAX));
    assert_eq!(parse_u64("18446744073709551616"), None);
}

#[test]
fn trim_strips_ascii_whitespace() {
    assert_eq!(bookbinder::text::trim_str("  Copyright \t\n"), "Copyright");
    assert_eq!(bookbinder::text::trim_str("   "), "");
    assert_eq!(bookbinder::text::trim_str("x"), "x");
}

#[test]
fn trim_strips_unicode_whitespace() {
    // The same set str::trim removes: vertical tab, no-break space,
    // em space, line separator.
    assert_eq!(bookbinder::text::trim_str("\u{0B}x\u{A0}"), "x");
    assert_eq!(bookbinder::text::trim_str("\u{2003}y\u{2028}"), "y");
    assert_eq!("\u{0B}x\u{A0}".trim(), "x");
}
