use bookbinder::bookmarks::{BookmarkEntry, bookmark_block, bookmark_stanza, complete_chapter, compute_bookmarks};
use bookbinder::chapters::{page_count_from_metadata, plan_chapter, plan_chapters, sanitized_name};
use bookbinder::discover::{Anchor, Level, discover_chapters, infer_level};
use bookbinder::fetcher::{CachingFetcher, FetchPlan, cache_location_of_url};
use bookbinder::PipelineError;

#[test]
fn cache_idempotence_two_fetches() {
    let mut f = CachingFetcher::new();
    let path = "/gpugems/gpugems/ch1";
    // First fetch: a miss, so the plan says download.
    match f.plan(path) {
        FetchPlan::Download => {}
        FetchPlan::UseCached(_) => panic!("empty cache reported a hit"),
    }
    let body = vec![1u8, 2, 3, 4];
    let first = f.record_download(path, body.clone()).unwrap();
    assert_eq!(first, body);
    assert_eq!(f.downloads(), 1);
    // Second fetch: a hit with byte-identical content, no download.
    match f.plan(path) {
        FetchPlan::UseCached(b) => assert_eq!(b, body),
        FetchPlan::Download => panic!("cached path reported a miss"),
    }
    assert_eq!(f.downloads(), 1);
}

#[test]
fn cache_entries_are_write_once() {
    let mut f = CachingFetcher::new();
    let path = "/gpugems/gpugems/ch1";
    f.record_download(path, vec![1u8]).unwrap();
    let again = f.record_download(path, vec![2u8]);
    assert_eq!(again, Err(PipelineError::Fetch));
    assert_eq!(f.downloads(), 1);
    match f.plan(path) {
        FetchPlan::UseCached(b) => assert_eq!(b, vec![1u8]),
        FetchPlan::Download => panic!("cached path reported a miss"),
    }
}

#[test]
fn cache_location_from_url() {
    let loc = cache_location_of_url("https://developer.nvidia.com/gpugems/gpugems/").unwrap();
    assert_eq!(loc.dir, "cache/gpugems/gpugems/");
    assert_eq!(loc.file, "cache/gpugems/gpugems//index.html");
}

#[test]
fn cache_location_bad_url_is_fetch_error() {
    assert_eq!(
        cache_location_of_url("not a url").map(|l| l.file),
        Err(PipelineError::Fetch)
    );
}

#[test]
fn ordering_invariant_ordinals_and_prefixes() {
    let links = vec![
        Anchor { href: String::from("/b/x/c1"), text: String::from("One") },
        Anchor { href: String::from("/b/x/c2"), text: String::from("Two") },
        Anchor { href: String::from("/b/x/c3/s1"), text: String::from("Three") },
    ];
    let discovered = discover_chapters(&links, "/b/x/");
    let plans = plan_chapters(&discovered, "x");
    assert_eq!(plans.len(), 3);
    for (i, p) in plans.iter().enumerate() {
        assert_eq!(p.ordinal, i);
    }
    assert!(plans[0].sanitized_name.starts_with("00_"));
    assert!(plans[1].sanitized_name.starts_with("01_"));
    assert!(plans[2].sanitized_name.starts_with("02_"));
    assert_eq!(plans[0].title, "One");
    assert_eq!(plans[2].title, "Three");
    assert_eq!(plans[2].level, Level::Sub);
}

#[test]
fn sanitization_replaces_every_foreign_character() {
    assert_eq!(sanitized_name(3, "Hello, World!"), "03_Hello__World_");
    assert_eq!(sanitized_name(0, ""), "00_");
    assert_eq!(sanitized_name(12, "a b\tc"), "12_a_b_c");
    assert_eq!(sanitized_name(7, "Chapter 7. Fog"), "07_Chapter_7__Fog");
    // Non-ASCII characters are outside the sanitary class.
    assert_eq!(sanitized_name(1, "été"), "01__t_");
}

#[test]
fn sanitization_collisions_broken_by_ordinal() {
    // Same alphanumeric skeleton, distinct ordinals: names still differ.
    let a = sanitized_name(1, "a.b");
    let b = sanitized_name(2, "a_b");
    assert_ne!(a, b);
    assert_eq!(sanitized_name(1, "a.b"), sanitized_name(1, "a_b"));
}

#[test]
fn sanitization_large_ordinal_keeps_full_decimal() {
    assert_eq!(sanitized_name(123, "x"), "123_x");
}

#[test]
fn bookmark_offsets_three_chapters() {
    let counts = [3u64, 5, 2];
    let mut chapters = Vec::new();
    for (i, c) in counts.iter().enumerate() {
        let link = bookbinder::discover::ChapterLink {
            url: String::from("/b/x/c"),
            title: format!("T{i}"),
            level: Level::Top,
        };
        let plan = plan_chapter(&link, i, "x");
        chapters.push(complete_chapter(plan, *c));
    }
    let marks = compute_bookmarks(&chapters);
    let starts: Vec<u64> = marks.iter().map(|m| m.page_number_start).collect();
    assert_eq!(starts, vec![1, 4, 9]);
}

#[test]
fn level_inference_top_and_sub() {
    let prefix = "/gpugems/book/";
    assert_eq!(infer_level("/gpugems/book/ch1", prefix), Level::Top);
    assert_eq!(infer_level("/gpugems/book/ch1/part2", prefix), Level::Sub);
}

#[test]
fn discovery_filters_keeps_order_and_duplicates() {
    let anchors = vec![
        Anchor { href: String::from("/elsewhere"), text: String::from("Nav") },
        Anchor { href: String::from("/b/x/c1"), text: String::from("C1") },
        Anchor { href: String::from("/b/x/c1"), text: String::from("C1 again") },
        Anchor { href: String::from("/b/y/c9"), text: String::from("Other book") },
        Anchor { href: String::from("/b/x/c2/s"), text: String::from("C2S") },
    ];
    let links = discover_chapters(&anchors, "/b/x/");
    let titles: Vec<&str> = links.iter().map(|l| l.title.as_str()).collect();
    assert_eq!(titles, vec!["C1", "C1 again", "C2S"]);
    assert_eq!(links[0].level, Level::Top);
    assert_eq!(links[2].level, Level::Sub);
}

#[test]
fn discovery_empty_result_is_valid() {
    let anchors = vec![Anchor { href: String::from("/elsewhere"), text: String::from("Nav") }];
    let links = discover_chapters(&anchors, "/b/x/");
    assert!(links.is_empty());
}

#[test]
fn page_count_found_on_later_line() {
    let lines = vec![
        String::from("InfoBegin"),
        String::from("InfoKey: Title"),
        String::from("NumberOfPages: 12"),
    ];
    assert_eq!(page_count_from_metadata(&lines), Ok(12));
}

#[test]
fn page_count_missing_is_render_error() {
    let lines = vec![String::from("InfoBegin"), String::from("PageMediaBegin")];
    assert_eq!(page_count_from_metadata(&lines), Err(PipelineError::Render));
}

#[test]
fn page_count_unparsable_is_render_error() {
    let lines = vec![String::from("NumberOfPages: twelve")];
    assert_eq!(page_count_from_metadata(&lines), Err(PipelineError::Render));
}

#[test]
fn page_count_needs_exact_first_field() {
    let lines = vec![String::from("XNumberOfPages: 3")];
    assert_eq!(page_count_from_metadata(&lines), Err(PipelineError::Render));
}

#[test]
fn page_count_field_with_unicode_padding() {
    let lines = vec![String::from("NumberOfPages: 4\u{0B}")];
    assert_eq!(page_count_from_metadata(&lines), Ok(4));
}

#[test]
fn cache_location_ok_on_minimal_url() {
    let loc = cache_location_of_url("https://example.com").unwrap();
    assert_eq!(loc.dir, "cache/");
    assert_eq!(loc.file, "cache//index.html");
}

#[test]
fn page_count_bare_line_reads_zero() {
    let lines = vec![String::from("NumberOfPages")];
    assert_eq!(page_count_from_metadata(&lines), Ok(0));
}

#[test]
fn bookmark_stanza_exact_text() {
    let e = BookmarkEntry {
        level: Level::Top,
        page_number_start: 1,
        title: String::from("Ch1"),
    };
    assert_eq!(
        bookmark_stanza(&e),
        "BookmarkBegin\nBookmarkTitle: Ch1\nBookmarkLevel: 1\nBookmarkPageNumber: 1\n"
    );
    let s = BookmarkEntry {
        level: Level::Sub,
        page_number_start: 14,
        title: String::from("Part 2"),
    };
    assert_eq!(
        bookmark_stanza(&s),
        "BookmarkBegin\nBookmarkTitle: Part 2\nBookmarkLevel: 2\nBookmarkPageNumber: 14\n"
    );
}

#[test]
fn end_to_end_two_chapter_book() {
    // A 2-chapter book: the index page lists both chapters.
    let anchors = vec![
        Anchor { href: String::from("/gpugems/g/ch1"), text: String::from("Ch1") },
        Anchor { href: String::from("/gpugems/g/ch2"), text: String::from("Ch2") },
    ];
    let links = discover_chapters(&anchors, "/gpugems/g/");
    let plans = plan_chapters(&links, "g");
    assert_eq!(plans[0].html_path, "htmls/g/00_Ch1.html");
    assert_eq!(plans[0].pdf_path, "pdfs/g/00_Ch1.pdf");
    // Chapter 1 renders to 4 pages, chapter 2 to 6.
    let meta1 = vec![String::from("NumberOfPages: 4")];
    let meta2 = vec![String::from("NumberOfPages: 6")];
    let mut rendered = Vec::new();
    let mut plans = plans.into_iter();
    rendered.push(complete_chapter(
        plans.next().unwrap(),
        page_count_from_metadata(&meta1).unwrap(),
    ));
    rendered.push(complete_chapter(
        plans.next().unwrap(),
        page_count_from_metadata(&meta2).unwrap(),
    ));
    let total: u64 = rendered.iter().map(|c| c.page_count).sum();
    assert_eq!(total, 10);
    let marks = compute_bookmarks(&rendered);
    assert_eq!(marks.len(), 2);
    assert_eq!(marks[0].title, "Ch1");
    assert_eq!(marks[0].level, Level::Top);
    assert_eq!(marks[0].page_number_start, 1);
    assert_eq!(marks[1].title, "Ch2");
    assert_eq!(marks[1].level, Level::Top);
    assert_eq!(marks[1].page_number_start, 5);
    let block = bookmark_block(&marks);
    assert_eq!(
        block,
        "BookmarkBegin\nBookmarkTitle: Ch1\nBookmarkLevel: 1\nBookmarkPageNumber: 1\n\
         BookmarkBegin\nBookmarkTitle: Ch2\nBookmarkLevel: 1\nBookmarkPageNumber: 5\n"
    );
}

#[test]
fn error_descriptions() {
    assert_eq!(PipelineError::Fetch.describe(), "fetch or cache failure");
    assert_eq!(PipelineError::Parse.describe(), "content marker not found");
    assert_eq!(PipelineError::Render.describe(), "render or page-count failure");
    assert_eq!(PipelineError::Merge.describe(), "merge or bookmark failure");
}
