//! Bookmark assembly: folding the rendered chapters, in order, into the
//! cumulative starting-page offsets of a two-level bookmark tree, and the
//! metadata stanzas and tool invocations that write it.

use vstd::prelude::*;
use crate::chapters::{ChapterPlan, plan_matches, spec_pdf_path, spec_sanitized_name};
use crate::discover::{ChapterLinkView, Level, spec_level_rank};
use crate::text::{spec_dec_rep, u64_to_string};

verus! {

/// A chapter after the render and page-count steps succeeded. Never
/// mutated afterwards.
pub struct RenderedChapter {
    /// The chapter's position in discovery order, starting at 0.
    pub ordinal: usize,
    /// The sanitized file-name stem shared by both paths.
    pub sanitized_name: String,
    /// The path of the standalone chapter HTML file.
    pub html_path: String,
    /// The path of the rendered single-chapter document.
    pub pdf_path: String,
    /// The chapter's nesting level.
    pub level: Level,
    /// How many pages the rendered document holds.
    pub page_count: u64,
    /// The chapter title as discovered.
    pub title: String,
}

/// Marries a chapter plan to the page count its render produced.
pub fn complete_chapter(plan: ChapterPlan, page_count: u64) -> (r: RenderedChapter)
    ensures
        r.ordinal == plan.ordinal,
        r.sanitized_name@ == plan.sanitized_name@,
        r.html_path@ == plan.html_path@,
        r.pdf_path@ == plan.pdf_path@,
        r.level == plan.level,
        r.page_count == page_count,
        r.title@ == plan.title@,
{
    RenderedChapter {
        ordinal: plan.ordinal,
        sanitized_name: plan.sanitized_name,
        html_path: plan.html_path,
        pdf_path: plan.pdf_path,
        level: plan.level,
        page_count,
        title: plan.title,
    }
}

/// One entry of the bookmark tree written into the merged document.
pub struct BookmarkEntry {
    /// The entry's nesting level.
    pub level: Level,
    /// The page, counted from 1 across the merged document, where the
    /// chapter starts.
    pub page_number_start: u64,
    /// The entry's title.
    pub title: String,
}

/// The page counts of a sequence of rendered chapters.
pub open spec fn page_counts(s: Seq<RenderedChapter>) -> Seq<nat> {
    s.map_values(|c: RenderedChapter| c.page_count as nat)
}

/// The page on which chapter `i` starts: the first chapter starts on
/// page 1, and each later one follows the previous chapter's pages.
pub open spec fn spec_start_page(counts: Seq<nat>, i: int) -> nat
    decreases i,
{
    if i <= 0 {
        1
    } else {
        spec_start_page(counts, i - 1) + counts[i - 1]
    }
}

/// Starting pages never decrease along the chapter sequence.
pub proof fn lemma_start_page_mono(counts: Seq<nat>, i: int, j: int)
    requires
        0 <= i <= j,
    ensures
        spec_start_page(counts, i) <= spec_start_page(counts, j),
    decreases j - i,
{
    if i < j {
        lemma_start_page_mono(counts, i, j - 1);
    }
}

/// The law of bookmark offsets: the first chapter starts on page 1, and
/// every later chapter starts where the previous one started plus the
/// previous chapter's page count.
pub proof fn lemma_bookmark_offsets(counts: Seq<nat>, i: int)
    requires
        0 < i,
    ensures
        spec_start_page(counts, 0) == 1,
        spec_start_page(counts, i) == spec_start_page(counts, i - 1) + counts[i - 1],
{
}

/// Folds the rendered chapters, in order, into bookmark entries with
/// cumulative starting pages. Each entry keeps its chapter's level and
/// title; entry `i` starts on page `1 + sum of the first i page counts`.
pub fn compute_bookmarks(chapters: &Vec<RenderedChapter>) -> (r: Vec<BookmarkEntry>)
    requires
        spec_start_page(page_counts(chapters@), chapters@.len() as int) <= u64::MAX,
    ensures
        r@.len() == chapters@.len(),
        forall|i: int|
            0 <= i < r@.len() ==> {
                &&& (#[trigger] r@[i]).level == chapters@[i].level
                &&& r@[i].title@ == chapters@[i].title@
                &&& r@[i].page_number_start as nat == spec_start_page(page_counts(chapters@), i)
            },
{
    let mut r: Vec<BookmarkEntry> = Vec::new();
    let mut start: u64 = 1;
    let mut i: usize = 0;
    while i < chapters.len()
        invariant
            0 <= i <= chapters@.len(),
            r@.len() == i,
            start as nat == spec_start_page(page_counts(chapters@), i as int),
            spec_start_page(page_counts(chapters@), chapters@.len() as int) <= u64::MAX,
            forall|j: int|
                0 <= j < i ==> {
                    &&& (#[trigger] r@[j]).level == chapters@[j].level
                    &&& r@[j].title@ == chapters@[j].title@
                    &&& r@[j].page_number_start as nat == spec_start_page(
                        page_counts(chapters@),
                        j,
                    )
                },
        decreases chapters@.len() - i,
    {
        let c = &chapters[i];
        r.push(
            BookmarkEntry {
                level: c.level,
                page_number_start: start,
                title: c.title.clone(),
            },
        );
        proof {
            lemma_start_page_mono(page_counts(chapters@), i as int + 1, chapters@.len() as int);
        }
        start = start + c.page_count;
        i += 1;
    }
    r
}

/// Discovery order is preserved end to end at the library boundary:
/// when every plan matches its link in order, every rendered chapter
/// keeps its plan's fields, and every bookmark entry keeps its chapter's
/// fields, then bookmark `i` bears the title and level of link `i`, and
/// chapter `i` carries ordinal `i` and the document path derived from
/// ordinal `i` and link `i`'s title. A caller only has to feed each
/// stage the previous stage's output, element by element and in order;
/// the hypotheses below are exactly what the stage functions ensure.
pub proof fn lemma_order_preserved(
    links: Seq<ChapterLinkView>,
    plans: Seq<ChapterPlan>,
    chapters: Seq<RenderedChapter>,
    marks: Seq<BookmarkEntry>,
    book: Seq<char>,
)
    requires
        plans.len() == links.len(),
        forall|i: int|
            0 <= i < plans.len() ==> plan_matches(#[trigger] plans[i], links[i], i as nat, book),
        chapters.len() == plans.len(),
        forall|i: int|
            0 <= i < chapters.len() ==> {
                &&& (#[trigger] chapters[i]).ordinal == plans[i].ordinal
                &&& chapters[i].pdf_path@ == plans[i].pdf_path@
                &&& chapters[i].level == plans[i].level
                &&& chapters[i].title@ == plans[i].title@
            },
        marks.len() == chapters.len(),
        forall|i: int|
            0 <= i < marks.len() ==> {
                &&& (#[trigger] marks[i]).level == chapters[i].level
                &&& marks[i].title@ == chapters[i].title@
            },
    ensures
        forall|i: int|
            0 <= i < marks.len() ==> {
                &&& (#[trigger] marks[i]).title@ == links[i].title
                &&& marks[i].level == links[i].level
            },
        forall|i: int|
            0 <= i < chapters.len() ==> {
                &&& (#[trigger] chapters[i]).ordinal as nat == i as nat
                &&& chapters[i].pdf_path@ == spec_pdf_path(
                    book,
                    spec_sanitized_name(i as nat, links[i].title),
                )
            },
{
}

/// The four-line metadata stanza of one bookmark entry.
pub open spec fn spec_stanza(title: Seq<char>, level: Level, start: nat) -> Seq<char> {
    "BookmarkBegin\nBookmarkTitle: "@ + title + "\nBookmarkLevel: "@ + spec_dec_rep(
        spec_level_rank(level),
    ) + "\nBookmarkPageNumber: "@ + spec_dec_rep(start) + "\n"@
}

/// Writes one bookmark entry as the four-line stanza the metadata
/// toolkit understands: title, nesting level, starting page.
pub fn bookmark_stanza(e: &BookmarkEntry) -> (r: String)
    ensures
        r@ == spec_stanza(e.title@, e.level, e.page_number_start as nat),
{
    let mut s = String::from_str("BookmarkBegin\nBookmarkTitle: ");
    s.append(e.title.as_str());
    s.append("\nBookmarkLevel: ");
    let rank = u64_to_string(e.level.rank());
    s.append(rank.as_str());
    s.append("\nBookmarkPageNumber: ");
    let page = u64_to_string(e.page_number_start);
    s.append(page.as_str());
    s.append("\n");
    s
}

/// The concatenated stanzas of a sequence of entries, in order.
pub open spec fn spec_bookmark_block(
    titles: Seq<Seq<char>>,
    levels: Seq<Level>,
    starts: Seq<nat>,
) -> Seq<char>
    decreases titles.len(),
{
    if titles.len() == 0 {
        Seq::empty()
    } else {
        spec_bookmark_block(titles.drop_last(), levels.drop_last(), starts.drop_last())
            + spec_stanza(titles.last(), levels.last(), starts.last())
    }
}

/// The titles of a sequence of entries.
pub open spec fn entry_titles(s: Seq<BookmarkEntry>) -> Seq<Seq<char>> {
    s.map_values(|e: BookmarkEntry| e.title@)
}

/// The levels of a sequence of entries.
pub open spec fn entry_levels(s: Seq<BookmarkEntry>) -> Seq<Level> {
    s.map_values(|e: BookmarkEntry| e.level)
}

/// The starting pages of a sequence of entries.
pub open spec fn entry_starts(s: Seq<BookmarkEntry>) -> Seq<nat> {
    s.map_values(|e: BookmarkEntry| e.page_number_start as nat)
}

/// Concatenates the stanzas of all entries, in order: the block appended
/// to the merged document's metadata.
pub fn bookmark_block(entries: &Vec<BookmarkEntry>) -> (r: String)
    ensures
        r@ == spec_bookmark_block(entry_titles(entries@), entry_levels(entries@), entry_starts(entries@)),
{
    let mut s = String::new();
    let mut i: usize = 0;
    while i < entries.len()
        invariant
            0 <= i <= entries@.len(),
            s@ == spec_bookmark_block(
                entry_titles(entries@).take(i as int),
                entry_levels(entries@).take(i as int),
                entry_starts(entries@).take(i as int),
            ),
        decreases entries@.len() - i,
    {
        let stanza = bookmark_stanza(&entries[i]);
        proof {
            assert(entry_titles(entries@).take(i as int + 1).drop_last() =~= entry_titles(
                entries@,
            ).take(i as int));
            assert(entry_levels(entries@).take(i as int + 1).drop_last() =~= entry_levels(
                entries@,
            ).take(i as int));
            assert(entry_starts(entries@).take(i as int + 1).drop_last() =~= entry_starts(
                entries@,
            ).take(i as int));
            assert(entry_titles(entries@).take(i as int + 1).last() == entries@[i as int].title@);
        }
        s.append(stanza.as_str());
        i += 1;
    }
    proof {
        assert(entry_titles(entries@).take(entries@.len() as int) =~= entry_titles(entries@));
        assert(entry_levels(entries@).take(entries@.len() as int) =~= entry_levels(entries@));
        assert(entry_starts(entries@).take(entries@.len() as int) =~= entry_starts(entries@));
    }
    s
}

} // verus!
