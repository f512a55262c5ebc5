//! Chapter discovery: from the anchors of a book's index page to the
//! ordered list of chapter links, each with its inferred nesting level.

use vstd::prelude::*;
use crate::text::{spec_starts_with, str_contains_char_from, str_starts_with};

verus! {

/// The nesting level of a chapter in the bookmark tree: the hierarchy is
/// strictly two levels deep.
#[derive(Clone, Copy, Debug, PartialEq, Eq, Structural)]
pub enum Level {
    /// A top-level chapter.
    Top,
    /// A sub-section nested under the enclosing top-level chapter.
    Sub,
}

/// The numeric rank a bookmark level is written as.
pub open spec fn spec_level_rank(l: Level) -> nat {
    match l {
        Level::Top => 1,
        Level::Sub => 2,
    }
}

impl Level {
    /// The numeric rank of this level in a bookmark stanza.
    pub fn rank(&self) -> (r: u64)
        ensures
            r as nat == spec_level_rank(*self),
    {
        match self {
            Level::Top => 1,
            Level::Sub => 2,
        }
    }
}

/// The level a chapter URL implies: a sub-section if the part of the URL
/// past the index prefix holds a further path separator, else top-level.
pub open spec fn spec_level_of(url: Seq<char>, prefix: Seq<char>) -> Level {
    if spec_starts_with(url, prefix) && url.skip(prefix.len() as int).contains('/') {
        Level::Sub
    } else {
        Level::Top
    }
}

/// Infers a chapter's nesting level from the shape of its URL, relative
/// to the book's index path prefix.
pub fn infer_level(url: &str, prefix: &str) -> (r: Level)
    ensures
        r == spec_level_of(url@, prefix@),
{
    if str_starts_with(url, prefix) {
        let plen = prefix.unicode_len();
        if str_contains_char_from(url, plen, '/') {
            Level::Sub
        } else {
            Level::Top
        }
    } else {
        Level::Top
    }
}

/// An anchor element of the index page, reduced to the values discovery
/// reads: its link target and its visible text.
pub struct Anchor {
    /// The anchor's link-target attribute.
    pub href: String,
    /// The anchor's visible text.
    pub text: String,
}

/// The mathematical content of an [`Anchor`].
pub ghost struct AnchorView {
    /// The link target.
    pub href: Seq<char>,
    /// The visible text.
    pub text: Seq<char>,
}

impl View for Anchor {
    type V = AnchorView;

    open spec fn view(&self) -> AnchorView {
        AnchorView { href: self.href@, text: self.text@ }
    }
}

/// One discovered chapter: its URL, its title, and its inferred level.
/// Order among chapter links is significant: it fixes the chapter
/// sequence, the file-name ordinals, and the bookmark offsets.
pub struct ChapterLink {
    /// The chapter page's URL, as it stood in the anchor.
    pub url: String,
    /// The chapter title, taken from the anchor text.
    pub title: String,
    /// The nesting level inferred from the URL's shape.
    pub level: Level,
}

/// The mathematical content of a [`ChapterLink`].
pub ghost struct ChapterLinkView {
    /// The chapter page's URL.
    pub url: Seq<char>,
    /// The chapter title.
    pub title: Seq<char>,
    /// The inferred nesting level.
    pub level: Level,
}

impl View for ChapterLink {
    type V = ChapterLinkView;

    open spec fn view(&self) -> ChapterLinkView {
        ChapterLinkView { url: self.url@, title: self.title@, level: self.level }
    }
}

/// The views of a sequence of anchors.
pub open spec fn anchors_view(s: Seq<Anchor>) -> Seq<AnchorView> {
    s.map_values(|a: Anchor| a@)
}

/// The views of a sequence of chapter links.
pub open spec fn links_view(s: Seq<ChapterLink>) -> Seq<ChapterLinkView> {
    s.map_values(|l: ChapterLink| l@)
}

/// The chapter link an anchor yields under a given index prefix.
pub open spec fn spec_link_of(a: AnchorView, prefix: Seq<char>) -> ChapterLinkView {
    ChapterLinkView { url: a.href, title: a.text, level: spec_level_of(a.href, prefix) }
}

/// The ordered chapter links discovered among `anchors`: those whose
/// target starts with the index prefix, in first-seen order, duplicates
/// kept.
pub open spec fn spec_discovered(anchors: Seq<AnchorView>, prefix: Seq<char>) -> Seq<
    ChapterLinkView,
>
    decreases anchors.len(),
{
    if anchors.len() == 0 {
        Seq::empty()
    } else {
        let rest = spec_discovered(anchors.drop_last(), prefix);
        if spec_starts_with(anchors.last().href, prefix) {
            rest.push(spec_link_of(anchors.last(), prefix))
        } else {
            rest
        }
    }
}

/// Collects, in document order, the chapter links of a book's index page:
/// every anchor whose target starts with the book's index path prefix,
/// paired with its text as the title and its inferred level. An index
/// page with no matching anchor yields an empty, valid result.
pub fn discover_chapters(anchors: &Vec<Anchor>, prefix: &str) -> (r: Vec<ChapterLink>)
    ensures
        links_view(r@) == spec_discovered(anchors_view(anchors@), prefix@),
{
    let mut r: Vec<ChapterLink> = Vec::new();
    let mut i: usize = 0;
    while i < anchors.len()
        invariant
            0 <= i <= anchors@.len(),
            links_view(r@) == spec_discovered(anchors_view(anchors@).take(i as int), prefix@),
        decreases anchors@.len() - i,
    {
        let a = &anchors[i];
        proof {
            assert(anchors_view(anchors@).take(i as int + 1).drop_last() =~= anchors_view(
                anchors@,
            ).take(i as int));
            assert(anchors_view(anchors@).take(i as int + 1).last() == a@);
        }
        if str_starts_with(a.href.as_str(), prefix) {
            let link = ChapterLink {
                url: a.href.clone(),
                title: a.text.clone(),
                level: infer_level(a.href.as_str(), prefix),
            };
            proof {
                assert(link@ == spec_link_of(a@, prefix@));
            }
            let ghost old_r = r@;
            r.push(link);
            proof {
                assert(links_view(r@) =~= links_view(old_r).push(link@));
            }
        }
        i += 1;
    }
    proof {
        assert(anchors_view(anchors@).take(anchors@.len() as int) =~= anchors_view(anchors@));
    }
    r
}

} // verus!
