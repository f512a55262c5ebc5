//! The content-extraction rule: a structural, marker-anchored walk that
//! passes scripts, styles and content children through verbatim, skips
//! two chrome siblings by identifier, and stops for good at the copyright
//! heading.

use vstd::prelude::*;
use crate::PipelineError;
use crate::dom::{
    HtmlNode, collect_tagged_markups, find_first_tagged_text, find_marker_parent,
    first_tagged_text, marker_parent, strings_view, tagged_markups,
};
use crate::text::{spec_trim, str_eq, trim_str};

verus! {

/// A chrome sibling the extraction skips, by its `id` attribute.
pub open spec fn spec_skip_child(c: HtmlNode) -> bool {
    c.id is Some && (c.id->0@ == "book_switch"@ || c.id->0@ == "book_header"@)
}

/// Whether a content child is chrome to be skipped.
pub fn is_skip_child(c: &HtmlNode) -> (r: bool)
    ensures
        r == spec_skip_child(*c),
{
    match &c.id {
        Some(id) => str_eq(id.as_str(), "book_switch") || str_eq(id.as_str(), "book_header"),
        None => false,
    }
}

/// The terminator: a child whose pre-order-first `h4` heading has
/// trimmed text exactly `Copyright`. The copyright footer and everything
/// after it is excluded from the content.
pub open spec fn spec_terminator(c: HtmlNode) -> bool {
    match first_tagged_text(c, "h4"@) {
        Some(t) => spec_trim(t) == "Copyright"@,
        None => false,
    }
}

/// Whether a content child terminates the extraction.
pub fn is_terminator(c: &HtmlNode) -> (r: bool)
    ensures
        r == spec_terminator(*c),
{
    match find_first_tagged_text(c, "h4") {
        Some(t) => str_eq(trim_str(t.as_str()), "Copyright"),
        None => false,
    }
}

/// The markup the content children contribute: each child verbatim, in
/// order, chrome children skipped by identifier, stopping before the
/// first non-chrome child that carries the copyright heading.
pub open spec fn content_markups(l: Seq<HtmlNode>) -> Seq<Seq<char>>
    decreases l.len(),
{
    if l.len() == 0 {
        Seq::empty()
    } else if spec_skip_child(l.first()) {
        content_markups(l.drop_first())
    } else if spec_terminator(l.first()) {
        Seq::empty()
    } else {
        seq![l.first().markup@] + content_markups(l.drop_first())
    }
}

/// Extraction termination: a non-chrome child carrying the copyright
/// heading seals the result. The content is decided by the children
/// before that child alone - the terminator itself contributes nothing,
/// no child at or past it is ever emitted, and at most `i` fragments
/// come out.
pub proof fn lemma_extraction_stops(l: Seq<HtmlNode>, i: int)
    requires
        0 <= i < l.len(),
        !spec_skip_child(l[i]),
        spec_terminator(l[i]),
    ensures
        content_markups(l) == content_markups(l.take(i + 1)),
        content_markups(l) == content_markups(l.take(i)),
        content_markups(l).len() <= i,
    decreases l.len(),
{
    let t = l.take(i + 1);
    assert(t.first() == l.first());
    if i == 0 {
        assert(l.take(0) =~= Seq::<HtmlNode>::empty());
    } else {
        assert(l.take(i).first() == l.first());
        assert(t.drop_first() =~= l.drop_first().take(i));
        assert(l.take(i).drop_first() =~= l.drop_first().take(i - 1));
        if spec_skip_child(l.first()) {
            lemma_extraction_stops(l.drop_first(), i - 1);
        } else if spec_terminator(l.first()) {
        } else {
            lemma_extraction_stops(l.drop_first(), i - 1);
        }
    }
}

/// Walks the content children, emitting each verbatim, skipping chrome,
/// and stopping at the copyright terminator.
fn content_from_children(children: &Vec<HtmlNode>) -> (out: Vec<String>)
    ensures
        strings_view(out@) == content_markups(children@),
{
    let mut out: Vec<String> = Vec::new();
    let mut i: usize = 0;
    proof {
        assert(children@.skip(0) =~= children@);
        assert(strings_view(out@) + content_markups(children@) =~= content_markups(children@));
    }
    while i < children.len()
        invariant
            0 <= i <= children@.len(),
            content_markups(children@) == strings_view(out@) + content_markups(
                children@.skip(i as int),
            ),
        decreases children@.len() - i,
    {
        let c = &children[i];
        proof {
            assert(children@.skip(i as int).first() == children@[i as int]);
            assert(children@.skip(i as int).drop_first() =~= children@.skip(i as int + 1));
        }
        if is_skip_child(c) {
        } else if is_terminator(c) {
            proof {
                assert(strings_view(out@) =~= strings_view(out@) + Seq::<Seq<char>>::empty());
            }
            return out;
        } else {
            let ghost old_out = out@;
            out.push(c.markup.clone());
            proof {
                assert(strings_view(out@) =~= strings_view(old_out) + seq![c.markup@]);
                assert(strings_view(old_out) + (seq![c.markup@] + content_markups(
                    children@.skip(i as int + 1),
                )) =~= strings_view(out@) + content_markups(children@.skip(i as int + 1)));
            }
        }
        i += 1;
    }
    proof {
        assert(children@.skip(children@.len() as int) =~= Seq::<HtmlNode>::empty());
        assert(strings_view(out@) =~= strings_view(out@) + content_markups(
            children@.skip(children@.len() as int),
        ));
    }
    out
}

/// Everything extraction emits for a page: all script markup, then all
/// link markup, each verbatim and in pre-order; then the content
/// children of the marker's parent under the skip-and-terminate rule;
/// then the injected script fragment wrapped in script tags.
pub open spec fn spec_extraction(root: HtmlNode, inject: Seq<char>) -> Seq<Seq<char>> {
    tagged_markups(root, "script"@) + tagged_markups(root, "link"@) + content_markups(
        marker_parent(root)->0.children@,
    ) + seq!["<script>"@ + inject + "</script>"@]
}

/// Extracts the chapter content of a parsed page: script and link
/// elements pass through verbatim, then the children of the content
/// root's parent are emitted in document order - chrome siblings skipped
/// by identifier, everything from the copyright heading on excluded -
/// and the injected script fragment is appended last. Fails with
/// [`PipelineError::Parse`] exactly when the page holds no content-root
/// marker.
pub fn extract_content(root: &HtmlNode, inject: &str) -> (r: Result<Vec<String>, PipelineError>)
    ensures
        match r {
            Ok(frags) => marker_parent(*root) is Some && strings_view(frags@) == spec_extraction(
                *root,
                inject@,
            ),
            Err(e) => e == PipelineError::Parse && marker_parent(*root) is None,
        },
{
    let mut frags: Vec<String> = Vec::new();
    collect_tagged_markups(root, "script", &mut frags);
    collect_tagged_markups(root, "link", &mut frags);
    let parent = match find_marker_parent(root) {
        Some(p) => p,
        None => {
            return Err(PipelineError::Parse);
        },
    };
    let mut content = content_from_children(&parent.children);
    let ghost before = frags@;
    frags.append(&mut content);
    proof {
        assert(strings_view(frags@) =~= strings_view(before) + content_markups(
            marker_parent(*root)->0.children@,
        ));
    }
    let mut injected = String::from_str("<script>");
    injected.append(inject);
    injected.append("</script>");
    let ghost with_content = frags@;
    frags.push(injected);
    proof {
        assert(strings_view(frags@) =~= strings_view(with_content) + seq![
            "<script>"@ + inject@ + "</script>"@,
        ]);
        assert(strings_view(frags@) =~= spec_extraction(*root, inject@));
    }
    Ok(frags)
}

} // verus!
