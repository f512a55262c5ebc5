//! The library's own model of a parsed page: a tree of nodes carrying
//! the values the extraction rule reads. Whatever parser produced the
//! page, the caller converts its output into this tree once; every query
//! below is verified against it.

use vstd::prelude::*;
use crate::text::str_eq;

verus! {

/// One node of a parsed page: its tag name, its `id` attribute if any,
/// its verbatim markup, its concatenated descendant text, and its direct
/// children in document order.
pub struct HtmlNode {
    /// The element's tag name; empty for non-element nodes.
    pub tag: String,
    /// The element's `id` attribute, when present.
    pub id: Option<String>,
    /// The node's markup, verbatim as the page held it.
    pub markup: String,
    /// The text of the node and its descendants, concatenated.
    pub text: String,
    /// The direct children, in document order.
    pub children: Vec<HtmlNode>,
}

/// The markup of every node tagged `tag` in the subtree of `n`, in
/// pre-order: the node itself first, then each child's subtree in order.
pub open spec fn tagged_markups(n: HtmlNode, tag: Seq<char>) -> Seq<Seq<char>>
    decreases n, 1int,
{
    let own: Seq<Seq<char>> = if n.tag@ == tag {
        seq![n.markup@]
    } else {
        Seq::empty()
    };
    own + tagged_markups_list(n.children@, tag)
}

/// The tagged markups of a list of subtrees, in order.
pub open spec fn tagged_markups_list(l: Seq<HtmlNode>, tag: Seq<char>) -> Seq<Seq<char>>
    decreases l, 0int,
{
    if l.len() == 0 {
        Seq::empty()
    } else {
        tagged_markups_list(l.drop_last(), tag) + tagged_markups(l.last(), tag)
    }
}

/// The views of a sequence of strings.
pub open spec fn strings_view(s: Seq<String>) -> Seq<Seq<char>> {
    s.map_values(|x: String| x@)
}

/// Appends, in pre-order, the markup of every node tagged `tag` in the
/// subtree of `n`.
pub fn collect_tagged_markups(n: &HtmlNode, tag: &str, out: &mut Vec<String>)
    ensures
        strings_view(final(out)@) == strings_view(old(out)@) + tagged_markups(*n, tag@),
    decreases *n,
{
    let ghost base = out@;
    if str_eq(n.tag.as_str(), tag) {
        out.push(n.markup.clone());
        proof {
            assert(strings_view(out@) =~= strings_view(base) + seq![n.markup@]);
        }
    }
    let ghost own: Seq<Seq<char>> = if n.tag@ == tag@ {
        seq![n.markup@]
    } else {
        Seq::empty()
    };
    proof {
        assert(strings_view(out@) =~= strings_view(base) + own);
    }
    let mut i: usize = 0;
    while i < n.children.len()
        invariant
            0 <= i <= n.children@.len(),
            strings_view(out@) == strings_view(base) + own + tagged_markups_list(
                n.children@.take(i as int),
                tag@,
            ),
        decreases n.children@.len() - i,
    {
        proof {
            assert(decreases_to!(*n => n.children@[i as int]));
            assert(n.children@.take(i as int + 1).drop_last() =~= n.children@.take(i as int));
            assert(n.children@.take(i as int + 1).last() == n.children@[i as int]);
        }
        collect_tagged_markups(&n.children[i], tag, out);
        i += 1;
    }
    proof {
        assert(n.children@.take(n.children@.len() as int) =~= n.children@);
        assert(strings_view(out@) =~= strings_view(base) + tagged_markups(*n, tag@));
    }
}

/// The text of the first node tagged `tag` in the subtree of `n`, in
/// pre-order, if the subtree holds one.
pub open spec fn first_tagged_text(n: HtmlNode, tag: Seq<char>) -> Option<Seq<char>>
    decreases n, 1int,
{
    if n.tag@ == tag {
        Some(n.text@)
    } else {
        first_tagged_text_list(n.children@, tag)
    }
}

/// The first tagged text among a list of subtrees, earlier subtrees
/// taking priority.
pub open spec fn first_tagged_text_list(l: Seq<HtmlNode>, tag: Seq<char>) -> Option<Seq<char>>
    decreases l, 0int,
{
    if l.len() == 0 {
        None
    } else {
        match first_tagged_text_list(l.drop_last(), tag) {
            Some(t) => Some(t),
            None => first_tagged_text(l.last(), tag),
        }
    }
}

/// A hit at `i`, with nothing found among the first `i` subtrees, is the
/// list's first hit.
proof fn lemma_first_text_found(l: Seq<HtmlNode>, tag: Seq<char>, i: int)
    requires
        0 <= i < l.len(),
        first_tagged_text_list(l.take(i), tag) is None,
        first_tagged_text(l[i], tag) is Some,
    ensures
        first_tagged_text_list(l, tag) == first_tagged_text(l[i], tag),
    decreases l.len(),
{
    if i == l.len() - 1 {
        assert(l.drop_last() =~= l.take(i));
    } else {
        assert(l.drop_last().take(i) =~= l.take(i));
        assert(l.drop_last()[i] == l[i]);
        lemma_first_text_found(l.drop_last(), tag, i);
    }
}

/// Finds the text of the first node tagged `tag` in the subtree of `n`,
/// in pre-order.
pub fn find_first_tagged_text<'a>(n: &'a HtmlNode, tag: &str) -> (r: Option<&'a String>)
    ensures
        match r {
            Some(s) => first_tagged_text(*n, tag@) == Some(s@),
            None => first_tagged_text(*n, tag@) is None,
        },
    decreases *n,
{
    if str_eq(n.tag.as_str(), tag) {
        return Some(&n.text);
    }
    let mut i: usize = 0;
    while i < n.children.len()
        invariant
            0 <= i <= n.children@.len(),
            n.tag@ != tag@,
            first_tagged_text_list(n.children@.take(i as int), tag@) is None,
        decreases n.children@.len() - i,
    {
        proof {
            assert(decreases_to!(*n => n.children@[i as int]));
            assert(n.children@.take(i as int + 1).drop_last() =~= n.children@.take(i as int));
            assert(n.children@.take(i as int + 1).last() == n.children@[i as int]);
        }
        match find_first_tagged_text(&n.children[i], tag) {
            Some(s) => {
                proof {
                    lemma_first_text_found(n.children@, tag@, i as int);
                }
                return Some(s);
            },
            None => {},
        }
        i += 1;
    }
    proof {
        assert(n.children@.take(n.children@.len() as int) =~= n.children@);
    }
    None
}

/// The content-root marker: a `div` whose `id` attribute is
/// `book_header`.
pub open spec fn spec_is_marker(n: HtmlNode) -> bool {
    n.tag@ == "div"@ && n.id is Some && n.id->0@ == "book_header"@
}

/// Whether `n` is the content-root marker element.
pub fn is_marker(n: &HtmlNode) -> (r: bool)
    ensures
        r == spec_is_marker(*n),
{
    if !str_eq(n.tag.as_str(), "div") {
        return false;
    }
    match &n.id {
        Some(id) => str_eq(id.as_str(), "book_header"),
        None => false,
    }
}

/// The node whose direct child is the pre-order-first marker in the
/// subtree of `n`; the root itself is never taken for the marker.
pub open spec fn marker_parent(n: HtmlNode) -> Option<HtmlNode>
    decreases n, 1int,
{
    marker_parent_list(n, n.children@)
}

/// The marker parent found along a list of child subtrees of `parent`,
/// earlier children taking priority, a marker child beating any marker
/// deeper inside it.
pub open spec fn marker_parent_list(parent: HtmlNode, l: Seq<HtmlNode>) -> Option<HtmlNode>
    decreases l, 0int,
{
    if l.len() == 0 {
        None
    } else {
        match marker_parent_list(parent, l.drop_last()) {
            Some(p) => Some(p),
            None => if spec_is_marker(l.last()) {
                Some(parent)
            } else {
                marker_parent(l.last())
            },
        }
    }
}

/// A hit at child `i`, with nothing found among the first `i` children,
/// decides the whole list.
proof fn lemma_marker_parent_found(parent: HtmlNode, l: Seq<HtmlNode>, i: int)
    requires
        0 <= i < l.len(),
        marker_parent_list(parent, l.take(i)) is None,
        spec_is_marker(l[i]) || marker_parent(l[i]) is Some,
    ensures
        marker_parent_list(parent, l) == (if spec_is_marker(l[i]) {
            Some(parent)
        } else {
            marker_parent(l[i])
        }),
    decreases l.len(),
{
    if i == l.len() - 1 {
        assert(l.drop_last() =~= l.take(i));
    } else {
        assert(l.drop_last().take(i) =~= l.take(i));
        assert(l.drop_last()[i] == l[i]);
        lemma_marker_parent_found(parent, l.drop_last(), i);
    }
}

/// Finds the parent of the pre-order-first marker element in the subtree
/// of `n`, if the subtree holds a marker below its root.
pub fn find_marker_parent<'a>(n: &'a HtmlNode) -> (r: Option<&'a HtmlNode>)
    ensures
        match r {
            Some(p) => marker_parent(*n) == Some(*p),
            None => marker_parent(*n) is None,
        },
    decreases *n,
{
    let mut i: usize = 0;
    while i < n.children.len()
        invariant
            0 <= i <= n.children@.len(),
            marker_parent_list(*n, n.children@.take(i as int)) is None,
        decreases n.children@.len() - i,
    {
        proof {
            assert(decreases_to!(*n => n.children@[i as int]));
            assert(n.children@.take(i as int + 1).drop_last() =~= n.children@.take(i as int));
            assert(n.children@.take(i as int + 1).last() == n.children@[i as int]);
        }
        let c = &n.children[i];
        if is_marker(c) {
            proof {
                lemma_marker_parent_found(*n, n.children@, i as int);
            }
            return Some(n);
        }
        match find_marker_parent(c) {
            Some(p) => {
                proof {
                    lemma_marker_parent_found(*n, n.children@, i as int);
                }
                return Some(p);
            },
            None => {},
        }
        i += 1;
    }
    proof {
        assert(n.children@.take(n.children@.len() as int) =~= n.children@);
    }
    None
}

} // verus!
