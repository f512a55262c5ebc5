//! Per-chapter planning: safe file names derived from the ordinal and the
//! title, the html/pdf paths each chapter renders through, and the page
//! count read back out of the rendered document's metadata.

use vstd::prelude::*;
use crate::PipelineError;
use crate::discover::{ChapterLink, Level, links_view};
use crate::text::{
    all_digits, chars_to_string, dec_rep_chars, dec_value, is_sanitary_char, parse_u64,
    spec_dec_digit, spec_dec_rep, spec_is_digit, spec_is_sanitary_char, spec_trim, str_eq,
    trim_str,
};

verus! {

/// The title with every character outside the sanitary class replaced by
/// an underscore. Length and character positions are preserved.
pub open spec fn spec_sanitize_title(t: Seq<char>) -> Seq<char> {
    t.map_values(|c: char| if spec_is_sanitary_char(c) { c } else { '_' })
}

/// The ordinal prefix of a chapter file name: the ordinal in decimal,
/// zero-padded to at least two digits.
pub open spec fn spec_ord_prefix(n: nat) -> Seq<char> {
    if n < 10 {
        seq!['0'] + spec_dec_rep(n)
    } else {
        spec_dec_rep(n)
    }
}

/// A chapter's sanitized file-name stem: the zero-padded ordinal, an
/// underscore, and the sanitized title.
pub open spec fn spec_sanitized_name(ord: nat, title: Seq<char>) -> Seq<char> {
    spec_ord_prefix(ord) + seq!['_'] + spec_sanitize_title(title)
}

/// Derives the file-name stem of chapter `ordinal` titled `title`.
pub fn sanitized_name(ordinal: usize, title: &str) -> (r: String)
    ensures
        r@ == spec_sanitized_name(ordinal as nat, title@),
{
    let mut chars: Vec<char> = Vec::new();
    if ordinal < 10 {
        chars.push('0');
    }
    let mut digits = dec_rep_chars(ordinal as u64);
    chars.append(&mut digits);
    chars.push('_');
    proof {
        assert(chars@ =~= spec_ord_prefix(ordinal as nat) + seq!['_']);
    }
    let ghost head = chars@;
    let len = title.unicode_len();
    let mut i: usize = 0;
    while i < len
        invariant
            0 <= i <= len,
            len == title@.len(),
            chars@ == head + spec_sanitize_title(title@.take(i as int)),
        decreases len - i,
    {
        let c = title.get_char(i);
        if is_sanitary_char(c) {
            chars.push(c);
        } else {
            chars.push('_');
        }
        proof {
            assert(spec_sanitize_title(title@.take(i + 1)) =~= spec_sanitize_title(
                title@.take(i as int),
            ).push(if spec_is_sanitary_char(title@[i as int]) {
                title@[i as int]
            } else {
                '_'
            }));
            assert(chars@ =~= head + spec_sanitize_title(title@.take(i + 1)));
        }
        i += 1;
    }
    proof {
        assert(title@.take(len as int) =~= title@);
    }
    chars_to_string(&chars)
}

/// The digit character of any value is a digit.
proof fn lemma_dec_digit_is_digit(d: nat)
    ensures
        spec_is_digit(spec_dec_digit(d)),
{
    assert('0' as u32 == 48);
    assert('1' as u32 == 49);
    assert('2' as u32 == 50);
    assert('3' as u32 == 51);
    assert('4' as u32 == 52);
    assert('5' as u32 == 53);
    assert('6' as u32 == 54);
    assert('7' as u32 == 55);
    assert('8' as u32 == 56);
    assert('9' as u32 == 57);
}

/// Every character of a decimal representation is a digit.
pub proof fn lemma_dec_rep_all_digits(n: nat)
    ensures
        forall|i: int|
            0 <= i < spec_dec_rep(n).len() ==> spec_is_digit(#[trigger] spec_dec_rep(n)[i]),
    decreases n,
{
    if n < 10 {
        lemma_dec_digit_is_digit(n);
        assert forall|i: int| 0 <= i < spec_dec_rep(n).len() implies spec_is_digit(
            #[trigger] spec_dec_rep(n)[i],
        ) by {
            assert(spec_dec_rep(n)[i] == spec_dec_digit(n));
        }
    } else {
        lemma_dec_rep_all_digits(n / 10);
        lemma_dec_digit_is_digit(n % 10);
        assert forall|i: int| 0 <= i < spec_dec_rep(n).len() implies spec_is_digit(
            #[trigger] spec_dec_rep(n)[i],
        ) by {
            if i < spec_dec_rep(n).len() - 1 {
                assert(spec_dec_rep(n)[i] == spec_dec_rep(n / 10)[i]);
            } else {
                assert(spec_dec_rep(n)[i] == spec_dec_digit(n % 10));
            }
        }
    }
}

/// A decimal representation is never empty.
pub proof fn lemma_dec_rep_len(n: nat)
    ensures
        spec_dec_rep(n).len() >= 1,
    decreases n,
{
    if n >= 10 {
        lemma_dec_rep_len(n / 10);
    }
}

/// A positive number's decimal representation has no leading zero.
proof fn lemma_dec_rep_leading(n: nat)
    requires
        n >= 1,
    ensures
        spec_dec_rep(n)[0] != '0',
    decreases n,
{
    if n >= 10 {
        lemma_dec_rep_leading(n / 10);
        lemma_dec_rep_len(n / 10);
    }
}

/// Decimal representation is injective.
proof fn lemma_dec_rep_injective(a: nat, b: nat)
    requires
        spec_dec_rep(a) == spec_dec_rep(b),
    ensures
        a == b,
    decreases a,
{
    lemma_dec_rep_len(a / 10);
    lemma_dec_rep_len(b / 10);
    if a < 10 && b < 10 {
        assert(spec_dec_rep(a)[0] == spec_dec_digit(a));
        assert(spec_dec_rep(b)[0] == spec_dec_digit(b));
    } else if a < 10 && b >= 10 {
        assert(spec_dec_rep(a).len() == 1);
        assert(spec_dec_rep(b).len() >= 2);
    } else if a >= 10 && b < 10 {
        assert(spec_dec_rep(a).len() >= 2);
        assert(spec_dec_rep(b).len() == 1);
    } else {
        assert(spec_dec_rep(a).last() == spec_dec_digit(a % 10));
        assert(spec_dec_rep(b).last() == spec_dec_digit(b % 10));
        assert(a % 10 == b % 10);
        assert(spec_dec_rep(a).drop_last() =~= spec_dec_rep(a / 10));
        assert(spec_dec_rep(b).drop_last() =~= spec_dec_rep(b / 10));
        lemma_dec_rep_injective(a / 10, b / 10);
        assert(a == (a / 10) * 10 + a % 10);
        assert(b == (b / 10) * 10 + b % 10);
    }
}

/// Every character of an ordinal prefix is a digit, and the prefix holds
/// at least two of them.
proof fn lemma_ord_prefix_digits(n: nat)
    ensures
        forall|i: int|
            0 <= i < spec_ord_prefix(n).len() ==> spec_is_digit(#[trigger] spec_ord_prefix(n)[i]),
        spec_ord_prefix(n).len() >= 2,
{
    lemma_dec_rep_all_digits(n);
    lemma_dec_rep_len(n);
    if n >= 10 {
        lemma_dec_rep_len(n / 10);
    }
}

/// The ordinal prefix is injective.
proof fn lemma_ord_prefix_injective(a: nat, b: nat)
    requires
        spec_ord_prefix(a) == spec_ord_prefix(b),
    ensures
        a == b,
{
    lemma_dec_rep_len(a);
    lemma_dec_rep_len(b);
    if a < 10 && b < 10 {
        assert(spec_ord_prefix(a)[1] == spec_dec_rep(a)[0]);
        assert(spec_ord_prefix(b)[1] == spec_dec_rep(b)[0]);
        assert(spec_dec_rep(a) =~= spec_dec_rep(b));
        lemma_dec_rep_injective(a, b);
    } else if a < 10 && b >= 10 {
        lemma_dec_rep_leading(b);
        assert(spec_ord_prefix(a)[0] == '0');
        assert(spec_ord_prefix(b)[0] != '0');
    } else if a >= 10 && b < 10 {
        lemma_dec_rep_leading(a);
        assert(spec_ord_prefix(a)[0] != '0');
        assert(spec_ord_prefix(b)[0] == '0');
    } else {
        lemma_dec_rep_injective(a, b);
    }
}

/// For the first hundred chapters the ordinal prefix is exactly the two
/// digits of the ordinal, zero-padded: `00` for the first chapter, the
/// tens digit then the ones digit after it.
pub proof fn lemma_ord_prefix_zero_padded(n: nat)
    requires
        n < 100,
    ensures
        spec_ord_prefix(n) == seq![spec_dec_digit(n / 10), spec_dec_digit(n % 10)],
{
    if n < 10 {
        assert(spec_ord_prefix(n) =~= seq![spec_dec_digit(0), spec_dec_digit(n)]);
    } else {
        assert(spec_dec_rep(n / 10) == seq![spec_dec_digit(n / 10)]);
        assert(spec_ord_prefix(n) =~= seq![spec_dec_digit(n / 10), spec_dec_digit(n % 10)]);
    }
}

/// Distinct ordinals give distinct sanitized names, whatever the titles:
/// even titles with the same alphanumeric skeleton cannot collide, because
/// the underscore-free digit prefix and its terminating underscore fix
/// where the ordinal ends.
pub proof fn lemma_sanitized_names_distinct(o1: nat, t1: Seq<char>, o2: nat, t2: Seq<char>)
    requires
        o1 != o2,
    ensures
        spec_sanitized_name(o1, t1) != spec_sanitized_name(o2, t2),
{
    let a = spec_ord_prefix(o1);
    let b = spec_ord_prefix(o2);
    let n1 = spec_sanitized_name(o1, t1);
    let n2 = spec_sanitized_name(o2, t2);
    lemma_ord_prefix_digits(o1);
    lemma_ord_prefix_digits(o2);
    if n1 == n2 {
        if a.len() == b.len() {
            assert forall|i: int| 0 <= i < a.len() implies a[i] == b[i] by {
                assert(n1[i] == (a + seq!['_'])[i]);
                assert(n2[i] == (b + seq!['_'])[i]);
            }
            assert(a =~= b);
            lemma_ord_prefix_injective(o1, o2);
        } else if a.len() < b.len() {
            assert(n1[a.len() as int] == (a + seq!['_'])[a.len() as int]);
            assert(n1[a.len() as int] == '_');
            assert(n2[a.len() as int] == (b + seq!['_'])[a.len() as int]);
            assert(n2[a.len() as int] == b[a.len() as int]);
            assert(spec_is_digit(b[a.len() as int]));
            assert('_' as u32 == 95);
        } else {
            assert(n2[b.len() as int] == (b + seq!['_'])[b.len() as int]);
            assert(n2[b.len() as int] == '_');
            assert(n1[b.len() as int] == (a + seq!['_'])[b.len() as int]);
            assert(n1[b.len() as int] == a[b.len() as int]);
            assert(spec_is_digit(a[b.len() as int]));
            assert('_' as u32 == 95);
        }
    }
}

/// Everything fixed about a chapter before it is rendered: where its
/// standalone page is written, where its document lands, and the level
/// and title its bookmark entry will carry.
pub struct ChapterPlan {
    /// The chapter's position in discovery order, starting at 0.
    pub ordinal: usize,
    /// The sanitized file-name stem shared by both paths.
    pub sanitized_name: String,
    /// The path of the standalone chapter HTML file.
    pub html_path: String,
    /// The path of the rendered single-chapter document.
    pub pdf_path: String,
    /// The chapter's nesting level.
    pub level: Level,
    /// The chapter title as discovered.
    pub title: String,
}

/// The path a chapter's standalone HTML file is written to.
pub open spec fn spec_html_path(book: Seq<char>, name: Seq<char>) -> Seq<char> {
    "htmls/"@ + book + "/"@ + name + ".html"@
}

/// The path a chapter's rendered document is written to.
pub open spec fn spec_pdf_path(book: Seq<char>, name: Seq<char>) -> Seq<char> {
    "pdfs/"@ + book + "/"@ + name + ".pdf"@
}

/// What a correct plan for chapter `ordinal` of `link` in `book` holds.
pub open spec fn plan_matches(
    p: ChapterPlan,
    link: crate::discover::ChapterLinkView,
    ordinal: nat,
    book: Seq<char>,
) -> bool {
    let name = spec_sanitized_name(ordinal, link.title);
    &&& p.ordinal as nat == ordinal
    &&& p.sanitized_name@ == name
    &&& p.html_path@ == spec_html_path(book, name)
    &&& p.pdf_path@ == spec_pdf_path(book, name)
    &&& p.level == link.level
    &&& p.title@ == link.title
}

/// Lays out one chapter: derives its sanitized name from the ordinal and
/// title, and the html/pdf paths under the book's directories.
pub fn plan_chapter(link: &ChapterLink, ordinal: usize, book_id: &str) -> (r: ChapterPlan)
    ensures
        plan_matches(r, link@, ordinal as nat, book_id@),
{
    let name = sanitized_name(ordinal, link.title.as_str());
    let mut html_path = String::from_str("htmls/");
    html_path.append(book_id);
    html_path.append("/");
    html_path.append(name.as_str());
    html_path.append(".html");
    let mut pdf_path = String::from_str("pdfs/");
    pdf_path.append(book_id);
    pdf_path.append("/");
    pdf_path.append(name.as_str());
    pdf_path.append(".pdf");
    ChapterPlan {
        ordinal,
        sanitized_name: name,
        html_path,
        pdf_path,
        level: link.level,
        title: link.title.clone(),
    }
}

/// Lays out every discovered chapter, in discovery order: the plan at
/// position `i` carries ordinal `i`, so ordinals are strictly increasing
/// and the derived names cannot collide.
pub fn plan_chapters(links: &Vec<ChapterLink>, book_id: &str) -> (r: Vec<ChapterPlan>)
    ensures
        r@.len() == links@.len(),
        forall|i: int|
            0 <= i < r@.len() ==> plan_matches(#[trigger] r@[i], links_view(links@)[i], i as nat, book_id@),
{
    let mut r: Vec<ChapterPlan> = Vec::new();
    let mut i: usize = 0;
    while i < links.len()
        invariant
            0 <= i <= links@.len(),
            r@.len() == i,
            forall|j: int|
                0 <= j < i ==> plan_matches(
                    #[trigger] r@[j],
                    links_view(links@)[j],
                    j as nat,
                    book_id@,
                ),
        decreases links@.len() - i,
    {
        let plan = plan_chapter(&links[i], i, book_id);
        r.push(plan);
        i += 1;
    }
    r
}

/// The first index at or after `i` where `c` occurs in `s`; the length
/// if it does not.
pub open spec fn find_char_idx(s: Seq<char>, c: char, i: int) -> int
    decreases s.len() - i,
{
    if 0 <= i && i < s.len() {
        if s[i] == c {
            i
        } else {
            find_char_idx(s, c, i + 1)
        }
    } else {
        s.len() as int
    }
}

/// Finds the first occurrence of `c` in `s` at or after `from`.
pub fn find_char_pos(s: &str, c: char, from: usize) -> (r: usize)
    requires
        from <= s@.len(),
    ensures
        r == find_char_idx(s@, c, from as int),
        from <= r <= s@.len(),
{
    let len = s.unicode_len();
    let mut i: usize = from;
    while i < len
        invariant
            from <= i <= len,
            len == s@.len(),
            find_char_idx(s@, c, from as int) == find_char_idx(s@, c, i as int),
        decreases len - i,
    {
        if s.get_char(i) == c {
            return i;
        }
        i += 1;
    }
    len
}

/// The part of a metadata line before its first colon (the whole line if
/// it has none).
pub open spec fn line_first_field(l: Seq<char>) -> Seq<char> {
    l.take(find_char_idx(l, ':', 0))
}

/// The part of a metadata line between its first and second colons, if a
/// first colon exists.
pub open spec fn line_second_field(l: Seq<char>) -> Option<Seq<char>> {
    let a = find_char_idx(l, ':', 0);
    if a < l.len() {
        Some(l.subrange(a + 1, find_char_idx(l, ':', a + 1)))
    } else {
        None
    }
}

/// Whether a metadata line carries the page count.
pub open spec fn is_pages_line(l: Seq<char>) -> bool {
    line_first_field(l) == "NumberOfPages"@
}

/// The page count a pages line denotes: the trimmed second field read as
/// a number; zero when the line has no colon at all; nothing when the
/// field does not parse.
pub open spec fn line_pages_value(l: Seq<char>) -> Option<nat> {
    match line_second_field(l) {
        None => Some(0),
        Some(f) => {
            let t = spec_trim(f);
            if t.len() > 0 && all_digits(t) && dec_value(t) <= u64::MAX {
                Some(dec_value(t))
            } else {
                None
            }
        },
    }
}

/// The first pages line among the metadata lines, if any.
pub open spec fn first_pages_line(ls: Seq<Seq<char>>) -> Option<Seq<char>>
    decreases ls.len(),
{
    if ls.len() == 0 {
        None
    } else {
        match first_pages_line(ls.drop_last()) {
            Some(l) => Some(l),
            None => if is_pages_line(ls.last()) {
                Some(ls.last())
            } else {
                None
            },
        }
    }
}

/// The views of a sequence of lines.
pub open spec fn lines_view(s: Seq<String>) -> Seq<Seq<char>> {
    s.map_values(|l: String| l@)
}

/// Scans rendered-document metadata, line by line, for the first line
/// whose colon-delimited first field is `NumberOfPages`, and reads its
/// second field as the page count. Fails with [`PipelineError::Render`]
/// exactly when no such line exists, or when the field will not parse as
/// a number: either way the render produced no usable metadata.
pub fn page_count_from_metadata(lines: &Vec<String>) -> (r: Result<u64, PipelineError>)
    ensures
        match first_pages_line(lines_view(lines@)) {
            None => r == Err::<u64, PipelineError>(PipelineError::Render),
            Some(l) => match line_pages_value(l) {
                None => r == Err::<u64, PipelineError>(PipelineError::Render),
                Some(v) => r is Ok && r->Ok_0 as nat == v,
            },
        },
{
    let mut i: usize = 0;
    while i < lines.len()
        invariant
            0 <= i <= lines@.len(),
            first_pages_line(lines_view(lines@).take(i as int)) is None,
        decreases lines@.len() - i,
    {
        let l = lines[i].as_str();
        proof {
            assert(lines_view(lines@).take(i as int + 1).drop_last() =~= lines_view(
                lines@,
            ).take(i as int));
            assert(lines_view(lines@).take(i as int + 1).last() == l@);
        }
        let a = find_char_pos(l, ':', 0);
        let first = l.substring_char(0, a);
        if str_eq(first, "NumberOfPages") {
            assert(is_pages_line(l@));
            proof {
                lemma_first_pages_line_found(lines_view(lines@), i as int);
            }
            let llen = l.unicode_len();
            if a < llen {
                let b = find_char_pos(l, ':', a + 1);
                let second = l.substring_char(a + 1, b);
                let t = trim_str(second);
                match parse_u64(t) {
                    Some(v) => {
                        return Ok(v);
                    },
                    None => {
                        return Err(PipelineError::Render);
                    },
                }
            } else {
                assert(line_second_field(l@) is None);
                return Ok(0);
            }
        }
        assert(first_pages_line(lines_view(lines@).take(i as int + 1)) is None);
        i += 1;
    }
    proof {
        assert(lines_view(lines@).take(lines@.len() as int) =~= lines_view(lines@));
    }
    Err(PipelineError::Render)
}

/// A prefix with no pages line followed by one makes it the first.
proof fn lemma_first_pages_line_found(ls: Seq<Seq<char>>, i: int)
    requires
        0 <= i < ls.len(),
        first_pages_line(ls.take(i)) is None,
        is_pages_line(ls[i]),
    ensures
        first_pages_line(ls) == Some(ls[i]),
    decreases ls.len(),
{
    if i == ls.len() - 1 {
        assert(ls.drop_last() =~= ls.take(i));
    } else {
        assert(ls.drop_last().take(i) =~= ls.take(i));
        assert(ls.drop_last()[i] == ls[i]);
        lemma_first_pages_line_found(ls.drop_last(), i);
    }
}

} // verus!
