//! The values the pipeline hands to the outside world: the standalone
//! chapter HTML document, and the argument lists of the rendering engine
//! and the metadata toolkit. The caller only spawns the processes; every
//! argument is fixed here.

use vstd::prelude::*;
use crate::dom::strings_view;

verus! {

/// The concatenation of a sequence of fragments, in order.
pub open spec fn concat_all(l: Seq<Seq<char>>) -> Seq<char>
    decreases l.len(),
{
    if l.len() == 0 {
        Seq::empty()
    } else {
        concat_all(l.drop_last()) + l.last()
    }
}

/// A standalone chapter page: the embedded stylesheet wrapped in style
/// tags, followed by the extracted fragments, verbatim and in order.
pub open spec fn spec_chapter_html(style: Seq<char>, frags: Seq<Seq<char>>) -> Seq<char> {
    "<style>"@ + style + "</style>"@ + concat_all(frags)
}

/// Builds the standalone HTML document of one chapter from the
/// stylesheet and the extracted fragments.
pub fn chapter_html(style: &str, fragments: &Vec<String>) -> (r: String)
    ensures
        r@ == spec_chapter_html(style@, strings_view(fragments@)),
{
    let mut s = String::from_str("<style>");
    s.append(style);
    s.append("</style>");
    let ghost head = s@;
    let mut i: usize = 0;
    proof {
        assert(concat_all(strings_view(fragments@).take(0)) =~= Seq::<char>::empty());
        assert(s@ =~= head + concat_all(strings_view(fragments@).take(0)));
    }
    while i < fragments.len()
        invariant
            0 <= i <= fragments@.len(),
            s@ == head + concat_all(strings_view(fragments@).take(i as int)),
        decreases fragments@.len() - i,
    {
        proof {
            assert(strings_view(fragments@).take(i as int + 1).drop_last() =~= strings_view(
                fragments@,
            ).take(i as int));
            assert(strings_view(fragments@).take(i as int + 1).last() == fragments@[i as int]@);
        }
        s.append(fragments[i].as_str());
        i += 1;
    }
    proof {
        assert(strings_view(fragments@).take(fragments@.len() as int) =~= strings_view(
            fragments@,
        ));
    }
    s
}

/// The arguments the headless rendering engine is invoked with: settle
/// the compositor fully before capture, no default header or footer,
/// print to the given document path, from the given HTML file.
pub fn render_command_args(html_path: &str, pdf_path: &str) -> (r: Vec<String>)
    ensures
        r@.len() == 6,
        r@[0]@ == "--headless"@,
        r@[1]@ == "--run-all-compositor-stages-before-draw"@,
        r@[2]@ == "--no-pdf-header-footer"@,
        r@[3]@ == "--print-to-pdf-no-header"@,
        r@[4]@ == "--print-to-pdf="@ + pdf_path@,
        r@[5]@ == html_path@,
{
    let mut r: Vec<String> = Vec::new();
    r.push(String::from_str("--headless"));
    r.push(String::from_str("--run-all-compositor-stages-before-draw"));
    r.push(String::from_str("--no-pdf-header-footer"));
    r.push(String::from_str("--print-to-pdf-no-header"));
    let mut target = String::from_str("--print-to-pdf=");
    target.append(pdf_path);
    r.push(target);
    r.push(String::from_str(html_path));
    r
}

/// The metadata-toolkit arguments that dump a document's metadata to the
/// scratch metadata file.
pub fn dump_data_args(pdf_path: &str) -> (r: Vec<String>)
    ensures
        r@.len() == 4,
        r@[0]@ == pdf_path@,
        r@[1]@ == "dump_data"@,
        r@[2]@ == "output"@,
        r@[3]@ == "meta.txt"@,
{
    let mut r: Vec<String> = Vec::new();
    r.push(String::from_str(pdf_path));
    r.push(String::from_str("dump_data"));
    r.push(String::from_str("output"));
    r.push(String::from_str("meta.txt"));
    r
}

/// The metadata-toolkit arguments that concatenate every chapter
/// document, in chapter order, into the scratch merged document.
pub fn merge_command_args(pdf_paths: &Vec<String>) -> (r: Vec<String>)
    ensures
        r@.len() == pdf_paths@.len() + 3,
        forall|i: int| 0 <= i < pdf_paths@.len() ==> (#[trigger] r@[i])@ == pdf_paths@[i]@,
        r@[pdf_paths@.len() as int]@ == "cat"@,
        r@[pdf_paths@.len() as int + 1]@ == "output"@,
        r@[pdf_paths@.len() as int + 2]@ == "merged.pdf"@,
{
    let mut r: Vec<String> = Vec::new();
    let mut i: usize = 0;
    while i < pdf_paths.len()
        invariant
            0 <= i <= pdf_paths@.len(),
            r@.len() == i,
            forall|j: int| 0 <= j < i ==> (#[trigger] r@[j])@ == pdf_paths@[j]@,
        decreases pdf_paths@.len() - i,
    {
        r.push(pdf_paths[i].clone());
        i += 1;
    }
    r.push(String::from_str("cat"));
    r.push(String::from_str("output"));
    r.push(String::from_str("merged.pdf"));
    r
}

/// The metadata-toolkit arguments that write the updated metadata back
/// into the merged document, producing the book's final named output.
pub fn update_info_args(book_id: &str) -> (r: Vec<String>)
    ensures
        r@.len() == 5,
        r@[0]@ == "merged.pdf"@,
        r@[1]@ == "update_info"@,
        r@[2]@ == "meta.txt"@,
        r@[3]@ == "output"@,
        r@[4]@ == book_id@ + ".pdf"@,
{
    let mut r: Vec<String> = Vec::new();
    r.push(String::from_str("merged.pdf"));
    r.push(String::from_str("update_info"));
    r.push(String::from_str("meta.txt"));
    r.push(String::from_str("output"));
    let mut out = String::from_str(book_id);
    out.append(".pdf");
    r.push(out);
    r
}

} // verus!
