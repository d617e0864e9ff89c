//! Framing of the output document: one header per announced directory
//! (followed by its listing when one could be obtained) and one header per
//! kept file followed by its contents, in scan order.

use vstd::prelude::*;
use vstd::string::StringExecFns;

verus! {

/// One contribution to the output document, in scan order. A directory
/// whose listing could not be obtained still contributes its header; a
/// file whose contents could not be read contributes nothing.
pub enum DocItem {
    Directory { path: String, listing: Option<String> },
    File { path: String, contents: Option<String> },
}

/// The mathematical image of a [`DocItem`].
pub enum DocItemV {
    Directory { path: Seq<char>, listing: Option<Seq<char>> },
    File { path: Seq<char>, contents: Option<Seq<char>> },
}

impl View for DocItem {
    type V = DocItemV;

    open spec fn view(&self) -> DocItemV {
        match self {
            DocItem::Directory { path, listing } => DocItemV::Directory {
                path: path@,
                listing: match listing {
                    Some(l) => Some(l@),
                    None => None,
                },
            },
            DocItem::File { path, contents } => DocItemV::File {
                path: path@,
                contents: match contents {
                    Some(c) => Some(c@),
                    None => None,
                },
            },
        }
    }
}

pub open spec fn items_view(s: Seq<DocItem>) -> Seq<DocItemV> {
    s.map_values(|it: DocItem| it@)
}

/// The text a directory announcement adds: its header, then the listing
/// when one is there.
pub open spec fn spec_dir_section(path: Seq<char>, listing: Option<Seq<char>>) -> Seq<char> {
    "\n=== Directory: "@ + path + " ===\n"@ + match listing {
        Some(l) => l,
        None => Seq::<char>::empty(),
    }
}

/// The text a kept file adds: its header, its contents and a closing line
/// break — or nothing at all when the contents could not be read.
pub open spec fn spec_file_section(path: Seq<char>, contents: Option<Seq<char>>) -> Seq<char> {
    match contents {
        Some(c) => "\n=== File: "@ + path + " ===\n"@ + c + "\n"@,
        None => Seq::<char>::empty(),
    }
}

pub open spec fn spec_item_text(it: DocItemV) -> Seq<char> {
    match it {
        DocItemV::Directory { path, listing } => spec_dir_section(path, listing),
        DocItemV::File { path, contents } => spec_file_section(path, contents),
    }
}

/// The whole document: the items' texts, concatenated in order.
pub open spec fn spec_document(items: Seq<DocItemV>) -> Seq<char>
    decreases items.len(),
{
    if items.len() == 0 {
        Seq::<char>::empty()
    } else {
        spec_document(items.drop_last()) + spec_item_text(items.last())
    }
}

/// Append a directory announcement to the document.
pub fn append_directory_section(out: &mut String, path: &String, listing: Option<&String>)
    ensures
        final(out)@ == old(out)@ + spec_dir_section(
            path@,
            match listing {
                Some(l) => Some(l@),
                None => None,
            },
        ),
{
    out.append("\n=== Directory: ");
    out.append(path.as_str());
    out.append(" ===\n");
    match listing {
        Some(l) => out.append(l.as_str()),
        None => (),
    }
    proof {
        assert(out@ =~= old(out)@ + spec_dir_section(
            path@,
            match listing {
                Some(l) => Some(l@),
                None => None,
            },
        ));
    }
}

/// Append a kept file's section to the document.
pub fn append_file_section(out: &mut String, path: &String, contents: Option<&String>)
    ensures
        final(out)@ == old(out)@ + spec_file_section(
            path@,
            match contents {
                Some(c) => Some(c@),
                None => None,
            },
        ),
{
    match contents {
        Some(c) => {
            out.append("\n=== File: ");
            out.append(path.as_str());
            out.append(" ===\n");
            out.append(c.as_str());
            out.append("\n");
            proof {
                assert(out@ =~= old(out)@ + spec_file_section(path@, Some(c@)));
            }
        },
        None => {
            proof {
                assert(out@ =~= old(out)@ + spec_file_section(path@, None));
            }
        },
    }
}

/// Assemble the whole output document from its items, in order.
pub fn assemble_document(items: &Vec<DocItem>) -> (out: String)
    ensures
        out@ == spec_document(items_view(items@)),
{
    let n = items.len();
    let mut out = String::new();
    let mut i: usize = 0;
    while i < n
        invariant
            i <= n,
            n == items@.len(),
            out@ == spec_document(items_view(items@).subrange(0, i as int)),
        decreases n - i,
    {
        let ghost pre = items_view(items@).subrange(0, i as int);
        match &items[i] {
            DocItem::Directory { path, listing } => {
                append_directory_section(&mut out, path, listing.as_ref());
            },
            DocItem::File { path, contents } => {
                append_file_section(&mut out, path, contents.as_ref());
            },
        }
        proof {
            let post = items_view(items@).subrange(0, i as int + 1);
            assert(post.drop_last() =~= pre);
            assert(post.last() == items_view(items@)[i as int]);
        }
        i = i + 1;
    }
    proof {
        assert(items_view(items@).subrange(0, n as int) =~= items_view(items@));
    }
    out
}

} // verus!
