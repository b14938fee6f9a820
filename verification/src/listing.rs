//! Directory listings: one page of links, one link for each immediate child.

use crate::codec::{decode_url_encoded, decoded_text, encode_path, encoded_text};
use vstd::prelude::*;
use vstd::string::*;

verus! {

/// One immediate child of a directory.
#[derive(Clone, Debug, PartialEq, Eq)]
pub struct DirectoryEntry {
    pub name: String,
    pub is_directory: bool,
}

/// A directory entry as plain values.
pub struct EntryView {
    pub name: Seq<char>,
    pub is_directory: bool,
}

impl View for DirectoryEntry {
    type V = EntryView;

    open spec fn view(&self) -> EntryView {
        EntryView { name: self.name@, is_directory: self.is_directory }
    }
}

/// The entries as plain values, in order.
pub open spec fn entries_of(entries: Seq<DirectoryEntry>) -> Seq<EntryView> {
    Seq::new(entries.len(), |i: int| entries[i]@)
}

/// The link to one entry. Its target is the encoded name and its label the
/// name as it is; a directory gets a trailing `/` on both.
pub open spec fn anchor_of(entry: EntryView) -> Seq<char> {
    if entry.is_directory {
        "<a href=\""@ + encoded_text(entry.name) + "/\">"@ + entry.name + "/</a><br>"@
    } else {
        "<a href=\""@ + encoded_text(entry.name) + "\">"@ + entry.name + "</a><br>"@
    }
}

/// The links to all entries, in the order of the entries.
pub open spec fn anchors_of(entries: Seq<EntryView>) -> Seq<char>
    decreases entries.len(),
{
    if entries.len() == 0 {
        Seq::empty()
    } else {
        anchors_of(entries.drop_last()) + anchor_of(entries.last())
    }
}

/// The page that lists a directory: a heading with the decoded path of the
/// directory, then the links.
pub open spec fn listing_of(directory: Seq<char>, entries: Seq<EntryView>) -> Seq<char> {
    "<!DOCTYPE html><html><head><meta charset=\"utf-8\"></head><body>"@
        + "<h1>Directory listing for "@ + decoded_text(directory) + "</h1>"@ + anchors_of(entries)
        + "</body></html>"@
}

fn append_anchor(page: &mut String, entry: &DirectoryEntry)
    ensures
        final(page)@ == old(page)@ + anchor_of(entry@),
{
    let href = encode_path(entry.name.as_str());
    page.append("<a href=\"");
    page.append(href.as_str());
    if entry.is_directory {
        page.append("/\">");
        page.append(entry.name.as_str());
        page.append("/</a><br>");
    } else {
        page.append("\">");
        page.append(entry.name.as_str());
        page.append("</a><br>");
    }
    assert(final(page)@ =~= old(page)@ + anchor_of(entry@));
}

/// Renders the listing of `directory`, whose immediate children are
/// `entries`, as an HTML page. The entries appear in the order given.
pub fn render_listing(directory: &str, entries: &Vec<DirectoryEntry>) -> (page: String)
    ensures
        page@ == listing_of(directory@, entries_of(entries@)),
{
    let heading = decode_url_encoded(directory);
    let mut page = "<!DOCTYPE html><html><head><meta charset=\"utf-8\"></head><body>".to_owned();
    page.append("<h1>Directory listing for ");
    page.append(heading.as_str());
    page.append("</h1>");
    let ghost start = page@;
    let ghost all = entries_of(entries@);
    assert(all.take(0) =~= Seq::<EntryView>::empty());
    let mut i: usize = 0;
    while i < entries.len()
        invariant
            i <= entries.len(),
            all == entries_of(entries@),
            page@ == start + anchors_of(all.take(i as int)),
        decreases entries.len() - i,
    {
        append_anchor(&mut page, &entries[i]);
        proof {
            let next = all.take(i + 1);
            assert(next.drop_last() =~= all.take(i as int));
            assert(next.last() == entries@[i as int]@);
        }
        i += 1;
    }
    assert(all.take(i as int) =~= all);
    page.append("</body></html>");
    assert(page@ =~= listing_of(directory@, all));
    page
}

} // verus!
