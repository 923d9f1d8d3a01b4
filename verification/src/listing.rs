//! Reading the listing page: its version headers and its download rows.

use crate::catalog::{
    build_catalog, catalog_of, DownloadRow, DownloadRowView, ExtractError, VersionEntry,
    VersionEntryView,
};
use crate::constants::selectors::{
    DOWNLOAD_FILENAME, DOWNLOAD_MIRROR, DOWNLOAD_ROW, VERSION_HEADER,
};
use crate::page::{
    anchor_of, document_matches, element_matches, element_text, parsed_selector, read_anchor,
    refused, select_in_document, select_in_element, selector, text_of, Document,
    InvalidSelector,
};
use vstd::prelude::*;

verus! {

/// The four selectors by which a listing is read.
#[derive(Debug)]
pub struct ListingSelectors {
    /// Selects the version headers.
    pub version_header: scraper::Selector,
    /// Selects the download rows.
    pub download_row: scraper::Selector,
    /// Selects the file name cell inside a row.
    pub download_filename: scraper::Selector,
    /// Selects the mirror link inside a row.
    pub download_mirror: scraper::Selector,
}

impl ListingSelectors {
    /// The selectors of the listing page as the site serves it. Fails with
    /// the first of the four texts that the selector parser refuses.
    pub fn standard() -> (r: Result<ListingSelectors, InvalidSelector>)
        ensures
            match r {
                Ok(s) => {
                    &&& parsed_selector(VERSION_HEADER@) == Some(s.version_header)
                    &&& parsed_selector(DOWNLOAD_ROW@) == Some(s.download_row)
                    &&& parsed_selector(DOWNLOAD_FILENAME@) == Some(s.download_filename)
                    &&& parsed_selector(DOWNLOAD_MIRROR@) == Some(s.download_mirror)
                },
                Err(e) => {
                    if refused(VERSION_HEADER@) {
                        e.css@ == VERSION_HEADER@
                    } else if refused(DOWNLOAD_ROW@) {
                        e.css@ == DOWNLOAD_ROW@
                    } else if refused(DOWNLOAD_FILENAME@) {
                        e.css@ == DOWNLOAD_FILENAME@
                    } else {
                        refused(DOWNLOAD_MIRROR@) && e.css@ == DOWNLOAD_MIRROR@
                    }
                },
            },
    {
        let version_header = match selector(VERSION_HEADER) {
            Ok(s) => s,
            Err(e) => {
                return Err(e);
            },
        };
        let download_row = match selector(DOWNLOAD_ROW) {
            Ok(s) => s,
            Err(e) => {
                return Err(e);
            },
        };
        let download_filename = match selector(DOWNLOAD_FILENAME) {
            Ok(s) => s,
            Err(e) => {
                return Err(e);
            },
        };
        let download_mirror = match selector(DOWNLOAD_MIRROR) {
            Ok(s) => s,
            Err(e) => {
                return Err(e);
            },
        };
        Ok(ListingSelectors { version_header, download_row, download_filename, download_mirror })
    }
}

/// The texts of the version headers of a page, in the order in which the
/// page yields its headers.
pub open spec fn header_texts(doc: &Document, selectors: &ListingSelectors) -> Seq<Seq<char>> {
    let found = document_matches(&doc.tree, selectors.version_header);
    Seq::new(found.len(), |i: int| element_text(found[i]))
}

/// What a download row holds: its first mirror link and the text of its
/// first file name cell.
pub open spec fn row_of(
    row: scraper::ElementRef<'_>,
    selectors: &ListingSelectors,
) -> DownloadRowView {
    let links = element_matches(row, selectors.download_mirror);
    let cells = element_matches(row, selectors.download_filename);
    DownloadRowView {
        mirror_link: if links.len() > 0 {
            Some(anchor_of(links[0]))
        } else {
            None
        },
        filename: if cells.len() > 0 {
            Some(element_text(cells[0]))
        } else {
            None
        },
    }
}

/// The download rows of a page, in the order in which the page yields them.
pub open spec fn listing_rows(
    doc: &Document,
    selectors: &ListingSelectors,
) -> Seq<DownloadRowView> {
    let found = document_matches(&doc.tree, selectors.download_row);
    Seq::new(found.len(), |i: int| row_of(found[i], selectors))
}

/// Reads the texts of the version headers of a page.
pub fn read_headers(doc: &Document, selectors: &ListingSelectors) -> (texts: Vec<String>)
    ensures
        texts.deep_view() == header_texts(doc, selectors),
{
    let found = select_in_document(&doc.tree, &selectors.version_header);
    let mut texts: Vec<String> = Vec::new();
    let mut i: usize = 0;
    while i < found.len()
        invariant
            i <= found.len(),
            found@ == document_matches(&doc.tree, selectors.version_header),
            texts.len() == i,
            texts.deep_view() == header_texts(doc, selectors).take(i as int),
        decreases found.len() - i,
    {
        let ghost before = texts.deep_view();
        texts.push(text_of(found[i]));
        proof {
            let target = header_texts(doc, selectors).take(i + 1);
            assert forall|j: int| 0 <= j < i + 1 implies texts.deep_view()[j] == target[j] by {
                if j < i {
                    assert(texts.deep_view()[j] == before[j]);
                }
            }
            assert(texts.deep_view() =~= target);
        }
        i += 1;
    }
    assert(header_texts(doc, selectors).take(i as int) == header_texts(doc, selectors));
    texts
}

/// Reads one download row.
fn read_row(row: scraper::ElementRef<'_>, selectors: &ListingSelectors) -> (r: DownloadRow)
    ensures
        r.deep_view() == row_of(row, selectors),
{
    let links = select_in_element(row, &selectors.download_mirror);
    let cells = select_in_element(row, &selectors.download_filename);
    let mirror_link = if links.len() > 0 {
        Some(read_anchor(links[0]))
    } else {
        None
    };
    let filename = if cells.len() > 0 {
        Some(text_of(cells[0]))
    } else {
        None
    };
    DownloadRow { mirror_link, filename }
}

/// Reads the download rows of a page.
pub fn read_rows(doc: &Document, selectors: &ListingSelectors) -> (rows: Vec<DownloadRow>)
    ensures
        rows.deep_view() == listing_rows(doc, selectors),
{
    let found = select_in_document(&doc.tree, &selectors.download_row);
    let mut rows: Vec<DownloadRow> = Vec::new();
    let mut i: usize = 0;
    while i < found.len()
        invariant
            i <= found.len(),
            found@ == document_matches(&doc.tree, selectors.download_row),
            rows.len() == i,
            rows.deep_view() == listing_rows(doc, selectors).take(i as int),
        decreases found.len() - i,
    {
        let ghost before = rows.deep_view();
        rows.push(read_row(found[i], selectors));
        proof {
            let target = listing_rows(doc, selectors).take(i + 1);
            assert forall|j: int| 0 <= j < i + 1 implies rows.deep_view()[j] == target[j] by {
                if j < i {
                    assert(rows.deep_view()[j] == before[j]);
                }
            }
            assert(rows.deep_view() =~= target);
        }
        i += 1;
    }
    assert(listing_rows(doc, selectors).take(i as int) == listing_rows(doc, selectors));
    rows
}

/// Extracts the catalog of a listing page: reads its headers and rows and
/// builds the catalog from them.
pub fn extract(doc: &Document, selectors: &ListingSelectors) -> (r: Result<
    Vec<VersionEntry>,
    ExtractError,
>)
    ensures
        match r {
            Ok(catalog) => catalog_of(
                header_texts(doc, selectors),
                listing_rows(doc, selectors),
            ) == Ok::<Seq<VersionEntryView>, ExtractError>(catalog.deep_view()),
            Err(e) => catalog_of(header_texts(doc, selectors), listing_rows(doc, selectors))
                == Err::<Seq<VersionEntryView>, ExtractError>(e),
        },
{
    let headers = read_headers(doc, selectors);
    let rows = read_rows(doc, selectors);
    build_catalog(&headers, &rows)
}

} // verus!
