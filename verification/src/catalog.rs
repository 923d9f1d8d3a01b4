//! The catalog: the versions of a listing in page order, each with the
//! release stubs that belong to it.

use crate::text::{
    after_first_whitespace, contains, has_whitespace, is_substring, split_after_whitespace,
};
use vstd::prelude::*;

verus! {

/// An entry of the catalog that is not resolved yet: a file name and the
/// address of the intermediate page that leads to the file.
#[derive(Debug, Clone, PartialEq, Eq)]
pub struct ReleaseStub {
    /// The text of the row's file name cell; empty where the row has none.
    pub filename: String,
    /// The address of the mirror page, absolute or relative.
    pub mirror_url: String,
}

/// What a `ReleaseStub` holds, as sequences of characters.
pub struct ReleaseStubView {
    pub filename: Seq<char>,
    pub mirror_url: Seq<char>,
}

impl DeepView for ReleaseStub {
    type V = ReleaseStubView;

    open spec fn deep_view(&self) -> ReleaseStubView {
        ReleaseStubView { filename: self.filename@, mirror_url: self.mirror_url@ }
    }
}

/// One version of the product with its releases, in page order.
#[derive(Debug, Clone, PartialEq, Eq)]
pub struct VersionEntry {
    /// The version, such as `1.16.5`.
    pub identifier: String,
    /// The releases for this version, in the order of their rows.
    pub releases: Vec<ReleaseStub>,
}

/// What a `VersionEntry` holds, as sequences.
pub struct VersionEntryView {
    pub identifier: Seq<char>,
    pub releases: Seq<ReleaseStubView>,
}

impl DeepView for VersionEntry {
    type V = VersionEntryView;

    open spec fn deep_view(&self) -> VersionEntryView {
        VersionEntryView {
            identifier: self.identifier@,
            releases: self.releases.deep_view(),
        }
    }
}

/// A link element as far as the library reads it.
#[derive(Debug, Clone, PartialEq, Eq)]
pub struct Anchor {
    /// The value of the element's address attribute, where it has one.
    pub href: Option<String>,
}

/// What an `Anchor` holds.
pub struct AnchorView {
    pub href: Option<Seq<char>>,
}

impl DeepView for Anchor {
    type V = AnchorView;

    open spec fn deep_view(&self) -> AnchorView {
        AnchorView { href: self.href.deep_view() }
    }
}

/// A download row of the listing as far as the library reads it.
#[derive(Debug, Clone, PartialEq, Eq)]
pub struct DownloadRow {
    /// The first mirror link of the row; `None` for a row without one, such
    /// as a separator.
    pub mirror_link: Option<Anchor>,
    /// The text of the row's file name cell, where the row has such a cell.
    pub filename: Option<String>,
}

/// What a `DownloadRow` holds.
pub struct DownloadRowView {
    pub mirror_link: Option<AnchorView>,
    pub filename: Option<Seq<char>>,
}

impl DeepView for DownloadRow {
    type V = DownloadRowView;

    open spec fn deep_view(&self) -> DownloadRowView {
        DownloadRowView {
            mirror_link: self.mirror_link.deep_view(),
            filename: self.filename.deep_view(),
        }
    }
}

/// Why a listing could not be turned into a catalog.
#[derive(Debug, Clone, Copy, PartialEq, Eq, Structural)]
pub enum ExtractError {
    /// A version header holds no whitespace, so it has no label to discard.
    MalformedHeader,
    /// A row's mirror address names none of the versions at or after the
    /// cursor: the rows are not grouped by version in header order.
    AssociationOverrun,
    /// A row's mirror link has no address.
    HrefMissing,
}

/// The version that a header's text names: what follows its first
/// whitespace character, which ends the label before the version. `None`
/// where the text has no whitespace. Whitespace is any character with the
/// Unicode `White_Space` property.
pub open spec fn header_identifier(text: Seq<char>) -> Option<Seq<char>> {
    after_first_whitespace(text)
}

/// Every header names a version.
pub open spec fn headers_well_formed(headers: Seq<Seq<char>>) -> bool {
    forall|i: int| 0 <= i < headers.len() ==> has_whitespace(#[trigger] headers[i])
}

/// One entry without releases for each header, in header order.
pub open spec fn empty_entries(headers: Seq<Seq<char>>) -> Seq<VersionEntryView> {
    Seq::new(
        headers.len(),
        |i: int|
            VersionEntryView {
                identifier: header_identifier(headers[i]).unwrap(),
                releases: Seq::empty(),
            },
    )
}

/// Reads the version out of a header's text.
pub fn parse_header(text: &str) -> (r: Result<String, ExtractError>)
    ensures
        match r {
            Ok(identifier) => header_identifier(text@) == Some(identifier@),
            Err(e) => e == ExtractError::MalformedHeader && header_identifier(text@) is None,
        },
{
    match split_after_whitespace(text) {
        Some(identifier) => Ok(identifier),
        None => Err(ExtractError::MalformedHeader),
    }
}

/// Makes the version list of a listing: one entry per header, in header
/// order, each without releases. Fails on the first header that names no
/// version.
pub fn parse_headers(headers: &Vec<String>) -> (r: Result<Vec<VersionEntry>, ExtractError>)
    ensures
        match r {
            Ok(entries) => headers_well_formed(headers.deep_view()) && entries.deep_view()
                == empty_entries(headers.deep_view()),
            Err(e) => e == ExtractError::MalformedHeader && !headers_well_formed(
                headers.deep_view(),
            ),
        },
{
    let mut entries: Vec<VersionEntry> = Vec::new();
    let mut i: usize = 0;
    while i < headers.len()
        invariant
            i <= headers.len(),
            entries.len() == i,
            headers_well_formed(headers.deep_view().take(i as int)),
            entries.deep_view() == empty_entries(headers.deep_view().take(i as int)),
        decreases headers.len() - i,
    {
        match parse_header(headers[i].as_str()) {
            Ok(identifier) => {
                let ghost before = entries.deep_view();
                entries.push(VersionEntry { identifier, releases: Vec::new() });
                proof {
                    let all = headers.deep_view();
                    let target = empty_entries(all.take(i + 1));
                    assert(entries@[i as int].releases.deep_view() =~= Seq::empty());
                    assert forall|j: int| 0 <= j < i + 1 implies entries.deep_view()[j]
                        == target[j] by {
                        if j < i {
                            assert(entries.deep_view()[j] == before[j]);
                        }
                    }
                    assert(entries.deep_view() =~= target);
                }
            },
            Err(e) => {
                proof {
                    let all = headers.deep_view();
                    assert(all[i as int] == headers[i as int]@);
                    assert(!has_whitespace(all[i as int]));
                }
                return Err(e);
            },
        }
        i += 1;
    }
    proof {
        let all = headers.deep_view();
        assert(all.take(i as int) == all);
    }
    Ok(entries)
}

/// The first position at or after `from` whose identifier is a part of
/// `url`; the length of the catalog where there is none.
///
/// An identifier matches wherever it occurs in the address, with nothing
/// asked of the characters around it: `1.1` matches every address that
/// holds `1.16.5`. A listing in which one identifier is a part of a later
/// one gives the later version's rows to the earlier version.
pub open spec fn next_match(catalog: Seq<VersionEntryView>, url: Seq<char>, from: int) -> int
    decreases catalog.len() - from,
{
    if from < 0 || from >= catalog.len() {
        catalog.len() as int
    } else if is_substring(catalog[from].identifier, url) {
        from
    } else {
        next_match(catalog, url, from + 1)
    }
}

/// The stub that a row with the mirror address `url` gives.
pub open spec fn stub_of(row: DownloadRowView, url: Seq<char>) -> ReleaseStubView {
    ReleaseStubView {
        filename: match row.filename {
            Some(name) => name,
            None => Seq::empty(),
        },
        mirror_url: url,
    }
}

/// The entry with one more release at its end.
pub open spec fn with_release(entry: VersionEntryView, stub: ReleaseStubView) -> VersionEntryView {
    VersionEntryView { identifier: entry.identifier, releases: entry.releases.push(stub) }
}

/// The state that the scan of the rows carries: the association cursor and
/// the catalog as filled so far.
pub struct AssociationView {
    pub cursor: int,
    pub catalog: Seq<VersionEntryView>,
}

/// The cursor of a state points at an entry or just past the last one.
pub open spec fn cursor_in_range(state: AssociationView) -> bool {
    0 <= state.cursor <= state.catalog.len()
}

/// One step of the scan. A row without a mirror link changes nothing. For a
/// row with an address the cursor moves to the next entry whose identifier
/// is a part of the address, and the row's stub is appended to that entry.
pub open spec fn attach_row(state: AssociationView, row: DownloadRowView) -> Result<
    AssociationView,
    ExtractError,
> {
    match row.mirror_link {
        None => Ok(state),
        Some(anchor) => match anchor.href {
            None => Err(ExtractError::HrefMissing),
            Some(url) => {
                let k = next_match(state.catalog, url, state.cursor);
                if k >= state.catalog.len() {
                    Err(ExtractError::AssociationOverrun)
                } else {
                    Ok(
                        AssociationView {
                            cursor: k,
                            catalog: state.catalog.update(
                                k,
                                with_release(state.catalog[k], stub_of(row, url)),
                            ),
                        },
                    )
                }
            },
        },
    }
}

/// The scan of `rows` in order from `state`; the first failing row ends it.
pub open spec fn attach_rows(state: AssociationView, rows: Seq<DownloadRowView>) -> Result<
    AssociationView,
    ExtractError,
>
    decreases rows.len(),
{
    if rows.len() == 0 {
        Ok(state)
    } else {
        match attach_rows(state, rows.drop_last()) {
            Ok(before) => attach_row(before, rows.last()),
            Err(e) => Err(e),
        }
    }
}

/// The catalog of a listing with the given header texts and download rows.
pub open spec fn catalog_of(headers: Seq<Seq<char>>, rows: Seq<DownloadRowView>) -> Result<
    Seq<VersionEntryView>,
    ExtractError,
> {
    if !headers_well_formed(headers) {
        Err(ExtractError::MalformedHeader)
    } else {
        match attach_rows(AssociationView { cursor: 0, catalog: empty_entries(headers) }, rows) {
            Ok(end) => Ok(end.catalog),
            Err(e) => Err(e),
        }
    }
}

/// The association cursor together with the catalog that it fills.
#[derive(Debug)]
pub struct Association {
    cursor: usize,
    catalog: Vec<VersionEntry>,
}

impl View for Association {
    type V = AssociationView;

    closed spec fn view(&self) -> AssociationView {
        AssociationView { cursor: self.cursor as int, catalog: self.catalog.deep_view() }
    }
}

impl Association {
    #[verifier::type_invariant]
    spec fn cursor_within_catalog(self) -> bool {
        self.cursor <= self.catalog.len()
    }

    /// The state before the first row: the cursor at the first entry.
    pub fn start(entries: Vec<VersionEntry>) -> (state: Association)
        ensures
            state@ == (AssociationView { cursor: 0, catalog: entries.deep_view() }),
            cursor_in_range(state@),
    {
        Association { cursor: 0, catalog: entries }
    }

    /// The position of the cursor.
    pub fn cursor(&self) -> (k: usize)
        ensures
            k == self@.cursor,
            cursor_in_range(self@),
    {
        proof {
            use_type_invariant(self);
        }
        self.cursor
    }

    /// The catalog as filled so far.
    pub fn finish(self) -> (catalog: Vec<VersionEntry>)
        ensures
            catalog.deep_view() == self@.catalog,
    {
        self.catalog
    }

    /// Moves the cursor to the next entry at or after it whose identifier is
    /// a part of `url`.
    fn advance(&self, url: &str) -> (k: usize)
        ensures
            k == next_match(self@.catalog, url@, self@.cursor),
            self.cursor <= k <= self.catalog.len(),
    {
        proof {
            use_type_invariant(self);
        }
        let mut k: usize = self.cursor;
        while k < self.catalog.len()
            invariant
                self.cursor <= k <= self.catalog.len(),
                next_match(self@.catalog, url@, self@.cursor) == next_match(
                    self@.catalog,
                    url@,
                    k as int,
                ),
            decreases self.catalog.len() - k,
        {
            assert(self@.catalog[k as int].identifier == self.catalog[k as int].identifier@);
            if contains(url, self.catalog[k].identifier.as_str()) {
                return k;
            }
            k += 1;
        }
        k
    }

    /// Takes one row into the catalog. The cursor never moves back.
    pub fn attach(self, row: &DownloadRow) -> (r: Result<Association, ExtractError>)
        ensures
            r matches Ok(next) ==> self@.cursor <= next@.cursor && cursor_in_range(next@),
            match r {
                Ok(next) => attach_row(self@, row.deep_view()) == Ok::<
                    AssociationView,
                    ExtractError,
                >(next@),
                Err(e) => attach_row(self@, row.deep_view()) == Err::<
                    AssociationView,
                    ExtractError,
                >(e),
            },
    {
        proof {
            use_type_invariant(&self);
        }
        match &row.mirror_link {
            None => Ok(self),
            Some(anchor) => match &anchor.href {
                None => Err(ExtractError::HrefMissing),
                Some(url) => {
                    let k = self.advance(url.as_str());
                    if k >= self.catalog.len() {
                        return Err(ExtractError::AssociationOverrun);
                    }
                    let filename = match &row.filename {
                        Some(name) => name.clone(),
                        None => String::new(),
                    };
                    let ghost before = self@;
                    let mut catalog = self.catalog;
                    let ghost entries = catalog@;
                    let stub = ReleaseStub { filename, mirror_url: url.clone() };
                    catalog[k].releases.push(stub);
                    proof {
                        let target = before.catalog.update(
                            k as int,
                            with_release(before.catalog[k as int], stub_of(row.deep_view(), url@)),
                        );
                        assert(catalog@[k as int].releases.deep_view()
                            =~= entries[k as int].releases.deep_view().push(stub.deep_view()));
                        assert forall|j: int| 0 <= j < entries.len() implies catalog.deep_view()[j]
                            == target[j] by {
                            assert(before.catalog[j] == entries[j].deep_view());
                        }
                        assert(catalog.deep_view() =~= target);
                    }
                    Ok(Association { cursor: k, catalog })
                },
            },
        }
    }

    /// Takes the rows into the catalog in order and stops at the first row
    /// that fails. The cursor never moves back.
    pub fn attach_all(self, rows: &Vec<DownloadRow>) -> (r: Result<Association, ExtractError>)
        ensures
            r matches Ok(end) ==> self@.cursor <= end@.cursor && cursor_in_range(end@),
            match r {
                Ok(end) => attach_rows(self@, rows.deep_view()) == Ok::<
                    AssociationView,
                    ExtractError,
                >(end@),
                Err(e) => attach_rows(self@, rows.deep_view()) == Err::<
                    AssociationView,
                    ExtractError,
                >(e),
            },
    {
        proof {
            use_type_invariant(&self);
        }
        let ghost start = self@;
        let ghost all = rows.deep_view();
        let mut state = self;
        let mut i: usize = 0;
        while i < rows.len()
            invariant
                i <= rows.len(),
                start == self@,
                start.cursor <= state@.cursor,
                cursor_in_range(state@),
                all == rows.deep_view(),
                attach_rows(start, all.take(i as int)) == Ok::<AssociationView, ExtractError>(
                    state@,
                ),
            decreases rows.len() - i,
        {
            proof {
                assert(all.take(i + 1).drop_last() == all.take(i as int));
                assert(all.take(i + 1).last() == rows[i as int].deep_view());
            }
            match state.attach(&rows[i]) {
                Ok(next) => {
                    state = next;
                },
                Err(e) => {
                    proof {
                        assert(attach_rows(start, all.take(i + 1)) is Err);
                        lemma_failure_is_final(start, all, i + 1);
                    }
                    return Err(e);
                },
            }
            i += 1;
        }
        proof {
            assert(all.take(i as int) == all);
        }
        Ok(state)
    }
}

/// A scan that has failed on some of the first rows fails in the same way on
/// all of them.
pub proof fn lemma_failure_is_final(state: AssociationView, rows: Seq<DownloadRowView>, n: int)
    requires
        0 <= n <= rows.len(),
        attach_rows(state, rows.take(n)) is Err,
    ensures
        attach_rows(state, rows) == attach_rows(state, rows.take(n)),
    decreases rows.len() - n,
{
    if n == rows.len() {
        assert(rows.take(n) == rows);
    } else {
        assert(rows.take(n + 1).drop_last() == rows.take(n));
        lemma_failure_is_final(state, rows, n + 1);
    }
}

/// Builds the catalog of a listing from the texts of its version headers and
/// from its download rows, both in page order.
pub fn build_catalog(headers: &Vec<String>, rows: &Vec<DownloadRow>) -> (r: Result<
    Vec<VersionEntry>,
    ExtractError,
>)
    ensures
        match r {
            Ok(catalog) => catalog_of(headers.deep_view(), rows.deep_view()) == Ok::<
                Seq<VersionEntryView>,
                ExtractError,
            >(catalog.deep_view()),
            Err(e) => catalog_of(headers.deep_view(), rows.deep_view()) == Err::<
                Seq<VersionEntryView>,
                ExtractError,
            >(e),
        },
{
    match parse_headers(headers) {
        Err(e) => Err(e),
        Ok(entries) => match Association::start(entries).attach_all(rows) {
            Ok(end) => Ok(end.finish()),
            Err(e) => Err(e),
        },
    }
}

} // verus!
