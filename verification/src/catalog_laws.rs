//! What holds of every catalog that the scan of a listing builds.

use crate::catalog::{
    attach_row, attach_rows, catalog_of, cursor_in_range, empty_entries, header_identifier,
    headers_well_formed, lemma_failure_is_final, next_match, stub_of, with_release,
    AssociationView, DownloadRowView, ExtractError, VersionEntryView,
};
use crate::text::{is_substring, lemma_substring_transitive};
use vstd::prelude::*;

verus! {

/// Every release of every entry has the entry's identifier as a part of its
/// mirror address.
pub open spec fn contained(catalog: Seq<VersionEntryView>) -> bool {
    forall|k: int, r: int|
        0 <= k < catalog.len() && 0 <= r < catalog[k].releases.len() ==> is_substring(
            catalog[k].identifier,
            #[trigger] catalog[k].releases[r].mirror_url,
        )
}

/// The two catalogs have the same identifiers at the same positions.
pub open spec fn same_identifiers(a: Seq<VersionEntryView>, b: Seq<VersionEntryView>) -> bool {
    &&& a.len() == b.len()
    &&& forall|k: int| 0 <= k < a.len() ==> (#[trigger] a[k]).identifier == b[k].identifier
}

/// Every mirror link of the rows has an address.
pub open spec fn links_have_addresses(rows: Seq<DownloadRowView>) -> bool {
    forall|j: int|
        0 <= j < rows.len() && (#[trigger] rows[j]).mirror_link is Some ==> row_url(rows[j]) is Some
}

/// The address of a row's mirror link, where the row has a link with one.
pub open spec fn row_url(row: DownloadRowView) -> Option<Seq<char>> {
    match row.mirror_link {
        Some(anchor) => anchor.href,
        None => None,
    }
}

/// `next_match` gives the least position from `from` on whose identifier is
/// a part of `url`, and the length of the catalog where no such position is.
pub proof fn lemma_next_match_is_least(catalog: Seq<VersionEntryView>, url: Seq<char>, from: int)
    requires
        0 <= from <= catalog.len(),
    ensures
        from <= next_match(catalog, url, from) <= catalog.len(),
        next_match(catalog, url, from) < catalog.len() ==> is_substring(
            catalog[next_match(catalog, url, from)].identifier,
            url,
        ),
        forall|j: int|
            from <= j < next_match(catalog, url, from) ==> !is_substring(
                (#[trigger] catalog[j]).identifier,
                url,
            ),
    decreases catalog.len() - from,
{
    if from < catalog.len() && !is_substring(catalog[from].identifier, url) {
        lemma_next_match_is_least(catalog, url, from + 1);
    }
}

/// One step of the scan keeps the identifiers, never moves the cursor back,
/// and keeps every release under an identifier that its address holds.
pub proof fn lemma_step_keeps_shape(state: AssociationView, row: DownloadRowView)
    requires
        cursor_in_range(state),
        attach_row(state, row) is Ok,
    ensures
        cursor_in_range(attach_row(state, row).unwrap()),
        same_identifiers(state.catalog, attach_row(state, row).unwrap().catalog),
        state.cursor <= attach_row(state, row).unwrap().cursor,
        contained(state.catalog) ==> contained(attach_row(state, row).unwrap().catalog),
{
    let next = attach_row(state, row).unwrap();
    match row_url(row) {
        None => {},
        Some(url) => {
            lemma_next_match_is_least(state.catalog, url, state.cursor);
            let k = next.cursor;
            if contained(state.catalog) {
                assert forall|e: int, r: int|
                    0 <= e < next.catalog.len() && 0 <= r < next.catalog[e].releases.len()
                    implies is_substring(
                    next.catalog[e].identifier,
                    #[trigger] next.catalog[e].releases[r].mirror_url,
                ) by {
                    if e == k && r == state.catalog[k].releases.len() {
                    } else {
                        assert(next.catalog[e].releases[r] == state.catalog[e].releases[r]);
                    }
                }
            }
        },
    }
}

/// A scan keeps the identifiers, never moves the cursor back, and keeps
/// every release under an identifier that its address holds.
pub proof fn lemma_scan_keeps_shape(state: AssociationView, rows: Seq<DownloadRowView>)
    requires
        cursor_in_range(state),
        attach_rows(state, rows) is Ok,
    ensures
        cursor_in_range(attach_rows(state, rows).unwrap()),
        same_identifiers(state.catalog, attach_rows(state, rows).unwrap().catalog),
        state.cursor <= attach_rows(state, rows).unwrap().cursor,
        contained(state.catalog) ==> contained(attach_rows(state, rows).unwrap().catalog),
    decreases rows.len(),
{
    if rows.len() > 0 {
        let before = attach_rows(state, rows.drop_last()).unwrap();
        lemma_scan_keeps_shape(state, rows.drop_last());
        lemma_step_keeps_shape(before, rows.last());
    }
}

/// A scan that succeeds on the first `n` rows has succeeded on every shorter
/// run of first rows.
pub proof fn lemma_success_on_prefixes(
    state: AssociationView,
    rows: Seq<DownloadRowView>,
    m: int,
    n: int,
)
    requires
        0 <= m <= n <= rows.len(),
        attach_rows(state, rows.take(n)) is Ok,
    ensures
        attach_rows(state, rows.take(m)) is Ok,
    decreases n - m,
{
    if m < n {
        assert(rows.take(n).drop_last() == rows.take(n - 1));
        lemma_success_on_prefixes(state, rows, m, n - 1);
    }
}

/// Order preservation: the catalog of a listing has one entry for each
/// header, in header order, under the identifier that the header names.
pub proof fn law_header_order(headers: Seq<Seq<char>>, rows: Seq<DownloadRowView>)
    requires
        catalog_of(headers, rows) is Ok,
    ensures
        catalog_of(headers, rows).unwrap().len() == headers.len(),
        forall|i: int|
            0 <= i < headers.len() ==> (#[trigger] catalog_of(headers, rows).unwrap()[i]).identifier
                == header_identifier(headers[i]).unwrap(),
{
    let start = AssociationView { cursor: 0, catalog: empty_entries(headers) };
    lemma_scan_keeps_shape(start, rows);
    let end = attach_rows(start, rows).unwrap();
    assert forall|i: int| 0 <= i < headers.len() implies (#[trigger] end.catalog[i]).identifier
        == header_identifier(headers[i]).unwrap() by {
        assert(start.catalog[i].identifier == end.catalog[i].identifier);
    }
}

/// Containment: in the catalog of a listing every release stands under a
/// version whose identifier is a part of the release's mirror address.
pub proof fn law_containment(headers: Seq<Seq<char>>, rows: Seq<DownloadRowView>)
    requires
        catalog_of(headers, rows) is Ok,
    ensures
        contained(catalog_of(headers, rows).unwrap()),
{
    let start = AssociationView { cursor: 0, catalog: empty_entries(headers) };
    lemma_scan_keeps_shape(start, rows);
}

/// The position of the entry that the row at `i` was attached to: the cursor
/// after the first `i + 1` rows.
pub open spec fn assigned_index(state: AssociationView, rows: Seq<DownloadRowView>, i: int) -> int {
    attach_rows(state, rows.take(i + 1)).unwrap().cursor
}

/// In a scan that succeeds, a row with an address becomes the last release
/// of the entry at its assigned position.
pub proof fn law_row_joins_assigned_entry(
    state: AssociationView,
    rows: Seq<DownloadRowView>,
    i: int,
)
    requires
        cursor_in_range(state),
        0 <= i < rows.len(),
        attach_rows(state, rows.take(i + 1)) is Ok,
        row_url(rows[i]) is Some,
    ensures
        0 <= assigned_index(state, rows, i) < state.catalog.len(),
        attach_rows(state, rows.take(i + 1)).unwrap().catalog[assigned_index(
            state,
            rows,
            i,
        )].releases.last() == stub_of(rows[i], row_url(rows[i]).unwrap()),
{
    assert(rows.take(i + 1).drop_last() == rows.take(i));
    assert(rows.take(i + 1).last() == rows[i]);
    let before = attach_rows(state, rows.take(i)).unwrap();
    lemma_scan_keeps_shape(state, rows.take(i));
    lemma_step_keeps_shape(before, rows[i]);
}

/// Cursor monotonicity: in a scan that succeeds, the positions assigned to
/// the rows never decrease in row order, and none lies before the cursor
/// that the scan started from.
pub proof fn law_cursor_monotonic(
    state: AssociationView,
    rows: Seq<DownloadRowView>,
    i: int,
    j: int,
)
    requires
        cursor_in_range(state),
        0 <= i <= j < rows.len(),
        attach_rows(state, rows.take(j + 1)) is Ok,
    ensures
        attach_rows(state, rows.take(i + 1)) is Ok,
        state.cursor <= assigned_index(state, rows, i) <= assigned_index(state, rows, j),
    decreases j - i,
{
    lemma_success_on_prefixes(state, rows, i + 1, j + 1);
    lemma_scan_keeps_shape(state, rows.take(i + 1));
    if i < j {
        law_cursor_monotonic(state, rows, i + 1, j);
        assert(rows.take(i + 2).drop_last() == rows.take(i + 1));
        lemma_step_keeps_shape(
            attach_rows(state, rows.take(i + 1)).unwrap(),
            rows.take(i + 2).last(),
        );
    }
}

/// A row whose address holds none of the identifiers from the cursor on
/// fails the step with an overrun.
pub proof fn law_step_overrun(state: AssociationView, row: DownloadRowView)
    requires
        cursor_in_range(state),
        row_url(row) is Some,
        forall|k: int|
            state.cursor <= k < state.catalog.len() ==> !is_substring(
                (#[trigger] state.catalog[k]).identifier,
                row_url(row).unwrap(),
            ),
    ensures
        attach_row(state, row) == Err::<AssociationView, ExtractError>(
            ExtractError::AssociationOverrun,
        ),
{
    lemma_next_match_is_least(state.catalog, row_url(row).unwrap(), state.cursor);
}

/// The number of releases in a catalog.
pub open spec fn release_count(catalog: Seq<VersionEntryView>) -> nat
    decreases catalog.len(),
{
    if catalog.len() == 0 {
        0
    } else {
        release_count(catalog.drop_last()) + catalog.last().releases.len()
    }
}

/// The number of rows with a mirror link.
pub open spec fn linked_count(rows: Seq<DownloadRowView>) -> nat
    decreases rows.len(),
{
    if rows.len() == 0 {
        0
    } else {
        linked_count(rows.drop_last()) + if rows.last().mirror_link is Some {
            1nat
        } else {
            0nat
        }
    }
}

/// One more release in one entry is one more release in the catalog.
pub proof fn lemma_count_after_release(
    catalog: Seq<VersionEntryView>,
    k: int,
    entry: VersionEntryView,
)
    requires
        0 <= k < catalog.len(),
        entry.releases.len() == catalog[k].releases.len() + 1,
    ensures
        release_count(catalog.update(k, entry)) == release_count(catalog) + 1,
    decreases catalog.len(),
{
    let after = catalog.update(k, entry);
    if k == catalog.len() - 1 {
        assert(after.drop_last() == catalog.drop_last());
    } else {
        assert(after.drop_last() == catalog.drop_last().update(k, entry));
        lemma_count_after_release(catalog.drop_last(), k, entry);
    }
}

/// Entries without releases count no release.
pub proof fn lemma_empty_entries_count(headers: Seq<Seq<char>>)
    ensures
        release_count(empty_entries(headers)) == 0,
    decreases headers.len(),
{
    if headers.len() > 0 {
        assert(empty_entries(headers).drop_last() == empty_entries(headers.drop_last()));
        lemma_empty_entries_count(headers.drop_last());
    }
}

/// A scan that succeeds adds one release for each row with a mirror link.
pub proof fn lemma_scan_counts_rows(state: AssociationView, rows: Seq<DownloadRowView>)
    requires
        cursor_in_range(state),
        attach_rows(state, rows) is Ok,
    ensures
        release_count(attach_rows(state, rows).unwrap().catalog) == release_count(state.catalog)
            + linked_count(rows),
    decreases rows.len(),
{
    if rows.len() > 0 {
        let before = attach_rows(state, rows.drop_last()).unwrap();
        lemma_scan_counts_rows(state, rows.drop_last());
        lemma_scan_keeps_shape(state, rows.drop_last());
        match row_url(rows.last()) {
            None => {},
            Some(url) => {
                let k = next_match(before.catalog, url, before.cursor);
                lemma_next_match_is_least(before.catalog, url, before.cursor);
                lemma_count_after_release(
                    before.catalog,
                    k,
                    with_release(before.catalog[k], stub_of(rows.last(), url)),
                );
            },
        }
    }
}

/// No row is lost and none is taken twice: the catalog of a listing holds as
/// many releases as the listing has rows with a mirror link.
pub proof fn law_every_linked_row_is_kept(headers: Seq<Seq<char>>, rows: Seq<DownloadRowView>)
    requires
        catalog_of(headers, rows) is Ok,
    ensures
        release_count(catalog_of(headers, rows).unwrap()) == linked_count(rows),
{
    let start = AssociationView { cursor: 0, catalog: empty_entries(headers) };
    lemma_empty_entries_count(headers);
    lemma_scan_counts_rows(start, rows);
}

/// Matching is by plain containment: where an identifier at or after the
/// cursor is a part of a later identifier, a row whose address holds the
/// later one never reaches it. The row stays at or before the earlier entry.
pub proof fn law_shorter_identifier_comes_first(
    catalog: Seq<VersionEntryView>,
    url: Seq<char>,
    cursor: int,
    earlier: int,
    later: int,
)
    requires
        0 <= cursor <= earlier < later < catalog.len(),
        is_substring(catalog[earlier].identifier, catalog[later].identifier),
        is_substring(catalog[later].identifier, url),
    ensures
        next_match(catalog, url, cursor) <= earlier,
{
    lemma_substring_transitive(catalog[earlier].identifier, catalog[later].identifier, url);
    lemma_next_match_is_least(catalog, url, cursor);
}

/// Overrun detection: a listing with well-formed headers in which some row's
/// address holds none of the header identifiers has no catalog. Where every
/// mirror link before that row has an address, the failure is an overrun.
pub proof fn law_overrun_detected(headers: Seq<Seq<char>>, rows: Seq<DownloadRowView>, i: int)
    requires
        headers_well_formed(headers),
        0 <= i < rows.len(),
        row_url(rows[i]) is Some,
        forall|k: int|
            0 <= k < headers.len() ==> !is_substring(
                header_identifier(#[trigger] headers[k]).unwrap(),
                row_url(rows[i]).unwrap(),
            ),
    ensures
        catalog_of(headers, rows) is Err,
        links_have_addresses(rows.take(i)) ==> catalog_of(headers, rows) == Err::<
            Seq<VersionEntryView>,
            ExtractError,
        >(ExtractError::AssociationOverrun),
{
    let start = AssociationView { cursor: 0, catalog: empty_entries(headers) };
    let upto = attach_rows(start, rows.take(i + 1));
    assert(rows.take(i + 1).drop_last() == rows.take(i));
    assert(rows.take(i + 1).last() == rows[i]);
    match attach_rows(start, rows.take(i)) {
        Ok(before) => {
            lemma_scan_keeps_shape(start, rows.take(i));
            assert forall|k: int| before.cursor <= k < before.catalog.len() implies !is_substring(
                (#[trigger] before.catalog[k]).identifier,
                row_url(rows[i]).unwrap(),
            ) by {
                assert(start.catalog[k].identifier == before.catalog[k].identifier);
                assert(start.catalog[k].identifier == header_identifier(headers[k]).unwrap());
            }
            law_step_overrun(before, rows[i]);
        },
        Err(e) => {
            if links_have_addresses(rows.take(i)) {
                lemma_failure_without_missing_href(start, rows.take(i));
            }
        },
    }
    assert(upto is Err);
    lemma_failure_is_final(start, rows, i + 1);
}

/// A scan over rows whose mirror links all have an address can only fail
/// with an overrun.
pub proof fn lemma_failure_without_missing_href(state: AssociationView, rows: Seq<DownloadRowView>)
    requires
        links_have_addresses(rows),
        attach_rows(state, rows) is Err,
    ensures
        attach_rows(state, rows) == Err::<AssociationView, ExtractError>(
            ExtractError::AssociationOverrun,
        ),
    decreases rows.len(),
{
    if rows.len() > 0 {
        let last = rows.len() - 1;
        assert(rows.last() == rows[last]);
        match attach_rows(state, rows.drop_last()) {
            Ok(before) => {},
            Err(e) => {
                let shorter = rows.drop_last();
                assert forall|j: int|
                    0 <= j < shorter.len() && (#[trigger] shorter[j]).mirror_link is Some
                    implies row_url(shorter[j]) is Some by {
                    assert(shorter[j] == rows[j]);
                }
                lemma_failure_without_missing_href(state, shorter);
            },
        }
    }
}

} // verus!
