//! The selectors by which the site's pages are read.

use vstd::prelude::*;

verus! {

/// On the listing page: the version headers.
pub const VERSION_HEADER: &'static str = "span.downloads h2";

/// On the listing page: the download rows.
pub const DOWNLOAD_ROW: &'static str = "tr.downloadLine";

/// Inside a download row: the cell with the file name.
pub const DOWNLOAD_FILENAME: &'static str = "td.colFile";

/// Inside a download row: the link to the mirror page.
pub const DOWNLOAD_MIRROR: &'static str = "td.colMirror a";

/// On a mirror page: the link of the download button.
pub const DOWNLOAD_ANCHOR: &'static str = ".downloadButton a";

} // verus!
