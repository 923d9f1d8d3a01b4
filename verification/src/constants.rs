//! The fixed addresses and selectors of the site.

pub mod selectors;

use vstd::prelude::*;

verus! {

/// The origin of the site; relative addresses found on its pages are taken
/// from here.
pub const OPTIFINE_ENDPOINT: &'static str = "https://optifine.net";

/// The address of the listing page.
pub const OPTIFINE_DOWNLOADS_ENDPOINT: &'static str = "https://optifine.net/downloads";

} // verus!
