//! Mirror resolution: from a mirror page to the address of the file.

use crate::catalog::{Anchor, AnchorView};
use crate::constants::selectors::DOWNLOAD_ANCHOR;
use crate::page::{
    anchor_of, document_matches, parsed_selector, read_anchor, refused, select_in_document,
    selector, Document, InvalidSelector,
};
use crate::text::starts_with;
use vstd::prelude::*;

verus! {

/// The address from which a release can be fetched directly.
#[derive(Debug, Clone, PartialEq, Eq)]
pub struct ResolvedDownload {
    /// The absolute address.
    pub url: String,
}

/// Why a mirror page gave no address.
#[derive(Debug, Clone, Copy, PartialEq, Eq, Structural)]
pub enum ResolveError {
    /// The page has no download button link.
    AnchorNotFound,
    /// The download button link has no address.
    HrefMissing,
}

/// The address that `href` stands for on a site whose origin is `base`:
/// `href` itself where it begins with `base`, else `base`, a slash and
/// `href`. The slash is put in whether or not `href` begins with one.
pub open spec fn resolved_url(href: Seq<char>, base: Seq<char>) -> Seq<char> {
    if base.is_prefix_of(href) {
        href
    } else {
        base + seq!['/'] + href
    }
}

/// What the download button link of a mirror page resolves to.
pub open spec fn resolution(anchor: Option<AnchorView>, base: Seq<char>) -> Result<
    Seq<char>,
    ResolveError,
> {
    match anchor {
        None => Err(ResolveError::AnchorNotFound),
        Some(a) => match a.href {
            None => Err(ResolveError::HrefMissing),
            Some(href) => Ok(resolved_url(href, base)),
        },
    }
}

/// Qualifies the address `href` found on a page of the site at `base`.
pub fn resolve_href(href: &str, base: &str) -> (url: String)
    ensures
        url@ == resolved_url(href@, base@),
{
    if starts_with(href, base) {
        href.to_owned()
    } else {
        proof {
            reveal_strlit("/");
            assert("/"@ =~= seq!['/']);
        }
        String::from_str(base).concat("/").concat(href)
    }
}

/// Resolves the download button link of a mirror page, where `anchor` is
/// that link as read from the page.
pub fn resolve_anchor(anchor: &Option<Anchor>, base: &str) -> (r: Result<
    ResolvedDownload,
    ResolveError,
>)
    ensures
        match r {
            Ok(download) => resolution(anchor.deep_view(), base@) == Ok::<
                Seq<char>,
                ResolveError,
            >(download.url@),
            Err(e) => resolution(anchor.deep_view(), base@) == Err::<Seq<char>, ResolveError>(e),
        },
{
    match anchor {
        None => Err(ResolveError::AnchorNotFound),
        Some(a) => match &a.href {
            None => Err(ResolveError::HrefMissing),
            Some(href) => Ok(ResolvedDownload { url: resolve_href(href.as_str(), base) }),
        },
    }
}

/// An address that was resolved begins with the base, so that resolving it
/// again changes nothing.
pub proof fn law_resolution_is_stable(href: Seq<char>, base: Seq<char>)
    ensures
        base.is_prefix_of(resolved_url(href, base)),
        resolved_url(resolved_url(href, base), base) == resolved_url(href, base),
{
    if !base.is_prefix_of(href) {
        let url = base + seq!['/'] + href;
        assert(url.subrange(0, base.len() as int) == base);
    }
}

/// The first download button link of a page, where it has one.
pub open spec fn download_anchor(doc: &Document, button: scraper::Selector) -> Option<AnchorView> {
    let found = document_matches(&doc.tree, button);
    if found.len() > 0 {
        Some(anchor_of(found[0]))
    } else {
        None
    }
}

/// Resolves mirror pages of one site.
#[derive(Debug)]
pub struct MirrorResolver {
    /// The origin of the site.
    pub base: String,
    /// Selects the download button link of a mirror page.
    pub button: scraper::Selector,
}

impl MirrorResolver {
    /// A resolver for the site at `base`, which reads mirror pages as the
    /// site serves them. Fails where the selector parser refuses the
    /// selector of the download button.
    pub fn new(base: &str) -> (r: Result<MirrorResolver, InvalidSelector>)
        ensures
            match r {
                Ok(resolver) => resolver.base@ == base@ && parsed_selector(DOWNLOAD_ANCHOR@)
                    == Some(resolver.button),
                Err(e) => refused(DOWNLOAD_ANCHOR@) && e.css@ == DOWNLOAD_ANCHOR@,
            },
    {
        match selector(DOWNLOAD_ANCHOR) {
            Ok(button) => Ok(MirrorResolver { base: base.to_owned(), button }),
            Err(e) => Err(e),
        }
    }

    /// Reads the download button link of a mirror page.
    pub fn read_anchor(&self, page: &Document) -> (anchor: Option<Anchor>)
        ensures
            anchor.deep_view() == download_anchor(page, self.button),
    {
        let found = select_in_document(&page.tree, &self.button);
        if found.len() > 0 {
            Some(read_anchor(found[0]))
        } else {
            None
        }
    }

    /// Resolves a mirror page to the address of its file.
    pub fn resolve(&self, page: &Document) -> (r: Result<ResolvedDownload, ResolveError>)
        ensures
            match r {
                Ok(download) => resolution(download_anchor(page, self.button), self.base@) == Ok::<
                    Seq<char>,
                    ResolveError,
                >(download.url@),
                Err(e) => resolution(download_anchor(page, self.button), self.base@) == Err::<
                    Seq<char>,
                    ResolveError,
                >(e),
            },
    {
        let anchor = self.read_anchor(page);
        resolve_anchor(&anchor, self.base.as_str())
    }
}

} // verus!
