use optifine_scraper::catalog::Anchor;
use optifine_scraper::constants::OPTIFINE_ENDPOINT;
use optifine_scraper::mirror::{
    resolve_anchor, resolve_href, MirrorResolver, ResolveError, ResolvedDownload,
};
use optifine_scraper::page::Document;

fn mirror_page(button: &str) -> String {
    format!(
        r#"<html><body><a href="elsewhere">not the button</a>
<table><tr><td><span class="downloadButton" id="Download">{}</span></td></tr></table>
</body></html>"#,
        button
    )
}

#[test]
fn relative_address_is_put_behind_the_base() {
    assert_eq!(
        resolve_href("adloadx?f=X", "https://optifine.net"),
        "https://optifine.net/adloadx?f=X"
    );
    assert_eq!(
        resolve_href("downloadx?f=OptiFine_1.16.5_HD_U_G8.jar&x=abc", OPTIFINE_ENDPOINT),
        "https://optifine.net/downloadx?f=OptiFine_1.16.5_HD_U_G8.jar&x=abc"
    );
}

#[test]
fn slash_is_added_before_every_relative_address() {
    assert_eq!(
        resolve_href("/adloadx?f=X", "https://optifine.net"),
        "https://optifine.net//adloadx?f=X"
    );
    assert_eq!(resolve_href("", "https://optifine.net"), "https://optifine.net/");
    assert_eq!(resolve_href("x", ""), "x");
    assert_eq!(resolve_href("", ""), "");
}

#[test]
fn address_that_starts_with_the_base_is_kept() {
    assert_eq!(
        resolve_href("https://optifine.net/downloadx?f=X", "https://optifine.net"),
        "https://optifine.net/downloadx?f=X"
    );
    assert_eq!(resolve_href("https://optifine.net", "https://optifine.net"), "https://optifine.net");
    assert_eq!(
        resolve_href("https://optifine.network/x", "https://optifine.net"),
        "https://optifine.network/x"
    );
}

#[test]
fn other_absolute_address_is_treated_as_relative() {
    assert_eq!(
        resolve_href("http://optifine.net/downloadx?f=X", "https://optifine.net"),
        "https://optifine.net/http://optifine.net/downloadx?f=X"
    );
}

#[test]
fn resolving_twice_changes_nothing() {
    let base = "https://optifine.net";
    for href in ["adloadx?f=X", "/adloadx?f=X", "https://optifine.net/x", "", "http://other/x"] {
        let once = resolve_href(href, base);
        assert!(once.starts_with(base));
        assert_eq!(resolve_href(&once, base), once);
    }
}

#[test]
fn anchor_cases_give_their_errors() {
    let base = "https://optifine.net";
    assert_eq!(resolve_anchor(&None, base), Err(ResolveError::AnchorNotFound));
    assert_eq!(resolve_anchor(&Some(Anchor { href: None }), base), Err(ResolveError::HrefMissing));
    assert_eq!(
        resolve_anchor(&Some(Anchor { href: Some("downloadx?f=X".to_string()) }), base),
        Ok(ResolvedDownload { url: "https://optifine.net/downloadx?f=X".to_string() })
    );
}

#[test]
fn mirror_page_with_relative_button_address() {
    let resolver = MirrorResolver::new("https://optifine.net").unwrap();
    let page = Document::parse(&mirror_page(r#"<a href="adloadx?f=X">Download</a>"#));
    assert_eq!(
        resolver.resolve(&page),
        Ok(ResolvedDownload { url: "https://optifine.net/adloadx?f=X".to_string() })
    );
}

#[test]
fn mirror_page_with_rooted_button_address() {
    let resolver = MirrorResolver::new("https://optifine.net").unwrap();
    let page = Document::parse(&mirror_page(r#"<a href="/adloadx?f=X">Download</a>"#));
    assert_eq!(
        resolver.read_anchor(&page),
        Some(Anchor { href: Some("/adloadx?f=X".to_string()) })
    );
    assert_eq!(
        resolver.resolve(&page),
        Ok(ResolvedDownload { url: "https://optifine.net//adloadx?f=X".to_string() })
    );
}

#[test]
fn mirror_page_with_absolute_button_address() {
    let resolver = MirrorResolver::new(OPTIFINE_ENDPOINT).unwrap();
    let page = Document::parse(&mirror_page(
        r#"<a href="https://optifine.net/downloadx?f=X&amp;x=1">Download</a>"#,
    ));
    assert_eq!(
        resolver.resolve(&page),
        Ok(ResolvedDownload { url: "https://optifine.net/downloadx?f=X&x=1".to_string() })
    );
}

#[test]
fn mirror_page_takes_the_first_button_link() {
    let resolver = MirrorResolver::new("https://optifine.net").unwrap();
    let page = Document::parse(&mirror_page(r#"<a href="first">1</a><a href="second">2</a>"#));
    assert_eq!(
        resolver.resolve(&page),
        Ok(ResolvedDownload { url: "https://optifine.net/first".to_string() })
    );
}

#[test]
fn mirror_page_without_button_link() {
    let resolver = MirrorResolver::new("https://optifine.net").unwrap();
    let page = Document::parse(&mirror_page("Download"));
    assert_eq!(resolver.read_anchor(&page), None);
    assert_eq!(resolver.resolve(&page), Err(ResolveError::AnchorNotFound));
    assert_eq!(resolver.resolve(&Document::parse("")), Err(ResolveError::AnchorNotFound));
}

#[test]
fn mirror_page_with_button_link_without_address() {
    let resolver = MirrorResolver::new("https://optifine.net").unwrap();
    let page = Document::parse(&mirror_page(r#"<a onclick="go()">Download</a>"#));
    assert_eq!(resolver.resolve(&page), Err(ResolveError::HrefMissing));
}

#[test]
fn resolver_keeps_its_base() {
    let resolver = MirrorResolver::new("http://localhost:8080").unwrap();
    assert_eq!(resolver.base, "http://localhost:8080");
    let page = Document::parse(&mirror_page(r#"<a href="file.jar">Download</a>"#));
    assert_eq!(
        resolver.resolve(&page),
        Ok(ResolvedDownload { url: "http://localhost:8080/file.jar".to_string() })
    );
}
