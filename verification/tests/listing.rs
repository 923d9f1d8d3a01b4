use optifine_scraper::catalog::{DownloadRow, Anchor, ExtractError, ReleaseStub, VersionEntry};
use optifine_scraper::listing::{extract, read_headers, read_rows, ListingSelectors};
use optifine_scraper::page::{selector, Document};

const LISTING: &str = r#"<!DOCTYPE html>
<html>
<head><title>Downloads</title></head>
<body>
<h2>Not a version header</h2>
<span class="downloads">
<h2>Version 1.16.5</h2>
<table class="downloadTable">
<tr class="downloadLine downloadLineMain">
<td class="colFile">OptiFine 1.16.5 HD U G8</td>
<td class="colDownload"><a href="http://adfoc.us/serve/?u=1">Download</a></td>
<td class="colMirror"><a href="http://optifine.net/adloadx?f=OptiFine_1.16.5_HD_U_G8.jar">(Mirror)</a></td>
</tr>
<tr class="downloadLine downloadLineMore">
<td class="colFile">OptiFine 1.16.5 HD U G7</td>
<td class="colMirror"><a href="http://optifine.net/adloadx?f=OptiFine_1.16.5_HD_U_G7.jar">(Mirror)</a></td>
</tr>
</table>
<h2>Version 1.17</h2>
<table class="downloadTable">
<tr class="downloadLine">
<td class="colFile">OptiFine <b>1.17</b> HD U G9</td>
<td class="colMirror"><a href="http://optifine.net/adloadx?f=OptiFine_1.17_HD_U_G9.jar">(Mirror)</a></td>
</tr>
<tr class="downloadLine">
<td class="colFile">OptiFine 1.17 HD U H1</td>
<td class="colMirror"><a href="http://optifine.net/adloadx?f=OptiFine_1.17_HD_U_H1.jar">(Mirror)</a><a href="second">2</a></td>
</tr>
</table>
</span>
</body>
</html>"#;

fn stub(filename: &str, url: &str) -> ReleaseStub {
    ReleaseStub { filename: filename.to_string(), mirror_url: url.to_string() }
}

#[test]
fn standard_selectors_are_accepted() {
    assert!(ListingSelectors::standard().is_ok());
}

#[test]
fn selector_parser_refusal_names_the_text() {
    let refused = selector("td..colFile").unwrap_err();
    assert_eq!(refused.css, "td..colFile");
    assert!(selector("").is_err());
    assert!(selector("td.colFile").is_ok());
}

#[test]
fn headers_are_read_in_page_order() {
    let doc = Document::parse(LISTING);
    let selectors = ListingSelectors::standard().unwrap();
    assert_eq!(read_headers(&doc, &selectors), vec!["Version 1.16.5", "Version 1.17"]);
}

#[test]
fn rows_are_read_in_page_order() {
    let doc = Document::parse(LISTING);
    let selectors = ListingSelectors::standard().unwrap();
    let rows = read_rows(&doc, &selectors);
    assert_eq!(rows.len(), 4);
    assert_eq!(
        rows[0],
        DownloadRow {
            mirror_link: Some(Anchor {
                href: Some("http://optifine.net/adloadx?f=OptiFine_1.16.5_HD_U_G8.jar".to_string())
            }),
            filename: Some("OptiFine 1.16.5 HD U G8".to_string()),
        }
    );
    assert_eq!(rows[2].filename, Some("OptiFine 1.17 HD U G9".to_string()));
    assert_eq!(
        rows[3].mirror_link,
        Some(Anchor {
            href: Some("http://optifine.net/adloadx?f=OptiFine_1.17_HD_U_H1.jar".to_string())
        })
    );
}

#[test]
fn listing_with_two_versions_and_two_rows_each() {
    let doc = Document::parse(LISTING);
    let selectors = ListingSelectors::standard().unwrap();
    let catalog = extract(&doc, &selectors).unwrap();
    assert_eq!(
        catalog,
        vec![
            VersionEntry {
                identifier: "1.16.5".to_string(),
                releases: vec![
                    stub(
                        "OptiFine 1.16.5 HD U G8",
                        "http://optifine.net/adloadx?f=OptiFine_1.16.5_HD_U_G8.jar"
                    ),
                    stub(
                        "OptiFine 1.16.5 HD U G7",
                        "http://optifine.net/adloadx?f=OptiFine_1.16.5_HD_U_G7.jar"
                    ),
                ],
            },
            VersionEntry {
                identifier: "1.17".to_string(),
                releases: vec![
                    stub(
                        "OptiFine 1.17 HD U G9",
                        "http://optifine.net/adloadx?f=OptiFine_1.17_HD_U_G9.jar"
                    ),
                    stub(
                        "OptiFine 1.17 HD U H1",
                        "http://optifine.net/adloadx?f=OptiFine_1.17_HD_U_H1.jar"
                    ),
                ],
            },
        ]
    );
}

#[test]
fn page_row_without_mirror_link_is_skipped() {
    let page = r#"<span class="downloads"><h2>Version 1.17</h2></span>
<table>
<tr class="downloadLine"><td class="colFile">A</td><td class="colMirror"><a href="f=1.17_A">m</a></td></tr>
<tr class="downloadLine"><td class="colFile">separator</td><td class="colMirror"></td></tr>
<tr class="downloadLine"><td class="colFile">no mirror cell</td><td><a href="f=1.17_X">m</a></td></tr>
<tr class="downloadLine"><td class="colFile">B</td><td class="colMirror"><a href="f=1.17_B">m</a></td></tr>
<tr class="other"><td class="colFile">C</td><td class="colMirror"><a href="f=1.17_C">m</a></td></tr>
</table>"#;
    let doc = Document::parse(page);
    let selectors = ListingSelectors::standard().unwrap();
    let rows = read_rows(&doc, &selectors);
    assert_eq!(rows.len(), 4);
    assert_eq!(rows[1].mirror_link, None);
    assert_eq!(rows[2].mirror_link, None);
    let catalog = extract(&doc, &selectors).unwrap();
    assert_eq!(catalog.len(), 1);
    assert_eq!(catalog[0].releases, vec![stub("A", "f=1.17_A"), stub("B", "f=1.17_B")]);
}

#[test]
fn page_row_without_filename_cell_gets_empty_filename() {
    let page = r#"<span class="downloads"><h2>Version 1.17</h2></span>
<table><tr class="downloadLine"><td class="colMirror"><a href="f=1.17_A">m</a></td></tr></table>"#;
    let doc = Document::parse(page);
    let selectors = ListingSelectors::standard().unwrap();
    assert_eq!(read_rows(&doc, &selectors)[0].filename, None);
    let catalog = extract(&doc, &selectors).unwrap();
    assert_eq!(catalog[0].releases, vec![stub("", "f=1.17_A")]);
}

#[test]
fn page_mirror_link_without_address_fails() {
    let page = r#"<span class="downloads"><h2>Version 1.17</h2></span>
<table><tr class="downloadLine"><td class="colFile">A</td><td class="colMirror"><a name="x">m</a></td></tr></table>"#;
    let doc = Document::parse(page);
    let selectors = ListingSelectors::standard().unwrap();
    assert_eq!(
        read_rows(&doc, &selectors)[0].mirror_link,
        Some(Anchor { href: None })
    );
    assert_eq!(extract(&doc, &selectors), Err(ExtractError::HrefMissing));
}

#[test]
fn page_header_without_whitespace_is_malformed() {
    let page = r#"<span class="downloads"><h2>Version 1.17</h2><h2>Snapshot</h2></span>"#;
    let doc = Document::parse(page);
    let selectors = ListingSelectors::standard().unwrap();
    assert_eq!(extract(&doc, &selectors), Err(ExtractError::MalformedHeader));
}

#[test]
fn page_with_unknown_version_in_last_row_overruns() {
    let page = r#"<span class="downloads"><h2>Version 1.16.5</h2><h2>Version 1.17</h2></span>
<table>
<tr class="downloadLine"><td class="colFile">A</td><td class="colMirror"><a href="f=1.16.5_A">m</a></td></tr>
<tr class="downloadLine"><td class="colFile">B</td><td class="colMirror"><a href="f=1.17_B">m</a></td></tr>
<tr class="downloadLine"><td class="colFile">C</td><td class="colMirror"><a href="f=1.18_C">m</a></td></tr>
</table>"#;
    let doc = Document::parse(page);
    let selectors = ListingSelectors::standard().unwrap();
    assert_eq!(extract(&doc, &selectors), Err(ExtractError::AssociationOverrun));
}

#[test]
fn empty_page_gives_empty_catalog() {
    let doc = Document::parse("");
    let selectors = ListingSelectors::standard().unwrap();
    assert_eq!(read_headers(&doc, &selectors), Vec::<String>::new());
    assert_eq!(read_rows(&doc, &selectors), vec![]);
    assert_eq!(extract(&doc, &selectors), Ok(vec![]));
}

#[test]
fn header_text_joins_nested_text_nodes() {
    let page = r#"<span class="downloads"><h2>Version <i>1.<b>17</b></i>.1</h2></span>"#;
    let doc = Document::parse(page);
    let selectors = ListingSelectors::standard().unwrap();
    assert_eq!(read_headers(&doc, &selectors), vec!["Version 1.17.1"]);
    assert_eq!(extract(&doc, &selectors).unwrap()[0].identifier, "1.17.1");
}
