use slide_builder::render::svg::{SvgError, ValueCheck, MAX_SVG_DEPTH};
use slide_builder::render::svg_document::{scan_svg_document, SvgScan};

const BUDGET: u64 = 1 << 20;

fn svg(body: &str) -> String {
    format!(r#"<svg xmlns="http://www.w3.org/2000/svg" viewBox="0 0 24 24">{body}</svg>"#)
}

/// Refused by the scan, or by the one numeric rule that a group's opacity is exactly 1.
fn refused(scan: &SvgScan) -> bool {
    scan.outcome.is_err()
        || scan.checks.iter().any(|c| {
            matches!(c.check, ValueCheck::Opacity { group: true }) && c.value.parse::<f64>().map_or(true, |v| v != 1.0)
        })
}

#[test]
fn rejects_active_external_and_unknown_svg_content() {
    for unsafe_body in [
        r#"<script>alert(1)</script>"#,
        r#"<foreignObject/>"#,
        r#"<image href="data:image/png;base64,AA=="/>"#,
        r#"<text x="1" y="1">hello</text>"#,
        r#"<style>circle { fill: red; }</style>"#,
        r##"<use href="#icon"/>"##,
        r#"<filter/>"#,
        r#"<animate/>"#,
        r#"<unknown/>"#,
        r#"<circle r="1" onload="alert(1)"/>"#,
        r#"<circle r="1" style="fill:red"/>"#,
        r#"<circle r="1" fill="url(https://example.com/a.svg)"/>"#,
        r#"<circle r="1" fill="u&#114;l(https://example.com/a.svg)"/>"#,
        r#"<circle r="1" fill="u\72l(https://example.com/a.svg)"/>"#,
        r##"<circle r="1" fill="url(#paint)"/>"##,
        r#"<circle r="1" fill="red; background:url(file:///tmp/a)"/>"#,
        r#"<circle r="1" href="file:///tmp/a"/>"#,
        r#"<circle r="1" unknown="1"/>"#,
        r#"<circle r="1" xml:base="https://example.com"/>"#,
        r#"<circle xmlns:other="https://example.com" r="1"/>"#,
        r#"<other:circle xmlns:other="https://example.com" r="1"/>"#,
        r#"<circle xmlns="" r="1"/>"#,
        r#"<circle xmlns:xlink="http://www.w3.org/1999/xlink" xlink:href="/tmp/a" r="1"/>"#,
        r#"<svg viewBox="0 0 1 1"/>"#,
        r#"<?xml-stylesheet href="https://example.com/a.css"?>"#,
        r#"<g opacity="0.5"><circle r="1"/></g>"#,
        r#"<path d="M0 0L24 24" stroke="red" stroke-dasharray="0.000000001 0.000000001"/>"#,
    ] {
        let source = svg(&format!(r#"<circle cx="12" cy="12" r="4"/>{unsafe_body}"#));
        assert!(refused(&scan_svg_document(&source, BUDGET)), "accepted {unsafe_body}");
    }
    for source in [
        r#"<!DOCTYPE svg [<!ENTITY fill "red">]><svg viewBox="0 0 24 24"><circle r="1" fill="&fill;"/></svg>"#,
        r#"<!DOCTYPE svg SYSTEM "file:///tmp/a"><svg viewBox="0 0 24 24"/>"#,
        r#"<svg xmlns="https://example.com" viewBox="0 0 24 24"/>"#,
        r#"<svg viewBox="0 0 24 24"><circle cx="12" cy="12" r="4"/></svg>"#,
    ] {
        assert!(refused(&scan_svg_document(source, BUDGET)), "accepted {source}");
    }
}

#[test]
fn scan_names_the_first_refusal() {
    let scan = scan_svg_document(&svg(r#"<circle r="1"/><script/>"#), BUDGET);
    assert_eq!(scan.outcome, Err(SvgError::UnsupportedElement { tag: "script".into() }));
    assert_eq!(scan.outcome.unwrap_err().message(), "unsupported SVG element: script");
    let scan = scan_svg_document(&svg(r#"<circle r="1" fill="url(#p)"/>"#), BUDGET);
    assert_eq!(scan.outcome.unwrap_err().message(), "unsupported SVG paint: url(#p)");
    let scan = scan_svg_document(&svg(r#"<circle r="1" color="nope"/>"#), BUDGET);
    assert_eq!(scan.outcome, Err(SvgError::InvalidColor));
    let scan = scan_svg_document(&svg(r#"<rect width="2"/>"#), BUDGET);
    assert_eq!(scan.outcome.unwrap_err().message(), "rect requires height");
    let scan = scan_svg_document(&svg("hello"), BUDGET);
    assert_eq!(scan.outcome, Err(SvgError::TextContent));
    let scan = scan_svg_document("<svg", BUDGET);
    assert_eq!(scan.outcome, Err(SvgError::InvalidXml));
    let scan = scan_svg_document(r#"<!DOCTYPE svg><svg/>"#, BUDGET);
    assert_eq!(scan.outcome, Err(SvgError::Doctype));
    let scan = scan_svg_document(r#"<g xmlns="http://www.w3.org/2000/svg"/>"#, BUDGET);
    assert_eq!(scan.outcome, Err(SvgError::RootNotSvg));
    let scan = scan_svg_document(r#"<svg viewBox="0 0 1 1"/>"#, BUDGET);
    assert_eq!(scan.outcome.unwrap_err().message(), "SVG root requires the http://www.w3.org/2000/svg namespace");
    let scan = scan_svg_document(&svg(r#"<g xmlns:x="urn:x"/>"#), BUDGET);
    assert_eq!(scan.outcome.unwrap_err().message(), "unsupported namespace declaration: urn:x");
    let scan = scan_svg_document(&svg(r#"<path d="M0 0" stroke-linejoin="sharp"/>"#), BUDGET);
    assert_eq!(scan.outcome.unwrap_err().message(), "invalid stroke-linejoin");
    let scan = scan_svg_document(&svg(r#"<rect width="1" height="1" onclick="x()"/>"#), BUDGET);
    assert_eq!(scan.outcome.unwrap_err().message(), "unsupported attribute onclick on rect");
    let scan = scan_svg_document(&svg(r#"<g><rect width="1" height="1"><circle r="1"/></rect></g>"#), BUDGET);
    assert_eq!(scan.outcome.unwrap_err().message(), "circle must be inside svg or g");
}

#[test]
fn scan_accepts_a_static_icon_and_lists_its_numbers() {
    let source = svg(
        r##"<g fill="none" stroke="#346699" stroke-width="2" stroke-linecap="round" stroke-linejoin="round"><path d="M4 12 L10 18 L20 6"/></g>"##,
    );
    let scan = scan_svg_document(&source, BUDGET);
    assert_eq!(scan.outcome, Ok(()));
    let listed: Vec<(&str, &str, &str)> =
        scan.checks.iter().map(|c| (c.tag.as_str(), c.name.as_str(), c.value.as_str())).collect();
    assert_eq!(
        listed,
        vec![("svg", "viewBox", "0 0 24 24"), ("g", "stroke-width", "2"), ("path", "d", "M4 12 L10 18 L20 6")]
    );
    assert!(matches!(scan.checks[0].check, ValueCheck::Numbers));
    assert!(matches!(scan.checks[1].check, ValueCheck::Length { positive: false, nonnegative: true }));
    assert!(matches!(scan.checks[2].check, ValueCheck::PathData));
    let root: Vec<&str> = scan.root_attributes.iter().map(|a| a.name.as_str()).collect();
    assert_eq!(root, vec!["viewBox"]);
}

#[test]
fn nesting_and_input_budgets_report_limit_and_asked() {
    for groups in [MAX_SVG_DEPTH, MAX_SVG_DEPTH + 1, 1025] {
        let source = svg(&format!("{}<circle r=\"1\"/>{}", "<g>".repeat(groups), "</g>".repeat(groups)));
        let error = scan_svg_document(&source, BUDGET).outcome.unwrap_err();
        assert_eq!(error, SvgError::TooDeep { asked: MAX_SVG_DEPTH as u64 + 1 });
        assert_eq!(
            error.message(),
            format!("SVG nesting budget exceeded: limit {MAX_SVG_DEPTH}, asked {}", MAX_SVG_DEPTH + 1)
        );
    }
    let source = svg(&format!("{}<circle r=\"1\"/>{}", "<g>".repeat(MAX_SVG_DEPTH - 1), "</g>".repeat(MAX_SVG_DEPTH - 1)));
    assert_eq!(scan_svg_document(&source, BUDGET).outcome, Ok(()));
    let source = " ".repeat(BUDGET as usize + 1);
    let error = scan_svg_document(&source, BUDGET).outcome.unwrap_err().message();
    assert!(error.contains(&format!("limit {BUDGET}, asked {}", source.len())), "{error}");
}
