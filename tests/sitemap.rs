use sitemap_urls::diagnostics::Diagnostic;
use sitemap_urls::frequency::{Frequency, FrequencyParseError};
use sitemap_urls::sitemap::{in_priority_range, Document, SitemapError, UrlEntry};
use sitemap_urls::xml::XmlNode;

fn numbers(doc: &Document) -> Vec<Option<u32>> {
    doc.node_texts()
        .iter()
        .map(|t| t.as_ref().and_then(|t| t.parse::<f32>().ok()).map(f32::to_bits))
        .collect()
}

fn entries(xml: &str) -> Vec<UrlEntry> {
    let doc = Document::parse(xml).expect("well-formed XML");
    let nums = numbers(&doc);
    doc.iterate(&nums).expect("a urlset")
}

fn priority(e: &UrlEntry) -> Option<f32> {
    e.priority.map(f32::from_bits)
}

#[test]
fn frequency_parses_each_token() {
    assert_eq!(Frequency::from_str("always"), Ok(Frequency::Always));
    assert_eq!(Frequency::from_str("hourly"), Ok(Frequency::Hourly));
    assert_eq!(Frequency::from_str("daily"), Ok(Frequency::Daily));
    assert_eq!(Frequency::from_str("weekly"), Ok(Frequency::Weekly));
    assert_eq!(Frequency::from_str("monthly"), Ok(Frequency::Monthly));
    assert_eq!(Frequency::from_str("yearly"), Ok(Frequency::Yearly));
    assert_eq!(Frequency::from_str("never"), Ok(Frequency::Never));
}

#[test]
fn frequency_ignores_ascii_case() {
    assert_eq!(Frequency::from_str("Weekly"), Ok(Frequency::Weekly));
    assert_eq!(Frequency::from_str("NEVER"), Ok(Frequency::Never));
    assert_eq!(Frequency::from_str("dAiLy"), Ok(Frequency::Daily));
}

#[test]
fn frequency_rejects_other_text() {
    for s in ["", "fortnightly", " daily", "daily ", "day", "alwayss"] {
        assert_eq!(Frequency::from_str(s), Err(FrequencyParseError::InvalidFrequency));
    }
}

#[test]
fn root_not_urlset_is_missing() {
    let doc = Document::parse("<sitemapindex><sitemap><loc>a</loc></sitemap></sitemapindex>").unwrap();
    let nums = numbers(&doc);
    assert!(matches!(doc.iterate(&nums), Err(SitemapError::UrlsetMissing)));
}

#[test]
fn no_element_root_is_missing() {
    let doc = Document::from_nodes(vec![XmlNode::new(0, None, false, "", None)]);
    assert!(matches!(doc.iterate(&vec![None]), Err(SitemapError::UrlsetMissing)));
    let empty = Document::from_nodes(Vec::new());
    assert!(matches!(empty.iterate(&Vec::new()), Err(SitemapError::UrlsetMissing)));
}

#[test]
fn comment_before_urlset_is_skipped() {
    let es = entries("<!-- a sitemap --><urlset><url><loc>a</loc></url></urlset>");
    assert_eq!(es.len(), 1);
    assert_eq!(es[0].location, "a");
}

#[test]
fn entries_in_document_order_and_reversible() {
    let xml = "<urlset xmlns=\"http://www.sitemaps.org/schemas/sitemap/0.9\">\n  <url><loc>https://a.example/</loc></url>\n  <url><loc>https://b.example/</loc></url>\n  <url><loc>https://c.example/</loc></url>\n</urlset>";
    let es = entries(xml);
    let locs: Vec<&str> = es.iter().map(|e| e.location.as_str()).collect();
    assert_eq!(locs, vec!["https://a.example/", "https://b.example/", "https://c.example/"]);
    let back: Vec<&str> = es.iter().rev().map(|e| e.location.as_str()).collect();
    assert_eq!(back, vec!["https://c.example/", "https://b.example/", "https://a.example/"]);
}

#[test]
fn two_locations_drop_the_entry() {
    let es = entries("<urlset><url><loc>A</loc><loc>B</loc></url><url><loc>C</loc></url></urlset>");
    assert_eq!(es.len(), 1);
    assert_eq!(es[0].location, "C");
}

#[test]
fn no_location_drops_the_entry() {
    let es = entries("<urlset><url><lastmod>2020-01-01</lastmod></url><url><loc></loc></url></urlset>");
    assert!(es.is_empty());
}

#[test]
fn priority_in_range_is_kept() {
    let es = entries("<urlset><url><loc>X</loc><priority>0.5</priority></url></urlset>");
    assert_eq!(es.len(), 1);
    assert_eq!(es[0].location, "X");
    assert_eq!(priority(&es[0]), Some(0.5));
    assert_eq!(es[0].last_modified, None);
    assert_eq!(es[0].change_frequency, None);
}

#[test]
fn priority_bounds_are_inclusive() {
    let es = entries("<urlset><url><loc>a</loc><priority>0.0</priority></url><url><loc>b</loc><priority>1.0</priority></url><url><loc>c</loc><priority>-0.0</priority></url></urlset>");
    assert_eq!(priority(&es[0]), Some(0.0));
    assert_eq!(priority(&es[1]), Some(1.0));
    assert_eq!(es[2].priority, Some((-0.0f32).to_bits()));
}

#[test]
fn bad_priority_is_unset() {
    let es = entries("<urlset><url><loc>a</loc><priority>1.5</priority></url><url><loc>b</loc><priority>abc</priority></url><url><loc>c</loc><priority>-0.1</priority></url><url><loc>d</loc><priority>NaN</priority></url></urlset>");
    assert_eq!(es.len(), 4);
    for e in &es {
        assert_eq!(e.priority, None);
    }
}

#[test]
fn bad_priority_keeps_earlier_value() {
    let es = entries("<urlset><url><loc>a</loc><priority>0.3</priority><priority>7</priority></url></urlset>");
    assert_eq!(priority(&es[0]), Some(0.3));
    let es = entries("<urlset><url><loc>a</loc><priority>0.3</priority><priority>0.8</priority></url></urlset>");
    assert_eq!(priority(&es[0]), Some(0.8));
}

#[test]
fn change_frequency_mixed_case_and_unknown() {
    let es = entries("<urlset><url><loc>a</loc><changefreq>Weekly</changefreq></url><url><loc>b</loc><changefreq>fortnightly</changefreq></url></urlset>");
    assert_eq!(es.len(), 2);
    assert_eq!(es[0].change_frequency, Some(Frequency::Weekly));
    assert_eq!(es[1].change_frequency, None);
}

#[test]
fn unknown_change_frequency_keeps_earlier_value() {
    let es = entries("<urlset><url><loc>a</loc><changefreq>daily</changefreq><changefreq>often</changefreq></url></urlset>");
    assert_eq!(es[0].change_frequency, Some(Frequency::Daily));
}

#[test]
fn last_modified_last_wins() {
    let es = entries("<urlset><url><loc>a</loc><lastmod>2020-01-01</lastmod><lastmod>2021-01-01</lastmod></url></urlset>");
    assert_eq!(es[0].last_modified.as_deref(), Some("2021-01-01"));
}

#[test]
fn unknown_children_and_wrapper_names_are_accepted() {
    let es = entries("<urlset><page><image>i</image><loc>p</loc><extra/></page></urlset>");
    assert_eq!(es.len(), 1);
    assert_eq!(es[0].location, "p");
}

#[test]
fn full_entry() {
    let es = entries("<urlset><url><loc>https://x.example/a</loc><lastmod>2024-05-01</lastmod><changefreq>monthly</changefreq><priority>0.8</priority></url></urlset>");
    assert_eq!(
        es[0],
        UrlEntry {
            location: "https://x.example/a".to_string(),
            last_modified: Some("2024-05-01".to_string()),
            change_frequency: Some(Frequency::Monthly),
            priority: Some(0.8f32.to_bits()),
        }
    );
}

#[test]
fn iterating_twice_gives_the_same_entries() {
    let doc = Document::parse("<urlset><url><loc>a</loc></url><url><loc>b</loc><loc>c</loc></url><url><loc>d</loc><priority>0.1</priority></url></urlset>").unwrap();
    let nums = numbers(&doc);
    let first = doc.iterate(&nums).unwrap();
    let second = doc.iterate(&nums).unwrap();
    assert_eq!(first, second);
    assert_eq!(first.len(), 2);
}

#[test]
fn malformed_xml_fails_to_parse() {
    assert!(matches!(Document::parse("<urlset><url><loc>a</loc></url>"), Err(SitemapError::Parse(_))));
    assert!(matches!(Document::parse(""), Err(SitemapError::Parse(_))));
}

#[test]
fn parsed_nodes_hold_element_texts() {
    let doc = Document::parse("<urlset><url><loc>a</loc></url></urlset>").unwrap();
    // The document's root, `urlset`, `url`, `loc` and the text inside `loc`.
    assert_eq!(doc.len(), 5);
    let texts = doc.node_texts();
    assert_eq!(texts[2], None);
    assert_eq!(texts[3].as_deref(), Some("a"));
    assert_eq!(texts[4].as_deref(), Some("a"));
}

#[test]
fn missing_numbers_leave_priority_unset() {
    let doc = Document::parse("<urlset><url><loc>a</loc><priority>0.5</priority></url></urlset>").unwrap();
    let es = doc.iterate(&Vec::new()).unwrap();
    assert_eq!(es[0].priority, None);
}

#[test]
fn frequency_through_from_str_trait() {
    assert_eq!("Hourly".parse::<Frequency>(), Ok(Frequency::Hourly));
    assert_eq!("sometimes".parse::<Frequency>(), Err(FrequencyParseError::InvalidFrequency));
}

#[test]
fn priority_range_on_bit_patterns() {
    assert!(in_priority_range(0.0f32.to_bits()));
    assert!(in_priority_range((-0.0f32).to_bits()));
    assert!(in_priority_range(0.25f32.to_bits()));
    assert!(in_priority_range(1.0f32.to_bits()));
    assert!(!in_priority_range(1.0000001f32.to_bits()));
    assert!(!in_priority_range((-0.5f32).to_bits()));
    assert!(!in_priority_range(f32::NAN.to_bits()));
    assert!(!in_priority_range(f32::INFINITY.to_bits()));
}

fn diagnostics(xml: &str) -> Vec<Diagnostic> {
    let doc = Document::parse(xml).expect("well-formed XML");
    let nums = numbers(&doc);
    doc.diagnostics(&nums)
}

#[test]
fn clean_document_has_no_diagnostics() {
    let d = diagnostics("<urlset><url><loc>a</loc><lastmod>2020</lastmod><changefreq>daily</changefreq><priority>0.5</priority></url></urlset>");
    assert_eq!(d, vec![]);
}

#[test]
fn whitespace_between_entries_counts_as_entry_without_location() {
    // Nodes: root 0, urlset 1, "\n " 2, url 3, loc 4, "a" 5, "\n" 6.
    let d = diagnostics("<urlset>\n <url><loc>a</loc></url>\n</urlset>");
    assert_eq!(d, vec![Diagnostic::MissingLoc(2), Diagnostic::MissingLoc(6)]);
}

#[test]
fn diagnostics_for_location_problems() {
    // Nodes: root 0, urlset 1, url 2, loc 3, "A" 4, loc 5, "B" 6, url 7, lastmod 8, "x" 9.
    let d = diagnostics("<urlset><url><loc>A</loc><loc>B</loc></url><url><lastmod>x</lastmod></url></urlset>");
    assert_eq!(d, vec![Diagnostic::MultipleLoc(5), Diagnostic::MissingLoc(7)]);
}

#[test]
fn diagnostics_for_field_problems() {
    // Nodes: root 0, urlset 1, url 2, loc 3, "a" 4, then each field and its text.
    let d = diagnostics("<urlset><url><loc>a</loc><lastmod>1</lastmod><lastmod>2</lastmod><changefreq>often</changefreq><changefreq>daily</changefreq><priority>abc</priority><priority>1.5</priority><priority>0.2</priority><priority>0.3</priority></url></urlset>");
    assert_eq!(
        d,
        vec![
            Diagnostic::RepeatedLastmod(7),
            Diagnostic::InvalidChangefreq(9),
            Diagnostic::InvalidPriority(13),
            Diagnostic::PriorityOutOfRange(15),
            Diagnostic::RepeatedPriority(19),
        ]
    );
}

#[test]
fn no_diagnostics_without_urlset() {
    assert_eq!(diagnostics("<foo><url><lastmod>x</lastmod></url></foo>"), vec![]);
}

#[test]
fn entry_without_location_is_as_if_absent() {
    let with = entries("<urlset><url><loc>a</loc><priority>0.4</priority></url><url><lastmod>x</lastmod><priority>0.9</priority></url><url><loc>b</loc></url></urlset>");
    let without = entries("<urlset><url><loc>a</loc><priority>0.4</priority></url><url><loc>b</loc></url></urlset>");
    assert_eq!(with, without);
}
