use myfocus::html::{extract_attr, parse_opml, strip_html, xml_unescape};

#[test]
fn parses_folders_as_categories() {
    let opml = r#"<?xml version="1.0" encoding="UTF-8"?>
<opml version="1.0">
  <body>
    <outline text="Dev" title="Dev">
      <outline text="Blog A" title="Blog A" type="rss" xmlUrl="https://a.example/feed" htmlUrl="https://a.example/"/>
      <outline text="Blog &amp; B" title="Blog &amp; B" type="rss" xmlUrl="https://b.example/feed?a=1&amp;b=2"/>
    </outline>
    <outline text="Top" title="Top" type="rss" xmlUrl="https://top.example/feed"/>
    <outline text="Outer" title="Outer">
      <outline text="Inner" title="Inner">
        <outline text="Nested" title="Nested" type="rss" xmlUrl="https://n.example/feed"/>
      </outline>
    </outline>
  </body>
</opml>"#;
    let feeds = parse_opml(opml);
    assert_eq!(feeds.len(), 4);
    assert_eq!(feeds[0].title, "Blog A");
    assert_eq!(feeds[0].category.as_deref(), Some("Dev"));
    assert_eq!(feeds[1].title, "Blog & B");
    assert_eq!(feeds[1].url, "https://b.example/feed?a=1&b=2");
    assert_eq!(feeds[1].category.as_deref(), Some("Dev"));
    assert_eq!(feeds[2].title, "Top");
    assert_eq!(feeds[2].category, None);
    assert_eq!(feeds[3].category.as_deref(), Some("Inner"));
}

#[test]
fn opml_title_falls_back_to_text_then_url() {
    let opml = r#"<opml><body>
<outline text="Only text" xmlUrl="https://t.example/feed"/>
<outline xmlUrl="https://u.example/feed"/>
</body></opml>"#;
    let feeds = parse_opml(opml);
    assert_eq!(feeds.len(), 2);
    assert_eq!(feeds[0].title, "Only text");
    assert_eq!(feeds[1].title, "https://u.example/feed");
    assert_eq!(feeds[1].url, "https://u.example/feed");
    assert_eq!(feeds[1].category, None);
}

#[test]
fn opml_feed_outline_with_children_keeps_outer_category() {
    // a feed outline that is not self-closing pushes an unnamed level
    let opml = r#"<opml><body>
<outline title="Folder">
  <outline title="Feed" xmlUrl="https://f.example/feed"></outline>
  <outline title="Second" xmlUrl="https://s.example/feed"/>
</outline>
<outline title="After" xmlUrl="https://a.example/feed"/>
</body></opml>"#;
    let feeds = parse_opml(opml);
    assert_eq!(feeds.len(), 3);
    assert_eq!(feeds[0].category.as_deref(), Some("Folder"));
    assert_eq!(feeds[1].category.as_deref(), Some("Folder"));
    assert_eq!(feeds[2].category, None);
}

#[test]
fn opml_empty_document_has_no_feeds() {
    assert!(parse_opml("").is_empty());
    assert!(parse_opml("<opml><body></body></opml>").is_empty());
}

#[test]
fn strip_html_removes_tags_and_collapses_whitespace() {
    let out = strip_html("<p>Hello,\n  <b>world</b>&nbsp;&amp; more</p>", 100);
    assert_eq!(out, "Hello, world & more");
}

#[test]
fn strip_html_decodes_entities_and_cuts_to_budget() {
    assert_eq!(strip_html("&lt;tag&gt; &quot;q&quot; &#39;s&#39;", 100), "<tag> \"q\" 's'");
    assert_eq!(strip_html("<div>abcdef</div>", 3), "abc");
    assert_eq!(strip_html("   ", 10), "");
    assert_eq!(strip_html("日本語の<i>テキスト</i>", 5), "日本語のテ");
}

#[test]
fn strip_html_budget_zero_is_empty() {
    assert_eq!(strip_html("<p>text</p>", 0), "");
}

#[test]
fn extract_attr_reads_quoted_and_bare_values() {
    assert_eq!(extract_attr(r#"<a HREF="x.html" b='y'>"#, "href").as_deref(), Some("x.html"));
    assert_eq!(extract_attr(r#"<a b='y z'>"#, "b").as_deref(), Some("y z"));
    assert_eq!(extract_attr("<a b=bare next>", "b").as_deref(), Some("bare"));
    assert_eq!(extract_attr("<a b=bare/>", "b").as_deref(), Some("bare"));
    assert_eq!(extract_attr("<a c=1>", "b"), None);
    assert_eq!(extract_attr("<a b=", "b"), None);
}

#[test]
fn xml_unescape_decodes_the_six_entities() {
    assert_eq!(xml_unescape("a &amp; b &lt;c&gt; &quot;d&quot; &#39;e&apos;"), "a & b <c> \"d\" 'e'");
    // decoding is one pass per entity in order: "&amp;lt;" becomes "<"
    assert_eq!(xml_unescape("&amp;lt;"), "<");
    assert_eq!(xml_unescape("plain"), "plain");
}
