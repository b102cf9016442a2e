use myfocus::fetcher::{
    check_status, discover_feed_url, feed_from_bytes, new_article_from, page_text, remove_blocks,
    site_url, FeedEntryFields,
};

const RSS: &str = r#"<?xml version="1.0" encoding="UTF-8"?>
<rss version="2.0">
  <channel>
    <title>Example Blog</title>
    <link>https://blog.example/</link>
    <description>d</description>
    <item>
      <title>First post</title>
      <link>https://blog.example/1</link>
      <guid>post-1</guid>
      <description>&lt;p&gt;Hello &lt;b&gt;world&lt;/b&gt;&lt;/p&gt;</description>
      <pubDate>Tue, 10 Jun 2003 04:00:00 GMT</pubDate>
    </item>
    <item>
      <title>Second post</title>
      <guid>post-2</guid>
    </item>
  </channel>
</rss>"#;

#[test]
fn rss_document_becomes_new_articles() {
    let feed = feed_from_bytes("https://blog.example/feed", RSS.as_bytes()).unwrap();
    assert_eq!(feed.title, "Example Blog");
    assert_eq!(feed.site_url.as_deref(), Some("https://blog.example/"));
    assert_eq!(feed.articles.len(), 2);
    let a = &feed.articles[0];
    assert_eq!(a.guid, "post-1");
    assert_eq!(a.title, "First post");
    assert_eq!(a.url.as_deref(), Some("https://blog.example/1"));
    assert_eq!(a.summary.as_deref(), Some("Hello world"));
    assert_eq!(a.content_html.as_deref(), Some("<p>Hello <b>world</b></p>"));
    assert_eq!(a.published_at, Some(1055217600));
    let b = &feed.articles[1];
    assert_eq!(b.guid, "post-2");
    assert_eq!(b.summary, None);
    assert_eq!(b.content_html, None);
    assert_eq!(b.published_at, None);
}

#[test]
fn unparsable_document_reports_the_parser_error() {
    let e = feed_from_bytes("https://x.example/", b"not a feed").err().unwrap();
    assert!(e.starts_with("フィードを解析できません: "));
    assert!(e.len() > "フィードを解析できません: ".len());
}

#[test]
fn feed_without_title_is_named_by_its_url() {
    let doc = r#"<feed xmlns="http://www.w3.org/2005/Atom"><id>f</id><updated>2020-01-01T00:00:00Z</updated>
<link rel="self" href="https://a.example/feed.xml"/>
<link rel="alternate" href="https://a.example/"/>
</feed>"#;
    let feed = feed_from_bytes("https://a.example/feed.xml", doc.as_bytes()).unwrap();
    assert_eq!(feed.title, "https://a.example/feed.xml");
    assert_eq!(feed.site_url.as_deref(), Some("https://a.example/"));
    assert!(feed.articles.is_empty());
}

#[test]
fn site_url_skips_self_links() {
    let links = vec![
        ("https://a/self".to_string(), Some("self".to_string())),
        ("https://a/".to_string(), None),
    ];
    assert_eq!(site_url(&links).as_deref(), Some("https://a/"));
    assert_eq!(site_url(&links[..1].to_vec()), None);
}

#[test]
fn entry_fields_fall_back_as_the_reader_does() {
    let e = FeedEntryFields {
        id: "id-1".into(),
        title: None,
        links: vec![],
        summary: Some("<i>s</i>".into()),
        content_body: None,
        authors: vec!["Ann".into(), "Bob".into()],
        published: None,
        updated: Some(77),
    };
    let a = new_article_from(&e);
    assert_eq!(a.title, "");
    assert_eq!(a.summary.as_deref(), Some("s"));
    assert_eq!(a.content_html.as_deref(), Some("<i>s</i>"));
    assert_eq!(a.author.as_deref(), Some("Ann"));
    assert_eq!(a.published_at, Some(77));
}

#[test]
fn remove_blocks_drops_scripts_ignoring_case() {
    let page: Vec<char> = "a<SCRIPT type=x>bad()</script>b<script>c".chars().collect();
    let out: String = remove_blocks(&page, "script").into_iter().collect();
    assert_eq!(out, "ab");
    let plain: Vec<char> = "no blocks".chars().collect();
    let out: String = remove_blocks(&plain, "style").into_iter().collect();
    assert_eq!(out, "no blocks");
}

#[test]
fn page_text_strips_scripts_styles_and_tags() {
    let html = "<html><head><style>p{}</style><script>x()</script></head><body><p>Read  me</p></body></html>";
    assert_eq!(page_text(html, 100).unwrap(), "Read me");
    assert_eq!(page_text(html, 4).unwrap(), "Read");
    assert_eq!(page_text("<script>only()</script>", 100).err().unwrap(), "本文テキストを抽出できませんでした");
}

#[test]
fn discovers_absolute_feed_links() {
    let html = r#"<html><head><link rel="stylesheet" href="s.css"><LINK rel="alternate" type="application/rss+xml" href="https://b.example/rss"></head></html>"#;
    assert_eq!(discover_feed_url(html, "https://b.example/").as_deref(), Some("https://b.example/rss"));
}

#[test]
fn resolves_relative_feed_links_against_the_page() {
    let html = r#"<link rel="alternate" type="application/atom+xml" href="/atom.xml">"#;
    assert_eq!(
        discover_feed_url(html, "https://c.example/blog/post").as_deref(),
        Some("https://c.example/atom.xml")
    );
    let html = r#"<link rel="alternate" type="application/rss+xml" href="feed">"#;
    assert_eq!(
        discover_feed_url(html, "https://c.example/blog/post").as_deref(),
        Some("https://c.example/blog/feed")
    );
    assert_eq!(discover_feed_url(html, "not a url"), None);
}

#[test]
fn no_feed_link_means_none() {
    assert_eq!(discover_feed_url("<p>nothing</p>", "https://d.example/"), None);
    assert_eq!(discover_feed_url("<link rel=alternate", "https://d.example/"), None);
}

#[test]
fn entry_takes_the_first_link() {
    let e = FeedEntryFields {
        id: "x".into(),
        title: Some("T".into()),
        links: vec!["https://first/".into(), "https://second/".into()],
        summary: None,
        content_body: Some("<p>b</p>".into()),
        authors: vec![],
        published: Some(5),
        updated: Some(9),
    };
    let a = new_article_from(&e);
    assert_eq!(a.guid, "x");
    assert_eq!(a.url.as_deref(), Some("https://first/"));
    assert_eq!(a.author, None);
    assert_eq!(a.summary, None);
    assert_eq!(a.content_html.as_deref(), Some("<p>b</p>"));
    assert_eq!(a.published_at, Some(5));
}

#[test]
fn atom_entry_links_and_authors_in_order() {
    let doc = r#"<feed xmlns="http://www.w3.org/2005/Atom"><id>f</id><title>F</title><updated>2020-01-01T00:00:00Z</updated>
<entry><id>e1</id><title>One</title><updated>2020-01-02T00:00:00Z</updated>
<link href="https://a.example/1"/><link rel="related" href="https://a.example/r"/>
<author><name>Ann</name></author><author><name>Bob</name></author>
<summary>plain</summary></entry>
</feed>"#;
    let feed = feed_from_bytes("https://a.example/feed", doc.as_bytes()).unwrap();
    assert_eq!(feed.title, "F");
    assert_eq!(feed.articles.len(), 1);
    let a = &feed.articles[0];
    assert_eq!(a.guid, "e1");
    assert_eq!(a.url.as_deref(), Some("https://a.example/1"));
    assert_eq!(a.author.as_deref(), Some("Ann"));
    assert_eq!(a.summary.as_deref(), Some("plain"));
    assert_eq!(a.content_html.as_deref(), Some("plain"));
    assert_eq!(a.published_at, Some(1577923200));
}

#[test]
fn media_timing_attributes_are_not_parsed() {
    let doc = r#"<rss version="2.0" xmlns:media="http://search.yahoo.com/mrss/"><channel><title>M</title>
<item><guid>m1</guid><title>Clip</title><media:text start="99999999999999999999999">t</media:text></item>
</channel></rss>"#;
    let e = feed_from_bytes("https://m.example/", doc.as_bytes()).err().unwrap();
    assert_eq!(e, "フィードを解析できません: 解析できない時間指定を含む可能性があります");
}

#[test]
fn media_feeds_without_timing_attributes_parse() {
    let doc = r#"<rss version="2.0" xmlns:media="http://search.yahoo.com/mrss/"><channel><title>M</title>
<item><guid>m1</guid><title>Clip at the start</title><media:thumbnail url="https://m.example/t.jpg" width="120"/></item>
</channel></rss>"#;
    let feed = feed_from_bytes("https://m.example/", doc.as_bytes()).unwrap();
    assert_eq!(feed.articles.len(), 1);
    assert_eq!(feed.articles[0].title, "Clip at the start");
}

#[test]
fn timing_names_without_media_namespace_parse() {
    let doc = r#"<rss version="2.0"><channel><title>P</title>
<item><guid>p1</guid><title>Times</title><description>time = 3 &amp; start=5</description></item>
</channel></rss>"#;
    let feed = feed_from_bytes("https://p.example/", doc.as_bytes()).unwrap();
    assert_eq!(feed.articles[0].summary.as_deref(), Some("time = 3 & start=5"));
}

#[test]
fn documents_with_nul_bytes_are_not_parsed() {
    let e = feed_from_bytes("https://n.example/", b"<rss>\0</rss>").err().unwrap();
    assert!(e.starts_with("フィードを解析できません: "));
}

#[test]
fn only_2xx_statuses_are_read() {
    assert!(check_status(200).is_ok());
    assert!(check_status(299).is_ok());
    assert_eq!(check_status(404).err().unwrap(), "HTTP 404 Not Found が返されました");
    assert_eq!(check_status(503).err().unwrap(), "HTTP 503 Service Unavailable が返されました");
    assert_eq!(check_status(599).err().unwrap(), "HTTP 599 <unknown status code> が返されました");
    assert_eq!(check_status(301).err().unwrap(), "HTTP 301 Moved Permanently が返されました");
}

#[test]
fn media_timing_attributes_with_plain_values_parse() {
    let doc = r#"<rss version="2.0" xmlns:media="http://search.yahoo.com/mrss/"><channel><title>M</title>
<item><guid>m2</guid><title>Clip</title><media:text start="00:01:02.5" end = '75'>t</media:text></item>
</channel></rss>"#;
    let feed = feed_from_bytes("https://m.example/", doc.as_bytes()).unwrap();
    assert_eq!(feed.articles[0].guid, "m2");
}

#[test]
fn media_timing_attributes_with_non_ascii_digits_are_not_parsed() {
    let doc = r#"<rss version="2.0" xmlns:media="http://search.yahoo.com/mrss/"><channel><title>M</title>
<item><guid>m3</guid><media:thumbnail url="u" time="١٢"/></item>
</channel></rss>"#;
    assert!(feed_from_bytes("https://m.example/", doc.as_bytes()).is_err());
}

#[test]
fn itunes_durations_with_plain_text_parse() {
    let doc = r#"<rss version="2.0" xmlns:itunes="http://www.itunes.com/dtds/podcast-1.0.dtd"><channel><title>Pod</title>
<item><guid>e1</guid><title>Episode</title><itunes:duration>01:02:03</itunes:duration></item>
</channel></rss>"#;
    let feed = feed_from_bytes("https://p.example/", doc.as_bytes()).unwrap();
    assert_eq!(feed.articles[0].title, "Episode");
}

#[test]
fn itunes_durations_that_could_panic_are_not_parsed() {
    let long = r#"<rss version="2.0" xmlns:itunes="http://www.itunes.com/dtds/podcast-1.0.dtd"><channel><title>Pod</title>
<item><guid>e1</guid><itunes:duration>123456789012345678901</itunes:duration></item>
</channel></rss>"#;
    assert_eq!(
        feed_from_bytes("https://p.example/", long.as_bytes()).err().unwrap(),
        "フィードを解析できません: 解析できない時間指定を含む可能性があります"
    );
    let unicode = r#"<rss version="2.0" xmlns:itunes="http://www.itunes.com/dtds/podcast-1.0.dtd"><channel><title>Pod</title>
<item><guid>e1</guid><itunes:duration>١٢</itunes:duration></item>
</channel></rss>"#;
    assert!(feed_from_bytes("https://p.example/", unicode.as_bytes()).is_err());
    let reference = r#"<rss version="2.0" xmlns:itunes="http://www.itunes.com/dtds/podcast-1.0.dtd"><channel><title>Pod</title>
<item><guid>e1</guid><itunes:duration>&#1633;</itunes:duration></item>
</channel></rss>"#;
    assert!(feed_from_bytes("https://p.example/", reference.as_bytes()).is_err());
}
