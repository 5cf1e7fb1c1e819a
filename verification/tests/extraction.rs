use box2epub::extractor::boxn::{assemble_chapter, assemble_overview};
use box2epub::extractor::{BoxnExtractor, Chapter, ExtractionError, Extractor, Overview};
use box2epub::pipeline::{check_overview, FatalSetupError};
use box2epub::text::{has_prefix, is_space, trim};

const SITE: &str = "https://site.example/novel/x/";

fn index_page(author_block: bool, image_block: bool, chapters: usize) -> String {
    let mut page = String::from("<html><head><title>Index</title></head><body>\n");
    page.push_str("<ol class=\"breadcrumb\">\n<li><a href=\"/\">Home</a></li>\n");
    page.push_str("<li><a href=\"/novel/x\">  My Novel \n</a></li>\n</ol>\n");
    if author_block {
        page.push_str("<div class=\"author-content\">\n<a href=\"/author/jd\"> Jane Doe</a>\n</div>\n");
    }
    if image_block {
        page.push_str(
            "<div class=\"summary_image\"><a href=\"/novel/x\"><img src=\" https://cdn.example/cover.png \" alt=\"\"></a></div>\n",
        );
    }
    page.push_str("<ul class=\"chapters\">\n");
    let mut n = chapters;
    while n > 0 {
        page.push_str(&format!(
            "<li><a href=\"{}chapter-{}/\">Chapter {}</a></li>\n",
            SITE, n, n
        ));
        n -= 1;
    }
    page.push_str("</ul>\n<a href=\"https://other.example/novel/y/chapter-1/\">Popular</a>\n</body></html>");
    page
}

fn chapter_page(title: Option<&str>, body: Option<&str>) -> String {
    let mut page = String::from("<html><head>");
    if let Some(t) = title {
        page.push_str(&format!("<title>{}</title>", t));
    }
    page.push_str("</head><body><div class=\"nav\">menu</div>");
    if let Some(b) = body {
        page.push_str(&format!("<div class=\"text-left\">{}</div>", b));
    }
    page.push_str("</body></html>");
    page
}

fn shell(title: &str, body: &str) -> String {
    format!(
        "<html xmlns=\"http://www.w3.org/1999/xhtml\" xmlns:epub=\"http://www.idpf.org/2007/ops\">\n    <head>\n        <title>{}</title>\n    </head>\n    <body>\n        {}\n    </body>\n</html>",
        title, body
    )
}

#[test]
fn overview_has_trimmed_title_author_and_image() {
    let extractor = BoxnExtractor::new(SITE);
    let overview: Overview = extractor.extract_overview(&index_page(true, true, 3));
    assert_eq!(overview.title, "My Novel");
    assert_eq!(overview.author, "Jane Doe");
    assert_eq!(overview.img_url, Some("https://cdn.example/cover.png".to_string()));
}

#[test]
fn overview_lists_chapters_oldest_first() {
    let extractor = BoxnExtractor::new(SITE);
    let overview = extractor.extract_overview(&index_page(true, true, 5));
    let expected: Vec<String> = vec![
        format!("{}chapter-1/", SITE),
        format!("{}chapter-2/", SITE),
        format!("{}chapter-3/", SITE),
        format!("{}chapter-4/", SITE),
        format!("{}chapter-5/", SITE),
    ];
    assert_eq!(overview.download_urls, expected);
}

#[test]
fn overview_ignores_links_to_other_sites() {
    let extractor = BoxnExtractor::new(SITE);
    let overview = extractor.extract_overview(&index_page(true, true, 2));
    assert_eq!(overview.download_urls.len(), 2);
    assert!(overview.download_urls.iter().all(|u| u.starts_with(SITE)));
}

#[test]
fn overview_without_author_block_uses_fallback() {
    let extractor = BoxnExtractor::new(SITE);
    let overview = extractor.extract_overview(&index_page(false, true, 2));
    assert_eq!(overview.author, "no_author");
    assert_eq!(overview.title, "My Novel");
}

#[test]
fn overview_without_breadcrumb_uses_fallback_title() {
    let extractor = BoxnExtractor::new(SITE);
    let overview = extractor.extract_overview("<html><body><p>nothing here</p></body></html>");
    assert_eq!(overview.title, "no_title");
    assert_eq!(overview.author, "no_author");
    assert_eq!(overview.img_url, None);
    assert!(overview.download_urls.is_empty());
}

#[test]
fn overview_without_image_block_has_no_cover() {
    let extractor = BoxnExtractor::new(SITE);
    let overview = extractor.extract_overview(&index_page(true, false, 1));
    assert_eq!(overview.img_url, None);
    assert_eq!(overview.download_urls, vec![format!("{}chapter-1/", SITE)]);
}

#[test]
fn overview_with_zero_chapter_links_is_a_fatal_setup_error() {
    let extractor = BoxnExtractor::new(SITE);
    let overview = extractor.extract_overview(&index_page(true, true, 0));
    assert!(overview.download_urls.is_empty());
    assert_eq!(check_overview(&overview), Err(FatalSetupError::NoChapters));
    let usable = extractor.extract_overview(&index_page(true, true, 1));
    assert_eq!(check_overview(&usable), Ok(()));
}

#[test]
fn overview_with_site_that_is_no_pattern_lists_nothing() {
    let extractor = BoxnExtractor::new("https://site.example/(novel/");
    let overview = extractor.extract_overview(&index_page(true, true, 3));
    assert_eq!(overview.title, "My Novel");
    assert!(overview.download_urls.is_empty());
}

#[test]
fn extractor_keeps_its_site() {
    let extractor = BoxnExtractor::new(SITE);
    assert_eq!(extractor.site(), SITE);
}

#[test]
fn assemble_overview_reverses_and_drops_absent_groups() {
    let overview = assemble_overview(
        "s/",
        Some("\t A title\u{3000}".to_string()),
        None,
        Some(" img ".to_string()),
        Some(vec![
            Some("s/c".to_string()),
            None,
            Some("s/b".to_string()),
            Some("t/x".to_string()),
            Some("s".to_string()),
            Some("s/a".to_string()),
        ]),
    );
    assert_eq!(overview.title, "A title");
    assert_eq!(overview.author, "no_author");
    assert_eq!(overview.img_url, Some("img".to_string()));
    assert_eq!(
        overview.download_urls,
        vec!["s/a".to_string(), "s/b".to_string(), "s/c".to_string()]
    );
    let none = assemble_overview("s/", None, Some("x".to_string()), None, None);
    assert_eq!(none.title, "no_title");
    assert_eq!(none.author, "x");
    assert_eq!(none.img_url, None);
    assert!(none.download_urls.is_empty());
}

#[test]
fn overview_keeps_only_links_that_begin_with_the_site() {
    let extractor = BoxnExtractor::new(SITE);
    let mut page = String::new();
    page.push_str("<a class=\"x\" href=\"https://site.example/novel/x/chapter-2/\">2</a>\n");
    page.push_str("<a class=\"x\" href=\"https://siteXexample/novel/x/chapter-9/\">9</a>\n");
    page.push_str("<a class=\"x\" href=\"https://site.example/novel/x/chapter-1/\">1</a>\n");
    let overview = extractor.extract_overview(&page);
    assert_eq!(
        overview.download_urls,
        vec![format!("{}chapter-1/", SITE), format!("{}chapter-2/", SITE)]
    );
}

#[test]
fn trim_removes_unicode_white_space_at_both_ends() {
    assert_eq!(trim("  a b \n"), "a b");
    assert_eq!(trim("\u{2003}\u{a0}x\u{85}\u{1680}"), "x");
    assert_eq!(trim("\u{200b}x"), "\u{200b}x");
    assert_eq!(trim(" \t\r\n"), "");
    assert_eq!(trim(""), "");
    assert_eq!(trim("no_title"), "no_title");
    for text in ["  é ü  ", "\u{3000}日本語\u{2028}", "\u{1f}a\u{1f}", "\u{b} \u{c}z"] {
        assert_eq!(trim(text), text.trim());
    }
}

#[test]
fn is_space_agrees_with_the_white_space_property() {
    let mut code: u32 = 0;
    while code <= 0x3100 {
        if let Some(c) = char::from_u32(code) {
            assert_eq!(is_space(c), c.is_whitespace(), "U+{:04X}", code);
        }
        code += 1;
    }
    assert!(!is_space('\u{feff}'));
    assert!(!is_space('\u{10ffff}'));
}

#[test]
fn has_prefix_compares_characters() {
    assert!(has_prefix("abc", "ab"));
    assert!(has_prefix("abc", "abc"));
    assert!(has_prefix("abc", ""));
    assert!(has_prefix("", ""));
    assert!(!has_prefix("ab", "abc"));
    assert!(!has_prefix("abc", "b"));
    assert!(has_prefix("éa", "é"));
    assert!(!has_prefix("éa", "e"));
}

#[test]
fn chapter_is_wrapped_in_the_document_shell() {
    let extractor = BoxnExtractor::new(SITE);
    let page = chapter_page(Some("Chapter 1 - Dawn"), Some("<p>Hello</p><p>World</p>"));
    let chapter: Chapter = extractor.extract_chapter(&page).unwrap();
    assert_eq!(chapter.title, "Chapter 1 - Dawn");
    assert_eq!(chapter.content, shell("Chapter 1 - Dawn", "<p>Hello</p><p>World</p>"));
}

#[test]
fn chapter_without_title_is_missing_title() {
    let extractor = BoxnExtractor::new(SITE);
    let page = chapter_page(None, Some("<p>Hello</p>"));
    assert_eq!(extractor.extract_chapter(&page).unwrap_err(), ExtractionError::MissingTitle);
}

#[test]
fn chapter_without_content_region_is_missing_content() {
    let extractor = BoxnExtractor::new(SITE);
    let page = chapter_page(Some("Chapter 1"), None);
    assert_eq!(extractor.extract_chapter(&page).unwrap_err(), ExtractionError::MissingContent);
}

#[test]
fn chapter_without_title_and_content_reports_the_title_first() {
    let extractor = BoxnExtractor::new(SITE);
    let page = chapter_page(None, None);
    assert_eq!(extractor.extract_chapter(&page).unwrap_err(), ExtractionError::MissingTitle);
}

#[test]
fn extract_chapter_twice_gives_the_same_chapter() {
    let extractor = BoxnExtractor::new(SITE);
    let page = chapter_page(Some("Chapter 7"), Some("<p>Again<br>and again</p>"));
    let first = extractor.extract_chapter(&page).unwrap();
    let second = extractor.extract_chapter(&page).unwrap();
    assert_eq!(first.title, second.title);
    assert_eq!(first.content, second.content);
    let bad = chapter_page(None, None);
    assert_eq!(extractor.extract_chapter(&bad).unwrap_err(), extractor.extract_chapter(&bad).unwrap_err());
}

#[test]
fn assemble_chapter_covers_each_case() {
    let ok = assemble_chapter(Some("T".to_string()), Some("<i>b</i>".to_string())).unwrap();
    assert_eq!(ok.title, "T");
    assert_eq!(ok.content, shell("T", "<i>b</i>"));
    assert_eq!(
        assemble_chapter(None, Some("b".to_string())).unwrap_err(),
        ExtractionError::MissingTitle
    );
    assert_eq!(
        assemble_chapter(Some("T".to_string()), None).unwrap_err(),
        ExtractionError::MissingContent
    );
    assert_eq!(assemble_chapter(None, None).unwrap_err(), ExtractionError::MissingTitle);
}
