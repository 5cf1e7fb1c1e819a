//! The extractor for the "boxn" site layout: breadcrumb title, author and
//! summary-image blocks on the index page, and a `div.text-left` content
//! region on each chapter page.

use vstd::prelude::*;
use vstd::string::*;
use crate::extractor::{Chapter, ChapterView, ExtractionError, Extractor, Overview, OverviewView};
use crate::markup::{
    capture_every, capture_first, every_capture, first_capture, first_element_markup,
    first_element_text, select_markup, select_text,
};
use crate::text::{has_prefix, option_text, option_texts, texts, trim, trimmed};

verus! {

/// Matches the last link of the breadcrumb navigation; group 1 is the title.
pub const HOME_TITLE_PATTERN: &'static str =
    r#"<ol class="breadcrumb">.*<li>.*?<a.*?>(.+?)</a>.*?</li>.*?</ol>"#;

/// Matches the first link of the author block; group 1 is the author.
pub const HOME_AUTHOR_PATTERN: &'static str =
    r#"<div.+?class="author-content".*?>.*?<a.*?>(.+?)</a>"#;

/// Matches the summary image block; group 1 is the address of the image.
pub const HOME_IMAGE_PATTERN: &'static str =
    r#"<div.+?class="summary_image">.*?src="(.+?)".*?</div>"#;

/// What precedes the site in the pattern for chapter links.
pub const LINK_PATTERN_HEAD: &'static str = r#"<a.+?href="("#;

/// What follows the site in the pattern for chapter links.
pub const LINK_PATTERN_TAIL: &'static str = r#".+?)".*?>"#;

/// Selects the declared title of a chapter page.
pub const TITLE_SELECTOR: &'static str = "title";

/// Selects the content region of a chapter page.
pub const CONTENT_SELECTOR: &'static str = "div.text-left";

/// The title used where the index page shows none.
pub const NO_TITLE: &'static str = "no_title";

/// The author used where the index page shows none.
pub const NO_AUTHOR: &'static str = "no_author";

/// The document shell up to the title.
pub const SHELL_HEAD: &'static str = r#"<html xmlns="http://www.w3.org/1999/xhtml" xmlns:epub="http://www.idpf.org/2007/ops">
    <head>
        <title>"#;

/// The document shell between the title and the content.
pub const SHELL_MIDDLE: &'static str = r#"</title>
    </head>
    <body>
        "#;

/// The document shell after the content.
pub const SHELL_TAIL: &'static str = r#"
    </body>
</html>"#;

/// The pattern that finds the links into `site`: group 1 is a link target
/// that begins with the site's address. The address is part of the pattern
/// as it stands.
pub open spec fn link_pattern(site: Seq<char>) -> Seq<char> {
    LINK_PATTERN_HEAD@ + site + LINK_PATTERN_TAIL@
}

/// A found name without the white space around it, or `fallback` where none
/// was found.
pub open spec fn name_or(found: Option<Seq<char>>, fallback: Seq<char>) -> Seq<char> {
    match found {
        Some(s) => trimmed(s),
        None => fallback,
    }
}

/// A found image address without the white space around it.
pub open spec fn image_of(found: Option<Seq<char>>) -> Option<Seq<char>> {
    match found {
        Some(s) => Some(trimmed(s)),
        None => None,
    }
}

/// Whether a link target was found and begins with the address of `site`:
/// only such a link belongs to the novel.
pub open spec fn belongs(site: Seq<char>, target: Option<Seq<char>>) -> bool {
    target is Some && site.is_prefix_of(target->0)
}

/// The link targets among `found` that belong to `site`, in the order in
/// which they were found.
pub open spec fn present(site: Seq<char>, found: Seq<Option<Seq<char>>>) -> Seq<Seq<char>>
    decreases found.len(),
{
    if found.len() == 0 {
        Seq::empty()
    } else if belongs(site, found.last()) {
        present(site, found.drop_last()).push(found.last()->0)
    } else {
        present(site, found.drop_last())
    }
}

/// `links` back to front: position `i` holds what stood `i` places before
/// the end.
pub open spec fn oldest_first(links: Seq<Seq<char>>) -> Seq<Seq<char>> {
    Seq::new(links.len(), |i: int| links[links.len() - 1 - i])
}

/// The chapter addresses of an index page that lists its chapters newest
/// first: the link targets found that belong to `site`, in reverse. None
/// where the search itself could not be made.
pub open spec fn links_of(site: Seq<char>, found: Option<Seq<Option<Seq<char>>>>) -> Seq<
    Seq<char>,
> {
    match found {
        Some(all) => oldest_first(present(site, all)),
        None => Seq::empty(),
    }
}

/// The overview made of what the four searches of the index page gave.
pub open spec fn overview_from(
    site: Seq<char>,
    title: Option<Seq<char>>,
    author: Option<Seq<char>>,
    image: Option<Seq<char>>,
    links: Option<Seq<Option<Seq<char>>>>,
) -> OverviewView {
    OverviewView {
        title: name_or(title, NO_TITLE@),
        author: name_or(author, NO_AUTHOR@),
        img_url: image_of(image),
        download_urls: links_of(site, links),
    }
}

/// The content of a chapter: the fixed document shell around the title and
/// the inner markup of the content region.
pub open spec fn shell(title: Seq<char>, body: Seq<char>) -> Seq<char> {
    SHELL_HEAD@ + title + SHELL_MIDDLE@ + body + SHELL_TAIL@
}

/// The chapter made of what the two selections of the chapter page gave.
pub open spec fn chapter_from(title: Option<Seq<char>>, body: Option<Seq<char>>) -> Result<
    ChapterView,
    ExtractionError,
> {
    match title {
        None => Err(ExtractionError::MissingTitle),
        Some(t) => match body {
            None => Err(ExtractionError::MissingContent),
            Some(b) => Ok(ChapterView { title: t, content: shell(t, b) }),
        },
    }
}

/// Adding a link at the end of the found ones puts it at the front of the
/// chapter addresses.
pub proof fn lemma_oldest_first_push(links: Seq<Seq<char>>, last: Seq<char>)
    ensures
        oldest_first(links.push(last)) == seq![last] + oldest_first(links),
{
    assert(oldest_first(links.push(last)) =~= seq![last] + oldest_first(links));
}

/// The chapter addresses are in oldest-first order where the page lists
/// newest first: of two addresses, the one that comes earlier in the result
/// was found later on the page. Position `i` of the result is the link that
/// stood `i` places before the last one found.
pub proof fn lemma_links_oldest_first(
    site: Seq<char>,
    found: Seq<Option<Seq<char>>>,
    i: int,
    j: int,
)
    requires
        0 <= i < j < present(site, found).len(),
    ensures
        links_of(site, Some(found)).len() == present(site, found).len(),
        links_of(site, Some(found))[i] == present(site, found)[present(site, found).len() - 1 - i],
        links_of(site, Some(found))[j] == present(site, found)[present(site, found).len() - 1 - j],
        present(site, found).len() - 1 - j < present(site, found).len() - 1 - i,
{
}

/// Every link kept begins with the address of the site.
pub proof fn lemma_present_belong(site: Seq<char>, found: Seq<Option<Seq<char>>>)
    ensures
        forall|i: int|
            0 <= i < present(site, found).len() ==> site.is_prefix_of(
                #[trigger] present(site, found)[i],
            ),
    decreases found.len(),
{
    if found.len() > 0 {
        lemma_present_belong(site, found.drop_last());
        let earlier = present(site, found.drop_last());
        assert forall|i: int| 0 <= i < present(site, found).len() implies site.is_prefix_of(
            #[trigger] present(site, found)[i],
        ) by {
            if i < earlier.len() {
                assert(present(site, found)[i] == earlier[i]);
            }
        }
    }
}

/// Every chapter address of an overview begins with the address of the
/// site, whatever the index page holds.
pub proof fn lemma_links_begin_with_site(site: Seq<char>, found: Option<Seq<Option<Seq<char>>>>)
    ensures
        forall|i: int|
            0 <= i < links_of(site, found).len() ==> site.is_prefix_of(
                #[trigger] links_of(site, found)[i],
            ),
{
    if let Some(all) = found {
        lemma_present_belong(site, all);
    }
}

/// The extractor for one novel of the site: `site` is the address that the
/// links to its chapters begin with.
#[derive(Clone)]
pub struct BoxnExtractor {
    site: String,
}

impl View for BoxnExtractor {
    type V = Seq<char>;

    closed spec fn view(&self) -> Seq<char> {
        self.site@
    }
}

/// Builds the overview from the outcomes of the four searches of the index
/// page: fallbacks for a missing title or author, no image where none was
/// found, and the link targets that begin with `site`, back to front.
pub fn assemble_overview(
    site: &str,
    title: Option<String>,
    author: Option<String>,
    image: Option<String>,
    links: Option<Vec<Option<String>>>,
) -> (r: Overview)
    ensures
        r@ == overview_from(
            site@,
            option_text(title),
            option_text(author),
            option_text(image),
            crate::markup::captures_view(links),
        ),
{
    let title_text = match title {
        Some(s) => trim(s.as_str()),
        None => String::from_str(NO_TITLE),
    };
    let author_text = match author {
        Some(s) => trim(s.as_str()),
        None => String::from_str(NO_AUTHOR),
    };
    let img_url = match image {
        Some(s) => Some(trim(s.as_str())),
        None => None,
    };
    let download_urls = match links {
        Some(found) => reverse_present(site, found),
        None => Vec::new(),
    };
    let r = Overview { title: title_text, author: author_text, img_url, download_urls };
    proof {
        assert(texts(r.download_urls@) =~= links_of(site@, crate::markup::captures_view(links)));
    }
    r
}

/// The strings among `found` that begin with `site`, last one first.
fn reverse_present(site: &str, found: Vec<Option<String>>) -> (out: Vec<String>)
    ensures
        texts(out@) == oldest_first(present(site@, option_texts(found@))),
{
    let ghost all = option_texts(found@);
    let mut rest = found;
    let mut out: Vec<String> = Vec::new();
    proof {
        assert(texts(out@) + oldest_first(present(site@, option_texts(rest@))) =~= oldest_first(
            present(site@, all),
        ));
    }
    while rest.len() > 0
        invariant
            texts(out@) + oldest_first(present(site@, option_texts(rest@))) == oldest_first(present(site@, all)),
        decreases rest.len(),
    {
        let ghost before = rest@;
        let ghost done = out@;
        let item = rest.pop();
        proof {
            assert(option_texts(before).drop_last() =~= option_texts(rest@));
            assert(option_texts(before).last() == option_text(before.last()));
        }
        match item {
            Some(Some(s)) if has_prefix(s.as_str(), site) => {
                out.push(s);
                proof {
                    lemma_oldest_first_push(present(site@, option_texts(rest@)), s@);
                    assert(texts(out@) =~= texts(done) + seq![s@]);
                    assert(texts(out@) + oldest_first(present(site@, option_texts(rest@))) =~= texts(done)
                        + oldest_first(present(site@, option_texts(before))));
                }
            },
            _ => {},
        }
    }
    proof {
        assert(present(site@, option_texts(rest@)) =~= Seq::empty());
        assert(texts(out@) + oldest_first(present(site@, option_texts(rest@))) =~= texts(out@));
    }
    out
}

/// Builds the chapter from the outcomes of the two selections of the chapter
/// page: the title must be there, then the content region; the content is
/// wrapped in the document shell.
pub fn assemble_chapter(title: Option<String>, body: Option<String>) -> (r: Result<
    Chapter,
    ExtractionError,
>)
    ensures
        crate::extractor::extraction_view(r) == chapter_from(option_text(title), option_text(body)),
{
    match title {
        None => Err(ExtractionError::MissingTitle),
        Some(t) => match body {
            None => Err(ExtractionError::MissingContent),
            Some(b) => {
                let mut content = String::from_str(SHELL_HEAD);
                content.append(t.as_str());
                content.append(SHELL_MIDDLE);
                content.append(b.as_str());
                content.append(SHELL_TAIL);
                Ok(Chapter { title: t, content })
            },
        },
    }
}

impl BoxnExtractor {
    /// An extractor for the novel whose chapter links begin with `site`.
    pub fn new(site: &str) -> (r: Self)
        ensures
            r@ == site@,
    {
        BoxnExtractor { site: String::from_str(site) }
    }

    /// The address that chapter links begin with.
    pub fn site(&self) -> (r: &str)
        ensures
            r@ == self@,
    {
        self.site.as_str()
    }
}

impl Extractor for BoxnExtractor {
    open spec fn overview_of(&self, html: Seq<char>) -> OverviewView {
        overview_from(
            self@,
            first_capture(HOME_TITLE_PATTERN@, html),
            first_capture(HOME_AUTHOR_PATTERN@, html),
            first_capture(HOME_IMAGE_PATTERN@, html),
            every_capture(link_pattern(self@), html),
        )
    }

    open spec fn chapter_of(&self, html: Seq<char>) -> Result<ChapterView, ExtractionError> {
        chapter_from(
            first_element_text(TITLE_SELECTOR@, html),
            first_element_markup(CONTENT_SELECTOR@, html),
        )
    }

    fn extract_overview(&self, html: &str) -> (r: Overview)
        ensures
            forall|i: int|
                0 <= i < r.download_urls@.len() ==> self@.is_prefix_of(
                    #[trigger] r.download_urls@[i]@,
                ),
    {
        let title = capture_first(HOME_TITLE_PATTERN, html);
        let author = capture_first(HOME_AUTHOR_PATTERN, html);
        let image = capture_first(HOME_IMAGE_PATTERN, html);
        let mut pattern = String::from_str(LINK_PATTERN_HEAD);
        pattern.append(self.site.as_str());
        pattern.append(LINK_PATTERN_TAIL);
        let links = capture_every(pattern.as_str(), html);
        let r = assemble_overview(self.site.as_str(), title, author, image, links);
        proof {
            lemma_links_begin_with_site(self@, every_capture(link_pattern(self@), html@));
            assert forall|i: int| 0 <= i < r.download_urls@.len() implies self@.is_prefix_of(
                #[trigger] r.download_urls@[i]@,
            ) by {
                assert(r.download_urls@[i]@ == texts(r.download_urls@)[i]);
            }
        }
        r
    }

    fn extract_chapter(&self, html: &str) -> (r: Result<Chapter, ExtractionError>) {
        let title = select_text(TITLE_SELECTOR, html);
        let body = select_markup(CONTENT_SELECTOR, html);
        assemble_chapter(title, body)
    }
}

} // verus!
