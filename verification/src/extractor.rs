//! The structured model that every site layout is parsed into, and the
//! capability set that a site-specific extractor offers.

use vstd::prelude::*;
use crate::text::{option_text, texts};

pub mod boxn;
pub use boxn::BoxnExtractor;

verus! {

/// What the index page of a novel says: its metadata and the addresses of
/// its chapter pages, oldest chapter first.
#[derive(Debug)]
pub struct Overview {
    pub title: String,
    pub author: String,
    pub img_url: Option<String>,
    pub download_urls: Vec<String>,
}

/// One chapter: its title and its content as self-contained markup.
#[derive(Debug)]
pub struct Chapter {
    pub title: String,
    pub content: String,
}

/// Why a chapter page could not be turned into a [`Chapter`].
#[derive(Debug, Clone, Copy, PartialEq, Eq, Structural)]
pub enum ExtractionError {
    /// The page declares no title element.
    MissingTitle,
    /// The page has no content region.
    MissingContent,
}

/// The mathematical value of an [`Overview`].
pub struct OverviewView {
    pub title: Seq<char>,
    pub author: Seq<char>,
    pub img_url: Option<Seq<char>>,
    pub download_urls: Seq<Seq<char>>,
}

/// The mathematical value of a [`Chapter`].
pub struct ChapterView {
    pub title: Seq<char>,
    pub content: Seq<char>,
}

impl View for Overview {
    type V = OverviewView;

    open spec fn view(&self) -> OverviewView {
        OverviewView {
            title: self.title@,
            author: self.author@,
            img_url: option_text(self.img_url),
            download_urls: texts(self.download_urls@),
        }
    }
}

impl View for Chapter {
    type V = ChapterView;

    open spec fn view(&self) -> ChapterView {
        ChapterView { title: self.title@, content: self.content@ }
    }
}

/// The mathematical value of the outcome of a chapter extraction.
pub open spec fn extraction_view(r: Result<Chapter, ExtractionError>) -> Result<
    ChapterView,
    ExtractionError,
> {
    match r {
        Ok(c) => Ok(c@),
        Err(e) => Err(e),
    }
}

/// The parsing of one site layout. Both operations are functions of the
/// markup alone: `overview_of` and `chapter_of` say what they return.
pub trait Extractor {
    /// The overview that the index markup `html` stands for.
    spec fn overview_of(&self, html: Seq<char>) -> OverviewView;

    /// The chapter that the chapter markup `html` stands for, or the
    /// structural element that it lacks.
    spec fn chapter_of(&self, html: Seq<char>) -> Result<ChapterView, ExtractionError>;

    /// Parses the index page. Never fails: missing regions degrade to
    /// fallbacks.
    fn extract_overview(&self, html: &str) -> (r: Overview)
        ensures
            r@ == self.overview_of(html@),
    ;

    /// Parses one chapter page.
    fn extract_chapter(&self, html: &str) -> (r: Result<Chapter, ExtractionError>)
        ensures
            extraction_view(r) == self.chapter_of(html@),
    ;
}

/// Extracting twice from the same chapter markup gives the same outcome:
/// any two results that meet the contract of `extract_chapter` for one
/// extractor and one markup have equal values.
pub proof fn lemma_extract_chapter_idempotent<E: Extractor>(
    extractor: &E,
    html: Seq<char>,
    first: Result<Chapter, ExtractionError>,
    second: Result<Chapter, ExtractionError>,
)
    requires
        extraction_view(first) == extractor.chapter_of(html),
        extraction_view(second) == extractor.chapter_of(html),
    ensures
        extraction_view(first) == extraction_view(second),
        first is Ok ==> second is Ok && first->Ok_0.title@ == second->Ok_0.title@
            && first->Ok_0.content@ == second->Ok_0.content@,
        first is Err ==> second is Err && first->Err_0 == second->Err_0,
{
}

} // verus!
