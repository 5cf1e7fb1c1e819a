//! The rules around the extraction and the collector: the normalized site
//! address, what makes an index page unusable, which cover images are
//! packaged, how a released chapter is handed to the packaging step, and
//! the entity fix applied to normalized markup.

use vstd::prelude::*;
use vstd::string::*;
use crate::collector::{ChapterFailure, IndexedResult};
use crate::extractor::Overview;

verus! {

/// Why a run cannot start.
#[derive(Debug, Clone, Copy, PartialEq, Eq, Structural)]
pub enum FatalSetupError {
    /// The index page could not be retrieved.
    IndexUnavailable,
    /// The index page lists no chapter.
    NoChapters,
}

/// What to do with a chapter that failed.
#[derive(Debug, Clone, Copy, PartialEq, Eq, Structural)]
pub enum FailurePolicy {
    /// Stop the run at the first failed chapter.
    Abort,
    /// Leave the chapter out of the book.
    Skip,
}

/// One chapter as the packaging step takes it.
#[derive(Debug)]
pub struct PackagedChapter {
    /// The name of the chapter's file in the book.
    pub file_name: String,
    pub title: String,
    pub content: String,
    /// Whether this is the first chapter of the book, which the packaging
    /// step marks as the start of the text.
    pub first: bool,
}

/// What becomes of one released result.
#[derive(Debug)]
pub enum Delivery {
    /// The chapter goes into the book.
    Add(PackagedChapter),
    /// The chapter at this index failed and is left out.
    Skipped(usize),
    /// The chapter at this index failed and the run stops.
    Aborted(usize, ChapterFailure),
}

/// The mathematical value of a [`Delivery`].
pub enum DeliveryView {
    Add { file_name: Seq<char>, title: Seq<char>, content: Seq<char>, first: bool },
    Skipped(usize),
    Aborted(usize, ChapterFailure),
}

impl View for Delivery {
    type V = DeliveryView;

    open spec fn view(&self) -> DeliveryView {
        match *self {
            Delivery::Add(p) => DeliveryView::Add {
                file_name: p.file_name@,
                title: p.title@,
                content: p.content@,
                first: p.first,
            },
            Delivery::Skipped(i) => DeliveryView::Skipped(i),
            Delivery::Aborted(i, f) => DeliveryView::Aborted(i, f),
        }
    }
}

/// The site address with a slash at its end.
pub open spec fn normalized(raw: Seq<char>) -> Seq<char> {
    if raw.len() > 0 && raw.last() == '/' {
        raw
    } else {
        raw.push('/')
    }
}

/// Appends a slash to the site address unless it ends in one.
pub fn normalize_site(raw: &str) -> (r: String)
    ensures
        r@ == normalized(raw@),
{
    let n = raw.unicode_len();
    let mut site = String::from_str(raw);
    if n > 0 && raw.get_char(n - 1) == '/' {
        site
    } else {
        proof {
            reveal_strlit("/");
            assert("/"@ =~= seq!['/']);
            assert(raw@ + seq!['/'] =~= raw@.push('/'));
        }
        site.append("/");
        site
    }
}

/// An overview can start a run only if it lists a chapter.
pub fn check_overview(overview: &Overview) -> (r: Result<(), FatalSetupError>)
    ensures
        r is Ok <==> overview@.download_urls.len() > 0,
        r is Err ==> r == Err::<(), FatalSetupError>(FatalSetupError::NoChapters),
{
    if overview.download_urls.len() == 0 {
        Err(FatalSetupError::NoChapters)
    } else {
        Ok(())
    }
}

/// The file name of the cover for a declared media type: PNG and JPEG
/// images are packaged, anything else is not.
pub open spec fn cover_name(mimetype: Seq<char>) -> Option<Seq<char>> {
    if mimetype == "image/png"@ {
        Some("cover.png"@)
    } else if mimetype == "image/jpeg"@ {
        Some("cover.jpg"@)
    } else {
        None
    }
}

/// The file name under which a cover of the declared media type is
/// packaged, or `None` where the book gets no cover.
pub fn cover_file_name(mimetype: &str) -> (r: Option<&'static str>)
    ensures
        match r {
            Some(name) => cover_name(mimetype@) == Some(name@),
            None => cover_name(mimetype@) is None,
        },
{
    let given = String::from_str(mimetype);
    if given == String::from_str("image/png") {
        Some("cover.png")
    } else if given == String::from_str("image/jpeg") {
        Some("cover.jpg")
    } else {
        None
    }
}

/// The character of a decimal digit.
pub open spec fn digit(d: nat) -> char {
    if d == 0 {
        '0'
    } else if d == 1 {
        '1'
    } else if d == 2 {
        '2'
    } else if d == 3 {
        '3'
    } else if d == 4 {
        '4'
    } else if d == 5 {
        '5'
    } else if d == 6 {
        '6'
    } else if d == 7 {
        '7'
    } else if d == 8 {
        '8'
    } else {
        '9'
    }
}

/// The decimal numeral of `n`, without leading zeros.
pub open spec fn decimal(n: nat) -> Seq<char>
    decreases n,
{
    if n < 10 {
        seq![digit(n)]
    } else {
        decimal(n / 10).push(digit(n % 10))
    }
}

/// The file name of the chapter at `index`: `c`, the index, `.xhtml`.
pub open spec fn chapter_name(index: nat) -> Seq<char> {
    seq!['c'] + decimal(index) + ".xhtml"@
}

fn digit_text(d: usize) -> (r: &'static str)
    requires
        d < 10,
    ensures
        r@ == seq![digit(d as nat)],
{
    proof {
        reveal_strlit("0");
        reveal_strlit("1");
        reveal_strlit("2");
        reveal_strlit("3");
        reveal_strlit("4");
        reveal_strlit("5");
        reveal_strlit("6");
        reveal_strlit("7");
        reveal_strlit("8");
        reveal_strlit("9");
    }
    let r = if d == 0 {
        "0"
    } else if d == 1 {
        "1"
    } else if d == 2 {
        "2"
    } else if d == 3 {
        "3"
    } else if d == 4 {
        "4"
    } else if d == 5 {
        "5"
    } else if d == 6 {
        "6"
    } else if d == 7 {
        "7"
    } else if d == 8 {
        "8"
    } else {
        "9"
    };
    assert(r@ =~= seq![digit(d as nat)]);
    r
}

/// Appends the decimal numeral of `n` to `out`.
fn append_decimal(out: &mut String, n: usize)
    ensures
        final(out)@ == old(out)@ + decimal(n as nat),
    decreases n,
{
    if n >= 10 {
        append_decimal(out, n / 10);
    }
    out.append(digit_text(n % 10));
    proof {
        assert(out@ =~= old(out)@ + decimal(n as nat));
    }
}

/// The file name of the chapter at `index`.
pub fn chapter_file_name(index: usize) -> (r: String)
    ensures
        r@ == chapter_name(index as nat),
{
    proof {
        reveal_strlit("c");
        assert("c"@ =~= seq!['c']);
    }
    let mut name = String::from_str("c");
    append_decimal(&mut name, index);
    name.append(".xhtml");
    name
}

/// What becomes of a released result when `added` chapters are in the book
/// already.
pub open spec fn delivery_of(result: IndexedResult, policy: FailurePolicy, added: usize) -> DeliveryView {
    match result.chapter {
        Ok(chapter) => DeliveryView::Add {
            file_name: chapter_name(result.index as nat),
            title: chapter.title@,
            content: chapter.content@,
            first: added == 0,
        },
        Err(failure) => match policy {
            FailurePolicy::Skip => DeliveryView::Skipped(result.index),
            FailurePolicy::Abort => DeliveryView::Aborted(result.index, failure),
        },
    }
}

/// Decides what becomes of a released result: a chapter goes into the book
/// under the name of its index, marked as first where the book is still
/// empty; a failed one is skipped or stops the run, as the policy says.
pub fn deliver(result: IndexedResult, policy: FailurePolicy, added: usize) -> (r: Delivery)
    ensures
        r@ == delivery_of(result, policy, added),
{
    let index = result.index;
    match result.chapter {
        Ok(chapter) => Delivery::Add(
            PackagedChapter {
                file_name: chapter_file_name(index),
                title: chapter.title,
                content: chapter.content,
                first: added == 0,
            },
        ),
        Err(failure) => match policy {
            FailurePolicy::Skip => Delivery::Skipped(index),
            FailurePolicy::Abort => Delivery::Aborted(index, failure),
        },
    }
}

/// `text` with every occurrence of `from` replaced by `to`, found from the
/// left and without overlap.
pub open spec fn replaced(text: Seq<char>, from: Seq<char>, to: Seq<char>) -> Seq<char>
    decreases text.len(),
{
    if from.len() == 0 || text.len() < from.len() {
        text
    } else if text.subrange(0, from.len() as int) == from {
        to + replaced(text.subrange(from.len() as int, text.len() as int), from, to)
    } else {
        seq![text[0]] + replaced(text.drop_first(), from, to)
    }
}

/// `str::replace` of std with a pattern that is not empty: a copy of `text`
/// in which each match of `from`, found from the left and without overlap,
/// is replaced by `to`.
#[verifier::external_body]
fn replace_all(text: &str, from: &str, to: &str) -> (r: String)
    requires
        from@.len() > 0,
    ensures
        r@ == replaced(text@, from@, to@),
{
    text.replace(from, to)
}

/// Normalized markup with each non-breaking-space entity written as its
/// numeric character reference, which well-formed markup requires.
pub fn fix_entities(markup: &str) -> (r: String)
    ensures
        r@ == replaced(markup@, "&nbsp;"@, "&#160;"@),
{
    proof {
        reveal_strlit("&nbsp;");
    }
    replace_all(markup, "&nbsp;", "&#160;")
}

} // verus!
