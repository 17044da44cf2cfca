//! The crawl over the pages of a search result.
//!
//! The crawl is a state machine. Its user holds the browser session: it
//! performs the action that the machine names, reports what came of it as an
//! event, and gets the next action back. The machine decides where to go, when
//! to reject the cookie dialog, what the pages yield and when to stop.

use vstd::prelude::*;
use crate::listing::{
    extract_infos, infos_view, products_of, skipped_of, ExtractError, ListingMarkup, ProductInfo,
    ProductInfoView, Skipped,
};
use crate::text::{decimal_of, decimal_string};

verus! {

/// What is written between the root address and the number of a further page.
pub const PAGE_PARAMETER: &'static str = "&page=";

/// The ceiling for a crawl that is to go on to the last page.
pub const ALL_PAGES: u32 = u32::MAX;

/// The three states of a crawl.
#[derive(Debug, Clone, Copy, PartialEq, Eq)]
pub enum CrawlPhase {
    /// On the way to a page.
    Navigating,
    /// On a page, reading its listings.
    Extracting,
    /// Finished, with or without an error.
    Done,
}

/// The event that a crawl waits for.
#[derive(Debug, Clone, Copy, PartialEq, Eq)]
pub enum Awaiting {
    /// The page navigated to.
    Load,
    /// The rejection of the cookie dialog.
    CookieRejection,
    /// The contents of the page.
    Page,
    /// Nothing: the crawl is done.
    Nothing,
}

/// Why a crawl ended early.
#[derive(Debug, Clone, Copy, PartialEq, Eq)]
pub enum CrawlError {
    /// The session could not load a page, click, or find the results region.
    SessionFailed,
    /// An event was reported that the crawl did not wait for.
    UnexpectedEvent,
}

/// What was found on a results page.
#[derive(Debug, Clone, PartialEq, Eq)]
pub struct PageMarkup {
    /// The listings in the results region.
    pub listings: Vec<ListingMarkup>,
    /// The number of elements that mark the link to the next page as disabled.
    pub next_disabled: usize,
}

/// What the session reports to the crawl.
#[derive(Debug, Clone, PartialEq, Eq)]
pub enum CrawlEvent {
    /// The page has loaded; `cookie_buttons` buttons to reject cookies are on it.
    PageLoaded { cookie_buttons: usize },
    /// The button to reject cookies was clicked.
    CookiesRejected,
    /// The results region was read.
    PageRead(PageMarkup),
    /// The action failed.
    SessionFailed,
}

/// What the crawl asks of the session.
#[derive(Debug, Clone, PartialEq, Eq)]
pub enum CrawlAction {
    /// Go to this address and count the buttons to reject cookies.
    Navigate(String),
    /// Click the button to reject cookies.
    RejectCookies,
    /// Read the results region of the page.
    ReadPage,
    /// Nothing more.
    Finish,
}

/// An action, with its address as a character sequence.
pub enum CrawlActionView {
    Navigate(Seq<char>),
    RejectCookies,
    ReadPage,
    Finish,
}

impl View for CrawlAction {
    type V = CrawlActionView;

    open spec fn view(&self) -> CrawlActionView {
        match self {
            CrawlAction::Navigate(url) => CrawlActionView::Navigate(url@),
            CrawlAction::RejectCookies => CrawlActionView::RejectCookies,
            CrawlAction::ReadPage => CrawlActionView::ReadPage,
            CrawlAction::Finish => CrawlActionView::Finish,
        }
    }
}

/// A listing that was passed over during a crawl.
#[derive(Debug, Clone, Copy, PartialEq, Eq)]
pub struct SkippedListing {
    /// The number of the page, from 1.
    pub page: u32,
    /// The position of the listing on the page, from 0.
    pub index: usize,
    pub error: ExtractError,
}

/// A crawl in progress.
#[derive(Debug)]
pub struct Crawl {
    awaiting: Awaiting,
    root_url: String,
    max_pages: u32,
    pages_done: u32,
    infos: Vec<ProductInfo>,
    skipped: Vec<SkippedListing>,
    failure: Option<CrawlError>,
}

/// The state of a crawl.
pub struct CrawlView {
    pub awaiting: Awaiting,
    /// The address of the first page.
    pub root_url: Seq<char>,
    /// The most pages that are read.
    pub max_pages: u32,
    /// The number of pages read so far.
    pub pages_done: u32,
    /// The products extracted so far, in the order of the pages.
    pub infos: Seq<ProductInfoView>,
    /// The listings passed over so far.
    pub skipped: Seq<SkippedListing>,
    /// The error that ended the crawl, if one did.
    pub failure: Option<CrawlError>,
}

/// Whether the cookie dialog is taken to be on the page: exactly one button
/// to reject cookies was found.
pub open spec fn dialog_is_present(cookie_buttons: usize) -> bool {
    cookie_buttons == 1
}

/// Whether the cookie dialog is taken to be on the page.
pub fn cookie_dialog_present(cookie_buttons: usize) -> (present: bool)
    ensures
        present == dialog_is_present(cookie_buttons),
{
    cookie_buttons == 1
}

/// The phase that a crawl is in while it waits for an event.
pub open spec fn phase_of(awaiting: Awaiting) -> CrawlPhase {
    match awaiting {
        Awaiting::Load => CrawlPhase::Navigating,
        Awaiting::CookieRejection => CrawlPhase::Navigating,
        Awaiting::Page => CrawlPhase::Extracting,
        Awaiting::Nothing => CrawlPhase::Done,
    }
}

/// The address of the page with the given number, for a number above 1.
pub open spec fn page_url(root_url: Seq<char>, page: nat) -> Seq<char> {
    root_url + PAGE_PARAMETER@ + decimal_of(page)
}

/// The listings of a page that cannot be extracted, with the page's number.
pub open spec fn skipped_on_page(page: u32, listings: Seq<ListingMarkup>) -> Seq<SkippedListing> {
    Seq::new(
        skipped_of(listings).len(),
        |i: int|
            SkippedListing {
                page,
                index: skipped_of(listings)[i].index,
                error: skipped_of(listings)[i].error,
            },
    )
}

/// A crawl as it starts, and its first action: to go to the root address, or
/// to finish at once where no page may be read.
pub open spec fn started(root_url: Seq<char>, max_pages: u32) -> (CrawlView, CrawlActionView) {
    let state = CrawlView {
        awaiting: if max_pages == 0 {
            Awaiting::Nothing
        } else {
            Awaiting::Load
        },
        root_url,
        max_pages,
        pages_done: 0,
        infos: Seq::<ProductInfoView>::empty(),
        skipped: Seq::<SkippedListing>::empty(),
        failure: None,
    };
    if max_pages == 0 {
        (state, CrawlActionView::Finish)
    } else {
        (state, CrawlActionView::Navigate(root_url))
    }
}

/// The crawl ended by `error`. What was extracted is kept.
pub open spec fn failed(state: CrawlView, error: CrawlError) -> (CrawlView, CrawlActionView) {
    (CrawlView { awaiting: Awaiting::Nothing, failure: Some(error), ..state }, CrawlActionView::Finish)
}

/// The crawl waiting for `awaiting`, otherwise as it was.
pub open spec fn waiting_for(state: CrawlView, awaiting: Awaiting) -> CrawlView {
    CrawlView { awaiting, ..state }
}

/// The crawl after a page was read: the page is counted and what it yields is
/// added. The crawl is done where the page marks the link to the next page as
/// disabled, or where the ceiling is reached; else it goes to the next page.
pub open spec fn after_page(state: CrawlView, page: PageMarkup) -> (CrawlView, CrawlActionView) {
    let pages_done = (state.pages_done + 1) as u32;
    let read = CrawlView {
        pages_done,
        infos: state.infos + products_of(page.listings@),
        skipped: state.skipped + skipped_on_page(pages_done, page.listings@),
        ..state
    };
    if page.next_disabled > 0 || pages_done >= state.max_pages {
        (waiting_for(read, Awaiting::Nothing), CrawlActionView::Finish)
    } else {
        (
            waiting_for(read, Awaiting::Load),
            CrawlActionView::Navigate(page_url(state.root_url, (pages_done + 1) as nat)),
        )
    }
}

/// The transition of the crawl: the state after `event`, and the next action.
pub open spec fn stepped(state: CrawlView, event: CrawlEvent) -> (CrawlView, CrawlActionView) {
    match (state.awaiting, event) {
        (Awaiting::Nothing, _) => (state, CrawlActionView::Finish),
        (_, CrawlEvent::SessionFailed) => failed(state, CrawlError::SessionFailed),
        (Awaiting::Load, CrawlEvent::PageLoaded { cookie_buttons }) => if dialog_is_present(
            cookie_buttons,
        ) {
            (waiting_for(state, Awaiting::CookieRejection), CrawlActionView::RejectCookies)
        } else {
            (waiting_for(state, Awaiting::Page), CrawlActionView::ReadPage)
        },
        (Awaiting::CookieRejection, CrawlEvent::CookiesRejected) => (
            waiting_for(state, Awaiting::Page),
            CrawlActionView::ReadPage,
        ),
        (Awaiting::Page, CrawlEvent::PageRead(page)) => after_page(state, page),
        _ => failed(state, CrawlError::UnexpectedEvent),
    }
}

/// What holds of every crawl: while it waits for an event, the ceiling is not
/// reached; and it never reads more pages than the ceiling allows.
pub open spec fn within_ceiling(state: CrawlView) -> bool {
    &&& state.pages_done <= state.max_pages
    &&& state.awaiting != Awaiting::Nothing ==> state.pages_done < state.max_pages
}

impl View for Crawl {
    type V = CrawlView;

    closed spec fn view(&self) -> CrawlView {
        CrawlView {
            awaiting: self.awaiting,
            root_url: self.root_url@,
            max_pages: self.max_pages,
            pages_done: self.pages_done,
            infos: infos_view(self.infos@),
            skipped: self.skipped@,
            failure: self.failure,
        }
    }
}

impl Crawl {
    /// Every crawl is within its ceiling.
    #[verifier::type_invariant]
    spec fn inv(self) -> bool {
        within_ceiling(self@)
    }

    /// A crawl from `root_url` over at most `max_pages` pages, and its first
    /// action.
    pub fn start(root_url: &str, max_pages: u32) -> (out: (Crawl, CrawlAction))
        ensures
            (out.0@, out.1@) == started(root_url@, max_pages),
            within_ceiling(out.0@),
    {
        let crawl = Crawl {
            awaiting: if max_pages == 0 {
                Awaiting::Nothing
            } else {
                Awaiting::Load
            },
            root_url: root_url.to_owned(),
            max_pages,
            pages_done: 0,
            infos: Vec::new(),
            skipped: Vec::new(),
            failure: None,
        };
        proof {
            assert(infos_view(crawl.infos@) =~= Seq::<ProductInfoView>::empty());
            assert(crawl.skipped@ =~= Seq::<SkippedListing>::empty());
        }
        if max_pages == 0 {
            (crawl, CrawlAction::Finish)
        } else {
            (crawl, CrawlAction::Navigate(root_url.to_owned()))
        }
    }

    /// The crawl after `event`, and the next action.
    pub fn step(self, event: CrawlEvent) -> (out: (Crawl, CrawlAction))
        ensures
            (out.0@, out.1@) == stepped(self@, event),
            within_ceiling(out.0@),
    {
        proof {
            use_type_invariant(&self);
        }
        let mut crawl = self;
        match (crawl.awaiting, event) {
            (Awaiting::Nothing, _) => (crawl, CrawlAction::Finish),
            (_, CrawlEvent::SessionFailed) => crawl.fail(CrawlError::SessionFailed),
            (Awaiting::Load, CrawlEvent::PageLoaded { cookie_buttons }) => {
                if cookie_dialog_present(cookie_buttons) {
                    crawl.awaiting = Awaiting::CookieRejection;
                    (crawl, CrawlAction::RejectCookies)
                } else {
                    crawl.awaiting = Awaiting::Page;
                    (crawl, CrawlAction::ReadPage)
                }
            },
            (Awaiting::CookieRejection, CrawlEvent::CookiesRejected) => {
                crawl.awaiting = Awaiting::Page;
                (crawl, CrawlAction::ReadPage)
            },
            (Awaiting::Page, CrawlEvent::PageRead(page)) => crawl.read_page(page),
            _ => crawl.fail(CrawlError::UnexpectedEvent),
        }
    }

    /// The crawl ended by `error`.
    fn fail(self, error: CrawlError) -> (out: (Crawl, CrawlAction))
        ensures
            (out.0@, out.1@) == failed(self@, error),
    {
        proof {
            use_type_invariant(&self);
        }
        let mut crawl = self;
        crawl.awaiting = Awaiting::Nothing;
        crawl.failure = Some(error);
        (crawl, CrawlAction::Finish)
    }

    /// The crawl after the page it waited for was read.
    fn read_page(self, page: PageMarkup) -> (out: (Crawl, CrawlAction))
        requires
            self@.awaiting == Awaiting::Page,
        ensures
            (out.0@, out.1@) == after_page(self@, page),
    {
        proof {
            use_type_invariant(&self);
        }
        let Crawl { awaiting: _, root_url, max_pages, pages_done, mut infos, mut skipped, failure } =
            self;
        let pages_done = pages_done + 1;
        let mut found = extract_infos(&page.listings);
        let ghost infos_before = infos_view(infos@);
        let ghost skipped_before = skipped@;
        infos.append(&mut found.infos);
        proof {
            assert(infos_view(infos@) =~= infos_before + products_of(page.listings@));
        }
        let mut i: usize = 0;
        while i < found.skipped.len()
            invariant
                i <= found.skipped.len(),
                found.skipped@ == skipped_of(page.listings@),
                skipped@ == skipped_before + skipped_on_page(pages_done, page.listings@).take(
                    i as int,
                ),
            decreases found.skipped.len() - i,
        {
            let listing = &found.skipped[i];
            skipped.push(
                SkippedListing { page: pages_done, index: listing.index, error: listing.error },
            );
            proof {
                let all = skipped_on_page(pages_done, page.listings@);
                assert(all.take(i + 1) =~= all.take(i as int).push(all[i as int]));
            }
            i += 1;
        }
        proof {
            let all = skipped_on_page(pages_done, page.listings@);
            assert(all.take(i as int) =~= all);
        }
        if page.next_disabled > 0 || pages_done >= max_pages {
            let crawl = Crawl {
                awaiting: Awaiting::Nothing,
                root_url,
                max_pages,
                pages_done,
                infos,
                skipped,
                failure,
            };
            (crawl, CrawlAction::Finish)
        } else {
            let mut url = root_url.clone();
            url.append(PAGE_PARAMETER);
            url.append(decimal_string(pages_done + 1).as_str());
            let crawl = Crawl {
                awaiting: Awaiting::Load,
                root_url,
                max_pages,
                pages_done,
                infos,
                skipped,
                failure,
            };
            (crawl, CrawlAction::Navigate(url))
        }
    }

    /// The phase that the crawl is in.
    pub fn phase(&self) -> (phase: CrawlPhase)
        ensures
            phase == phase_of(self@.awaiting),
    {
        match self.awaiting {
            Awaiting::Load => CrawlPhase::Navigating,
            Awaiting::CookieRejection => CrawlPhase::Navigating,
            Awaiting::Page => CrawlPhase::Extracting,
            Awaiting::Nothing => CrawlPhase::Done,
        }
    }

    /// The number of pages read so far.
    pub fn pages_done(&self) -> (pages: u32)
        ensures
            pages == self@.pages_done,
            pages <= self@.max_pages,
    {
        proof {
            use_type_invariant(self);
        }
        self.pages_done
    }

    /// The listings passed over so far.
    pub fn skipped(&self) -> (skipped: &Vec<SkippedListing>)
        ensures
            skipped@ == self@.skipped,
    {
        &self.skipped
    }

    /// The outcome of the crawl: the error that ended it, or else the products
    /// extracted, in the order of the pages.
    pub fn finish(self) -> (out: Result<Vec<ProductInfo>, CrawlError>)
        ensures
            match out {
                Ok(infos) => self@.failure is None && infos_view(infos@) == self@.infos,
                Err(error) => self@.failure == Some(error),
            },
    {
        match self.failure {
            Some(error) => Err(error),
            None => Ok(self.infos),
        }
    }
}

/// The number of further pages that a crawl may still ask for.
pub open spec fn further_pages(state: CrawlView) -> nat {
    if state.awaiting == Awaiting::Nothing {
        0
    } else {
        (state.max_pages - state.pages_done - 1) as nat
    }
}

/// The number of times that a crawl in the given state asks to go to a page
/// while the events given are reported to it one after another.
pub open spec fn navigations(state: CrawlView, events: Seq<CrawlEvent>) -> nat
    decreases events.len(),
{
    if events.len() == 0 {
        0
    } else {
        let next = stepped(state, events[0]);
        let asked: nat = if next.1 is Navigate {
            1
        } else {
            0
        };
        asked + navigations(next.0, events.drop_first())
    }
}

/// A step keeps the crawl within its ceiling. Where it asks to go to a page,
/// that is the page after those read, and one of the further pages that the
/// crawl could ask for before the step.
pub proof fn lemma_step_stays_within_ceiling(state: CrawlView, event: CrawlEvent)
    requires
        within_ceiling(state),
    ensures
        within_ceiling(stepped(state, event).0),
        stepped(state, event).0.max_pages == state.max_pages,
        stepped(state, event).0.root_url == state.root_url,
        stepped(state, event).1 is Navigate ==> {
            &&& further_pages(stepped(state, event).0) + 1 == further_pages(state)
            &&& stepped(state, event).0.pages_done == state.pages_done + 1
            &&& stepped(state, event).1 == CrawlActionView::Navigate(
                page_url(state.root_url, (state.pages_done + 2) as nat),
            )
        },
        !(stepped(state, event).1 is Navigate) ==> further_pages(stepped(state, event).0)
            <= further_pages(state),
{
}

/// Whatever is reported to a crawl, it asks for no more further pages than its
/// ceiling leaves: a crawl over at most `max_pages` pages goes to its root
/// address and to at most `max_pages - 1` pages after it.
pub proof fn lemma_navigations_are_bounded(state: CrawlView, events: Seq<CrawlEvent>)
    requires
        within_ceiling(state),
    ensures
        navigations(state, events) <= further_pages(state),
    decreases events.len(),
{
    if events.len() > 0 {
        lemma_step_stays_within_ceiling(state, events[0]);
        lemma_navigations_are_bounded(stepped(state, events[0]).0, events.drop_first());
    }
}

/// A crawl with a ceiling of one page goes to its root address, and to no
/// other page whatever is reported to it; once a page is read it is done.
pub proof fn lemma_ceiling_of_one(root_url: Seq<char>, events: Seq<CrawlEvent>, page: PageMarkup)
    ensures
        started(root_url, 1).1 == CrawlActionView::Navigate(root_url),
        navigations(started(root_url, 1).0, events) == 0,
        ({
            let reading = waiting_for(started(root_url, 1).0, Awaiting::Page);
            &&& stepped(reading, CrawlEvent::PageRead(page)).1 == CrawlActionView::Finish
            &&& stepped(reading, CrawlEvent::PageRead(page)).0.pages_done == 1
            &&& stepped(reading, CrawlEvent::PageRead(page)).0.awaiting == Awaiting::Nothing
        }),
{
    lemma_navigations_are_bounded(started(root_url, 1).0, events);
}

} // verus!
