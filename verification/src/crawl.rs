//! The crawl as a machine that decides and never waits: it says which
//! request to send next and when, and takes in what came back. Sending,
//! sleeping and receiving are the caller's part.
//!
//! Every request handed out has a ticket, and an answer is taken once for
//! each ticket. The crawl is over when nothing waits and no ticket is open.

use vstd::prelude::*;
use crate::limiter::{next_start, Policy};
use crate::model::{EntryView, ModularGridState, ModuleView};
use crate::markup::selected;
use crate::scraper::{
    listing_entries,
    listing_entry,
    module_entries,
    module_of,
    too_large,
    ScrapeError,
    ScraperView,
    HREF,
};
use crate::url::host_of;

verus! {

/// Why a fetch brought no response.
#[derive(Debug, Clone, Copy, PartialEq, Eq, Structural)]
pub enum FetchFailure {
    Timeout,
    Transport,
}

/// Why a waiting request was not sent.
#[derive(Debug, Clone, Copy, PartialEq, Eq, Structural)]
pub enum RejectReason {
    /// Its address has no host that this library reads.
    NoHost,
    /// Its host is not among those allowed.
    NotAllowed,
    /// Its start time would lie beyond what a `u64` holds.
    ClockOverflow,
}

/// What went wrong with one request. None of these ends the crawl.
#[derive(Debug, Clone, Copy, PartialEq, Eq, Structural)]
pub enum CrawlError {
    /// No request is open under this ticket.
    UnknownTicket,
    /// The fetch brought no response.
    Fetch(FetchFailure),
    /// The response's status is not one of 200 to 299.
    Status(u16),
    /// The page has no record.
    Scrape(ScrapeError),
}

/// What a fetch brought, as a value of mathematics.
pub ghost enum FetchedView {
    Response { status: u16, body: Seq<char> },
    Failed(FetchFailure),
}

/// What the crawl says to do next, as a value of mathematics.
pub ghost enum StepView {
    Fetch { ticket: int, url: Seq<char>, start: int },
    Refused { entry: EntryView, reason: RejectReason },
    Wait,
    Finished,
}

/// The crawl as a value of mathematics.
pub ghost struct CrawlView {
    /// The requests that wait, the one that waited longest first.
    pub frontier: Seq<EntryView>,
    /// By ticket: the request that is open under it, `None` once it was
    /// answered.
    pub tickets: Seq<Option<EntryView>>,
    /// The allowed hosts and their policies.
    pub limiter: Map<Seq<char>, Policy>,
    /// The selectors that read the pages, and the number of the last
    /// listing page to visit.
    pub scraper: ScraperView,
    /// How many listing pages were requested.
    pub list_requests: nat,
    /// How many module pages were requested.
    pub module_requests: nat,
    /// Whether a listing page was refused or not fetched, so that what it
    /// links to was never found.
    pub listing_lost: bool,
    /// Whether the crawl was told to send nothing more.
    pub halted: bool,
}

/// One thing that happens to a crawl under way.
pub ghost enum Event {
    /// The next step is asked for at time `now`.
    Next { now: u64 },
    /// What the request under `ticket` brought is handed in.
    Answer { ticket: usize, fetched: FetchedView },
    /// The crawl is told to send nothing more.
    Halt,
}

/// Whether `status` says that the request succeeded.
pub open spec fn is_success(status: u16) -> bool {
    200 <= status <= 299
}

/// How many of `tickets` are open.
pub open spec fn open_count(tickets: Seq<Option<EntryView>>) -> nat
    decreases tickets.len(),
{
    if tickets.len() == 0 {
        0
    } else {
        open_count(tickets.drop_last()) + if tickets.last() is Some {
            1nat
        } else {
            0nat
        }
    }
}

impl CrawlView {
    /// How many tickets are open.
    pub open spec fn in_flight(self) -> nat {
        open_count(self.tickets)
    }

    /// Whether no ticket is open.
    pub open spec fn idle(self) -> bool {
        forall|t: int| 0 <= t < self.tickets.len() ==> (#[trigger] self.tickets[t]) is None
    }

    /// Whether the request that waits at `i` is for a listing page.
    pub open spec fn waiting_list(self, i: int) -> bool {
        0 <= i < self.frontier.len() && self.frontier[i].is_list()
    }

    /// Whether ticket `t` is open for a listing page.
    pub open spec fn open_list(self, t: int) -> bool {
        0 <= t < self.tickets.len() && self.tickets[t] is Some && self.tickets[t]->0.is_list()
    }

    /// Whether nothing has happened yet: nothing waits, nothing was sent.
    pub open spec fn fresh(self) -> bool {
        &&& self.frontier.len() == 0
        &&& self.tickets.len() == 0
        &&& self.list_requests == 0
        &&& !self.listing_lost
    }

    /// The crawl with `entry` queued behind all that wait.
    pub open spec fn visit(self, entry: EntryView) -> CrawlView {
        CrawlView { frontier: self.frontier.push(entry), ..self }
    }

    /// Host and start time of the request `entry` at time `now`, or why it
    /// is not sent.
    pub open spec fn admission(self, entry: EntryView, now: u64) -> Result<
        (Seq<char>, int),
        RejectReason,
    > {
        match host_of(entry.url) {
            None => Err(RejectReason::NoHost),
            Some(host) => if !self.limiter.dom().contains(host) {
                Err(RejectReason::NotAllowed)
            } else {
                let start = next_start(
                    self.limiter[host].delay,
                    self.limiter[host].last_start,
                    now as int,
                );
                if start > u64::MAX {
                    Err(RejectReason::ClockOverflow)
                } else {
                    Ok((host, start))
                }
            },
        }
    }

    /// What the crawl does when asked at time `now` for its next step, and
    /// what it is afterwards.
    ///
    /// With nothing to send, it is finished if no ticket is open and waits
    /// for answers otherwise. Else the request that waited longest leaves
    /// the frontier. If it may not be sent, it is refused and nothing is
    /// sent for it. If it is, it gets the next ticket and its start time,
    /// which the limiter remembers.
    pub open spec fn next(self, now: u64) -> (CrawlView, StepView) {
        if self.halted || self.frontier.len() == 0 {
            (
                self,
                if self.idle() {
                    StepView::Finished
                } else {
                    StepView::Wait
                },
            )
        } else {
            let entry = self.frontier[0];
            match self.admission(entry, now) {
                Err(reason) => (
                    CrawlView {
                        frontier: self.frontier.drop_first(),
                        listing_lost: self.listing_lost || entry.is_list(),
                        ..self
                    },
                    StepView::Refused { entry, reason },
                ),
                Ok((host, start)) => (
                    CrawlView {
                        frontier: self.frontier.drop_first(),
                        tickets: self.tickets.push(Some(entry)),
                        limiter: self.limiter.insert(
                            host,
                            Policy { delay: self.limiter[host].delay, last_start: Some(start) },
                        ),
                        list_requests: if entry.is_list() {
                            self.list_requests + 1
                        } else {
                            self.list_requests
                        },
                        module_requests: if entry.is_list() {
                            self.module_requests
                        } else {
                            self.module_requests + 1
                        },
                        ..self
                    },
                    StepView::Fetch { ticket: self.tickets.len() as int, url: entry.url, start },
                ),
            }
        }
    }

    /// What the crawl gives for the answer `fetched` to ticket `ticket`, and
    /// what it is afterwards.
    ///
    /// A ticket that is not open is an error and changes nothing. An open
    /// ticket closes. Without a response, with a status that is no success,
    /// or with a page that is too long to be read, the request's error is
    /// given, and a listing page counts as lost. A listing page queues what
    /// the links give that the module selector finds in it, and gives
    /// nothing; a module page queues nothing and gives its record, or the
    /// error that says why it has none.
    pub open spec fn answer(self, ticket: usize, fetched: FetchedView) -> (
        CrawlView,
        Result<Option<ModuleView>, CrawlError>,
    ) {
        if ticket >= self.tickets.len() || self.tickets[ticket as int] is None {
            (self, Err(CrawlError::UnknownTicket))
        } else {
            let entry = self.tickets[ticket as int]->0;
            let closed = CrawlView { tickets: self.tickets.update(ticket as int, None), ..self };
            let lost = CrawlView { listing_lost: self.listing_lost || entry.is_list(), ..closed };
            match fetched {
                FetchedView::Failed(failure) => (lost, Err(CrawlError::Fetch(failure))),
                FetchedView::Response { status, body } => if !is_success(status) {
                    (lost, Err(CrawlError::Status(status)))
                } else if too_large(body) {
                    (lost, Err(CrawlError::Scrape(ScrapeError::PageTooLarge)))
                } else {
                    match entry.state {
                        ModularGridState::ModuleListPage(page) => (
                            CrawlView {
                                frontier: self.frontier + listing_entries(
                                    page,
                                    selected(body, self.scraper.module_selector, HREF@),
                                    self.scraper.max_page,
                                ),
                                ..closed
                            },
                            Ok(None),
                        ),
                        ModularGridState::Module => (
                            closed,
                            match module_of(self.scraper.texts_of(body)) {
                                Ok(module) => Ok(Some(module)),
                                Err(e) => Err(CrawlError::Scrape(e)),
                            },
                        ),
                    }
                },
            }
        }
    }

    /// The crawl told to send nothing more.
    pub open spec fn halt(self) -> CrawlView {
        CrawlView { halted: true, ..self }
    }

    /// The crawl after `event`.
    pub open spec fn after(self, event: Event) -> CrawlView {
        match event {
            Event::Next { now } => self.next(now).0,
            Event::Answer { ticket, fetched } => self.answer(ticket, fetched).0,
            Event::Halt => self.halt(),
        }
    }

    /// The crawl after `events`, one after the other.
    pub open spec fn after_all(self, events: Seq<Event>) -> CrawlView
        decreases events.len(),
    {
        if events.len() == 0 {
            self
        } else {
            self.after_all(events.drop_last()).after(events.last())
        }
    }

    /// Whether `event` has the crawl hand out a request for a listing page.
    pub open spec fn fetches_list(self, event: Event) -> bool {
        event matches Event::Next { now } && self.next(now).1 is Fetch && self.frontier[0].is_list()
    }

    /// How many requests for listing pages the crawl hands out in the course
    /// of `events`.
    pub open spec fn list_fetches(self, events: Seq<Event>) -> nat
        decreases events.len(),
    {
        if events.len() == 0 {
            0
        } else {
            let earlier = events.drop_last();
            self.list_fetches(earlier) + if self.after_all(earlier).fetches_list(events.last()) {
                1nat
            } else {
                0nat
            }
        }
    }

    /// Whether `event` hands in a module page that was fetched and is read:
    /// an answer with a status of success, and a page that is not too long,
    /// to a ticket that is open for a module page.
    pub open spec fn brings_module_page(self, event: Event) -> bool {
        &&& event matches Event::Answer { ticket, fetched, .. }
        &&& ticket < self.tickets.len()
        &&& self.tickets[ticket as int] is Some
        &&& !self.tickets[ticket as int]->0.is_list()
        &&& fetched matches FetchedView::Response { status, body } && is_success(status)
            && !too_large(body)
    }

    /// Whether at `event` the crawl gives what a module page gives: a
    /// record, or the error that says why the page has none.
    pub open spec fn gives_module_output(self, event: Event) -> bool {
        event matches Event::Answer { ticket, fetched } && is_module_output(
            self.answer(ticket, fetched).1,
        )
    }

    /// How many fetched module pages are handed in in the course of
    /// `events`.
    pub open spec fn module_pages_brought(self, events: Seq<Event>) -> nat
        decreases events.len(),
    {
        if events.len() == 0 {
            0
        } else {
            let earlier = events.drop_last();
            self.module_pages_brought(earlier) + if self.after_all(earlier).brings_module_page(
                events.last(),
            ) {
                1nat
            } else {
                0nat
            }
        }
    }

    /// How many records and missing fields the crawl gives in the course of
    /// `events`.
    pub open spec fn module_outputs(self, events: Seq<Event>) -> nat
        decreases events.len(),
    {
        if events.len() == 0 {
            0
        } else {
            let earlier = events.drop_last();
            self.module_outputs(earlier) + if self.after_all(earlier).gives_module_output(
                events.last(),
            ) {
                1nat
            } else {
                0nat
            }
        }
    }

    /// Whether the listing is walked page by page: at any time one listing
    /// page at most waits or is open, it is the one behind the last that was
    /// requested, or that one itself, and no page beyond the last page is
    /// asked for. When none waits and none is open, all pages up to the last
    /// were requested, or one was lost.
    pub open spec fn in_sequence(self) -> bool {
        &&& self.list_requests <= self.scraper.max_page
        &&& forall|i: int| #[trigger]
            self.waiting_list(i) ==> self.frontier[i].page() == self.list_requests + 1
                && self.list_requests + 1 <= self.scraper.max_page
        &&& forall|t: int| #[trigger]
            self.open_list(t) ==> self.tickets[t]->0.page() == self.list_requests
        &&& forall|i: int, j: int| #[trigger]
            self.waiting_list(i) && #[trigger] self.waiting_list(j) ==> i == j
        &&& forall|t: int, u: int| #[trigger] self.open_list(t) && #[trigger] self.open_list(u) ==> t == u
        &&& forall|i: int, t: int| !(#[trigger] self.waiting_list(i) && #[trigger] self.open_list(t))
        &&& (forall|i: int| !#[trigger] self.waiting_list(i)) && (forall|t: int| !#[trigger]
            self.open_list(t)) ==> self.list_requests == self.scraper.max_page || self.listing_lost
    }
}

/// No more tickets are open than there are, and none is open exactly when
/// the count is 0.
pub proof fn lemma_open_count(tickets: Seq<Option<EntryView>>)
    ensures
        open_count(tickets) <= tickets.len(),
        open_count(tickets) == 0 <==> forall|t: int|
            0 <= t < tickets.len() ==> (#[trigger] tickets[t]) is None,
    decreases tickets.len(),
{
    if tickets.len() > 0 {
        let shorter = tickets.drop_last();
        lemma_open_count(shorter);
        if open_count(tickets) == 0 {
            assert forall|t: int| 0 <= t < tickets.len() implies (#[trigger] tickets[t]) is None by {
                if t < shorter.len() {
                    assert(shorter[t] is None);
                }
            }
        } else if tickets.last() is None {
            let t = choose|t: int| 0 <= t < shorter.len() && (#[trigger] shorter[t]) is Some;
            assert(tickets[t] is Some);
        }
    }
}

/// Closing an open ticket leaves one fewer open.
pub proof fn lemma_open_count_closed(tickets: Seq<Option<EntryView>>, ticket: int)
    requires
        0 <= ticket < tickets.len(),
        tickets[ticket] is Some,
    ensures
        open_count(tickets.update(ticket, None)) + 1 == open_count(tickets),
    decreases tickets.len(),
{
    let after = tickets.update(ticket, None);
    if ticket == tickets.len() - 1 {
        assert(after.drop_last() =~= tickets.drop_last());
    } else {
        lemma_open_count_closed(tickets.drop_last(), ticket);
        assert(after.drop_last() =~= tickets.drop_last().update(ticket, None));
    }
}

/// None of the requests that the links of a listing page give is for a
/// listing page.
pub proof fn lemma_module_entries_are_modules(hrefs: Seq<Option<Seq<char>>>)
    ensures
        forall|i: int|
            0 <= i < module_entries(hrefs).len() ==> !(#[trigger] module_entries(
                hrefs,
            )[i]).is_list(),
    decreases hrefs.len(),
{
    if hrefs.len() > 0 {
        lemma_module_entries_are_modules(hrefs.drop_last());
        let before = module_entries(hrefs.drop_last());
        assert forall|i: int| 0 <= i < module_entries(hrefs).len() implies !(
        #[trigger] module_entries(hrefs)[i]).is_list() by {
            if i < before.len() {
                assert(module_entries(hrefs)[i] == before[i]);
            }
        }
    }
}

/// A listing page asks for no listing page but the one behind it, and for
/// that one only if it is not beyond the last page.
pub proof fn lemma_listing_entries_capped(
    page: usize,
    hrefs: Seq<Option<Seq<char>>>,
    max_page: usize,
)
    ensures
        forall|i: int|
            0 <= i < listing_entries(page, hrefs, max_page).len() && (#[trigger] listing_entries(
                page,
                hrefs,
                max_page,
            )[i]).is_list() ==> {
                &&& listing_entries(page, hrefs, max_page)[i].page() == page + 1
                &&& page + 1 <= max_page
                &&& i == listing_entries(page, hrefs, max_page).len() - 1
            },
{
    lemma_module_entries_are_modules(hrefs);
    let modules = module_entries(hrefs);
    let found = listing_entries(page, hrefs, max_page);
    assert forall|i: int| 0 <= i < found.len() && (#[trigger] found[i]).is_list() implies found[i].page()
        == page + 1 && page + 1 <= max_page && i == found.len() - 1 by {
        if i < modules.len() {
            assert(found[i] == modules[i]);
        }
    }
}

/// A crawl in which nothing has happened yet, and whose last page is not
/// page 0, is in sequence once the first listing page is queued.
pub proof fn lemma_seed_starts_sequence(crawl: CrawlView, entry: EntryView)
    requires
        crawl.fresh(),
        crawl.scraper.max_page >= 1,
        entry.state == ModularGridState::ModuleListPage(1),
    ensures
        crawl.visit(entry).in_sequence(),
{
    let after = crawl.visit(entry);
    assert(after.waiting_list(0));
}

/// Where a request for a module page leaves the frontier and the open
/// listing tickets stay what they were: if no listing page waits or is open
/// afterwards, none waited or was open before.
proof fn lemma_module_request_left(crawl: CrawlView, after: CrawlView)
    requires
        crawl.frontier.len() > 0,
        !crawl.frontier[0].is_list(),
        after.frontier == crawl.frontier.drop_first(),
        forall|t: int| after.open_list(t) == crawl.open_list(t),
        forall|i: int| !after.waiting_list(i),
        forall|t: int| !after.open_list(t),
    ensures
        forall|i: int| !crawl.waiting_list(i),
        forall|t: int| !crawl.open_list(t),
{
    assert forall|i: int| !crawl.waiting_list(i) by {
        if crawl.waiting_list(i) {
            assert(after.waiting_list(i - 1));
        }
    }
    assert forall|t: int| !crawl.open_list(t) by {
        assert(after.open_list(t) == crawl.open_list(t));
    }
}

/// Asking for the next step keeps the listing in sequence.
pub proof fn lemma_next_keeps_sequence(crawl: CrawlView, now: u64)
    requires
        crawl.in_sequence(),
    ensures
        crawl.next(now).0.in_sequence(),
{
    let after = crawl.next(now).0;
    if !(crawl.halted || crawl.frontier.len() == 0) {
        let entry = crawl.frontier[0];
        assert forall|i: int| after.waiting_list(i) implies crawl.waiting_list(i + 1) by {}
        assert forall|i: int| crawl.waiting_list(i) && i > 0 implies after.waiting_list(i - 1) by {}
        if entry.is_list() {
            assert(crawl.waiting_list(0));
            assert forall|i: int| !after.waiting_list(i) by {
                if after.waiting_list(i) {
                    assert(crawl.waiting_list(i + 1));
                }
            }
            assert forall|t: int| !crawl.open_list(t) by {}
        }
        let fresh_ticket = crawl.tickets.len() as int;
        let sent = crawl.admission(entry, now) is Ok;
        assert forall|t: int| after.open_list(t) implies (crawl.open_list(t) || (sent && t
            == fresh_ticket && entry.is_list())) by {}
        assert forall|t: int| crawl.open_list(t) implies after.open_list(t) by {}
        if entry.is_list() {
            if sent {
                assert(after.open_list(fresh_ticket));
            }
        } else if (forall|i: int| !after.waiting_list(i)) && (forall|t: int| !after.open_list(t)) {
            lemma_module_request_left(crawl, after);
        }
    }
}

/// Taking in an answer keeps the listing in sequence, whatever the answer
/// and whatever the page holds.
pub proof fn lemma_answer_keeps_sequence(
    crawl: CrawlView,
    ticket: usize,
    fetched: FetchedView,
)
    requires
        crawl.in_sequence(),
    ensures
        crawl.answer(ticket, fetched).0.in_sequence(),
{
    let after = crawl.answer(ticket, fetched).0;
    if !(ticket >= crawl.tickets.len() || crawl.tickets[ticket as int] is None) {
        let entry = crawl.tickets[ticket as int]->0;
        assert forall|t: int| after.open_list(t) implies crawl.open_list(t) && t != ticket by {}
        assert forall|t: int| crawl.open_list(t) && t != ticket implies after.open_list(t) by {}
        if entry.is_list() {
            assert(crawl.open_list(ticket as int));
            assert forall|t: int| !after.open_list(t) by {
                if after.open_list(t) {
                    assert(crawl.open_list(t));
                }
            }
            assert forall|i: int| !crawl.waiting_list(i) by {}
            let page = entry.state->ModuleListPage_0;
            assert(page == crawl.list_requests);
            let scraped = match fetched {
                FetchedView::Response { status, body } => is_success(status) && !too_large(body),
                FetchedView::Failed(_) => false,
            };
            if scraped {
                let hrefs = selected(
                    fetched->Response_body,
                    crawl.scraper.module_selector,
                    HREF@,
                );
                let modules = module_entries(hrefs);
                let found = listing_entries(page, hrefs, crawl.scraper.max_page);
                lemma_module_entries_are_modules(hrefs);
                assert(after.frontier == crawl.frontier + found);
                let last = (crawl.frontier.len() + modules.len()) as int;
                assert forall|i: int| after.waiting_list(i) implies (i == last && page
                    < crawl.scraper.max_page) by {
                    if i < crawl.frontier.len() {
                        assert(after.frontier[i] == crawl.frontier[i]);
                        assert(crawl.waiting_list(i));
                    } else if i < last {
                        assert(after.frontier[i] == found[i - crawl.frontier.len()]);
                        assert(found[i - crawl.frontier.len()] == modules[i
                            - crawl.frontier.len()]);
                    }
                }
                if page < crawl.scraper.max_page {
                    assert(after.frontier[last] == found[modules.len() as int]);
                    assert(after.frontier[last] == listing_entry((page + 1) as usize));
                    assert(after.waiting_list(last));
                    assert(after.frontier[last].page() == crawl.list_requests + 1);
                }
            } else {
                assert(after.frontier == crawl.frontier);
                assert(after.listing_lost);
                assert forall|i: int| !after.waiting_list(i) by {
                    if after.waiting_list(i) {
                        assert(crawl.waiting_list(i));
                    }
                }
            }
        } else {
            assert(after.frontier == crawl.frontier);
            assert forall|t: int| after.open_list(t) == crawl.open_list(t) by {}
            assert forall|i: int| after.waiting_list(i) == crawl.waiting_list(i) by {}
        }
    }
}

/// Halting a crawl keeps its listing in sequence.
pub proof fn lemma_halt_keeps_sequence(crawl: CrawlView)
    requires
        crawl.in_sequence(),
    ensures
        crawl.halt().in_sequence(),
{
    let after = crawl.halt();
    assert forall|i: int| after.waiting_list(i) implies crawl.waiting_list(i) by {}
    assert forall|t: int| after.open_list(t) implies crawl.open_list(t) by {}
    if (forall|i: int| !after.waiting_list(i)) && (forall|t: int| !after.open_list(t)) {
        assert forall|i: int| !crawl.waiting_list(i) by {
            if crawl.waiting_list(i) {
                assert(after.waiting_list(i));
            }
        }
        assert forall|t: int| !crawl.open_list(t) by {
            if crawl.open_list(t) {
                assert(after.open_list(t));
            }
        }
    }
}

/// Whatever happens to a crawl, its listing stays in sequence, and the
/// number of its last page stays what it is.
pub proof fn lemma_events_keep_sequence(crawl: CrawlView, events: Seq<Event>)
    requires
        crawl.in_sequence(),
    ensures
        crawl.after_all(events).in_sequence(),
        crawl.after_all(events).scraper == crawl.scraper,
        crawl.after_all(events).list_requests == crawl.list_requests + crawl.list_fetches(events),
    decreases events.len(),
{
    if events.len() > 0 {
        let earlier = events.drop_last();
        lemma_events_keep_sequence(crawl, earlier);
        let before = crawl.after_all(earlier);
        match events.last() {
            Event::Next { now } => {
                lemma_next_keeps_sequence(before, now);
            },
            Event::Answer { ticket, fetched } => {
                lemma_answer_keeps_sequence(before, ticket, fetched);
            },
            Event::Halt => {
                lemma_halt_keeps_sequence(before);
            },
        }
    }
}

/// While the listing is in sequence, no request for a listing page beyond
/// the last page waits or is open.
pub proof fn lemma_no_page_beyond_last(crawl: CrawlView)
    requires
        crawl.in_sequence(),
    ensures
        forall|i: int| #[trigger]
            crawl.waiting_list(i) ==> crawl.frontier[i].page() <= crawl.scraper.max_page,
        forall|t: int| #[trigger] crawl.open_list(t) ==> crawl.tickets[t]->0.page() <= crawl.scraper.max_page,
{
}

/// When a crawl that kept its listing in sequence and lost no listing page
/// has nothing waiting and no ticket open, it has requested exactly as many
/// listing pages as the number of the last page.
pub proof fn lemma_all_listing_pages_requested(crawl: CrawlView)
    requires
        crawl.in_sequence(),
        crawl.frontier.len() == 0,
        crawl.idle(),
        !crawl.listing_lost,
    ensures
        crawl.list_requests == crawl.scraper.max_page,
{
    assert forall|i: int| !crawl.waiting_list(i) by {}
    assert forall|t: int| !crawl.open_list(t) by {}
}

/// A crawl that starts with the first listing page, and whose last page is
/// not page 0, hands out requests for listing pages up to the last page and
/// for none beyond, whatever the pages hold and in whatever order the
/// answers come. Once nothing waits and no ticket is open, it has handed
/// out exactly as many requests for listing pages as the number of the last
/// page, unless a listing page was lost on the way: refused, or not fetched.
pub proof fn lemma_listing_is_walked(crawl: CrawlView, seed: EntryView, events: Seq<Event>)
    requires
        crawl.fresh(),
        crawl.scraper.max_page >= 1,
        seed.state == ModularGridState::ModuleListPage(1),
    ensures
        ({
            let start = crawl.visit(seed);
            let end = start.after_all(events);
            &&& start.list_fetches(events) <= crawl.scraper.max_page
            &&& forall|i: int| #[trigger]
                end.waiting_list(i) ==> end.frontier[i].page() <= crawl.scraper.max_page
            &&& forall|t: int| #[trigger]
                end.open_list(t) ==> end.tickets[t]->0.page() <= crawl.scraper.max_page
            &&& end.frontier.len() == 0 && end.idle() && !end.listing_lost
                ==> start.list_fetches(events) == crawl.scraper.max_page
        }),
{
    let start = crawl.visit(seed);
    let end = start.after_all(events);
    lemma_seed_starts_sequence(crawl, seed);
    lemma_events_keep_sequence(start, events);
    lemma_no_page_beyond_last(end);
    if end.frontier.len() == 0 && end.idle() && !end.listing_lost {
        lemma_all_listing_pages_requested(end);
    }
}

/// Whether an answer gave what a module page gives: its record, or the
/// error that says why it has none.
pub open spec fn is_module_output(output: Result<Option<ModuleView>, CrawlError>) -> bool {
    output matches Ok(Some(_)) || output matches Err(
        CrawlError::Scrape(ScrapeError::MissingField(_)),
    )
}

/// A module page that was fetched and is read gives exactly one thing, its record or
/// the error that says why it has none, and queues nothing. Its ticket is
/// closed by that, so a second answer to it gives no second record.
pub proof fn lemma_one_record_per_module_page(
    crawl: CrawlView,
    ticket: usize,
    status: u16,
    body: Seq<char>,
)
    requires
        ticket < crawl.tickets.len(),
        crawl.tickets[ticket as int] is Some,
        !crawl.tickets[ticket as int]->0.is_list(),
        is_success(status),
        !too_large(body),
    ensures
        ({
            let (after, output) = crawl.answer(ticket, FetchedView::Response { status, body });
            let texts = crawl.scraper.texts_of(body);
            &&& after.frontier == crawl.frontier
            &&& output != Ok::<Option<ModuleView>, CrawlError>(None)
            &&& output is Ok <==> module_of(texts) is Ok
            &&& output is Ok ==> output->Ok_0 == Some(module_of(texts)->Ok_0)
            &&& forall|again: FetchedView| #[trigger]
                after.answer(ticket, again) == (
                    after,
                    Err::<Option<ModuleView>, CrawlError>(CrawlError::UnknownTicket),
                )
        }),
{
}

/// Nothing but a fetched module page gives a record or a missing field: an
/// answer does so exactly when its ticket is open for a module page and it
/// brings a response with a status of success and a page that is not too
/// long.
pub proof fn lemma_records_come_from_module_pages(
    crawl: CrawlView,
    ticket: usize,
    fetched: FetchedView,
)
    ensures
        is_module_output(crawl.answer(ticket, fetched).1) <==> {
            &&& ticket < crawl.tickets.len()
            &&& crawl.tickets[ticket as int] is Some
            &&& !crawl.tickets[ticket as int]->0.is_list()
            &&& fetched matches FetchedView::Response { status, body } && is_success(status)
                && !too_large(body)
        },
{
}

/// Whatever happens to a crawl, it gives one record, or one error that
/// names the field that is missing, for each fetched module page that is
/// handed in, and none besides. A page that is linked twice is fetched
/// twice, and so gives two.
pub proof fn lemma_one_output_per_module_page(crawl: CrawlView, events: Seq<Event>)
    ensures
        crawl.module_outputs(events) == crawl.module_pages_brought(events),
    decreases events.len(),
{
    if events.len() > 0 {
        let earlier = events.drop_last();
        lemma_one_output_per_module_page(crawl, earlier);
        let before = crawl.after_all(earlier);
        match events.last() {
            Event::Answer { ticket, fetched } => {
                lemma_records_come_from_module_pages(before, ticket, fetched);
            },
            _ => {},
        }
    }
}

/// A request to a host that is not allowed is refused when its turn comes:
/// no ticket is given out for it, and the limiter is not touched.
pub proof fn lemma_unconfigured_domain_refused(crawl: CrawlView, now: u64)
    requires
        !crawl.halted,
        crawl.frontier.len() > 0,
        host_of(crawl.frontier[0].url) matches Some(host) ==> !crawl.limiter.dom().contains(host),
    ensures
        crawl.next(now).1 is Refused,
        crawl.next(now).1->entry == crawl.frontier[0],
        crawl.next(now).0.tickets == crawl.tickets,
        crawl.next(now).0.limiter == crawl.limiter,
        crawl.next(now).0.list_requests == crawl.list_requests,
        crawl.next(now).0.module_requests == crawl.module_requests,
{
}

} // verus!
