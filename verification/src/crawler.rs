//! The crawler that runs: the frontier, the limiter and the scraper behind
//! the two calls of [`Crawler::next`] and [`Crawler::answer`], which do what
//! [`CrawlView::next`] and [`CrawlView::answer`] say.

use vstd::prelude::*;
use vstd::string::StringExecFns;
use crate::crawl::{
    lemma_all_listing_pages_requested,
    lemma_answer_keeps_sequence,
    lemma_halt_keeps_sequence,
    lemma_next_keeps_sequence,
    lemma_open_count,
    lemma_open_count_closed,
    lemma_seed_starts_sequence,
    open_count,
    CrawlError,
    CrawlView,
    FetchFailure,
    FetchedView,
    RejectReason,
    StepView,
};
use crate::frontier::Frontier;
use crate::limiter::{RateLimiter, Refusal};
use crate::model::{EntryView, FrontierEntry, ModularGridState, Module, ModuleView};
use crate::scraper::{ModularGridScraper, ScrapeError};
use crate::url::host;

verus! {

/// What a fetch brought.
#[derive(Debug, Clone, PartialEq, Eq)]
pub enum Fetched {
    /// A response, with its status and its body as text.
    Response { status: u16, body: String },
    /// No response.
    Failed(FetchFailure),
}

impl View for Fetched {
    type V = FetchedView;

    open spec fn view(&self) -> FetchedView {
        match *self {
            Fetched::Response { status, body } => FetchedView::Response { status, body: body@ },
            Fetched::Failed(failure) => FetchedView::Failed(failure),
        }
    }
}

/// What to do next.
#[derive(Debug, Clone, PartialEq, Eq)]
pub enum Step {
    /// Send a GET request to `url`, not before the time `start`, and hand
    /// what it brings to [`Crawler::answer`] under `ticket`.
    Fetch { ticket: usize, url: String, start: u64 },
    /// This request was dropped without being sent.
    Refused { entry: FrontierEntry, reason: RejectReason },
    /// Nothing can be sent before an open request is answered.
    Wait,
    /// The crawl is over.
    Finished,
}

impl View for Step {
    type V = StepView;

    open spec fn view(&self) -> StepView {
        match *self {
            Step::Fetch { ticket, url, start } => StepView::Fetch {
                ticket: ticket as int,
                url: url@,
                start: start as int,
            },
            Step::Refused { entry, reason } => StepView::Refused { entry: entry@, reason },
            Step::Wait => StepView::Wait,
            Step::Finished => StepView::Finished,
        }
    }
}

/// What an answer gave, as a value of mathematics.
pub open spec fn output_view(output: Result<Option<Module>, CrawlError>) -> Result<
    Option<ModuleView>,
    CrawlError,
> {
    match output {
        Ok(Some(module)) => Ok(Some(module@)),
        Ok(None) => Ok(None),
        Err(e) => Err(e),
    }
}

/// A crawl under way.
pub struct Crawler {
    scraper: ModularGridScraper,
    limiter: RateLimiter,
    frontier: Frontier,
    tickets: Vec<Option<FrontierEntry>>,
    in_flight: usize,
    list_requests: usize,
    module_requests: usize,
    listing_lost: bool,
    halted: bool,
}

/// The tickets as values of mathematics.
spec fn ticket_views(tickets: Seq<Option<FrontierEntry>>) -> Seq<Option<EntryView>> {
    tickets.map_values(
        |t: Option<FrontierEntry>|
            match t {
                Some(e) => Some(e@),
                None => None,
            },
    )
}

impl View for Crawler {
    type V = CrawlView;

    closed spec fn view(&self) -> CrawlView {
        CrawlView {
            frontier: self.frontier@,
            tickets: ticket_views(self.tickets@),
            limiter: self.limiter@,
            scraper: self.scraper@,
            list_requests: self.list_requests as nat,
            module_requests: self.module_requests as nat,
            listing_lost: self.listing_lost,
            halted: self.halted,
        }
    }
}

impl Crawler {
    /// Whether the crawler's counts are those of its tickets.
    pub closed spec fn wf(&self) -> bool {
        &&& self.in_flight == open_count(ticket_views(self.tickets@))
        &&& self.list_requests + self.module_requests == self.tickets@.len()
    }

    /// A crawler in which nothing has happened yet.
    pub fn new(scraper: ModularGridScraper, limiter: RateLimiter) -> (crawler: Crawler)
        ensures
            crawler.wf(),
            crawler@ == (CrawlView {
                frontier: Seq::empty(),
                tickets: Seq::empty(),
                limiter: limiter@,
                scraper: scraper@,
                list_requests: 0,
                module_requests: 0,
                listing_lost: false,
                halted: false,
            }),
            crawler@.fresh(),
    {
        let crawler = Crawler {
            scraper,
            limiter,
            frontier: Frontier::new(),
            tickets: Vec::new(),
            in_flight: 0,
            list_requests: 0,
            module_requests: 0,
            listing_lost: false,
            halted: false,
        };
        assert(crawler@.tickets =~= Seq::empty());
        crawler
    }

    /// Queues a request for `url` that carries `state`.
    pub fn visit_with_state(&mut self, url: &str, state: ModularGridState)
        requires
            old(self).wf(),
        ensures
            final(self).wf(),
            final(self)@ == old(self)@.visit(EntryView { url: url@, state }),
            old(self)@.fresh() && old(self)@.scraper.max_page >= 1 && state
                == ModularGridState::ModuleListPage(1) ==> final(self)@.in_sequence(),
    {
        proof {
            if self@.fresh() && self@.scraper.max_page >= 1 && state
                == ModularGridState::ModuleListPage(1) {
                lemma_seed_starts_sequence(self@, EntryView { url: url@, state });
            }
        }
        self.frontier.push(FrontierEntry { url: String::from_str(url), state });
    }

    /// Tells the crawler to send nothing more. Requests that are open can
    /// still be answered.
    pub fn halt(&mut self)
        requires
            old(self).wf(),
        ensures
            final(self).wf(),
            final(self)@ == old(self)@.halt(),
            old(self)@.in_sequence() ==> final(self)@.in_sequence(),
    {
        proof {
            if self@.in_sequence() {
                lemma_halt_keeps_sequence(self@);
            }
        }
        self.halted = true;
    }

    /// How many requests wait.
    pub fn pending(&self) -> (n: usize)
        ensures
            n == self@.frontier.len(),
    {
        self.frontier.len()
    }

    /// How many requests are open.
    pub fn in_flight(&self) -> (n: usize)
        requires
            self.wf(),
        ensures
            n == self@.in_flight(),
            n == 0 <==> self@.idle(),
    {
        proof {
            lemma_open_count(self@.tickets);
        }
        self.in_flight
    }

    /// How many listing pages were requested.
    pub fn list_requests(&self) -> (n: usize)
        ensures
            n == self@.list_requests,
    {
        self.list_requests
    }

    /// How many module pages were requested.
    pub fn module_requests(&self) -> (n: usize)
        ensures
            n == self@.module_requests,
    {
        self.module_requests
    }

    /// Whether a listing page was refused or not fetched.
    pub fn listing_lost(&self) -> (b: bool)
        ensures
            b == self@.listing_lost,
    {
        self.listing_lost
    }

    /// Notes that a request that carried `state` came to nothing.
    fn note_lost(&mut self, state: ModularGridState)
        requires
            old(self).wf(),
        ensures
            final(self).wf(),
            final(self)@ == (CrawlView {
                listing_lost: old(self)@.listing_lost || state is ModuleListPage,
                ..old(self)@
            }),
    {
        match state {
            ModularGridState::ModuleListPage(_) => {
                self.listing_lost = true;
            },
            ModularGridState::Module => {},
        }
    }

    /// Drops `entry`, which may not be sent.
    fn refuse(&mut self, entry: FrontierEntry, reason: RejectReason) -> (step: Step)
        requires
            old(self).wf(),
        ensures
            final(self).wf(),
            final(self)@ == (CrawlView {
                listing_lost: old(self)@.listing_lost || entry@.is_list(),
                ..old(self)@
            }),
            step@ == (StepView::Refused { entry: entry@, reason }),
    {
        self.note_lost(entry.state);
        Step::Refused { entry, reason }
    }

    /// The next step at time `now`, in milliseconds on the caller's clock.
    pub fn next(&mut self, now: u64) -> (step: Step)
        requires
            old(self).wf(),
        ensures
            final(self).wf(),
            (final(self)@, step@) == old(self)@.next(now),
            old(self)@.in_sequence() ==> final(self)@.in_sequence(),
            old(self)@.in_sequence() && step is Finished && !final(self)@.halted
                && !final(self)@.listing_lost
                ==> final(self)@.list_requests == final(self)@.scraper.max_page,
    {
        proof {
            if self@.in_sequence() {
                lemma_next_keeps_sequence(self@, now);
                let (after, step) = self@.next(now);
                if step is Finished && !after.halted && !after.listing_lost {
                    lemma_all_listing_pages_requested(after);
                }
            }
        }
        let waiting = if self.halted {
            None
        } else {
            self.frontier.pop()
        };
        let entry = match waiting {
            Some(entry) => entry,
            None => return if self.in_flight() == 0 {
                Step::Finished
            } else {
                Step::Wait
            },
        };
        let host = match host(entry.url.as_str()) {
            Some(host) => host,
            None => return self.refuse(entry, RejectReason::NoHost),
        };
        let start = match self.limiter.acquire(host.as_str(), now) {
            Ok(start) => start,
            Err(Refusal::NotAllowed) => return self.refuse(entry, RejectReason::NotAllowed),
            Err(Refusal::ClockOverflow) => return self.refuse(entry, RejectReason::ClockOverflow),
        };
        let ticket = self.tickets.len();
        let url = entry.url.clone();
        let state = entry.state;
        let ghost before = self.tickets@;
        self.tickets.push(Some(entry));
        proof {
            lemma_open_count(ticket_views(before));
            assert(ticket_views(self.tickets@) =~= ticket_views(before).push(Some(entry@)));
            assert(ticket_views(self.tickets@).drop_last() =~= ticket_views(before));
        }
        assert(self.tickets.len() == ticket + 1);
        self.in_flight = self.in_flight + 1;
        match state {
            ModularGridState::ModuleListPage(_) => {
                self.list_requests = self.list_requests + 1;
            },
            ModularGridState::Module => {
                self.module_requests = self.module_requests + 1;
            },
        }
        Step::Fetch { ticket, url, start }
    }

    /// Takes in what the request under `ticket` brought, and gives the
    /// record of the page, if it is a module page with a record.
    pub fn answer(&mut self, ticket: usize, fetched: Fetched) -> (output: Result<
        Option<Module>,
        CrawlError,
    >)
        requires
            old(self).wf(),
        ensures
            final(self).wf(),
            (final(self)@, output_view(output)) == old(self)@.answer(ticket, fetched@),
            old(self)@.in_sequence() ==> final(self)@.in_sequence(),
    {
        proof {
            if self@.in_sequence() {
                lemma_answer_keeps_sequence(self@, ticket, fetched@);
            }
        }
        if ticket >= self.tickets.len() {
            return Err(CrawlError::UnknownTicket);
        }
        let state = match &self.tickets[ticket] {
            Some(entry) => entry.state,
            None => return Err(CrawlError::UnknownTicket),
        };
        let ghost before = self.tickets@;
        self.tickets.set(ticket, None);
        proof {
            lemma_open_count_closed(ticket_views(before), ticket as int);
            assert(ticket_views(self.tickets@) =~= ticket_views(before).update(ticket as int, None));
        }
        self.in_flight = self.in_flight - 1;
        let brought = match fetched {
            Fetched::Response { status, body } => if 200 <= status && status <= 299 {
                Ok(body)
            } else {
                Err(CrawlError::Status(status))
            },
            Fetched::Failed(failure) => Err(CrawlError::Fetch(failure)),
        };
        let body = match brought {
            Ok(body) => body,
            Err(e) => {
                self.note_lost(state);
                return Err(e);
            },
        };
        match self.scraper.scrape(state, body.as_str(), &mut self.frontier) {
            Ok(output) => Ok(output),
            Err(ScrapeError::PageTooLarge) => {
                self.note_lost(state);
                Err(CrawlError::Scrape(ScrapeError::PageTooLarge))
            },
            Err(e) => Err(CrawlError::Scrape(e)),
        }
    }
}

} // verus!
