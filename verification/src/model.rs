//! What travels through the crawl: the state a request carries, the queued
//! request itself and the record a module page yields.

use vstd::prelude::*;

verus! {

/// What the answer to a request will be, and so what to do with it.
#[derive(Debug, Clone, Copy, PartialEq, Eq, Structural)]
pub enum ModularGridState {
    /// A page of the paginated module listing, with its number.
    ModuleListPage(usize),
    /// The page of one module.
    Module,
}

/// A request that waits to be sent.
#[derive(Debug, Clone, PartialEq, Eq)]
pub struct FrontierEntry {
    pub url: String,
    pub state: ModularGridState,
}

/// A [`FrontierEntry`] as a value of mathematics.
pub ghost struct EntryView {
    pub url: Seq<char>,
    pub state: ModularGridState,
}

impl View for FrontierEntry {
    type V = EntryView;

    open spec fn view(&self) -> EntryView {
        EntryView { url: self.url@, state: self.state }
    }
}

impl EntryView {
    /// Whether the entry asks for a listing page.
    pub open spec fn is_list(self) -> bool {
        self.state is ModuleListPage
    }

    /// The number of the listing page asked for.
    pub open spec fn page(self) -> nat
        recommends
            self.is_list(),
    {
        self.state->ModuleListPage_0 as nat
    }
}

/// The current a module draws from each rail, in mA, as far as it is known.
#[derive(Debug, Clone, Copy, PartialEq, Eq)]
pub struct CurrentDraw {
    pub positive_12: Option<u8>,
    pub negative_12: Option<u8>,
    pub positive_5: Option<u8>,
}

/// What the scraper produces for one module page. A number that the page
/// does not give, or gives in a form that is no `u8`, is `None`.
#[derive(Debug, Clone, PartialEq, Eq)]
pub struct Module {
    pub name: String,
    pub manufacturer: String,
    pub width: Option<u8>,
    pub depth: Option<u8>,
    pub current: CurrentDraw,
}

/// A [`Module`] as a value of mathematics.
pub ghost struct ModuleView {
    pub name: Seq<char>,
    pub manufacturer: Seq<char>,
    pub width: Option<u8>,
    pub depth: Option<u8>,
    pub current: CurrentDraw,
}

impl View for Module {
    type V = ModuleView;

    open spec fn view(&self) -> ModuleView {
        ModuleView {
            name: self.name@,
            manufacturer: self.manufacturer@,
            width: self.width,
            depth: self.depth,
            current: self.current,
        }
    }
}

} // verus!
