//! The extractor: what to do with a fetched page, by the state its request
//! carried. A listing page gives requests for the modules it links to and for
//! the next listing page; a module page gives one record.

use vstd::pervasive::unreached;
use vstd::prelude::*;
use vstd::string::StringExecFns;
use vstd::utf8::encode_utf8;
use crate::frontier::Frontier;
use crate::markup::{
    first_inner_html,
    is_selector,
    select_attribute,
    select_first_html,
    selected,
    text_view,
    text_views,
    MAX_PAGE_BYTES,
};
use crate::url::{has_scheme, names_scheme};
use crate::model::{CurrentDraw, EntryView, FrontierEntry, ModularGridState, Module, ModuleView};
use crate::text::{
    append_decimal,
    chars_of,
    decimal,
    leading_u8,
    read_leading_u8,
};

verus! {

/// The scheme of the catalogue's addresses, with its colon.
pub const SCHEME: &'static str = "https:";

/// Scheme and host that a listing's links are relative to.
pub const ORIGIN: &'static str = "https://www.modulargrid.net";

/// The address of a listing page, up to its page number.
pub const LISTING: &'static str =
    "https://www.modulargrid.net/e/modules/index/sort:Module.name/direction:asc/page:";

/// The attribute of a link that holds where it leads.
pub const HREF: &'static str = "href";

/// The address that a listing links to by `href`: `href` resolved against
/// the origin.
///
/// A reference that names its scheme is an address and stays as it is. One
/// that starts with `//` names its host and gets the scheme. One that starts
/// with `/` gets the origin; so does an empty one, and one that holds only a
/// query or a fragment. Any other reference is a path from the root, and
/// gets the origin and a `/`. Segments `.` and `..` are left as they are.
pub open spec fn module_url(href: Seq<char>) -> Seq<char> {
    if has_scheme(href) {
        href
    } else if href.len() >= 2 && href[0] == '/' && href[1] == '/' {
        SCHEME@ + href
    } else if href.len() == 0 || href[0] == '/' || href[0] == '?' || href[0] == '#' {
        ORIGIN@ + href
    } else {
        ORIGIN@ + seq!['/'] + href
    }
}

/// The address of listing page `page`.
pub open spec fn listing_url(page: nat) -> Seq<char> {
    LISTING@ + decimal(page)
}

/// The request for the module page behind `href`.
pub open spec fn module_entry(href: Seq<char>) -> EntryView {
    EntryView { url: module_url(href), state: ModularGridState::Module }
}

/// The request for listing page `page`.
pub open spec fn listing_entry(page: usize) -> EntryView {
    EntryView { url: listing_url(page as nat), state: ModularGridState::ModuleListPage(page) }
}

/// The requests that the links of a listing page give: one for each link
/// that has an `href`, in the order of the links.
pub open spec fn module_entries(hrefs: Seq<Option<Seq<char>>>) -> Seq<EntryView>
    decreases hrefs.len(),
{
    if hrefs.len() == 0 {
        Seq::empty()
    } else {
        let before = module_entries(hrefs.drop_last());
        match hrefs.last() {
            Some(href) => before.push(module_entry(href)),
            None => before,
        }
    }
}

/// All that listing page `page` gives: the requests for its modules, and
/// behind them the request for the next listing page, unless `page` has
/// reached `max_page`.
pub open spec fn listing_entries(
    page: usize,
    hrefs: Seq<Option<Seq<char>>>,
    max_page: usize,
) -> Seq<EntryView> {
    if page < max_page {
        module_entries(hrefs).push(listing_entry((page + 1) as usize))
    } else {
        module_entries(hrefs)
    }
}

/// The `href` values as values of mathematics.
pub open spec fn href_views(hrefs: Seq<Option<String>>) -> Seq<Option<Seq<char>>> {
    text_views(hrefs)
}

/// The parts of a page that the scraper looks for.
#[derive(Debug, Clone, Copy, PartialEq, Eq, Structural)]
pub enum Field {
    ModuleLink,
    ModuleName,
    ModuleManufacturer,
    Width,
    Depth,
    Positive12,
    Negative12,
    Positive5,
}

/// Why no scraper could be made.
#[derive(Debug, Clone, Copy, PartialEq, Eq, Structural)]
pub enum ScraperError {
    /// The text given for this field is no CSS selector.
    InvalidSelector(Field),
}

/// Why a page was not read, or gave no record.
#[derive(Debug, Clone, Copy, PartialEq, Eq, Structural)]
pub enum ScrapeError {
    /// The page is longer than [`MAX_PAGE_BYTES`] bytes, and was not read.
    PageTooLarge,
    /// The module page has no element for this field, and a record cannot
    /// be without it.
    MissingField(Field),
}

/// Whether the page `body` is too long to be read: whether it takes more
/// than [`MAX_PAGE_BYTES`] bytes in UTF-8.
pub open spec fn too_large(body: Seq<char>) -> bool {
    encode_utf8(body).len() > MAX_PAGE_BYTES
}

/// The selectors as texts, and the number of the last listing page to visit.
#[derive(Debug, Clone, PartialEq, Eq)]
pub struct ScraperConfig {
    pub module_selector: String,
    pub module_name_selector: String,
    pub module_manufacturer_selector: String,
    pub width_selector: String,
    pub depth_selector: String,
    pub positive_12_selector: String,
    pub negative_12_selector: String,
    pub positive_5_selector: String,
    pub max_page: usize,
}

impl Default for ScraperConfig {
    /// The selectors of the catalogue's pages, and two listing pages.
    fn default() -> (config: ScraperConfig)
        ensures
            config.module_selector@ == ".modules table tbody tr td:first-of-type a"@,
            config.module_name_selector@ == ".module-view-header h1"@,
            config.module_manufacturer_selector@ == ".module-view-header .sub-header h2 a span"@,
            config.width_selector@ == ".box-specs div:first-of-type dl dd:first-of-type"@,
            config.depth_selector@ == ".box-specs div:first-of-type dl dd:nth-of-type(2)"@,
            config.positive_12_selector@ == ".box-specs div:nth-of-type(2) dl dd:first-of-type"@,
            config.negative_12_selector@ == ".box-specs div:nth-of-type(2) dl dd:nth-of-type(2)"@,
            config.positive_5_selector@ == ".box-specs div:nth-of-type(2) dl dd:nth-of-type(3)"@,
            config.max_page == 2,
    {
        ScraperConfig {
            module_selector: String::from_str(".modules table tbody tr td:first-of-type a"),
            module_name_selector: String::from_str(".module-view-header h1"),
            module_manufacturer_selector: String::from_str(
                ".module-view-header .sub-header h2 a span",
            ),
            width_selector: String::from_str(".box-specs div:first-of-type dl dd:first-of-type"),
            depth_selector: String::from_str(".box-specs div:first-of-type dl dd:nth-of-type(2)"),
            positive_12_selector: String::from_str(
                ".box-specs div:nth-of-type(2) dl dd:first-of-type",
            ),
            negative_12_selector: String::from_str(
                ".box-specs div:nth-of-type(2) dl dd:nth-of-type(2)",
            ),
            positive_5_selector: String::from_str(
                ".box-specs div:nth-of-type(2) dl dd:nth-of-type(3)",
            ),
            max_page: 2,
        }
    }
}

/// A [`ScraperConfig`] as a value of mathematics.
pub ghost struct ScraperView {
    pub module_selector: Seq<char>,
    pub module_name_selector: Seq<char>,
    pub module_manufacturer_selector: Seq<char>,
    pub width_selector: Seq<char>,
    pub depth_selector: Seq<char>,
    pub positive_12_selector: Seq<char>,
    pub negative_12_selector: Seq<char>,
    pub positive_5_selector: Seq<char>,
    pub max_page: usize,
}

impl View for ScraperConfig {
    type V = ScraperView;

    open spec fn view(&self) -> ScraperView {
        ScraperView {
            module_selector: self.module_selector@,
            module_name_selector: self.module_name_selector@,
            module_manufacturer_selector: self.module_manufacturer_selector@,
            width_selector: self.width_selector@,
            depth_selector: self.depth_selector@,
            positive_12_selector: self.positive_12_selector@,
            negative_12_selector: self.negative_12_selector@,
            positive_5_selector: self.positive_5_selector@,
            max_page: self.max_page,
        }
    }
}

impl ScraperView {
    /// The first selector text, in the order of [`Field`], that is no
    /// selector.
    pub open spec fn first_invalid(self) -> Option<Field> {
        if !is_selector(self.module_selector) {
            Some(Field::ModuleLink)
        } else if !is_selector(self.module_name_selector) {
            Some(Field::ModuleName)
        } else if !is_selector(self.module_manufacturer_selector) {
            Some(Field::ModuleManufacturer)
        } else if !is_selector(self.width_selector) {
            Some(Field::Width)
        } else if !is_selector(self.depth_selector) {
            Some(Field::Depth)
        } else if !is_selector(self.positive_12_selector) {
            Some(Field::Positive12)
        } else if !is_selector(self.negative_12_selector) {
            Some(Field::Negative12)
        } else if !is_selector(self.positive_5_selector) {
            Some(Field::Positive5)
        } else {
            None
        }
    }

    /// The texts that the selectors find on the module page `body`: for each
    /// field the inner HTML of the first element that its selector matches.
    pub open spec fn texts_of(self, body: Seq<char>) -> ModuleTextsView {
        ModuleTextsView {
            name: first_inner_html(body, self.module_name_selector),
            manufacturer: first_inner_html(body, self.module_manufacturer_selector),
            width: first_inner_html(body, self.width_selector),
            depth: first_inner_html(body, self.depth_selector),
            positive_12: first_inner_html(body, self.positive_12_selector),
            negative_12: first_inner_html(body, self.negative_12_selector),
            positive_5: first_inner_html(body, self.positive_5_selector),
        }
    }
}

/// The texts found on a module page, one for each field; `None` where the
/// page has no element for the field.
#[derive(Debug, Clone, PartialEq, Eq)]
pub struct ModuleTexts {
    pub name: Option<String>,
    pub manufacturer: Option<String>,
    pub width: Option<String>,
    pub depth: Option<String>,
    pub positive_12: Option<String>,
    pub negative_12: Option<String>,
    pub positive_5: Option<String>,
}

/// [`ModuleTexts`] as a value of mathematics.
pub ghost struct ModuleTextsView {
    pub name: Option<Seq<char>>,
    pub manufacturer: Option<Seq<char>>,
    pub width: Option<Seq<char>>,
    pub depth: Option<Seq<char>>,
    pub positive_12: Option<Seq<char>>,
    pub negative_12: Option<Seq<char>>,
    pub positive_5: Option<Seq<char>>,
}

impl View for ModuleTexts {
    type V = ModuleTextsView;

    open spec fn view(&self) -> ModuleTextsView {
        ModuleTextsView {
            name: text_view(self.name),
            manufacturer: text_view(self.manufacturer),
            width: text_view(self.width),
            depth: text_view(self.depth),
            positive_12: text_view(self.positive_12),
            negative_12: text_view(self.negative_12),
            positive_5: text_view(self.positive_5),
        }
    }
}

/// The number in an optional cell: unknown where the cell is missing, and
/// where its text starts with no `u8`.
pub open spec fn cell_number(text: Option<Seq<char>>) -> Option<u8> {
    match text {
        Some(t) => leading_u8(t),
        None => None,
    }
}

/// The record that a module page with these texts gives. Name and
/// manufacturer must be there, the name being looked for first; every other
/// field may be unknown.
pub open spec fn module_of(texts: ModuleTextsView) -> Result<ModuleView, ScrapeError> {
    if texts.name is None {
        Err(ScrapeError::MissingField(Field::ModuleName))
    } else if texts.manufacturer is None {
        Err(ScrapeError::MissingField(Field::ModuleManufacturer))
    } else {
        Ok(
            ModuleView {
                name: texts.name->0,
                manufacturer: texts.manufacturer->0,
                width: cell_number(texts.width),
                depth: cell_number(texts.depth),
                current: CurrentDraw {
                    positive_12: cell_number(texts.positive_12),
                    negative_12: cell_number(texts.negative_12),
                    positive_5: cell_number(texts.positive_5),
                },
            },
        )
    }
}

/// The result of [`module_of`] as it stands in a `Result<Module, _>`.
pub open spec fn module_result_view(r: Result<Module, ScrapeError>) -> Result<
    ModuleView,
    ScrapeError,
> {
    match r {
        Ok(m) => Ok(m@),
        Err(e) => Err(e),
    }
}

/// What scraping a module page with these texts gives.
pub open spec fn module_output(texts: ModuleTextsView) -> Result<Option<ModuleView>, ScrapeError> {
    match module_of(texts) {
        Ok(module) => Ok(Some(module)),
        Err(e) => Err(e),
    }
}

/// What scraping gave, as a value of mathematics.
pub open spec fn scrape_view(r: Result<Option<Module>, ScrapeError>) -> Result<
    Option<ModuleView>,
    ScrapeError,
> {
    match r {
        Ok(Some(module)) => Ok(Some(module@)),
        Ok(None) => Ok(None),
        Err(e) => Err(e),
    }
}

/// The scraper: selectors that are known to be selectors, and the number of
/// the last listing page to visit.
pub struct ModularGridScraper {
    config: ScraperConfig,
}

impl View for ModularGridScraper {
    type V = ScraperView;

    closed spec fn view(&self) -> ScraperView {
        self.config@
    }
}

/// The address that a listing links to by `href`.
pub fn module_address(href: &str) -> (url: String)
    ensures
        url@ == module_url(href@),
{
    let chars = chars_of(href);
    proof {
        reveal_strlit("/");
    }
    if names_scheme(&chars) {
        String::from_str(href)
    } else if chars.len() >= 2 && chars[0] == '/' && chars[1] == '/' {
        let mut url = String::from_str(SCHEME);
        url.append(href);
        url
    } else if chars.len() == 0 || chars[0] == '/' || chars[0] == '?' || chars[0] == '#' {
        let mut url = String::from_str(ORIGIN);
        url.append(href);
        url
    } else {
        let mut url = String::from_str(ORIGIN);
        url.append("/");
        url.append(href);
        assert("/"@ =~= seq!['/']);
        url
    }
}

/// Whether `text` writes a CSS selector group.
pub fn is_selector_text(text: &str) -> (b: bool)
    ensures
        b == is_selector(text@),
{
    proof {
        reveal_strlit("");
        assert(encode_utf8(""@) =~= Seq::<u8>::empty());
    }
    select_first_html("", text).is_some()
}

impl ModularGridScraper {
    #[verifier::type_invariant]
    spec fn selectors_are_selectors(self) -> bool {
        self.config@.first_invalid() is None
    }

    /// The number of the last listing page to visit.
    pub fn max_page(&self) -> (n: usize)
        ensures
            n == self@.max_page,
    {
        self.config.max_page
    }

    /// The selectors as texts, all of which are selectors, and the number
    /// of the last listing page to visit.
    pub fn config(&self) -> (config: &ScraperConfig)
        ensures
            config@ == self@,
            config@.first_invalid() is None,
    {
        proof {
            use_type_invariant(self);
        }
        &self.config
    }

    /// The scraper with the selectors of `config`, if they all are
    /// selectors; else the first of them, in the order of [`Field`], that is
    /// none.
    pub fn new(config: ScraperConfig) -> (r: Result<ModularGridScraper, ScraperError>)
        ensures
            match r {
                Ok(scraper) => config@.first_invalid() is None && scraper@ == config@,
                Err(ScraperError::InvalidSelector(field)) => config@.first_invalid() == Some(field),
            },
    {
        if !is_selector_text(config.module_selector.as_str()) {
            Err(ScraperError::InvalidSelector(Field::ModuleLink))
        } else if !is_selector_text(config.module_name_selector.as_str()) {
            Err(ScraperError::InvalidSelector(Field::ModuleName))
        } else if !is_selector_text(config.module_manufacturer_selector.as_str()) {
            Err(ScraperError::InvalidSelector(Field::ModuleManufacturer))
        } else if !is_selector_text(config.width_selector.as_str()) {
            Err(ScraperError::InvalidSelector(Field::Width))
        } else if !is_selector_text(config.depth_selector.as_str()) {
            Err(ScraperError::InvalidSelector(Field::Depth))
        } else if !is_selector_text(config.positive_12_selector.as_str()) {
            Err(ScraperError::InvalidSelector(Field::Positive12))
        } else if !is_selector_text(config.negative_12_selector.as_str()) {
            Err(ScraperError::InvalidSelector(Field::Negative12))
        } else if !is_selector_text(config.positive_5_selector.as_str()) {
            Err(ScraperError::InvalidSelector(Field::Positive5))
        } else {
            Ok(ModularGridScraper { config })
        }
    }

    /// The width that the text of the width cell gives, in HP.
    pub fn parse_width(&self, text: &str) -> (width: Option<u8>)
        ensures
            width == leading_u8(text@),
    {
        read_leading_u8(text)
    }

    /// The depth that the text of the depth cell gives, in mm. The cell
    /// writes `25&nbsp;mm`: the number ends where the `&` stands.
    pub fn parse_depth(&self, text: &str) -> (depth: Option<u8>)
        ensures
            depth == leading_u8(text@),
    {
        read_leading_u8(text)
    }

    /// The current that the text of a current cell gives, in mA.
    pub fn parse_current_draw(&self, text: &str) -> (current: Option<u8>)
        ensures
            current == leading_u8(text@),
    {
        read_leading_u8(text)
    }

    /// Queues what listing page `page` gives: a request for each `href`, in
    /// their order, and behind them one for page `page + 1`, unless `page`
    /// has reached the last page.
    pub fn follow_listing(&self, page: usize, hrefs: &Vec<Option<String>>, frontier: &mut Frontier)
        ensures
            final(frontier)@ == old(frontier)@ + listing_entries(
                page,
                href_views(hrefs@),
                self@.max_page,
            ),
    {
        let ghost views = href_views(hrefs@);
        let mut i: usize = 0;
        assert(views.take(0) =~= Seq::<Option<Seq<char>>>::empty());
        assert(frontier@ =~= old(frontier)@ + module_entries(views.take(0)));
        while i < hrefs.len()
            invariant
                i <= hrefs.len(),
                views == href_views(hrefs@),
                frontier@ == old(frontier)@ + module_entries(views.take(i as int)),
            decreases hrefs.len() - i,
        {
            proof {
                assert(views.take(i + 1).drop_last() =~= views.take(i as int));
                assert(views.take(i + 1).last() == views[i as int]);
            }
            match &hrefs[i] {
                Some(href) => {
                    let url = module_address(href.as_str());
                    let entry = FrontierEntry { url, state: ModularGridState::Module };
                    assert(entry@ == module_entry(href@));
                    frontier.push(entry);
                    assert(frontier@ =~= old(frontier)@ + module_entries(views.take(i + 1)));
                },
                None => {},
            }
            i += 1;
        }
        assert(views.take(hrefs.len() as int) =~= views);
        if page < self.config.max_page {
            let mut url = String::from_str(LISTING);
            append_decimal(&mut url, page + 1);
            let entry = FrontierEntry { url, state: ModularGridState::ModuleListPage(page + 1) };
            assert(entry@ == listing_entry((page + 1) as usize));
            frontier.push(entry);
            assert(frontier@ =~= old(frontier)@ + listing_entries(page, views, self@.max_page));
        }
    }

    /// The record of a module page on which these texts were found, or the
    /// field without which there is no record.
    pub fn read_module(&self, texts: ModuleTexts) -> (r: Result<Module, ScrapeError>)
        ensures
            module_result_view(r) == module_of(texts@),
    {
        let name = match texts.name {
            Some(name) => name,
            None => return Err(ScrapeError::MissingField(Field::ModuleName)),
        };
        let manufacturer = match texts.manufacturer {
            Some(manufacturer) => manufacturer,
            None => return Err(ScrapeError::MissingField(Field::ModuleManufacturer)),
        };
        let width = match &texts.width {
            Some(text) => self.parse_width(text.as_str()),
            None => None,
        };
        let depth = match &texts.depth {
            Some(text) => self.parse_depth(text.as_str()),
            None => None,
        };
        let positive_12 = match &texts.positive_12 {
            Some(text) => self.parse_current_draw(text.as_str()),
            None => None,
        };
        let negative_12 = match &texts.negative_12 {
            Some(text) => self.parse_current_draw(text.as_str()),
            None => None,
        };
        let positive_5 = match &texts.positive_5 {
            Some(text) => self.parse_current_draw(text.as_str()),
            None => None,
        };
        Ok(
            Module {
                name,
                manufacturer,
                width,
                depth,
                current: CurrentDraw { positive_12, negative_12, positive_5 },
            },
        )
    }

    /// The `href` of each element that `selector` finds in the page `body`.
    fn links(body: &str, selector: &str) -> (hrefs: Vec<Option<String>>)
        requires
            !too_large(body@),
            is_selector(selector@),
        ensures
            href_views(hrefs@) == selected(body@, selector@, HREF@),
    {
        match select_attribute(body, selector, HREF) {
            Some(hrefs) => hrefs,
            None => unreached(),
        }
    }

    /// The inner HTML of the first element that `selector` finds in the page
    /// `body`.
    fn text(body: &str, selector: &str) -> (text: Option<String>)
        requires
            !too_large(body@),
            is_selector(selector@),
        ensures
            text_view(text) == first_inner_html(body@, selector@),
    {
        match select_first_html(body, selector) {
            Some(text) => text,
            None => unreached(),
        }
    }

    /// Scrapes the page `body`, fetched by a request that carried `state`.
    ///
    /// A page of more than [`MAX_PAGE_BYTES`] bytes is not read: it is an
    /// error, and nothing is queued. A listing page queues what [`listing_entries`] says of the `href`s of
    /// the elements that the module selector finds in it, and gives no
    /// record. A module page queues nothing. For each field it takes the
    /// inner HTML of the first element that the field's selector finds, and
    /// of these texts it makes the record that [`module_of`] says, or gives
    /// the error that says which field the page lacks.
    pub fn scrape(&self, state: ModularGridState, body: &str, frontier: &mut Frontier) -> (r:
        Result<Option<Module>, ScrapeError>)
        ensures
            too_large(body@) ==> {
                &&& r == Err::<Option<Module>, ScrapeError>(ScrapeError::PageTooLarge)
                &&& final(frontier)@ == old(frontier)@
            },
            !too_large(body@) ==> match state {
                ModularGridState::ModuleListPage(page) => {
                    &&& r == Ok::<Option<Module>, ScrapeError>(None)
                    &&& final(frontier)@ == old(frontier)@ + listing_entries(
                        page,
                        selected(body@, self@.module_selector, HREF@),
                        self@.max_page,
                    )
                },
                ModularGridState::Module => {
                    &&& final(frontier)@ == old(frontier)@
                    &&& scrape_view(r) == module_output(self@.texts_of(body@))
                },
            },
    {
        proof {
            use_type_invariant(self);
        }
        if body.as_bytes().len() > MAX_PAGE_BYTES {
            return Err(ScrapeError::PageTooLarge);
        }
        match state {
            ModularGridState::ModuleListPage(page) => {
                let hrefs = Self::links(body, self.config.module_selector.as_str());
                self.follow_listing(page, &hrefs, frontier);
                Ok(None)
            },
            ModularGridState::Module => {
                let texts = ModuleTexts {
                    name: Self::text(body, self.config.module_name_selector.as_str()),
                    manufacturer: Self::text(
                        body,
                        self.config.module_manufacturer_selector.as_str(),
                    ),
                    width: Self::text(body, self.config.width_selector.as_str()),
                    depth: Self::text(body, self.config.depth_selector.as_str()),
                    positive_12: Self::text(body, self.config.positive_12_selector.as_str()),
                    negative_12: Self::text(body, self.config.negative_12_selector.as_str()),
                    positive_5: Self::text(body, self.config.positive_5_selector.as_str()),
                };
                assert(texts@ == self@.texts_of(body@));
                match self.read_module(texts) {
                    Ok(module) => Ok(Some(module)),
                    Err(e) => Err(e),
                }
            },
        }
    }
}

} // verus!
