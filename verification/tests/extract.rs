use modulargrid::frontier::Frontier;
use modulargrid::markup::MAX_PAGE_BYTES;
use modulargrid::model::{CurrentDraw, FrontierEntry, ModularGridState, Module};
use modulargrid::scraper::{
    is_selector_text, module_address, Field, ModularGridScraper, ModuleTexts, ScrapeError,
    ScraperConfig, ScraperError, HREF, LISTING, ORIGIN, SCHEME,
};

const LISTING_PAGE: &str = "<!DOCTYPE html>\n\
<html><head><title>Modules</title></head><body>\n\
<a href='/e/not-a-module'>elsewhere</a>\n\
<div class='modules'><table>\n\
<thead><tr><th>Module</th><th>Manufacturer</th></tr></thead>\n\
<tbody>\n\
<tr><td><a href='/e/make-noise-maths'>Maths</a></td><td><a href='/e/vendors/make-noise'>Make Noise</a></td></tr>\n\
<tr><td><a name='anchor'>no link</a> <a href='/e/doepfer-a-110-1'>A-110-1</a></td><td>Doepfer</td></tr>\n\
<tr><td><a href='/e/mutable-instruments-plaits'>Plaits</a></td><td>Mutable Instruments</td></tr>\n\
</tbody></table></div>\n\
</body></html>";

const MODULE_PAGE: &str = "<!DOCTYPE html>\n\
<html><body>\n\
<div class='module-view-header'><h1>Maths</h1>\n\
<div class='sub-header'><h2><a href='/e/vendors/make-noise'><span>Make Noise</span></a></h2></div></div>\n\
<div class='box-specs'>\n\
<div><dl><dt>Width</dt><dd>20 HP</dd><dt>Depth</dt><dd>24&nbsp;mm</dd></dl></div>\n\
<div><dl><dt>Current</dt><dd>60 mA +12V</dd><dd>50 mA -12V</dd><dd>n/a</dd></dl></div>\n\
</div>\n\
</body></html>";

fn scraper() -> ModularGridScraper {
    ModularGridScraper::new(ScraperConfig::default()).expect("the catalogue's selectors compile")
}

fn scraper_with_max_page(max_page: usize) -> ModularGridScraper {
    let mut config = ScraperConfig::default();
    config.max_page = max_page;
    ModularGridScraper::new(config.clone()).expect("the catalogue's selectors compile")
}

fn drain(frontier: &mut Frontier) -> Vec<FrontierEntry> {
    let mut entries = Vec::new();
    while let Some(entry) = frontier.pop() {
        entries.push(entry);
    }
    entries
}

fn module_entry(path: &str) -> FrontierEntry {
    FrontierEntry {
        url: format!("https://www.modulargrid.net{}", path),
        state: ModularGridState::Module,
    }
}

fn listing_entry(page: usize) -> FrontierEntry {
    FrontierEntry {
        url: format!(
            "https://www.modulargrid.net/e/modules/index/sort:Module.name/direction:asc/page:{}",
            page
        ),
        state: ModularGridState::ModuleListPage(page),
    }
}

fn text(s: &str) -> Option<String> {
    Some(s.to_string())
}

fn all_texts() -> ModuleTexts {
    ModuleTexts {
        name: text("Maths"),
        manufacturer: text("Make Noise"),
        width: text("20 HP"),
        depth: text("24&nbsp;mm"),
        positive_12: text("60 mA"),
        negative_12: text("50 mA"),
        positive_5: text("0 mA"),
    }
}

#[test]
fn default_config_holds_the_catalogue_selectors() {
    let config = ScraperConfig::default();
    assert_eq!(config.module_selector, ".modules table tbody tr td:first-of-type a");
    assert_eq!(config.module_name_selector, ".module-view-header h1");
    assert_eq!(config.module_manufacturer_selector, ".module-view-header .sub-header h2 a span");
    assert_eq!(config.width_selector, ".box-specs div:first-of-type dl dd:first-of-type");
    assert_eq!(config.depth_selector, ".box-specs div:first-of-type dl dd:nth-of-type(2)");
    assert_eq!(config.positive_12_selector, ".box-specs div:nth-of-type(2) dl dd:first-of-type");
    assert_eq!(config.negative_12_selector, ".box-specs div:nth-of-type(2) dl dd:nth-of-type(2)");
    assert_eq!(config.positive_5_selector, ".box-specs div:nth-of-type(2) dl dd:nth-of-type(3)");
    assert_eq!(config.max_page, 2);
    assert_eq!(scraper().max_page(), 2);
    assert_eq!(scraper().config(), &config);
    assert_eq!(scraper_with_max_page(7).config().max_page, 7);
    assert_eq!(HREF, "href");
    assert_eq!(SCHEME, "https:");
    assert_eq!(ORIGIN, "https://www.modulargrid.net");
    assert_eq!(
        LISTING,
        "https://www.modulargrid.net/e/modules/index/sort:Module.name/direction:asc/page:"
    );
}

#[test]
fn a_text_that_is_no_selector_is_named() {
    let mut config = ScraperConfig::default();
    config.depth_selector = "dd:nth-of-type(".to_string();
    assert_eq!(
        ModularGridScraper::new(config.clone()).err(),
        Some(ScraperError::InvalidSelector(Field::Depth))
    );
    config.module_selector = "<a>".to_string();
    assert_eq!(
        ModularGridScraper::new(config.clone()).err(),
        Some(ScraperError::InvalidSelector(Field::ModuleLink))
    );
    let mut other = ScraperConfig::default();
    other.positive_5_selector = String::new();
    assert_eq!(
        ModularGridScraper::new(other).err(),
        Some(ScraperError::InvalidSelector(Field::Positive5))
    );
}

#[test]
fn the_first_text_that_is_no_selector_is_named() {
    let mut config = ScraperConfig::default();
    config.positive_12_selector = "dd:".to_string();
    config.module_manufacturer_selector = "h2 >".to_string();
    config.positive_5_selector = "!".to_string();
    assert_eq!(
        ModularGridScraper::new(config.clone()).err(),
        Some(ScraperError::InvalidSelector(Field::ModuleManufacturer))
    );
    config.module_manufacturer_selector = "h2 > a".to_string();
    assert_eq!(
        ModularGridScraper::new(config.clone()).err(),
        Some(ScraperError::InvalidSelector(Field::Positive12))
    );
    config.positive_12_selector = "dd, dt".to_string();
    assert_eq!(
        ModularGridScraper::new(config.clone()).err(),
        Some(ScraperError::InvalidSelector(Field::Positive5))
    );
    config.positive_5_selector = "*".to_string();
    config.max_page = 9;
    assert_eq!(ModularGridScraper::new(config).ok().map(|s| s.max_page()), Some(9));
}

#[test]
fn selector_texts() {
    for text in ["a", "*", "td:first-of-type a", "dd:nth-of-type(2)", "a, b", "#id.class[x='y']"] {
        assert!(is_selector_text(text), "text {:?}", text);
    }
    for text in ["", " ", ",", "a,", ">", "<a>", "a >", "dd:nth-of-type(x)", "a:hover", "a::before", "[", "1a"] {
        assert!(!is_selector_text(text), "text {:?}", text);
    }
}

#[test]
fn listing_page_queues_modules_then_the_next_page() {
    let s = scraper();
    let mut frontier = Frontier::new();
    let hrefs = vec![text("/e/a"), None, text("/e/b"), text("")];
    s.follow_listing(1, &hrefs, &mut frontier);
    assert_eq!(
        drain(&mut frontier),
        vec![module_entry("/e/a"), module_entry("/e/b"), module_entry(""), listing_entry(2)]
    );
}

#[test]
fn last_listing_page_queues_no_further_page() {
    let s = scraper();
    let mut frontier = Frontier::new();
    s.follow_listing(2, &vec![text("/e/a")], &mut frontier);
    assert_eq!(drain(&mut frontier), vec![module_entry("/e/a")]);
    s.follow_listing(3, &vec![], &mut frontier);
    assert_eq!(drain(&mut frontier), vec![]);
    s.follow_listing(usize::MAX, &vec![None], &mut frontier);
    assert_eq!(drain(&mut frontier), vec![]);
}

#[test]
fn listing_page_numbers_are_written_in_decimal() {
    let s = scraper_with_max_page(usize::MAX);
    let mut frontier = Frontier::new();
    s.follow_listing(9, &vec![], &mut frontier);
    s.follow_listing(99, &vec![], &mut frontier);
    s.follow_listing(usize::MAX - 1, &vec![], &mut frontier);
    assert_eq!(
        drain(&mut frontier),
        vec![listing_entry(10), listing_entry(100), listing_entry(usize::MAX)]
    );
}

#[test]
fn entries_go_behind_what_waits() {
    let s = scraper();
    let mut frontier = Frontier::new();
    frontier.push(module_entry("/first"));
    s.follow_listing(1, &vec![text("/e/a")], &mut frontier);
    assert_eq!(frontier.len(), 3);
    assert_eq!(
        drain(&mut frontier),
        vec![module_entry("/first"), module_entry("/e/a"), listing_entry(2)]
    );
}

#[test]
fn module_with_all_fields() {
    let s = scraper();
    assert_eq!(
        s.read_module(all_texts()),
        Ok(Module {
            name: "Maths".to_string(),
            manufacturer: "Make Noise".to_string(),
            width: Some(20),
            depth: Some(24),
            current: CurrentDraw { positive_12: Some(60), negative_12: Some(50), positive_5: Some(0) },
        })
    );
}

#[test]
fn module_without_numbers_has_unknown_numbers() {
    let s = scraper();
    let texts = ModuleTexts {
        name: text(""),
        manufacturer: text("<b>Doepfer</b>"),
        width: None,
        depth: None,
        positive_12: None,
        negative_12: text("n/a"),
        positive_5: text(""),
    };
    assert_eq!(
        s.read_module(texts),
        Ok(Module {
            name: String::new(),
            manufacturer: "<b>Doepfer</b>".to_string(),
            width: None,
            depth: None,
            current: CurrentDraw { positive_12: None, negative_12: None, positive_5: None },
        })
    );
}

#[test]
fn module_without_name_has_no_record() {
    let s = scraper();
    let mut texts = all_texts();
    texts.name = None;
    assert_eq!(s.read_module(texts), Err(ScrapeError::MissingField(Field::ModuleName)));
    let mut texts = all_texts();
    texts.name = None;
    texts.manufacturer = None;
    assert_eq!(s.read_module(texts), Err(ScrapeError::MissingField(Field::ModuleName)));
}

#[test]
fn module_without_manufacturer_has_no_record() {
    let s = scraper();
    let mut texts = all_texts();
    texts.manufacturer = None;
    assert_eq!(s.read_module(texts), Err(ScrapeError::MissingField(Field::ModuleManufacturer)));
}

#[test]
fn every_number_ends_at_the_ampersand() {
    let s = scraper();
    let mut texts = all_texts();
    texts.width = text("20&nbsp;HP");
    texts.depth = text("24&nbsp;mm");
    texts.positive_12 = text("60&nbsp;mA");
    texts.negative_12 = text("12U spare");
    let module = s.read_module(texts).expect("name and manufacturer are there");
    assert_eq!(module.width, Some(20));
    assert_eq!(module.depth, Some(24));
    assert_eq!(module.current.positive_12, Some(60));
    assert_eq!(module.current.negative_12, Some(12));
}

#[test]
fn an_href_is_resolved_against_the_origin() {
    let cases = [
        ("/e/x", "https://www.modulargrid.net/e/x"),
        ("https://www.modulargrid.net/e/x", "https://www.modulargrid.net/e/x"),
        ("http://www.modulargrid.net/e/x", "http://www.modulargrid.net/e/x"),
        ("https://other.example/e/x", "https://other.example/e/x"),
        ("HTTPS://www.modulargrid.net/", "HTTPS://www.modulargrid.net/"),
        ("mailto:someone@example.org", "mailto:someone@example.org"),
        ("sort:Module.name/page:2", "sort:Module.name/page:2"),
        ("a+b-c.d:x", "a+b-c.d:x"),
        ("//cdn.example/e/x", "https://cdn.example/e/x"),
        ("//", "https://"),
        ("/", "https://www.modulargrid.net/"),
        ("", "https://www.modulargrid.net"),
        ("?page=2", "https://www.modulargrid.net?page=2"),
        ("#top", "https://www.modulargrid.net#top"),
        ("e/x", "https://www.modulargrid.net/e/x"),
        ("./sort:Module.name", "https://www.modulargrid.net/./sort:Module.name"),
        ("../e/x", "https://www.modulargrid.net/../e/x"),
        (":8080/e", "https://www.modulargrid.net/:8080/e"),
        ("1a:b", "https://www.modulargrid.net/1a:b"),
        ("a b:c", "https://www.modulargrid.net/a b:c"),
        ("e/x:y", "https://www.modulargrid.net/e/x:y"),
        ("@evil.example/x", "https://www.modulargrid.net/@evil.example/x"),
        ("a", "https://www.modulargrid.net/a"),
        ("a:", "a:"),
    ];
    for (href, url) in cases {
        assert_eq!(module_address(href), url, "href {:?}", href);
    }
    let s = scraper();
    let mut frontier = Frontier::new();
    let hrefs = vec![text("https://www.modulargrid.net/e/x"), text("/e/x"), text("e/x")];
    s.follow_listing(2, &hrefs, &mut frontier);
    assert_eq!(
        drain(&mut frontier),
        vec![module_entry("/e/x"), module_entry("/e/x"), module_entry("/e/x")]
    );
}

#[test]
fn scrape_follows_absolute_links_as_they_are() {
    let s = scraper();
    let mut frontier = Frontier::new();
    let page = "<div class='modules'><table><tbody>\
        <tr><td><a href='https://www.modulargrid.net/e/x'>x</a></td></tr>\
        <tr><td><a href='//www.modulargrid.net/e/y'>y</a></td></tr>\
        <tr><td><a href='e/z'>z</a></td></tr>\
        </tbody></table></div>";
    assert_eq!(s.scrape(ModularGridState::ModuleListPage(2), page, &mut frontier), Ok(None));
    assert_eq!(
        drain(&mut frontier),
        vec![module_entry("/e/x"), module_entry("/e/y"), module_entry("/e/z")]
    );
}

#[test]
fn scrape_listing_page_with_misnested_link() {
    let s = scraper();
    let mut frontier = Frontier::new();
    let page = "<div class='modules'><table><tbody><tr><td><a href='/e/x'><div><span>1</span>\
        <span>2</span><p>3</a></td></tr></tbody></table></div>";
    assert_eq!(s.scrape(ModularGridState::ModuleListPage(2), page, &mut frontier), Ok(None));
    let found = drain(&mut frontier);
    assert!(!found.is_empty());
    for entry in found {
        assert_eq!(entry, module_entry("/e/x"));
    }
    assert_eq!(
        s.scrape(ModularGridState::Module, page, &mut frontier),
        Err(ScrapeError::MissingField(Field::ModuleName))
    );
}

#[test]
fn scrape_module_page_with_misnested_name() {
    let mut config = ScraperConfig::default();
    config.module_name_selector = "b".to_string();
    config.module_manufacturer_selector = "b b, div b, p b".to_string();
    config.width_selector = "div".to_string();
    config.depth_selector = "p".to_string();
    config.positive_12_selector = "body".to_string();
    config.negative_12_selector = "html".to_string();
    config.positive_5_selector = "span".to_string();
    let s = ModularGridScraper::new(config).expect("these are selectors");
    let mut frontier = Frontier::new();
    let page = "<b><div><span>1</span><span>2</span><p>3</b>";
    let first = s.scrape(ModularGridState::Module, page, &mut frontier);
    let module = match &first {
        Ok(Some(module)) => module.clone(),
        other => panic!("expected a record, got {:?}", other),
    };
    assert_eq!(module.current.positive_5, Some(1));
    assert_eq!(s.scrape(ModularGridState::Module, page, &mut frontier), first);
    let header = "<div class='module-view-header'><h1><b><div><span>1</span><span>2</span><p>3</b>\
        </h1><div class='sub-header'><h2><a><span><i><p>x</i>y</span></a></h2></div></div>";
    let default = scraper();
    let once = default.scrape(ModularGridState::Module, header, &mut frontier);
    assert_eq!(default.scrape(ModularGridState::Module, header, &mut frontier), once);
    assert!(frontier.is_empty());
}

#[test]
fn scrape_listing_page_follows_first_cell_links() {
    let s = scraper();
    let mut frontier = Frontier::new();
    let output = s.scrape(ModularGridState::ModuleListPage(1), LISTING_PAGE, &mut frontier);
    assert_eq!(output, Ok(None));
    assert_eq!(
        drain(&mut frontier),
        vec![
            module_entry("/e/make-noise-maths"),
            module_entry("/e/doepfer-a-110-1"),
            module_entry("/e/mutable-instruments-plaits"),
            listing_entry(2),
        ]
    );
}

#[test]
fn scrape_last_listing_page_follows_links_only() {
    let s = scraper();
    let mut frontier = Frontier::new();
    let output = s.scrape(ModularGridState::ModuleListPage(2), LISTING_PAGE, &mut frontier);
    assert_eq!(output, Ok(None));
    assert_eq!(frontier.len(), 3);
}

#[test]
fn scrape_listing_page_without_links() {
    let s = scraper();
    let mut frontier = Frontier::new();
    assert_eq!(s.scrape(ModularGridState::ModuleListPage(1), "", &mut frontier), Ok(None));
    assert_eq!(drain(&mut frontier), vec![listing_entry(2)]);
    assert_eq!(s.scrape(ModularGridState::ModuleListPage(1), MODULE_PAGE, &mut frontier), Ok(None));
    assert_eq!(drain(&mut frontier), vec![listing_entry(2)]);
}

#[test]
fn scrape_module_page_gives_its_record() {
    let s = scraper();
    let mut frontier = Frontier::new();
    let output = s.scrape(ModularGridState::Module, MODULE_PAGE, &mut frontier);
    assert_eq!(
        output,
        Ok(Some(Module {
            name: "Maths".to_string(),
            manufacturer: "Make Noise".to_string(),
            width: Some(20),
            depth: Some(24),
            current: CurrentDraw { positive_12: Some(60), negative_12: Some(50), positive_5: None },
        }))
    );
    assert!(frontier.is_empty());
}

#[test]
fn scrape_module_page_without_specs() {
    let s = scraper();
    let mut frontier = Frontier::new();
    let page = "<div class='module-view-header'><h1>A <i>b</i></h1>\n\
        <div class='sub-header'><h2><a><span>C</span></a></h2></div></div>";
    assert_eq!(
        s.scrape(ModularGridState::Module, page, &mut frontier),
        Ok(Some(Module {
            name: "A <i>b</i>".to_string(),
            manufacturer: "C".to_string(),
            width: None,
            depth: None,
            current: CurrentDraw { positive_12: None, negative_12: None, positive_5: None },
        }))
    );
    assert!(frontier.is_empty());
}

#[test]
fn scrape_module_page_without_header() {
    let s = scraper();
    let mut frontier = Frontier::new();
    assert_eq!(
        s.scrape(ModularGridState::Module, LISTING_PAGE, &mut frontier),
        Err(ScrapeError::MissingField(Field::ModuleName))
    );
    let no_manufacturer = "<div class='module-view-header'><h1>Maths</h1></div>";
    assert_eq!(
        s.scrape(ModularGridState::Module, no_manufacturer, &mut frontier),
        Err(ScrapeError::MissingField(Field::ModuleManufacturer))
    );
    assert!(frontier.is_empty());
}

#[test]
fn scrape_takes_any_text() {
    let s = scraper();
    let mut frontier = Frontier::new();
    let texts = [
        "",
        "\0",
        "<",
        "<!DOCTYPE",
        "</div></div></table>",
        "<table><tr><td><a href=",
        "<template><div class='modules'><table><tbody><tr><td><a href='/t'>t</a></td></tr></tbody></table></div></template>",
        "<svg><a href='/x'/></svg><math><mi>x</mi></math>",
        "<div class='modules'><table><tbody><tr><td><a href='/e/a'><a href='/e/b'>nested</a></a></td></tr></tbody></table></div>",
        "<frameset><frame src='x'></frameset>",
        "plain text, no markup at all",
    ];
    for text in texts {
        assert_eq!(s.scrape(ModularGridState::ModuleListPage(2), text, &mut frontier), Ok(None));
        assert_eq!(
            s.scrape(ModularGridState::Module, text, &mut frontier),
            Err(ScrapeError::MissingField(Field::ModuleName))
        );
    }
    let found = drain(&mut frontier);
    assert_eq!(found, vec![module_entry("/t"), module_entry("/e/a"), module_entry("/e/b")]);
}

#[test]
fn scrape_keeps_markup_inside_a_name() {
    let s = scraper();
    let mut frontier = Frontier::new();
    let page = "<div class='module-view-header'><h1><a href='/x' class='y'>N</a> &amp; <br>M</h1>\
        <div class='sub-header'><h2><a><span>C &lt; D</span></a></h2></div></div>";
    let module = match s.scrape(ModularGridState::Module, page, &mut frontier) {
        Ok(Some(module)) => module,
        other => panic!("expected a record, got {:?}", other),
    };
    assert_eq!(module.name, "<a class=\"y\" href=\"/x\">N</a> &amp; <br>M");
    assert_eq!(module.manufacturer, "C &lt; D");
}

#[test]
fn scrape_reads_the_first_match_of_each_selector() {
    let s = scraper();
    let mut frontier = Frontier::new();
    let page = "<div class='module-view-header'><h1>First</h1><h1>Second</h1>\
        <div class='sub-header'><h2><a><span>One</span><span>Two</span></a></h2></div></div>\
        <div class='box-specs'><div><dl><dd> 7 HP</dd><dd>+9&nbsp;mm</dd><dd>1</dd></dl></div>\
        <div><dl><dd>256 mA</dd><dd>-5 mA</dd><dd>\n\t12\n</dd><dd>13</dd></dl></div></div>";
    assert_eq!(
        s.scrape(ModularGridState::Module, page, &mut frontier),
        Ok(Some(Module {
            name: "First".to_string(),
            manufacturer: "One".to_string(),
            width: Some(7),
            depth: Some(9),
            current: CurrentDraw { positive_12: None, negative_12: None, positive_5: Some(12) },
        }))
    );
}

#[test]
fn a_page_that_is_too_long_is_not_read() {
    let s = scraper();
    let mut frontier = Frontier::new();
    frontier.push(module_entry("/waits"));
    let mut page = String::from(LISTING_PAGE);
    while page.len() <= MAX_PAGE_BYTES {
        page.push_str("<!-- padding padding padding padding padding padding padding -->");
    }
    assert_eq!(
        s.scrape(ModularGridState::ModuleListPage(1), &page, &mut frontier),
        Err(ScrapeError::PageTooLarge)
    );
    assert_eq!(
        s.scrape(ModularGridState::Module, &page, &mut frontier),
        Err(ScrapeError::PageTooLarge)
    );
    assert_eq!(drain(&mut frontier), vec![module_entry("/waits")]);
}

#[test]
fn the_length_of_a_page_is_counted_in_bytes() {
    let s = scraper();
    let mut frontier = Frontier::new();
    let page = "\u{e9}".repeat(MAX_PAGE_BYTES / 2 + 1);
    assert!(page.chars().count() < MAX_PAGE_BYTES);
    assert_eq!(page.len(), MAX_PAGE_BYTES + 2);
    assert_eq!(
        s.scrape(ModularGridState::ModuleListPage(1), &page, &mut frontier),
        Err(ScrapeError::PageTooLarge)
    );
    assert!(frontier.is_empty());
}

#[test]
fn the_longest_page_is_still_read() {
    assert_eq!(MAX_PAGE_BYTES, 64 * 1024 * 1024);
    let s = scraper();
    let mut frontier = Frontier::new();
    let mut page = String::from(LISTING_PAGE);
    page.push_str(&" ".repeat(MAX_PAGE_BYTES - page.len()));
    assert_eq!(page.len(), MAX_PAGE_BYTES);
    assert_eq!(s.scrape(ModularGridState::ModuleListPage(2), &page, &mut frontier), Ok(None));
    assert_eq!(frontier.len(), 3);
}
