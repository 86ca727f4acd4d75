use menu_scraper::catalog::{Meal, Restaurant};
use menu_scraper::date::Date;
use menu_scraper::model::{ItemDetail, Menu};
use menu_scraper::parse::{parse_item, parse_menu};
use menu_scraper::request::menu_request::MenuRequest;
use menu_scraper::run::{Action, Event, Job, Options, Stage};

const PAGE: &str = "<h3 class=\"sect-item\">Soups</h3><h3 class=\"sect-item\">Entrees</h3><a class=\"recipelink\" href=\"/Recipes/1\">Grilled Chicken</a><a class=\"recipelink\" href=\"http://menu.dining.ucla.edu/Recipes/2\">Veggie Bowl</a><h3 class=\"sect-item\">Desserts</h3><a class=\"recipelink\" href=\"Recipes/3\">Fruit Cup</a>";

const DETAIL: &str = "<p class=\"calories\">250</p><p class=\"allergens\">Soy</p>";

fn request() -> MenuRequest {
    MenuRequest {
        date: Date::new(2024, 2, 28).unwrap(),
        meal: Meal::Lunch,
        restaurant: Restaurant::Covel,
    }
}

fn options(with_details: bool, save: Option<&str>, save_pretty: Option<&str>) -> Options {
    Options {
        with_details,
        save: save.map(String::from),
        save_pretty: save_pretty.map(String::from),
    }
}

fn body(text: &str) -> Event {
    Event::Body(String::from(text))
}

fn fetch(notice: &str, url: &str) -> Action {
    Action::Fetch { notice: String::from(notice), url: String::from(url) }
}

fn read_menu() -> Menu {
    parse_menu::parse(PAGE, &request()).unwrap()
}

fn read_detail() -> ItemDetail {
    parse_item::parse(DETAIL).unwrap()
}

fn started(o: Options) -> Job {
    let (job, action) = Job::new(request(), o).step(Event::Begin);
    assert_eq!(
        action,
        fetch(
            "Fetching 2024-02-28 Lunch for Covel ... \t",
            "http://menu.dining.ucla.edu/Menus/Covel/2024-02-28/Lunch"
        )
    );
    assert_eq!(job.stage(), Stage::AwaitMenu);
    job
}

#[test]
fn a_job_begins_by_asking_for_the_menu_page() {
    let job = Job::new(request(), options(false, None, None));
    assert_eq!(job.stage(), Stage::Start);
    let job = started(options(false, None, None));
    assert_eq!(job.into_menu(), None);
}

#[test]
fn a_menu_is_shown_where_nothing_else_is_asked() {
    let (job, action) = started(options(false, None, None)).step(body(PAGE));
    assert_eq!(
        action,
        Action::Show {
            text: String::from(
                "[done]\nLunch at Covel on 2024-02-28\nSoups\nEntrees\n  - Grilled Chicken\n  - Veggie Bowl\nDesserts\n  - Fruit Cup\n"
            ),
        }
    );
    assert_eq!(job.stage(), Stage::Done);
    assert_eq!(job.into_menu(), Some(read_menu()));
}

#[test]
fn a_page_without_sections_is_put_out_like_any_menu() {
    let (job, action) = started(options(true, None, None)).step(body("Closed"));
    assert_eq!(action, Action::Show { text: String::from("[done]\nLunch at Covel on 2024-02-28\n") });
    assert_eq!(job.stage(), Stage::Done);
    assert_eq!(job.into_menu().unwrap().sections.len(), 0);
}

#[test]
fn a_menu_page_that_fails_gives_the_request_up() {
    let (job, action) = started(options(true, Some("out"), None)).step(Event::Failed);
    assert_eq!(action, Action::Skip { notice: String::from("[failed]\n") });
    assert_eq!(job.stage(), Stage::Done);
    assert_eq!(job.into_menu(), None);
    let (job, action) = started(options(true, Some("out"), None)).step(body("<html"));
    assert_eq!(action, Action::Skip { notice: String::from("[failed]\n") });
    assert_eq!(job.stage(), Stage::Done);
    assert_eq!(job.into_menu(), None);
}

#[test]
fn one_failed_item_page_leaves_the_other_items_their_records() {
    let (job, action) = started(options(true, None, None)).step(body(PAGE));
    assert_eq!(action, fetch("[done]\n", "http://menu.dining.ucla.edu/Recipes/1"));
    assert_eq!(job.stage(), Stage::AwaitItem);
    let (job, action) = job.step(body(DETAIL));
    assert_eq!(action, fetch("", "http://menu.dining.ucla.edu/Recipes/2"));
    assert_eq!(job.stage(), Stage::AwaitItem);
    let (job, action) = job.step(Event::Failed);
    assert_eq!(action, fetch("", "http://menu.dining.ucla.edu/Recipes/3"));
    assert_eq!(job.stage(), Stage::AwaitItem);
    let (job, action) = job.step(body(DETAIL));
    assert_eq!(
        action,
        Action::Show {
            text: String::from(
                "Lunch at Covel on 2024-02-28\nSoups\nEntrees\n  - Grilled Chicken\n  - Veggie Bowl\nDesserts\n  - Fruit Cup\n"
            ),
        }
    );
    assert_eq!(job.stage(), Stage::Done);
    let menu = job.into_menu().unwrap();
    assert_eq!(menu.sections[1].items[0].details, Some(read_detail()));
    assert_eq!(menu.sections[1].items[1].details, None);
    assert_eq!(menu.sections[2].items[0].details, Some(read_detail()));
    let mut expected = read_menu();
    expected.sections[1].items[0].details = Some(read_detail());
    expected.sections[2].items[0].details = Some(read_detail());
    assert_eq!(menu, expected);
}

#[test]
fn an_item_page_that_cannot_be_read_leaves_its_item_empty() {
    let (job, _) = started(options(true, None, None)).step(body(PAGE));
    let (job, action) = job.step(body("<p class=\"calories\">250</p><"));
    assert_eq!(action, fetch("", "http://menu.dining.ucla.edu/Recipes/2"));
    let (job, _) = job.step(body(DETAIL));
    let (job, _) = job.step(body("not a nutrition page"));
    let menu = job.into_menu().unwrap();
    assert_eq!(menu.sections[1].items[0].details, None);
    assert_eq!(menu.sections[1].items[1].details, Some(read_detail()));
    assert_eq!(
        menu.sections[2].items[0].details,
        Some(ItemDetail {
            serving_size: None,
            calories: None,
            total_fat: None,
            carbohydrate: None,
            protein: None,
            ingredients: None,
            allergens: None,
        })
    );
}

#[test]
fn save_stores_the_minimal_document() {
    let (job, action) = started(options(false, Some("out"), None)).step(body(PAGE));
    assert_eq!(
        action,
        Action::Store {
            notice: String::from("[done]\nStoring 2024-02-28 Lunch for Covel on disk to out ... \t"),
            path: String::from("out/2024-02-28-Covel-Lunch"),
            document: read_menu().to_json_min(),
            pretty: false,
        }
    );
    assert_eq!(job.stage(), Stage::Done);
}

#[test]
fn save_pretty_stores_the_full_document() {
    let (_, action) = started(options(false, None, Some("/tmp/menus"))).step(body(PAGE));
    assert_eq!(
        action,
        Action::Store {
            notice: String::from(
                "[done]\nStoring 2024-02-28 Lunch for Covel on disk to /tmp/menus ... \t"
            ),
            path: String::from("/tmp/menus/2024-02-28-Covel-Lunch-pretty"),
            document: read_menu().to_json(),
            pretty: true,
        }
    );
}

#[test]
fn save_wins_over_save_pretty_but_for_the_name() {
    let (_, action) = started(options(false, Some("a"), Some("b"))).step(body(PAGE));
    assert_eq!(
        action,
        Action::Store {
            notice: String::from("[done]\nStoring 2024-02-28 Lunch for Covel on disk to a ... \t"),
            path: String::from("a/2024-02-28-Covel-Lunch-pretty"),
            document: read_menu().to_json_min(),
            pretty: false,
        }
    );
}

#[test]
fn records_are_stored_once_all_item_pages_came_in() {
    let (job, _) = started(options(true, None, Some("out"))).step(body(PAGE));
    let (job, _) = job.step(body(DETAIL));
    let (job, _) = job.step(body(DETAIL));
    let (job, action) = job.step(Event::Failed);
    let mut expected = read_menu();
    expected.sections[1].items[0].details = Some(read_detail());
    expected.sections[1].items[1].details = Some(read_detail());
    assert_eq!(
        action,
        Action::Store {
            notice: String::from("Storing 2024-02-28 Lunch for Covel on disk to out ... \t"),
            path: String::from("out/2024-02-28-Covel-Lunch-pretty"),
            document: expected.to_json(),
            pretty: true,
        }
    );
    assert_eq!(job.into_menu(), Some(expected));
}

#[test]
fn a_job_ignores_what_it_does_not_expect() {
    let (job, action) = Job::new(request(), options(true, None, None)).step(body(PAGE));
    assert_eq!(action, Action::Nothing);
    assert_eq!(job.stage(), Stage::Start);
    let (job, action) = job.step(Event::Failed);
    assert_eq!(action, Action::Nothing);
    assert_eq!(job.stage(), Stage::Start);
    let (job, _) = job.step(Event::Begin);
    let (job, action) = job.step(Event::Begin);
    assert_eq!(action, Action::Nothing);
    assert_eq!(job.stage(), Stage::AwaitMenu);
    let (job, _) = job.step(body(PAGE));
    let (job, action) = job.step(Event::Begin);
    assert_eq!(action, Action::Nothing);
    assert_eq!(job.stage(), Stage::AwaitItem);
    let (job, _) = job.step(Event::Failed);
    let (job, _) = job.step(Event::Failed);
    let (job, _) = job.step(Event::Failed);
    assert_eq!(job.stage(), Stage::Done);
    for event in [Event::Begin, body(PAGE), Event::Failed] {
        let (after, action) = Job::new(request(), options(false, None, None))
            .step(Event::Begin)
            .0
            .step(Event::Failed)
            .0
            .step(event);
        assert_eq!(action, Action::Nothing);
        assert_eq!(after.stage(), Stage::Done);
    }
    assert_eq!(job.into_menu(), Some(read_menu()));
}
