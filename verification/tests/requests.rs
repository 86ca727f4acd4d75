use menu_scraper::catalog::{Meal, Restaurant};
use menu_scraper::date::Date;
use menu_scraper::error::ParseError;
use menu_scraper::request::item_request::ItemRequest;
use menu_scraper::request::menu_request::{
    get_all_menu_requests, get_requests, menu_requests_for_dates, MenuRequest,
};

fn day(year: u16, month: u8, day: u8) -> Date {
    Date::new(year, month, day).unwrap()
}

#[test]
fn catalogs_hold_four_meals_and_four_halls_in_order() {
    assert_eq!(Meal::all(), vec![Meal::Breakfast, Meal::Lunch, Meal::Dinner, Meal::LateNight]);
    assert_eq!(
        Restaurant::all(),
        vec![
            Restaurant::Covel,
            Restaurant::DeNeve,
            Restaurant::FeastAtRieber,
            Restaurant::BruinPlate
        ]
    );
}

#[test]
fn meals_have_two_names() {
    assert_eq!(Meal::Breakfast.name(), "Breakfast");
    assert_eq!(Meal::Lunch.name(), "Lunch");
    assert_eq!(Meal::Dinner.name(), "Dinner");
    assert_eq!(Meal::LateNight.name(), "Late Night");
    assert_eq!(Meal::Breakfast.url_name(), "Breakfast");
    assert_eq!(Meal::Lunch.url_name(), "Lunch");
    assert_eq!(Meal::Dinner.url_name(), "Dinner");
    assert_eq!(Meal::LateNight.url_name(), "LateNight");
}

#[test]
fn halls_have_two_names() {
    assert_eq!(Restaurant::Covel.name(), "Covel");
    assert_eq!(Restaurant::DeNeve.name(), "De Neve");
    assert_eq!(Restaurant::FeastAtRieber.name(), "FEAST at Rieber");
    assert_eq!(Restaurant::BruinPlate.name(), "Bruin Plate");
    assert_eq!(Restaurant::Covel.url_name(), "Covel");
    assert_eq!(Restaurant::DeNeve.url_name(), "DeNeve");
    assert_eq!(Restaurant::FeastAtRieber.url_name(), "FeastAtRieber");
    assert_eq!(Restaurant::BruinPlate.url_name(), "BruinPlate");
}

#[test]
fn meals_and_halls_are_found_by_name() {
    for meal in Meal::all() {
        let name: Vec<char> = meal.name().chars().collect();
        assert_eq!(Meal::from_name(&name), Some(meal));
    }
    for hall in Restaurant::all() {
        let name: Vec<char> = hall.name().chars().collect();
        assert_eq!(Restaurant::from_name(&name), Some(hall));
    }
    let other: Vec<char> = "LateNight".chars().collect();
    assert_eq!(Meal::from_name(&other), None);
    let other: Vec<char> = "covel".chars().collect();
    assert_eq!(Restaurant::from_name(&other), None);
}

#[test]
fn requests_for_two_dates_are_two_times_meals_times_halls() {
    let d1 = day(2024, 2, 28);
    let d2 = day(2024, 3, 5);
    let requests = menu_requests_for_dates(&vec![d1, d2]);
    assert_eq!(requests.len(), 2 * Meal::all().len() * Restaurant::all().len());
    assert_eq!(requests.len(), 32);
    let mut expected: Vec<MenuRequest> = Vec::new();
    for date in [d1, d2] {
        for meal in Meal::all() {
            for restaurant in Restaurant::all() {
                expected.push(MenuRequest { date, meal, restaurant });
            }
        }
    }
    assert_eq!(requests, expected);
}

#[test]
fn requests_run_date_major_meal_mid_hall_minor() {
    let d1 = day(2024, 2, 28);
    let d2 = day(2024, 2, 27);
    let r = menu_requests_for_dates(&vec![d1, d2]);
    assert_eq!(
        r[0],
        MenuRequest { date: d1, meal: Meal::Breakfast, restaurant: Restaurant::Covel }
    );
    assert_eq!(
        r[1],
        MenuRequest { date: d1, meal: Meal::Breakfast, restaurant: Restaurant::DeNeve }
    );
    assert_eq!(
        r[3],
        MenuRequest { date: d1, meal: Meal::Breakfast, restaurant: Restaurant::BruinPlate }
    );
    assert_eq!(r[4], MenuRequest { date: d1, meal: Meal::Lunch, restaurant: Restaurant::Covel });
    assert_eq!(
        r[15],
        MenuRequest { date: d1, meal: Meal::LateNight, restaurant: Restaurant::BruinPlate }
    );
    assert_eq!(
        r[16],
        MenuRequest { date: d2, meal: Meal::Breakfast, restaurant: Restaurant::Covel }
    );
    assert_eq!(
        r[31],
        MenuRequest { date: d2, meal: Meal::LateNight, restaurant: Restaurant::BruinPlate }
    );
}

#[test]
fn requests_for_no_date_are_none() {
    assert_eq!(menu_requests_for_dates(&Vec::new()), Vec::<MenuRequest>::new());
}

#[test]
fn a_date_given_twice_is_enumerated_twice() {
    let d = day(2024, 2, 28);
    let r = menu_requests_for_dates(&vec![d, d]);
    assert_eq!(r.len(), 32);
    assert_eq!(r[0], r[16]);
}

#[test]
fn all_requests_cover_a_week() {
    let today = day(2024, 2, 26);
    let r = get_all_menu_requests(today);
    assert_eq!(r.len(), 7 * 16);
    for (i, request) in r.iter().enumerate() {
        assert_eq!(request.date.day_number(), today.day_number() + (i / 16) as u32);
        assert_eq!(request.meal, Meal::all()[i / 4 % 4]);
        assert_eq!(request.restaurant, Restaurant::all()[i % 4]);
    }
    assert_eq!(r[0].date, day(2024, 2, 26));
    assert_eq!(r[111].date, day(2024, 3, 3));
}

#[test]
fn all_requests_may_end_on_the_last_date() {
    let r = get_all_menu_requests(day(9999, 12, 25));
    assert_eq!(r[111].date, day(9999, 12, 31));
}

#[test]
fn get_requests_with_all_gives_the_week() {
    let today = day(2024, 2, 26);
    let r = get_requests(true, "ignored", today);
    assert_eq!(r, Ok(get_all_menu_requests(today)));
}

#[test]
fn get_requests_with_a_date_gives_that_day() {
    let r = get_requests(false, "2024-02-29", day(2020, 1, 1)).unwrap();
    assert_eq!(r, menu_requests_for_dates(&vec![day(2024, 2, 29)]));
    assert_eq!(r.len(), 16);
}

#[test]
fn get_requests_refuses_a_malformed_date() {
    let r = get_requests(false, "2024-02-30", day(2020, 1, 1));
    assert_eq!(r, Err(ParseError::Date { text: String::from("2024-02-30") }));
    let r = get_requests(false, "tomorrow", day(2020, 1, 1));
    assert_eq!(r, Err(ParseError::Date { text: String::from("tomorrow") }));
}

#[test]
fn url_names_the_hall_the_date_and_the_meal() {
    let request = MenuRequest {
        date: day(2024, 2, 28),
        meal: Meal::LateNight,
        restaurant: Restaurant::FeastAtRieber,
    };
    assert_eq!(request.url(), "http://menu.dining.ucla.edu/Menus/FeastAtRieber/2024-02-28/LateNight");
}

#[test]
fn file_name_is_date_hall_meal() {
    let request =
        MenuRequest { date: day(2024, 2, 28), meal: Meal::Lunch, restaurant: Restaurant::DeNeve };
    assert_eq!(request.file_name(false), "2024-02-28-DeNeve-Lunch");
    assert_eq!(request.file_name(true), "2024-02-28-DeNeve-Lunch-pretty");
}

#[test]
fn item_url_resolves_the_reference() {
    let absolute = ItemRequest { recipe: String::from("http://menu.dining.ucla.edu/Recipes/1/2") };
    assert_eq!(absolute.url(), "http://menu.dining.ucla.edu/Recipes/1/2");
    let secure = ItemRequest { recipe: String::from("https://example.org/r") };
    assert_eq!(secure.url(), "https://example.org/r");
    let rooted = ItemRequest { recipe: String::from("/Recipes/075000/1") };
    assert_eq!(rooted.url(), "http://menu.dining.ucla.edu/Recipes/075000/1");
    let relative = ItemRequest { recipe: String::from("Recipes/075000/1") };
    assert_eq!(relative.url(), "http://menu.dining.ucla.edu/Recipes/075000/1");
    let empty = ItemRequest { recipe: String::new() };
    assert_eq!(empty.url(), "http://menu.dining.ucla.edu/");
    let short = ItemRequest { recipe: String::from("http") };
    assert_eq!(short.url(), "http://menu.dining.ucla.edu/http");
}
