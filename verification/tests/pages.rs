use menu_scraper::catalog::{Meal, Restaurant};
use menu_scraper::date::Date;
use menu_scraper::error::ParseError;
use menu_scraper::model::{Item, ItemDetail, Menu, Section};
use menu_scraper::parse::markup::{
    attribute_value, class_is, text_after, tokenize, Attribute, Fault, FaultKind, Token,
};
use menu_scraper::parse::{parse_item, parse_menu};
use menu_scraper::request::menu_request::MenuRequest;
use menu_scraper::text::{
    chars_of, copy_range, holds, is_space_char, is_text, same_chars, scan_chars, string_of, trim,
    Class,
};

fn chars(s: &str) -> Vec<char> {
    s.chars().collect()
}

fn origin() -> MenuRequest {
    MenuRequest {
        date: Date::new(2024, 2, 28).unwrap(),
        meal: Meal::Lunch,
        restaurant: Restaurant::Covel,
    }
}

fn item(name: &str, recipe: &str) -> Item {
    Item { name: String::from(name), recipe: String::from(recipe), details: None }
}

fn menu_of(sections: Vec<Section>) -> Menu {
    Menu {
        date: Date::new(2024, 2, 28).unwrap(),
        meal: Meal::Lunch,
        restaurant: Restaurant::Covel,
        sections,
    }
}

fn open(name: &str, attributes: &[(&str, &str)]) -> Token {
    Token::Open {
        name: chars(name),
        attributes: attributes
            .iter()
            .map(|a| Attribute { name: chars(a.0), value: chars(a.1) })
            .collect(),
    }
}

fn close(name: &str) -> Token {
    Token::Close { name: chars(name) }
}

fn text(t: &str) -> Token {
    Token::Text { text: chars(t) }
}

const TWO_SECTIONS: &str = "<html><body>\n<h3 class=\"sect-item\">Entrees</h3>\n<ul>\n<li><a class=\"recipelink\" href=\"/Recipes/1\">Grilled Chicken</a></li>\n<li><a class=\"recipelink\" href=\"/Recipes/2\">Veggie Bowl</a></li>\n</ul>\n<h3 class=\"sect-item\">Desserts</h3>\n<ul>\n<li><a class=\"recipelink\" href=\"/Recipes/3\">Fruit Cup</a></li>\n</ul>\n</body></html>";

#[test]
fn two_headings_with_their_items_give_two_sections_in_order() {
    let menu = parse_menu::parse(TWO_SECTIONS, &origin()).unwrap();
    assert_eq!(
        menu,
        menu_of(vec![
            Section {
                name: String::from("Entrees"),
                items: vec![
                    item("Grilled Chicken", "/Recipes/1"),
                    item("Veggie Bowl", "/Recipes/2")
                ],
            },
            Section { name: String::from("Desserts"), items: vec![item("Fruit Cup", "/Recipes/3")] },
        ])
    );
    assert_eq!(menu.sections.len(), 2);
    assert_eq!(menu.sections[0].items.len(), 2);
    assert_eq!(menu.sections[1].items.len(), 1);
}

#[test]
fn the_menu_carries_the_request_it_was_read_for() {
    let request = MenuRequest {
        date: Date::new(2031, 7, 4).unwrap(),
        meal: Meal::LateNight,
        restaurant: Restaurant::BruinPlate,
    };
    let menu = parse_menu::parse(TWO_SECTIONS, &request).unwrap();
    assert_eq!(menu.date, request.date);
    assert_eq!(menu.meal, request.meal);
    assert_eq!(menu.restaurant, request.restaurant);
}

#[test]
fn items_nested_in_their_heading_are_read_like_the_site_writes_them() {
    let page = "<ul class=\"sect-list\">\n <li class=\"sect-item\">\n  Exhibition Kitchen\n  <ul class=\"item-list\">\n   <li class=\"menu-item\"><span class=\"tooltip-target-wrapper\"><a class=\"recipelink\" href=\"http://menu.dining.ucla.edu/Recipes/075000/1\">Grilled Chicken</a></span></li>\n  </ul>\n </li>\n</ul>";
    let menu = parse_menu::parse(page, &origin()).unwrap();
    assert_eq!(
        menu.sections,
        vec![Section {
            name: String::from("Exhibition Kitchen"),
            items: vec![item("Grilled Chicken", "http://menu.dining.ucla.edu/Recipes/075000/1")],
        }]
    );
}

#[test]
fn parsing_the_same_page_twice_gives_equal_menus() {
    let first = parse_menu::parse(TWO_SECTIONS, &origin());
    let second = parse_menu::parse(TWO_SECTIONS, &origin());
    assert_eq!(first, second);
    let first = parse_menu::parse("<p", &origin());
    let second = parse_menu::parse("<p", &origin());
    assert_eq!(first, second);
}

#[test]
fn a_page_without_headings_gives_a_menu_without_sections() {
    for page in [
        "",
        "Closed today",
        "<html><body><p>Nothing is served.</p></body></html>",
        "<a class=\"recipelink\" href=\"/Recipes/1\">Stray item</a>",
        "<h3 class=\"section\">Entrees</h3>",
        "<h3 class=\"sect-item extra\">Entrees</h3>",
        "<h3 id=\"sect-item\">Entrees</h3>",
    ] {
        assert_eq!(parse_menu::parse(page, &origin()), Ok(menu_of(Vec::new())), "{}", page);
    }
}

#[test]
fn a_heading_without_items_gives_an_empty_section() {
    let page = "<h3 class=\"sect-item\">Soups</h3><h3 class=\"sect-item\">Grill</h3><a class=\"recipelink\" href=\"/r\">Burger</a><h3 class=\"sect-item\">Bar</h3>";
    let menu = parse_menu::parse(page, &origin()).unwrap();
    assert_eq!(
        menu.sections,
        vec![
            Section { name: String::from("Soups"), items: Vec::new() },
            Section { name: String::from("Grill"), items: vec![item("Burger", "/r")] },
            Section { name: String::from("Bar"), items: Vec::new() },
        ]
    );
}

#[test]
fn an_item_before_the_first_heading_is_left_out() {
    let page = "<a class=\"recipelink\" href=\"/r/0\">Early</a><h3 class=\"sect-item\">Grill</h3><a class=\"recipelink\" href=\"/r/1\">Burger</a>";
    let menu = parse_menu::parse(page, &origin()).unwrap();
    assert_eq!(
        menu.sections,
        vec![Section { name: String::from("Grill"), items: vec![item("Burger", "/r/1")] }]
    );
}

#[test]
fn two_items_of_one_name_are_two_items() {
    let page = "<b class=\"sect-item\">A</b><a class=\"recipelink\" href=\"/r/1\">Rice</a><b class=\"sect-item\">B</b><a class=\"recipelink\" href=\"/r/2\">Rice</a><a class=\"recipelink\" href=\"/r/2\">Rice</a>";
    let menu = parse_menu::parse(page, &origin()).unwrap();
    assert_eq!(menu.sections[0].items, vec![item("Rice", "/r/1")]);
    assert_eq!(menu.sections[1].items, vec![item("Rice", "/r/2"), item("Rice", "/r/2")]);
}

#[test]
fn names_are_trimmed_and_missing_parts_are_empty() {
    let page = "<li class='sect-item'>\n\t Salad Bar \r\n</li><a class=recipelink>  Caesar  Salad </a><a class=\"recipelink\" href=\"/r/9\"><b>Bold</b></a><li class=\"sect-item\">";
    let menu = parse_menu::parse(page, &origin()).unwrap();
    assert_eq!(
        menu.sections,
        vec![
            Section {
                name: String::from("Salad Bar"),
                items: vec![item("Caesar  Salad", ""), item("", "/r/9")],
            },
            Section { name: String::new(), items: Vec::new() },
        ]
    );
}

#[test]
fn a_page_that_cannot_be_cut_into_tags_is_refused() {
    let page = "<h3 class=\"sect-item\">Entrees</h3><a class=\"recipelink\" href=\"/r";
    assert_eq!(
        parse_menu::parse(page, &origin()),
        Err(ParseError::Menu {
            request: origin(),
            fault: Fault { kind: FaultKind::UnterminatedTag, at: 34 },
        })
    );
    assert_eq!(
        parse_menu::parse("<", &origin()),
        Err(ParseError::Menu {
            request: origin(),
            fault: Fault { kind: FaultKind::UnterminatedTag, at: 0 },
        })
    );
    assert_eq!(
        parse_menu::parse("ab<>cd", &origin()),
        Err(ParseError::Menu {
            request: origin(),
            fault: Fault { kind: FaultKind::UnnamedTag, at: 2 },
        })
    );
    assert_eq!(
        parse_menu::parse("<p></ >", &origin()),
        Err(ParseError::Menu {
            request: origin(),
            fault: Fault { kind: FaultKind::UnnamedTag, at: 3 },
        })
    );
    assert_eq!(
        parse_menu::parse("< p>", &origin()),
        Err(ParseError::Menu {
            request: origin(),
            fault: Fault { kind: FaultKind::UnnamedTag, at: 0 },
        })
    );
}

#[test]
fn the_first_fault_is_the_one_reported() {
    assert_eq!(
        tokenize(&chars("<a><><b")),
        Err(Fault { kind: FaultKind::UnnamedTag, at: 3 })
    );
    assert_eq!(
        tokenize(&chars("<a><b c<>")),
        Ok(vec![open("a", &[]), open("b", &[("c<", "")])])
    );
}

#[test]
fn tokenize_cuts_tags_and_text_in_order() {
    assert_eq!(tokenize(&chars("")), Ok(Vec::new()));
    assert_eq!(tokenize(&chars("plain > text")), Ok(vec![text("plain > text")]));
    assert_eq!(
        tokenize(&chars("<!doctype html><?xml?><a class=\"recipelink\" href='/r/1'>Grilled Chicken</a> end")),
        Ok(vec![
            Token::Declaration,
            Token::Declaration,
            open("a", &[("class", "recipelink"), ("href", "/r/1")]),
            text("Grilled Chicken"),
            close("a"),
            text(" end"),
        ])
    );
    assert_eq!(
        tokenize(&chars("<br/><img src=x.png alt><p  id = z  >")),
        Ok(vec![
            open("br", &[]),
            open("img", &[("src", "x.png"), ("alt", "")]),
            open("p", &[("id", ""), ("z", "")]),
        ])
    );
    assert_eq!(tokenize(&chars("</ li >")), Ok(vec![close("li")]));
}

#[test]
fn attribute_values_end_at_their_quote_or_at_a_space() {
    assert_eq!(
        tokenize(&chars("<a title=\"it's\" data='say \"hi\"' x=\"open y=1>")),
        Ok(vec![open("a", &[("title", "it's"), ("data", "say \"hi\""), ("x", "open y=1")])])
    );
    assert_eq!(
        tokenize(&chars("<a href=/r/1/ class=>")),
        Ok(vec![open("a", &[("href", "/r/1/"), ("class", "")])])
    );
    assert_eq!(tokenize(&chars("<a =b>")), Ok(vec![open("a", &[("b", "")])]));
}

#[test]
fn attribute_value_gives_the_first_of_that_name() {
    let token = open("a", &[("class", "one"), ("href", "/r"), ("class", "two")]);
    assert_eq!(attribute_value(&token, "class"), Some(chars("one")));
    assert_eq!(attribute_value(&token, "href"), Some(chars("/r")));
    assert_eq!(attribute_value(&token, "id"), None);
    assert_eq!(attribute_value(&close("a"), "class"), None);
    assert_eq!(attribute_value(&text("class"), "class"), None);
    assert!(class_is(&token, "one"));
    assert!(!class_is(&token, "two"));
    assert!(!class_is(&Token::Declaration, ""));
}

#[test]
fn text_after_gives_the_text_that_follows_directly() {
    let tokens = vec![open("a", &[]), text("  x y\n"), open("b", &[]), close("b")];
    assert_eq!(text_after(&tokens, 0), chars("x y"));
    assert_eq!(text_after(&tokens, 1), chars(""));
    assert_eq!(text_after(&tokens, 2), chars(""));
    assert_eq!(text_after(&tokens, 3), chars(""));
}

#[test]
fn an_item_page_gives_its_fields() {
    let page = "<div class=\"nfbox\">\n<p class=\"serving-size\">Serving Size 7.5 oz</p>\n<p class=\"calories\"> 320 </p>\n<span class=\"total-fat\">17.8g</span>\n<span class=\"carbohydrate\">12g</span>\n<span class=\"protein\">27.1g</span>\n</div>\n<p class=\"ingredients\">Chicken, Olive Oil, Salt</p>\n<p class=\"allergens\">Soy</p>";
    assert_eq!(
        parse_item::parse(page),
        Ok(ItemDetail {
            serving_size: Some(String::from("Serving Size 7.5 oz")),
            calories: Some(String::from("320")),
            total_fat: Some(String::from("17.8g")),
            carbohydrate: Some(String::from("12g")),
            protein: Some(String::from("27.1g")),
            ingredients: Some(String::from("Chicken, Olive Oil, Salt")),
            allergens: Some(String::from("Soy")),
        })
    );
}

#[test]
fn a_field_that_the_item_page_lacks_is_empty() {
    let page = "<p class=\"calories\">90</p><p class=\"allergens\"></p><p class=\"calories\">95</p>";
    assert_eq!(
        parse_item::parse(page),
        Ok(ItemDetail {
            serving_size: None,
            calories: Some(String::from("90")),
            total_fat: None,
            carbohydrate: None,
            protein: None,
            ingredients: None,
            allergens: Some(String::new()),
        })
    );
    let nothing = ItemDetail {
        serving_size: None,
        calories: None,
        total_fat: None,
        carbohydrate: None,
        protein: None,
        ingredients: None,
        allergens: None,
    };
    assert_eq!(parse_item::parse(""), Ok(nothing.clone()));
    assert_eq!(parse_item::parse("<html><body>Not found</body></html>"), Ok(nothing));
}

#[test]
fn an_item_page_that_cannot_be_cut_into_tags_is_refused() {
    assert_eq!(
        parse_item::parse("<p class=\"calories\">90</p><p"),
        Err(ParseError::Item { fault: Fault { kind: FaultKind::UnterminatedTag, at: 26 } })
    );
    assert_eq!(
        parse_item::parse("<p></>"),
        Err(ParseError::Item { fault: Fault { kind: FaultKind::UnnamedTag, at: 3 } })
    );
}

#[test]
fn a_page_in_another_script_is_cut_by_characters() {
    let page = "<li class=\"sect-item\">Entrées</li><a class=\"recipelink\" href=\"/r/é\">Crème brûlée</a><";
    assert_eq!(
        parse_menu::parse(page, &origin()),
        Err(ParseError::Menu {
            request: origin(),
            fault: Fault { kind: FaultKind::UnterminatedTag, at: 84 },
        })
    );
    let menu = parse_menu::parse(&page[..page.len() - 1], &origin()).unwrap();
    assert_eq!(
        menu.sections,
        vec![Section { name: String::from("Entrées"), items: vec![item("Crème brûlée", "/r/é")] }]
    );
}

#[test]
fn scans_stop_where_they_should() {
    let s = chars("ab  c/d=e");
    assert_eq!(scan_chars(&s, 0, Class::Space, true), 2);
    assert_eq!(scan_chars(&s, 2, Class::Space, false), 4);
    assert_eq!(scan_chars(&s, 4, Class::Gap, true), 5);
    assert_eq!(scan_chars(&s, 6, Class::Stop, true), 7);
    assert_eq!(scan_chars(&s, 0, Class::Is('='), true), 7);
    assert_eq!(scan_chars(&s, 0, Class::Is('x'), true), 9);
    assert_eq!(scan_chars(&s, 9, Class::Space, true), 9);
    assert_eq!(scan_chars(&s, 0, Class::Is('a'), false), 1);
    assert!(holds(Class::Space, '\t') && holds(Class::Space, '\r') && holds(Class::Space, '\n'));
    assert!(!holds(Class::Space, '/') && holds(Class::Gap, '/') && !holds(Class::Gap, '='));
    assert!(holds(Class::Stop, '=') && holds(Class::Stop, ' ') && !holds(Class::Stop, 'a'));
    assert!(is_space_char(' ') && !is_space_char('\u{a0}'));
}

#[test]
fn trim_cuts_the_spaces_at_both_ends() {
    assert_eq!(trim(&chars("  a b \t\r\n")), chars("a b"));
    assert_eq!(trim(&chars("a")), chars("a"));
    assert_eq!(trim(&chars(" \n ")), chars(""));
    assert_eq!(trim(&chars("")), chars(""));
}

#[test]
fn texts_are_copied_and_compared_by_characters() {
    assert_eq!(chars_of("héllo"), chars("héllo"));
    assert_eq!(string_of(&chars("héllo")), "héllo");
    assert_eq!(copy_range(&chars("héllo"), 1, 3), chars("él"));
    assert_eq!(copy_range(&chars("héllo"), 2, 2), chars(""));
    assert!(same_chars(&chars("ab"), &chars("ab")));
    assert!(!same_chars(&chars("ab"), &chars("ac")));
    assert!(!same_chars(&chars("ab"), &chars("abc")));
    assert!(is_text(&chars("sect-item"), "sect-item"));
    assert!(!is_text(&chars("sect-item "), "sect-item"));
}
