//! Readers of the site's pages: the markup itself, a menu page, an item's page.

pub mod markup;
pub mod parse_item;
pub mod parse_menu;
