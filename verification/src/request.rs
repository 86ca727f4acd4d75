//! What to fetch: the descriptor of a menu page, that of an item's page, and
//! the enumeration of the menu pages for a run of dates.

pub mod item_request;
pub mod menu_request;
