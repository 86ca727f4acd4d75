//! The descriptor of an item's nutrition page.

use crate::text::{chars_of, copy_range, same_chars, string_of};
use vstd::prelude::*;
use vstd::string::StringExecFns;

verus! {

/// The page of one item: the reference that the menu page gave for it.
#[derive(Clone, Debug, PartialEq, Eq)]
pub struct ItemRequest {
    pub recipe: String,
}

impl View for ItemRequest {
    type V = Seq<char>;

    open spec fn view(&self) -> Seq<char> {
        self.recipe@
    }
}

pub open spec fn begins_with(t: Seq<char>, prefix: Seq<char>) -> bool {
    prefix.len() <= t.len() && t.subrange(0, prefix.len() as int) == prefix
}

/// The address of an item's page: the reference itself where it is a whole
/// address, else the reference on the site.
pub open spec fn item_url_text(recipe: Seq<char>) -> Seq<char> {
    if begins_with(recipe, "http://"@) || begins_with(recipe, "https://"@) {
        recipe
    } else if begins_with(recipe, "/"@) {
        "http://menu.dining.ucla.edu"@ + recipe
    } else {
        "http://menu.dining.ucla.edu/"@ + recipe
    }
}

fn starts_with(t: &Vec<char>, prefix: &str) -> (r: bool)
    ensures
        r == begins_with(t@, prefix@),
{
    let p = chars_of(prefix);
    if p.len() > t.len() {
        false
    } else {
        let head = copy_range(t, 0, p.len());
        same_chars(&head, &p)
    }
}

impl ItemRequest {
    pub fn url(&self) -> (r: String)
        ensures
            r@ == item_url_text(self@),
    {
        let t = chars_of(self.recipe.as_str());
        if starts_with(&t, "http://") || starts_with(&t, "https://") {
            string_of(&t)
        } else if starts_with(&t, "/") {
            let mut r = String::from_str("http://menu.dining.ucla.edu");
            r.append(self.recipe.as_str());
            r
        } else {
            let mut r = String::from_str("http://menu.dining.ucla.edu/");
            r.append(self.recipe.as_str());
            r
        }
    }
}

} // verus!
