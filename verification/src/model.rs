//! The menu of one meal at one dining hall on one date: sections of items,
//! each item with room for the record of its nutrition page.

use crate::catalog::{Meal, Restaurant};
use crate::date::{date_text, Date};
use crate::request::item_request::ItemRequest;
use vstd::prelude::*;
use vstd::string::StringExecFns;

verus! {

pub open spec fn text_view(o: Option<String>) -> Option<Seq<char>> {
    match o {
        Some(s) => Some(s@),
        None => None,
    }
}

/// The record of an item's nutrition page. A field that the page does not
/// give is `None`.
#[derive(Clone, Debug, PartialEq, Eq)]
pub struct ItemDetail {
    pub serving_size: Option<String>,
    pub calories: Option<String>,
    pub total_fat: Option<String>,
    pub carbohydrate: Option<String>,
    pub protein: Option<String>,
    pub ingredients: Option<String>,
    pub allergens: Option<String>,
}

pub struct ItemDetailView {
    pub serving_size: Option<Seq<char>>,
    pub calories: Option<Seq<char>>,
    pub total_fat: Option<Seq<char>>,
    pub carbohydrate: Option<Seq<char>>,
    pub protein: Option<Seq<char>>,
    pub ingredients: Option<Seq<char>>,
    pub allergens: Option<Seq<char>>,
}

impl View for ItemDetail {
    type V = ItemDetailView;

    open spec fn view(&self) -> ItemDetailView {
        ItemDetailView {
            serving_size: text_view(self.serving_size),
            calories: text_view(self.calories),
            total_fat: text_view(self.total_fat),
            carbohydrate: text_view(self.carbohydrate),
            protein: text_view(self.protein),
            ingredients: text_view(self.ingredients),
            allergens: text_view(self.allergens),
        }
    }
}

/// One entry of a menu. `details` is empty until the item's page was read.
#[derive(Clone, Debug, PartialEq, Eq)]
pub struct Item {
    pub name: String,
    /// The reference to the item's page, as the menu page gives it.
    pub recipe: String,
    pub details: Option<ItemDetail>,
}

pub struct ItemView {
    pub name: Seq<char>,
    pub recipe: Seq<char>,
    pub details: Option<ItemDetailView>,
}

pub open spec fn detail_view(o: Option<ItemDetail>) -> Option<ItemDetailView> {
    match o {
        Some(d) => Some(d@),
        None => None,
    }
}

impl View for Item {
    type V = ItemView;

    open spec fn view(&self) -> ItemView {
        ItemView { name: self.name@, recipe: self.recipe@, details: detail_view(self.details) }
    }
}

pub open spec fn item_views(v: Seq<Item>) -> Seq<ItemView> {
    v.map_values(|i: Item| i@)
}

/// A named group of items, in the order of the page.
#[derive(Clone, Debug, PartialEq, Eq)]
pub struct Section {
    pub name: String,
    pub items: Vec<Item>,
}

pub struct SectionView {
    pub name: Seq<char>,
    pub items: Seq<ItemView>,
}

impl View for Section {
    type V = SectionView;

    open spec fn view(&self) -> SectionView {
        SectionView { name: self.name@, items: item_views(self.items@) }
    }
}

pub open spec fn section_views(v: Seq<Section>) -> Seq<SectionView> {
    v.map_values(|s: Section| s@)
}

/// The menu of one request, its sections in the order of the page.
#[derive(Clone, Debug, PartialEq, Eq)]
pub struct Menu {
    pub date: Date,
    pub meal: Meal,
    pub restaurant: Restaurant,
    pub sections: Vec<Section>,
}

pub struct MenuView {
    pub date: Date,
    pub meal: Meal,
    pub restaurant: Restaurant,
    pub sections: Seq<SectionView>,
}

impl View for Menu {
    type V = MenuView;

    open spec fn view(&self) -> MenuView {
        MenuView {
            date: self.date,
            meal: self.meal,
            restaurant: self.restaurant,
            sections: section_views(self.sections@),
        }
    }
}

/// Whether the menu has an item at place `i` of its section `s`.
pub open spec fn has_item(m: MenuView, s: int, i: int) -> bool {
    0 <= s < m.sections.len() && 0 <= i < m.sections[s].items.len()
}

/// The menu `m` with the record `d` in the item at place `i` of section `s`.
pub open spec fn with_details(m: MenuView, s: int, i: int, d: ItemDetailView) -> MenuView {
    let section = m.sections[s];
    let item = section.items[i];
    MenuView {
        sections: m.sections.update(
            s,
            SectionView {
                name: section.name,
                items: section.items.update(i, ItemView { details: Some(d), ..item }),
            },
        ),
        ..m
    }
}

/// Putting a record into one item fills that item's room, and changes
/// nothing else: not its name or reference, no other item, no section's name
/// and no order.
pub proof fn lemma_with_details(m: MenuView, s: int, i: int, d: ItemDetailView)
    requires
        has_item(m, s, i),
    ensures
        with_details(m, s, i, d).sections.len() == m.sections.len(),
        forall|k: int|
            0 <= k < m.sections.len() ==> (#[trigger] with_details(m, s, i, d).sections[k]).name
                == m.sections[k].name && with_details(m, s, i, d).sections[k].items.len()
                == m.sections[k].items.len(),
        forall|k: int, j: int|
            0 <= k < m.sections.len() && 0 <= j < m.sections[k].items.len() && (k != s || j != i)
                ==> (#[trigger] with_details(m, s, i, d).sections[k].items[j])
                == m.sections[k].items[j],
        with_details(m, s, i, d).sections[s].items[i] == (ItemView {
            details: Some(d),
            ..m.sections[s].items[i]
        }),
{
}

/// The line of an item in the text of a menu.
pub open spec fn item_text(i: ItemView) -> Seq<char> {
    "  - "@ + i.name + "\n"@
}

/// The lines of the first `n` items.
pub open spec fn items_text(items: Seq<ItemView>, n: int) -> Seq<char>
    decreases n,
{
    if n <= 0 || n > items.len() {
        Seq::empty()
    } else {
        items_text(items, n - 1) + item_text(items[n - 1])
    }
}

/// The text of a section: its name on a line, then its items in their order.
pub open spec fn section_text(s: SectionView) -> Seq<char> {
    s.name + "\n"@ + items_text(s.items, s.items.len() as int)
}

/// The texts of the first `n` sections.
pub open spec fn sections_text(sections: Seq<SectionView>, n: int) -> Seq<char>
    decreases n,
{
    if n <= 0 || n > sections.len() {
        Seq::empty()
    } else {
        sections_text(sections, n - 1) + section_text(sections[n - 1])
    }
}

/// The text of a menu for a reader: a line that names the meal, the dining
/// hall and the date, then the sections in their order.
pub open spec fn menu_text(m: MenuView) -> Seq<char> {
    m.meal.spec_name() + " at "@ + m.restaurant.spec_name() + " on "@ + date_text(m.date@) + "\n"@
        + sections_text(m.sections, m.sections.len() as int)
}

impl Item {
    /// Puts the record of the item's page into the item, in place of any
    /// record that it held.
    pub fn set_details(&mut self, detail: ItemDetail)
        ensures
            final(self)@ == (ItemView { details: Some(detail@), ..old(self)@ }),
    {
        self.details = Some(detail);
    }

    /// The request for the item's page.
    pub fn details_request(&self) -> (r: ItemRequest)
        ensures
            r@ == self@.recipe,
    {
        ItemRequest { recipe: self.recipe.clone() }
    }
}

impl Section {
    /// The text of the section for a reader.
    pub fn render(&self) -> (r: String)
        ensures
            r@ == section_text(self@),
    {
        let mut r = self.name.clone();
        r.append("\n");
        let ghost head = r@;
        let mut i: usize = 0;
        assert(head + items_text(self@.items, 0) =~= head);
        while i < self.items.len()
            invariant
                i <= self.items.len(),
                r@ == head + items_text(self@.items, i as int),
            decreases self.items.len() - i,
        {
            let ghost before = items_text(self@.items, i as int);
            r.append("  - ");
            r.append(self.items[i].name.as_str());
            r.append("\n");
            i = i + 1;
            assert(self@.items[i - 1] == self.items[i - 1]@);
            assert(r@ =~= head + (before + item_text(self@.items[i - 1])));
        }
        r
    }
}

impl Menu {
    /// Puts the record of an item's page into the item at place `i` of
    /// section `s`, where the menu has one; else the menu stays as it is.
    pub fn set_details_at(&mut self, s: usize, i: usize, detail: ItemDetail) -> (done: bool)
        ensures
            done == has_item(old(self)@, s as int, i as int),
            done ==> final(self)@ == with_details(old(self)@, s as int, i as int, detail@),
            !done ==> final(self)@ == old(self)@,
    {
        if s < self.sections.len() && i < self.sections[s].items.len() {
            let ghost before = self@;
            let ghost items_before = item_views(self.sections[s as int].items@);
            self.sections[s].items[i].set_details(detail);
            assert(item_views(self.sections[s as int].items@) =~= items_before.update(
                i as int,
                ItemView { details: Some(detail@), ..items_before[i as int] },
            ));
            assert(self@.sections =~= with_details(before, s as int, i as int, detail@).sections);
            true
        } else {
            false
        }
    }

    /// The text of the menu for a reader.
    pub fn render(&self) -> (r: String)
        ensures
            r@ == menu_text(self@),
    {
        let mut r = String::from_str(self.meal.name());
        r.append(" at ");
        r.append(self.restaurant.name());
        r.append(" on ");
        r.append(self.date.to_text().as_str());
        r.append("\n");
        let ghost head = r@;
        let mut i: usize = 0;
        assert(head + sections_text(self@.sections, 0) =~= head);
        while i < self.sections.len()
            invariant
                i <= self.sections.len(),
                r@ == head + sections_text(self@.sections, i as int),
            decreases self.sections.len() - i,
        {
            let ghost before = sections_text(self@.sections, i as int);
            r.append(self.sections[i].render().as_str());
            i = i + 1;
            assert(self@.sections[i - 1] == self.sections[i - 1]@);
            assert(r@ =~= head + (before + section_text(self@.sections[i - 1])));
        }
        r
    }
}

} // verus!
