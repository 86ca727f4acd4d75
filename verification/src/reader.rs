//! The reader of menu documents: what `to_json` wrote, read back.
//!
//! The reader takes the full document of a menu, and any document that
//! leaves out, or gives as nothing, the record of an item or a field of such a
//! record. Every other field has to be there, with a value of its kind. Where
//! a record names a field twice, the later one counts.

use crate::catalog::{Meal, Restaurant};
use crate::date::{
    date_of, lemma_date_of_view, lemma_text_round_trip, parsed_date, valid_date, Date,
};
use crate::document::{
    detail_json, field_views, item_json, json_views, lemma_list_view, lemma_record_view,
    menu_json, menu_json_min, named, optional_json, present, pruned, pruned_fields,
    section_json, FieldView, Json, JsonView,
};
use crate::model::{
    detail_view, item_views, section_views, text_view, Item, ItemDetail, ItemDetailView,
    ItemView, Menu, MenuView, Section, SectionView,
};
use crate::text::chars_of;
use vstd::prelude::*;
use vstd::string::StringExecFns;

verus! {

/// The value of the last of the first `n` fields that has the given name.
pub open spec fn field_upto(fields: Seq<FieldView>, key: Seq<char>, n: int) -> Option<JsonView>
    decreases n,
{
    if n <= 0 || n > fields.len() {
        None
    } else if fields[n - 1].key == key {
        Some(fields[n - 1].value)
    } else {
        field_upto(fields, key, n - 1)
    }
}

/// The value that a record gives under a name.
pub open spec fn member(d: JsonView, key: Seq<char>) -> Option<JsonView> {
    match d {
        JsonView::Record(fields) => field_upto(fields, key, fields.len() as int),
        _ => None,
    }
}

/// The text that a record gives under a name.
pub open spec fn text_member(d: JsonView, key: Seq<char>) -> Option<Seq<char>> {
    match member(d, key) {
        Some(JsonView::Text(t)) => Some(t),
        _ => None,
    }
}

/// The text that a record may give under a name: `Some(None)` where it has
/// no such field or gives nothing under it, `None` where it gives something
/// that is no text.
pub open spec fn optional_member(d: JsonView, key: Seq<char>) -> Option<Option<Seq<char>>> {
    match member(d, key) {
        None => Some(None),
        Some(JsonView::Null) => Some(None),
        Some(JsonView::Text(t)) => Some(Some(t)),
        Some(_) => None,
    }
}

/// The record of an item's page that a document holds.
pub open spec fn read_detail(d: JsonView) -> Option<ItemDetailView> {
    if d is Record && optional_member(d, "serving_size"@) is Some && optional_member(
        d,
        "calories"@,
    ) is Some && optional_member(d, "total_fat"@) is Some && optional_member(d, "carbohydrate"@)
        is Some && optional_member(d, "protein"@) is Some && optional_member(d, "ingredients"@)
        is Some && optional_member(d, "allergens"@) is Some {
        Some(
            ItemDetailView {
                serving_size: optional_member(d, "serving_size"@)->0,
                calories: optional_member(d, "calories"@)->0,
                total_fat: optional_member(d, "total_fat"@)->0,
                carbohydrate: optional_member(d, "carbohydrate"@)->0,
                protein: optional_member(d, "protein"@)->0,
                ingredients: optional_member(d, "ingredients"@)->0,
                allergens: optional_member(d, "allergens"@)->0,
            },
        )
    } else {
        None
    }
}

/// The record that an item's document may hold under `details`: `Some(None)`
/// where it holds none, `None` where what it holds cannot be read.
pub open spec fn read_details(d: JsonView) -> Option<Option<ItemDetailView>> {
    match member(d, "details"@) {
        None => Some(None),
        Some(JsonView::Null) => Some(None),
        Some(x) => match read_detail(x) {
            Some(v) => Some(Some(v)),
            None => None,
        },
    }
}

/// The item that a document holds.
pub open spec fn read_item(d: JsonView) -> Option<ItemView> {
    if text_member(d, "name"@) is Some && text_member(d, "recipe"@) is Some && read_details(d)
        is Some {
        Some(
            ItemView {
                name: text_member(d, "name"@)->0,
                recipe: text_member(d, "recipe"@)->0,
                details: read_details(d)->0,
            },
        )
    } else {
        None
    }
}

/// The items that the documents of a list hold, where each holds one.
pub open spec fn read_items(list: Seq<JsonView>) -> Option<Seq<ItemView>> {
    if forall|i: int| 0 <= i < list.len() ==> (#[trigger] read_item(list[i])) is Some {
        Some(Seq::new(list.len(), |i: int| read_item(list[i])->0))
    } else {
        None
    }
}

/// The section that a document holds.
pub open spec fn read_section(d: JsonView) -> Option<SectionView> {
    match (text_member(d, "name"@), member(d, "items"@)) {
        (Some(name), Some(JsonView::List(list))) => match read_items(list) {
            Some(items) => Some(SectionView { name, items }),
            None => None,
        },
        _ => None,
    }
}

/// The sections that the documents of a list hold, where each holds one.
pub open spec fn read_sections(list: Seq<JsonView>) -> Option<Seq<SectionView>> {
    if forall|i: int| 0 <= i < list.len() ==> (#[trigger] read_section(list[i])) is Some {
        Some(Seq::new(list.len(), |i: int| read_section(list[i])->0))
    } else {
        None
    }
}

/// The date that a document gives under `date`.
pub open spec fn read_date(d: JsonView) -> Option<Date> {
    match text_member(d, "date"@) {
        Some(t) => match parsed_date(t) {
            Some(v) => Some(date_of(v)),
            None => None,
        },
        None => None,
    }
}

/// The meal that a document gives under `meal`.
pub open spec fn read_meal(d: JsonView) -> Option<Meal> {
    match text_member(d, "meal"@) {
        Some(t) => Meal::named(t),
        None => None,
    }
}

/// The dining hall that a document gives under `restaurant`.
pub open spec fn read_restaurant(d: JsonView) -> Option<Restaurant> {
    match text_member(d, "restaurant"@) {
        Some(t) => Restaurant::named(t),
        None => None,
    }
}

/// The menu that a document holds, if it holds one.
pub open spec fn read_menu(d: JsonView) -> Option<MenuView> {
    match (read_date(d), read_meal(d), read_restaurant(d), member(d, "sections"@)) {
        (Some(date), Some(meal), Some(restaurant), Some(JsonView::List(list))) => {
            match read_sections(list) {
                Some(sections) => Some(MenuView { date, meal, restaurant, sections }),
                None => None,
            }
        },
        _ => None,
    }
}

/// A field is found under its name where no field after it has that name.
pub proof fn lemma_field_at(fields: Seq<FieldView>, key: Seq<char>, at: int, n: int)
    requires
        0 <= at < n <= fields.len(),
        fields[at].key == key,
        forall|k: int| at < k < n ==> (#[trigger] fields[k]).key != key,
    ensures
        field_upto(fields, key, n) == Some(fields[at].value),
    decreases n - at,
{
    if at < n - 1 {
        lemma_field_at(fields, key, at, n - 1);
    }
}

/// The names of the fields of the documents differ from each other.
proof fn lemma_names_differ()
    ensures
        "date"@ != "meal"@,
        "date"@ != "restaurant"@,
        "date"@ != "sections"@,
        "meal"@ != "restaurant"@,
        "meal"@ != "sections"@,
        "restaurant"@ != "sections"@,
        "name"@ != "items"@,
        "name"@ != "recipe"@,
        "name"@ != "details"@,
        "recipe"@ != "details"@,
{
    reveal_strlit("date");
    reveal_strlit("meal");
    reveal_strlit("restaurant");
    reveal_strlit("sections");
    reveal_strlit("name");
    reveal_strlit("items");
    reveal_strlit("recipe");
    reveal_strlit("details");
    assert("date"@[0] == 'd');
    assert("meal"@[0] == 'm');
    assert("date"@.len() == 4);
    assert("meal"@.len() == 4);
    assert("restaurant"@.len() == 10);
    assert("sections"@.len() == 8);
    assert("name"@.len() == 4);
    assert("items"@.len() == 5);
    assert("recipe"@.len() == 6);
    assert("details"@.len() == 7);
}

/// The names of the fields of an item's record differ from each other.
proof fn lemma_detail_names_differ()
    ensures
        "serving_size"@ != "calories"@,
        "serving_size"@ != "total_fat"@,
        "serving_size"@ != "carbohydrate"@,
        "serving_size"@ != "protein"@,
        "serving_size"@ != "ingredients"@,
        "serving_size"@ != "allergens"@,
        "calories"@ != "total_fat"@,
        "calories"@ != "carbohydrate"@,
        "calories"@ != "protein"@,
        "calories"@ != "ingredients"@,
        "calories"@ != "allergens"@,
        "total_fat"@ != "carbohydrate"@,
        "total_fat"@ != "protein"@,
        "total_fat"@ != "ingredients"@,
        "total_fat"@ != "allergens"@,
        "carbohydrate"@ != "protein"@,
        "carbohydrate"@ != "ingredients"@,
        "carbohydrate"@ != "allergens"@,
        "protein"@ != "ingredients"@,
        "protein"@ != "allergens"@,
        "ingredients"@ != "allergens"@,
{
    reveal_strlit("serving_size");
    reveal_strlit("calories");
    reveal_strlit("total_fat");
    reveal_strlit("carbohydrate");
    reveal_strlit("protein");
    reveal_strlit("ingredients");
    reveal_strlit("allergens");
    assert("serving_size"@.len() == 12);
    assert("calories"@.len() == 8);
    assert("total_fat"@.len() == 9);
    assert("carbohydrate"@.len() == 12);
    assert("protein"@.len() == 7);
    assert("ingredients"@.len() == 11);
    assert("allergens"@.len() == 9);
    assert("serving_size"@[0] == 's');
    assert("carbohydrate"@[0] == 'c');
    assert("total_fat"@[0] == 't');
    assert("allergens"@[0] == 'a');
}

/// A text that may be missing is read back from its document.
proof fn lemma_optional_at(fields: Seq<FieldView>, key: Seq<char>, at: int, o: Option<Seq<char>>)
    requires
        0 <= at < fields.len(),
        fields[at] == named(key, optional_json(o)),
        forall|k: int| at < k < fields.len() ==> (#[trigger] fields[k]).key != key,
    ensures
        optional_member(JsonView::Record(fields), key) == Some(o),
{
    lemma_field_at(fields, key, at, fields.len() as int);
}

/// The record of an item's page is read back from its full document.
pub proof fn lemma_read_detail(d: ItemDetailView)
    ensures
        read_detail(detail_json(d)) == Some(d),
{
    lemma_detail_names_differ();
    let fields = detail_json(d)->Record_0;
    lemma_optional_at(fields, "serving_size"@, 0, d.serving_size);
    lemma_optional_at(fields, "calories"@, 1, d.calories);
    lemma_optional_at(fields, "total_fat"@, 2, d.total_fat);
    lemma_optional_at(fields, "carbohydrate"@, 3, d.carbohydrate);
    lemma_optional_at(fields, "protein"@, 4, d.protein);
    lemma_optional_at(fields, "ingredients"@, 5, d.ingredients);
    lemma_optional_at(fields, "allergens"@, 6, d.allergens);
}

/// An item is read back from its full document.
pub proof fn lemma_read_item(i: ItemView)
    ensures
        read_item(item_json(i)) == Some(i),
{
    lemma_names_differ();
    let fields = item_json(i)->Record_0;
    lemma_field_at(fields, "name"@, 0, 3);
    lemma_field_at(fields, "recipe"@, 1, 3);
    lemma_field_at(fields, "details"@, 2, 3);
    match i.details {
        Some(d) => {
            lemma_read_detail(d);
        },
        None => {},
    }
}

/// A section is read back from its full document, with its items in their order.
pub proof fn lemma_read_section(s: SectionView)
    ensures
        read_section(section_json(s)) == Some(s),
{
    lemma_names_differ();
    let fields = section_json(s)->Record_0;
    lemma_field_at(fields, "name"@, 0, 2);
    lemma_field_at(fields, "items"@, 1, 2);
    let list = Seq::new(s.items.len(), |i: int| item_json(s.items[i]));
    assert forall|i: int| 0 <= i < list.len() implies (#[trigger] read_item(list[i])) == Some(
        s.items[i],
    ) by {
        lemma_read_item(s.items[i]);
    }
    assert(read_items(list)->0 =~= s.items);
}

/// Reading the full document of a menu gives the menu back: the same
/// sections and items, in the same order, with the same records.
pub proof fn lemma_round_trip(m: MenuView)
    requires
        valid_date(m.date@),
    ensures
        read_menu(menu_json(m)) == Some(m),
{
    lemma_names_differ();
    let fields = menu_json(m)->Record_0;
    lemma_field_at(fields, "date"@, 0, 4);
    lemma_field_at(fields, "meal"@, 1, 4);
    lemma_field_at(fields, "restaurant"@, 2, 4);
    lemma_field_at(fields, "sections"@, 3, 4);
    lemma_text_round_trip(m.date@);
    lemma_date_of_view(m.date);
    m.meal.lemma_named();
    m.restaurant.lemma_named();
    let list = Seq::new(m.sections.len(), |i: int| section_json(m.sections[i]));
    assert forall|i: int| 0 <= i < list.len() implies (#[trigger] read_section(list[i])) == Some(
        m.sections[i],
    ) by {
        lemma_read_section(m.sections[i]);
    }
    assert(read_sections(list)->0 =~= m.sections);
}

/// The value of the last of the first `n` fields that has the given name
/// and holds something.
pub open spec fn kept_upto(fields: Seq<FieldView>, key: Seq<char>, n: int) -> Option<JsonView>
    decreases n,
{
    if n <= 0 || n > fields.len() {
        None
    } else if fields[n - 1].key == key && fields[n - 1].value != JsonView::Null {
        Some(fields[n - 1].value)
    } else {
        kept_upto(fields, key, n - 1)
    }
}

/// What is found among the first `n` fields depends on those fields alone.
proof fn lemma_lookup_prefix(a: Seq<FieldView>, b: Seq<FieldView>, key: Seq<char>, n: int)
    requires
        0 <= n <= a.len(),
        n <= b.len(),
        forall|k: int| 0 <= k < n ==> a[k] == b[k],
    ensures
        field_upto(a, key, n) == field_upto(b, key, n),
    decreases n,
{
    if n > 0 {
        lemma_lookup_prefix(a, b, key, n - 1);
    }
}

/// Looking a name up among the fields that hold something finds the last
/// field of that name that holds something.
proof fn lemma_lookup_filtered(fields: Seq<FieldView>, key: Seq<char>, n: int)
    requires
        0 <= n <= fields.len(),
    ensures
        field_upto(
            fields.take(n).filter(present()),
            key,
            fields.take(n).filter(present()).len() as int,
        ) == kept_upto(fields, key, n),
    decreases n,
{
    let kept = fields.take(n).filter(present());
    if n == 0 {
        fields.take(0).lemma_filter_len(present());
    } else {
        let x = fields[n - 1];
        let before = fields.take(n - 1).filter(present());
        assert(fields.take(n) =~= fields.take(n - 1).push(x));
        fields.take(n - 1).lemma_filter_push(x, present());
        lemma_lookup_filtered(fields, key, n - 1);
        if x.value != JsonView::Null {
            assert(kept == before.push(x));
            if x.key != key {
                lemma_lookup_prefix(kept, before, key, before.len() as int);
            }
        }
    }
}

/// No field is found under a name that none of the first `n` fields has.
proof fn lemma_kept_none(fields: Seq<FieldView>, key: Seq<char>, n: int)
    requires
        0 <= n <= fields.len(),
        forall|k: int| 0 <= k < n ==> (#[trigger] fields[k]).key != key,
    ensures
        kept_upto(fields, key, n) is None,
    decreases n,
{
    if n > 0 {
        lemma_kept_none(fields, key, n - 1);
    }
}

/// Where one field alone has a name, that field is found under it if it
/// holds something, and nothing is found under it if it does not.
proof fn lemma_kept_at(fields: Seq<FieldView>, key: Seq<char>, at: int, n: int)
    requires
        0 <= at < n <= fields.len(),
        fields[at].key == key,
        forall|k: int| 0 <= k < n && k != at ==> (#[trigger] fields[k]).key != key,
    ensures
        kept_upto(fields, key, n) == if fields[at].value != JsonView::Null {
            Some(fields[at].value)
        } else {
            None
        },
    decreases n,
{
    if n - 1 == at {
        lemma_kept_none(fields, key, at);
    } else {
        lemma_kept_at(fields, key, at, n - 1);
    }
}

/// What the minimal form of a record gives under the name that its field at
/// `at` alone has: the minimal form of that field's value, if that holds
/// something.
proof fn lemma_member_min(fields: Seq<FieldView>, key: Seq<char>, at: int)
    requires
        0 <= at < fields.len(),
        fields[at].key == key,
        forall|k: int| 0 <= k < fields.len() && k != at ==> (#[trigger] fields[k]).key != key,
    ensures
        member(pruned(JsonView::Record(fields)), key) == if pruned(fields[at].value)
            != JsonView::Null {
            Some(pruned(fields[at].value))
        } else {
            None
        },
{
    let mapped = pruned_fields(fields);
    assert(mapped.take(mapped.len() as int) =~= mapped);
    lemma_lookup_filtered(mapped, key, mapped.len() as int);
    assert forall|k: int| 0 <= k < mapped.len() && k != at implies (#[trigger] mapped[k]).key
        != key by {
        assert(fields[k].key != key);
    }
    lemma_kept_at(mapped, key, at, mapped.len() as int);
}

/// A text that may be missing is read back from the minimal form of its record.
proof fn lemma_optional_min(fields: Seq<FieldView>, key: Seq<char>, at: int, o: Option<Seq<char>>)
    requires
        0 <= at < fields.len(),
        fields[at] == named(key, optional_json(o)),
        forall|k: int| 0 <= k < fields.len() && k != at ==> (#[trigger] fields[k]).key != key,
    ensures
        optional_member(pruned(JsonView::Record(fields)), key) == Some(o),
{
    lemma_member_min(fields, key, at);
}

/// The record of an item's page is read back from its minimal document.
pub proof fn lemma_read_detail_min(d: ItemDetailView)
    ensures
        read_detail(pruned(detail_json(d))) == Some(d),
{
    lemma_detail_names_differ();
    let fields = detail_json(d)->Record_0;
    lemma_optional_min(fields, "serving_size"@, 0, d.serving_size);
    lemma_optional_min(fields, "calories"@, 1, d.calories);
    lemma_optional_min(fields, "total_fat"@, 2, d.total_fat);
    lemma_optional_min(fields, "carbohydrate"@, 3, d.carbohydrate);
    lemma_optional_min(fields, "protein"@, 4, d.protein);
    lemma_optional_min(fields, "ingredients"@, 5, d.ingredients);
    lemma_optional_min(fields, "allergens"@, 6, d.allergens);
}

/// An item is read back from its minimal document.
pub proof fn lemma_read_item_min(i: ItemView)
    ensures
        read_item(pruned(item_json(i))) == Some(i),
{
    lemma_names_differ();
    let fields = item_json(i)->Record_0;
    lemma_member_min(fields, "name"@, 0);
    lemma_member_min(fields, "recipe"@, 1);
    lemma_member_min(fields, "details"@, 2);
    match i.details {
        Some(d) => {
            lemma_read_detail_min(d);
        },
        None => {},
    }
}

/// A section is read back from its minimal document, with its items in their order.
pub proof fn lemma_read_section_min(s: SectionView)
    ensures
        read_section(pruned(section_json(s))) == Some(s),
{
    lemma_names_differ();
    let fields = section_json(s)->Record_0;
    lemma_member_min(fields, "name"@, 0);
    lemma_member_min(fields, "items"@, 1);
    let list = pruned(fields[1].value)->List_0;
    assert forall|i: int| 0 <= i < list.len() implies (#[trigger] read_item(list[i])) == Some(
        s.items[i],
    ) by {
        lemma_read_item_min(s.items[i]);
    }
    assert(read_items(list)->0 =~= s.items);
}

/// The minimal document of a menu loses nothing: reading it gives the menu
/// back, with the same sections, items and records in the same order.
pub proof fn lemma_round_trip_min(m: MenuView)
    requires
        valid_date(m.date@),
    ensures
        read_menu(menu_json_min(m)) == Some(m),
{
    lemma_names_differ();
    let fields = menu_json(m)->Record_0;
    lemma_member_min(fields, "date"@, 0);
    lemma_member_min(fields, "meal"@, 1);
    lemma_member_min(fields, "restaurant"@, 2);
    lemma_member_min(fields, "sections"@, 3);
    lemma_text_round_trip(m.date@);
    lemma_date_of_view(m.date);
    m.meal.lemma_named();
    m.restaurant.lemma_named();
    let list = pruned(fields[3].value)->List_0;
    assert forall|i: int| 0 <= i < list.len() implies (#[trigger] read_section(list[i])) == Some(
        m.sections[i],
    ) by {
        lemma_read_section_min(m.sections[i]);
    }
    assert(read_sections(list)->0 =~= m.sections);
}

/// The value that a record gives under a name.
fn lookup<'a>(doc: &'a Json, key: &str) -> (r: Option<&'a Json>)
    ensures
        match r {
            Some(j) => member(doc@, key@) == Some(j@),
            None => member(doc@, key@) is None,
        },
{
    match doc {
        Json::Record(fields) => {
            proof {
                lemma_record_view(*fields);
            }
            let wanted = String::from_str(key);
            let mut n: usize = fields.len();
            while n > 0
                invariant
                    n <= fields.len(),
                    wanted@ == key@,
                    member(doc@, key@) == field_upto(field_views(fields@), key@, n as int),
                decreases n,
            {
                assert(field_views(fields@)[n - 1] == fields[n - 1]@);
                if fields[n - 1].key == wanted {
                    return Some(&fields[n - 1].value);
                }
                n = n - 1;
            }
            None
        },
        _ => None,
    }
}

fn text_of(doc: &Json, key: &str) -> (r: Option<String>)
    ensures
        text_view(r) == text_member(doc@, key@),
{
    match lookup(doc, key) {
        Some(j) => match j {
            Json::Text(t) => Some(t.clone()),
            _ => None,
        },
        None => None,
    }
}

fn optional_of(doc: &Json, key: &str) -> (r: Option<Option<String>>)
    ensures
        match r {
            Some(o) => optional_member(doc@, key@) == Some(text_view(o)),
            None => optional_member(doc@, key@) is None,
        },
{
    match lookup(doc, key) {
        Some(j) => match j {
            Json::Null => Some(None),
            Json::Text(t) => Some(Some(t.clone())),
            _ => None,
        },
        None => Some(None),
    }
}

impl ItemDetail {
    /// Reads the record of an item's page from its document.
    pub fn from_json(doc: &Json) -> (r: Option<ItemDetail>)
        ensures
            detail_view(r) == read_detail(doc@),
    {
        match doc {
            Json::Record(_) => {},
            _ => {
                return None;
            },
        }
        let serving_size = match optional_of(doc, "serving_size") {
            Some(o) => o,
            None => {
                return None;
            },
        };
        let calories = match optional_of(doc, "calories") {
            Some(o) => o,
            None => {
                return None;
            },
        };
        let total_fat = match optional_of(doc, "total_fat") {
            Some(o) => o,
            None => {
                return None;
            },
        };
        let carbohydrate = match optional_of(doc, "carbohydrate") {
            Some(o) => o,
            None => {
                return None;
            },
        };
        let protein = match optional_of(doc, "protein") {
            Some(o) => o,
            None => {
                return None;
            },
        };
        let ingredients = match optional_of(doc, "ingredients") {
            Some(o) => o,
            None => {
                return None;
            },
        };
        let allergens = match optional_of(doc, "allergens") {
            Some(o) => o,
            None => {
                return None;
            },
        };
        Some(
            ItemDetail {
                serving_size,
                calories,
                total_fat,
                carbohydrate,
                protein,
                ingredients,
                allergens,
            },
        )
    }
}

impl Item {
    /// Reads an item from its document.
    pub fn from_json(doc: &Json) -> (r: Option<Item>)
        ensures
            match r {
                Some(i) => read_item(doc@) == Some(i@),
                None => read_item(doc@) is None,
            },
    {
        let name = match text_of(doc, "name") {
            Some(t) => t,
            None => {
                return None;
            },
        };
        let recipe = match text_of(doc, "recipe") {
            Some(t) => t,
            None => {
                return None;
            },
        };
        let details = match lookup(doc, "details") {
            None => None,
            Some(j) => match j {
                Json::Null => None,
                _ => match ItemDetail::from_json(j) {
                    Some(d) => Some(d),
                    None => {
                        return None;
                    },
                },
            },
        };
        Some(Item { name, recipe, details })
    }
}

impl Section {
    /// Reads a section from its document.
    #[verifier::loop_isolation(false)]
    pub fn from_json(doc: &Json) -> (r: Option<Section>)
        ensures
            match r {
                Some(s) => read_section(doc@) == Some(s@),
                None => read_section(doc@) is None,
            },
    {
        let name = match text_of(doc, "name") {
            Some(t) => t,
            None => {
                return None;
            },
        };
        match lookup(doc, "items") {
            Some(j) => match j {
                Json::List(list) => {
                    proof {
                        lemma_list_view(*list);
                    }
                    let ghost views = json_views(list@);
                    let mut items: Vec<Item> = Vec::new();
                    let mut i: usize = 0;
                    while i < list.len()
                        invariant
                            i <= list.len(),
                            items.len() == i,
                            views == json_views(list@),
                            forall|k: int|
                                0 <= k < i ==> (#[trigger] read_item(views[k])) == Some(
                                    items[k]@,
                                ),
                        decreases list.len() - i,
                    {
                        assert(views[i as int] == list[i as int]@);
                        match Item::from_json(&list[i]) {
                            Some(item) => {
                                items.push(item);
                            },
                            None => {
                                assert(read_item(views[i as int]) is None);
                                return None;
                            },
                        }
                        i = i + 1;
                    }
                    assert(item_views(items@) =~= read_items(views)->0);
                    Some(Section { name, items })
                },
                _ => None,
            },
            None => None,
        }
    }
}

impl Menu {
    /// Reads a menu from its document: the full document that `to_json`
    /// gives, or one that leaves out fields that hold nothing.
    #[verifier::loop_isolation(false)]
    pub fn from_json(doc: &Json) -> (r: Option<Menu>)
        ensures
            match r {
                Some(m) => read_menu(doc@) == Some(m@),
                None => read_menu(doc@) is None,
            },
    {
        let date = match text_of(doc, "date") {
            Some(t) => match Date::from_text(t.as_str()) {
                Some(d) => {
                    proof {
                        lemma_date_of_view(d);
                    }
                    d
                },
                None => {
                    return None;
                },
            },
            None => {
                return None;
            },
        };
        let meal = match text_of(doc, "meal") {
            Some(t) => match Meal::from_name(&chars_of(t.as_str())) {
                Some(m) => m,
                None => {
                    return None;
                },
            },
            None => {
                return None;
            },
        };
        let restaurant = match text_of(doc, "restaurant") {
            Some(t) => match Restaurant::from_name(&chars_of(t.as_str())) {
                Some(h) => h,
                None => {
                    return None;
                },
            },
            None => {
                return None;
            },
        };
        match lookup(doc, "sections") {
            Some(j) => match j {
                Json::List(list) => {
                    proof {
                        lemma_list_view(*list);
                    }
                    let ghost views = json_views(list@);
                    let mut sections: Vec<Section> = Vec::new();
                    let mut i: usize = 0;
                    while i < list.len()
                        invariant
                            i <= list.len(),
                            sections.len() == i,
                            views == json_views(list@),
                            forall|k: int|
                                0 <= k < i ==> (#[trigger] read_section(views[k])) == Some(
                                    sections[k]@,
                                ),
                        decreases list.len() - i,
                    {
                        assert(views[i as int] == list[i as int]@);
                        match Section::from_json(&list[i]) {
                            Some(section) => {
                                sections.push(section);
                            },
                            None => {
                                assert(read_section(views[i as int]) is None);
                                return None;
                            },
                        }
                        i = i + 1;
                    }
                    assert(section_views(sections@) =~= read_sections(views)->0);
                    Some(Menu { date, meal, restaurant, sections })
                },
                _ => None,
            },
            None => None,
        }
    }
}

} // verus!
