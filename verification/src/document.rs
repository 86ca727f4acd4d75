//! Menus as structured documents: the full document and the minimal one.
//!
//! A document is a tree of records, lists and texts. The full document of a
//! menu holds every field; the minimal one is the full document without the
//! fields that hold nothing.

use crate::date::date_text;
use crate::model::{
    text_view, Item, ItemDetail, ItemDetailView, ItemView, Menu, MenuView, Section, SectionView,
};
use vstd::prelude::*;
use vstd::string::StringExecFns;

verus! {

/// A structured document.
#[derive(Debug, PartialEq, Eq)]
pub enum Json {
    /// Nothing: the value of a field that is empty.
    Null,
    Text(String),
    List(Vec<Json>),
    /// Named fields, in order.
    Record(Vec<Field>),
}

/// One field of a record.
#[derive(Debug, PartialEq, Eq)]
pub struct Field {
    pub key: String,
    pub value: Json,
}

pub enum JsonView {
    Null,
    Text(Seq<char>),
    List(Seq<JsonView>),
    Record(Seq<FieldView>),
}

pub struct FieldView {
    pub key: Seq<char>,
    pub value: JsonView,
}

impl View for Json {
    type V = JsonView;

    open spec fn view(&self) -> JsonView
        decreases self,
    {
        match self {
            Json::Null => JsonView::Null,
            Json::Text(s) => JsonView::Text(s@),
            Json::List(v) => JsonView::List(
                Seq::new(
                    v.len() as nat,
                    |i: int|
                        if 0 <= i < v.len() {
                            v[i].view()
                        } else {
                            JsonView::Null
                        },
                ),
            ),
            Json::Record(v) => JsonView::Record(
                Seq::new(
                    v.len() as nat,
                    |i: int|
                        if 0 <= i < v.len() {
                            FieldView { key: v[i].key@, value: v[i].value.view() }
                        } else {
                            FieldView { key: Seq::empty(), value: JsonView::Null }
                        },
                ),
            ),
        }
    }
}

impl View for Field {
    type V = FieldView;

    open spec fn view(&self) -> FieldView {
        FieldView { key: self.key@, value: self.value@ }
    }
}

pub open spec fn json_views(v: Seq<Json>) -> Seq<JsonView> {
    Seq::new(v.len(), |k: int| v[k]@)
}

pub open spec fn field_views(v: Seq<Field>) -> Seq<FieldView> {
    Seq::new(v.len(), |k: int| v[k]@)
}

/// A list is seen as the list of what its elements are seen as.
pub proof fn lemma_list_view(v: Vec<Json>)
    ensures
        Json::List(v)@ == JsonView::List(json_views(v@)),
{
    assert(Json::List(v)@->List_0 =~= json_views(v@));
}

/// A record is seen as the record of what its fields are seen as.
pub proof fn lemma_record_view(v: Vec<Field>)
    ensures
        Json::Record(v)@ == JsonView::Record(field_views(v@)),
{
    assert(Json::Record(v)@->Record_0 =~= field_views(v@));
}

/// The field of the given name and value.
pub open spec fn named(key: Seq<char>, value: JsonView) -> FieldView {
    FieldView { key, value }
}

/// The document of a text that may be missing.
pub open spec fn optional_json(o: Option<Seq<char>>) -> JsonView {
    match o {
        Some(t) => JsonView::Text(t),
        None => JsonView::Null,
    }
}

/// The full document of an item's record.
pub open spec fn detail_json(d: ItemDetailView) -> JsonView {
    JsonView::Record(
        seq![
            named("serving_size"@, optional_json(d.serving_size)),
            named("calories"@, optional_json(d.calories)),
            named("total_fat"@, optional_json(d.total_fat)),
            named("carbohydrate"@, optional_json(d.carbohydrate)),
            named("protein"@, optional_json(d.protein)),
            named("ingredients"@, optional_json(d.ingredients)),
            named("allergens"@, optional_json(d.allergens)),
        ],
    )
}

/// The full document of an item.
pub open spec fn item_json(i: ItemView) -> JsonView {
    JsonView::Record(
        seq![
            named("name"@, JsonView::Text(i.name)),
            named("recipe"@, JsonView::Text(i.recipe)),
            named(
                "details"@,
                match i.details {
                    Some(d) => detail_json(d),
                    None => JsonView::Null,
                },
            ),
        ],
    )
}

/// The full document of a section: its items in their order.
pub open spec fn section_json(s: SectionView) -> JsonView {
    JsonView::Record(
        seq![
            named("name"@, JsonView::Text(s.name)),
            named(
                "items"@,
                JsonView::List(Seq::new(s.items.len(), |i: int| item_json(s.items[i]))),
            ),
        ],
    )
}

/// The full document of a menu: its sections in their order.
pub open spec fn menu_json(m: MenuView) -> JsonView {
    JsonView::Record(
        seq![
            named("date"@, JsonView::Text(date_text(m.date@))),
            named("meal"@, JsonView::Text(m.meal.spec_name())),
            named("restaurant"@, JsonView::Text(m.restaurant.spec_name())),
            named(
                "sections"@,
                JsonView::List(Seq::new(m.sections.len(), |i: int| section_json(m.sections[i]))),
            ),
        ],
    )
}

/// The fields that hold something.
pub open spec fn present() -> spec_fn(FieldView) -> bool {
    |f: FieldView| f.value != JsonView::Null
}

/// The fields of a record, each value minimized.
pub open spec fn pruned_fields(fields: Seq<FieldView>) -> Seq<FieldView>
    decreases fields,
{
    Seq::new(
        fields.len(),
        |i: int|
            if 0 <= i < fields.len() {
                FieldView { key: fields[i].key, value: pruned(fields[i].value) }
            } else {
                FieldView { key: Seq::empty(), value: JsonView::Null }
            },
    )
}

/// A document without the fields that hold nothing, at every depth. Texts
/// and the lengths and order of lists stay as they are.
pub open spec fn pruned(d: JsonView) -> JsonView
    decreases d,
{
    match d {
        JsonView::List(items) => JsonView::List(
            Seq::new(
                items.len(),
                |i: int|
                    if 0 <= i < items.len() {
                        pruned(items[i])
                    } else {
                        JsonView::Null
                    },
            ),
        ),
        JsonView::Record(fields) => JsonView::Record(pruned_fields(fields).filter(present())),
        other => other,
    }
}

/// The minimal document of a menu.
pub open spec fn menu_json_min(m: MenuView) -> JsonView {
    pruned(menu_json(m))
}

/// Whether `a` says nothing that `b` does not say: texts are equal, lists
/// agree place by place, and each field of a record of `a` stands in the
/// record of `b` under the same name, with the same to be said of its value.
pub open spec fn within(a: JsonView, b: JsonView) -> bool
    decreases a, 1int,
{
    match (a, b) {
        (JsonView::Null, JsonView::Null) => true,
        (JsonView::Text(x), JsonView::Text(y)) => x == y,
        (JsonView::List(x), JsonView::List(y)) => x.len() == y.len() && forall|i: int|
            0 <= i < x.len() ==> within(#[trigger] x[i], y[i]),
        (JsonView::Record(x), JsonView::Record(y)) => forall|i: int|
            0 <= i < x.len() ==> field_within(#[trigger] x[i], y),
        _ => false,
    }
}

/// Whether the record `fields` holds a field named as `f` is, whose value
/// says all that the value of `f` says.
pub open spec fn field_within(f: FieldView, fields: Seq<FieldView>) -> bool
    decreases f.value, 2int,
{
    exists|j: int|
        0 <= j < fields.len() && (#[trigger] fields[j]).key == f.key && within(
            f.value,
            fields[j].value,
        )
}

/// Minimizing alters no value: what the minimal document says, the document
/// that it was made from says too.
pub proof fn lemma_pruned_within(d: JsonView)
    ensures
        within(pruned(d), d),
    decreases d,
{
    match d {
        JsonView::List(items) => {
            let out = pruned(d)->List_0;
            assert(out.len() == items.len());
            assert forall|i: int| 0 <= i < out.len() implies within(
                #[trigger] out[i],
                items[i],
            ) by {
                assert(out[i] == pruned(items[i]));
                lemma_pruned_within(items[i]);
            }
        },
        JsonView::Record(fields) => {
            let mapped = pruned_fields(fields);
            let out = mapped.filter(present());
            assert(pruned(d)->Record_0 == out);
            assert forall|i: int| 0 <= i < out.len() implies field_within(
                #[trigger] out[i],
                fields,
            ) by {
                assert(out.contains(out[i]));
                mapped.lemma_filter_contains_rev(present(), out[i]);
                let j = choose|j: int| 0 <= j < mapped.len() && mapped[j] == out[i];
                lemma_pruned_within(fields[j].value);
                assert(fields[j].key == out[i].key && within(out[i].value, fields[j].value));
            }
        },
        _ => {},
    }
}

/// Every field of the minimal document of a menu stands in its full document
/// with the same value.
pub proof fn lemma_min_within_full(m: MenuView)
    ensures
        within(menu_json_min(m), menu_json(m)),
{
    lemma_pruned_within(menu_json(m));
}

fn text(s: &str) -> (r: Json)
    ensures
        r@ == JsonView::Text(s@),
{
    Json::Text(String::from_str(s))
}

fn optional(o: &Option<String>) -> (r: Json)
    ensures
        r@ == optional_json(text_view(*o)),
{
    match o {
        Some(s) => Json::Text(s.clone()),
        None => Json::Null,
    }
}

fn field(key: &str, value: Json) -> (r: Field)
    ensures
        r@ == named(key@, value@),
{
    Field { key: String::from_str(key), value }
}

/// A document without the fields that hold nothing, at every depth.
#[verifier::loop_isolation(false)]
pub fn prune(doc: &Json) -> (r: Json)
    ensures
        r@ == pruned(doc@),
    decreases doc,
{
    match doc {
        Json::Null => Json::Null,
        Json::Text(s) => Json::Text(s.clone()),
        Json::List(items) => {
            proof {
                lemma_list_view(*items);
            }
            let mut out: Vec<Json> = Vec::new();
            let mut i: usize = 0;
            while i < items.len()
                invariant
                    i <= items.len(),
                    out.len() == i,
                    *doc == Json::List(*items),
                    forall|k: int| 0 <= k < i ==> (#[trigger] out[k])@ == pruned(items[k]@),
                decreases items.len() - i,
            {
                out.push(prune(&items[i]));
                i = i + 1;
            }
            proof {
                lemma_list_view(out);
                assert(json_views(out@) =~= pruned(doc@)->List_0);
            }
            Json::List(out)
        },
        Json::Record(fields) => {
            let ghost all = field_views(fields@);
            let ghost mapped = pruned_fields(all);
            proof {
                lemma_record_view(*fields);
            }
            let mut out: Vec<Field> = Vec::new();
            let mut i: usize = 0;
            assert(mapped.take(0).filter(present()) =~= Seq::empty()) by {
                mapped.take(0).lemma_filter_len(present());
            }
            assert(field_views(out@) =~= Seq::empty());
            while i < fields.len()
                invariant
                    i <= fields.len(),
                    all == field_views(fields@),
                    *doc == Json::Record(*fields),
                    mapped == pruned_fields(all),
                    field_views(out@) == mapped.take(i as int).filter(present()),
                decreases fields.len() - i,
            {
                let ghost before = field_views(out@);
                let value = prune(&fields[i].value);
                proof {
                    assert(all[i as int] == fields[i as int]@);
                    assert(mapped[i as int] == named(fields[i as int].key@, value@));
                    assert(mapped.take(i + 1) =~= mapped.take(i as int).push(mapped[i as int]));
                    mapped.take(i as int).lemma_filter_push(mapped[i as int], present());
                }
                let keep = match value {
                    Json::Null => false,
                    _ => true,
                };
                if keep {
                    let f = Field { key: fields[i].key.clone(), value };
                    out.push(f);
                    assert(field_views(out@) =~= before.push(mapped[i as int]));
                }
                i = i + 1;
            }
            proof {
                assert(mapped.take(i as int) =~= mapped);
                lemma_record_view(out);
            }
            Json::Record(out)
        },
    }
}

impl ItemDetail {
    /// The full document of the record: every field, the empty ones as nothing.
    pub fn to_json(&self) -> (r: Json)
        ensures
            r@ == detail_json(self@),
    {
        let mut fields: Vec<Field> = Vec::new();
        fields.push(field("serving_size", optional(&self.serving_size)));
        fields.push(field("calories", optional(&self.calories)));
        fields.push(field("total_fat", optional(&self.total_fat)));
        fields.push(field("carbohydrate", optional(&self.carbohydrate)));
        fields.push(field("protein", optional(&self.protein)));
        fields.push(field("ingredients", optional(&self.ingredients)));
        fields.push(field("allergens", optional(&self.allergens)));
        proof {
            lemma_record_view(fields);
            assert(field_views(fields@) =~= detail_json(self@)->Record_0);
        }
        Json::Record(fields)
    }
}

impl Item {
    /// The full document of the item.
    pub fn to_json(&self) -> (r: Json)
        ensures
            r@ == item_json(self@),
    {
        let details = match &self.details {
            Some(d) => d.to_json(),
            None => Json::Null,
        };
        let mut fields: Vec<Field> = Vec::new();
        fields.push(field("name", text(self.name.as_str())));
        fields.push(field("recipe", text(self.recipe.as_str())));
        fields.push(field("details", details));
        proof {
            lemma_record_view(fields);
            assert(field_views(fields@) =~= item_json(self@)->Record_0);
        }
        Json::Record(fields)
    }
}

impl Section {
    /// The full document of the section.
    pub fn to_json(&self) -> (r: Json)
        ensures
            r@ == section_json(self@),
    {
        let mut items: Vec<Json> = Vec::new();
        let mut i: usize = 0;
        while i < self.items.len()
            invariant
                i <= self.items.len(),
                items.len() == i,
                forall|k: int| 0 <= k < i ==> (#[trigger] items[k])@ == item_json(self.items[k]@),
            decreases self.items.len() - i,
        {
            items.push(self.items[i].to_json());
            i = i + 1;
        }
        proof {
            lemma_list_view(items);
            assert(json_views(items@) =~= Seq::new(
                self@.items.len(),
                |i: int| item_json(self@.items[i]),
            ));
        }
        let list = Json::List(items);
        let mut fields: Vec<Field> = Vec::new();
        fields.push(field("name", text(self.name.as_str())));
        fields.push(field("items", list));
        proof {
            lemma_record_view(fields);
            assert(field_views(fields@) =~= section_json(self@)->Record_0);
        }
        Json::Record(fields)
    }
}

impl Menu {
    /// The full document of the menu: every field, nested in full.
    pub fn to_json(&self) -> (r: Json)
        ensures
            r@ == menu_json(self@),
    {
        let mut sections: Vec<Json> = Vec::new();
        let mut i: usize = 0;
        while i < self.sections.len()
            invariant
                i <= self.sections.len(),
                sections.len() == i,
                forall|k: int|
                    0 <= k < i ==> (#[trigger] sections[k])@ == section_json(self.sections[k]@),
            decreases self.sections.len() - i,
        {
            sections.push(self.sections[i].to_json());
            i = i + 1;
        }
        proof {
            lemma_list_view(sections);
            assert(json_views(sections@) =~= Seq::new(
                self@.sections.len(),
                |i: int| section_json(self@.sections[i]),
            ));
        }
        let list = Json::List(sections);
        let mut fields: Vec<Field> = Vec::new();
        fields.push(field("date", text(self.date.to_text().as_str())));
        fields.push(field("meal", text(self.meal.name())));
        fields.push(field("restaurant", text(self.restaurant.name())));
        fields.push(field("sections", list));
        proof {
            lemma_record_view(fields);
            assert(field_views(fields@) =~= menu_json(self@)->Record_0);
        }
        Json::Record(fields)
    }

    /// The minimal document of the menu: the full one without the fields that
    /// hold nothing.
    pub fn to_json_min(&self) -> (r: Json)
        ensures
            r@ == menu_json_min(self@),
    {
        prune(&self.to_json())
    }
}

} // verus!
