//! The reader of a menu page.
//!
//! A section begins at an opening tag whose `class` is `sect-item`; its name
//! is the text that directly follows the tag. An item is an opening tag whose
//! `class` is `recipelink`; its name is the text that directly follows, and
//! the reference to its page is the value of its `href` attribute. An item
//! belongs to the section that began last before it; an item before the first
//! section belongs to none and is left out.

use crate::error::{ParseError, ParseErrorView};
use crate::model::{
    item_views, section_views, Item, ItemView, Menu, MenuView, Section, SectionView,
};
use crate::parse::markup::{
    attribute_of, attribute_value, class_is, has_class, leading_text, text_after, token_views,
    tokenize, tokens_from, tokens_of, Fault, Token, TokenView,
};
use crate::request::menu_request::MenuRequest;
use crate::text::{chars_of, lemma_scan, scan, string_of, Class};
use vstd::prelude::*;

verus! {

/// Whether a token begins a section.
pub open spec fn is_heading(t: TokenView) -> bool {
    has_class(t, "sect-item"@)
}

/// Whether a token is an item.
pub open spec fn is_item(t: TokenView) -> bool {
    has_class(t, "recipelink"@)
}

/// The reference that an item's tag gives: its `href`, empty where it has none.
pub open spec fn reference_of(t: TokenView) -> Seq<char> {
    match attribute_of(t, "href"@) {
        Some(v) => v,
        None => Seq::empty(),
    }
}

/// The item that the token at `i` stands for.
pub open spec fn item_at(tokens: Seq<TokenView>, i: int) -> ItemView {
    ItemView { name: leading_text(tokens, i), recipe: reference_of(tokens[i]), details: None }
}

/// `sections` with one more item in its last section.
pub open spec fn with_item(sections: Seq<SectionView>, item: ItemView) -> Seq<SectionView> {
    let last = sections.len() - 1;
    sections.update(
        last,
        SectionView { name: sections[last].name, items: sections[last].items.push(item) },
    )
}

/// The sections that are read when those in `done` were read from the tokens
/// before `i` and the tokens from `i` on are still to be walked.
pub open spec fn sections_from(tokens: Seq<TokenView>, i: int, done: Seq<SectionView>) -> Seq<
    SectionView,
>
    decreases tokens.len() - i,
{
    if i < 0 || i >= tokens.len() {
        done
    } else if is_heading(tokens[i]) {
        sections_from(
            tokens,
            i + 1,
            done.push(SectionView { name: leading_text(tokens, i), items: Seq::empty() }),
        )
    } else if is_item(tokens[i]) && done.len() > 0 {
        sections_from(tokens, i + 1, with_item(done, item_at(tokens, i)))
    } else {
        sections_from(tokens, i + 1, done)
    }
}

/// The sections of a tokenized page.
pub open spec fn sections_of(tokens: Seq<TokenView>) -> Seq<SectionView> {
    sections_from(tokens, 0, Seq::empty())
}

/// What reading a menu page gives: the menu of the request with the sections
/// of the page, or the fault that kept the page from being cut into tokens.
pub open spec fn parsed_menu(markup: Seq<char>, origin: MenuRequest) -> Result<
    MenuView,
    ParseErrorView,
> {
    match tokens_of(markup) {
        Ok(tokens) => Ok(
            MenuView {
                date: origin.date,
                meal: origin.meal,
                restaurant: origin.restaurant,
                sections: sections_of(tokens),
            },
        ),
        Err(fault) => Err(ParseErrorView::Menu { request: origin, fault }),
    }
}

/// Whether `r` is what reading the page `markup` for `origin` gives.
pub open spec fn reads_as(
    r: Result<Menu, ParseError>,
    markup: Seq<char>,
    origin: MenuRequest,
) -> bool {
    match r {
        Ok(menu) => parsed_menu(markup, origin) == Ok::<MenuView, ParseErrorView>(menu@),
        Err(e) => parsed_menu(markup, origin) == Err::<MenuView, ParseErrorView>(e@),
    }
}

/// The outcome of a reading, as plain values.
pub open spec fn outcome(r: Result<Menu, ParseError>) -> Result<MenuView, ParseErrorView> {
    match r {
        Ok(menu) => Ok(menu@),
        Err(e) => Err(e@),
    }
}

/// The number of tokens from `i` on that begin a section.
pub open spec fn headings_from(tokens: Seq<TokenView>, i: int) -> nat
    decreases tokens.len() - i,
{
    if i < 0 || i >= tokens.len() {
        0
    } else if is_heading(tokens[i]) {
        1 + headings_from(tokens, i + 1)
    } else {
        headings_from(tokens, i + 1)
    }
}

/// Reading a page twice gives the same outcome: a menu with the same
/// sections and items in the same order, or the same refusal.
pub proof fn lemma_parse_again(
    first: Result<Menu, ParseError>,
    second: Result<Menu, ParseError>,
    markup: Seq<char>,
    origin: MenuRequest,
)
    requires
        reads_as(first, markup, origin),
        reads_as(second, markup, origin),
    ensures
        outcome(first) == outcome(second),
{
}

/// Walking on from `i` adds one section for each heading met, after those
/// already read, and takes none away.
pub proof fn lemma_section_count(tokens: Seq<TokenView>, i: int, done: Seq<SectionView>)
    requires
        0 <= i,
    ensures
        sections_from(tokens, i, done).len() == done.len() + headings_from(tokens, i),
    decreases tokens.len() - i,
{
    if i < tokens.len() {
        if is_heading(tokens[i]) {
            lemma_section_count(
                tokens,
                i + 1,
                done.push(SectionView { name: leading_text(tokens, i), items: Seq::empty() }),
            );
        } else if is_item(tokens[i]) && done.len() > 0 {
            lemma_section_count(tokens, i + 1, with_item(done, item_at(tokens, i)));
        } else {
            lemma_section_count(tokens, i + 1, done);
        }
    }
}

/// A page has as many sections as it has headings.
pub proof fn lemma_sections_are_headings(tokens: Seq<TokenView>)
    ensures
        sections_of(tokens).len() == headings_from(tokens, 0),
{
    lemma_section_count(tokens, 0, Seq::empty());
}

/// The names of sections, in their order.
pub open spec fn section_names(sections: Seq<SectionView>) -> Seq<Seq<char>> {
    Seq::new(sections.len(), |k: int| sections[k].name)
}

/// The texts that follow the headings from `i` on, in the order of the page.
pub open spec fn heading_names_from(tokens: Seq<TokenView>, i: int) -> Seq<Seq<char>>
    decreases tokens.len() - i,
{
    if i < 0 || i >= tokens.len() {
        Seq::empty()
    } else if is_heading(tokens[i]) {
        seq![leading_text(tokens, i)] + heading_names_from(tokens, i + 1)
    } else {
        heading_names_from(tokens, i + 1)
    }
}

/// The items of all sections, in their order.
pub open spec fn all_items(sections: Seq<SectionView>) -> Seq<ItemView>
    decreases sections.len(),
{
    if sections.len() == 0 {
        Seq::empty()
    } else {
        all_items(sections.drop_last()) + sections.last().items
    }
}

/// The items that the tokens from `i` on stand for, in the order of the
/// page: those that come after a heading. `open` says whether a heading
/// came before `i`.
pub open spec fn items_from(tokens: Seq<TokenView>, i: int, open: bool) -> Seq<ItemView>
    decreases tokens.len() - i,
{
    if i < 0 || i >= tokens.len() {
        Seq::empty()
    } else if is_heading(tokens[i]) {
        items_from(tokens, i + 1, true)
    } else if is_item(tokens[i]) && open {
        seq![item_at(tokens, i)] + items_from(tokens, i + 1, open)
    } else {
        items_from(tokens, i + 1, open)
    }
}

/// Walking on from `i` keeps the names of the sections read so far and adds
/// those of the headings met, in the order of the page.
pub proof fn lemma_section_names(tokens: Seq<TokenView>, i: int, done: Seq<SectionView>)
    requires
        0 <= i,
    ensures
        section_names(sections_from(tokens, i, done)) == section_names(done) + heading_names_from(
            tokens,
            i,
        ),
    decreases tokens.len() - i,
{
    if i < tokens.len() {
        if is_heading(tokens[i]) {
            let next = done.push(
                SectionView { name: leading_text(tokens, i), items: Seq::empty() },
            );
            lemma_section_names(tokens, i + 1, next);
            assert(section_names(next) =~= section_names(done) + seq![leading_text(tokens, i)]);
            assert(section_names(next) + heading_names_from(tokens, i + 1) =~= section_names(done)
                + (seq![leading_text(tokens, i)] + heading_names_from(tokens, i + 1)));
        } else if is_item(tokens[i]) && done.len() > 0 {
            let next = with_item(done, item_at(tokens, i));
            lemma_section_names(tokens, i + 1, next);
            assert(section_names(next) =~= section_names(done));
        } else {
            lemma_section_names(tokens, i + 1, done);
        }
    } else {
        assert(section_names(done) + Seq::<Seq<char>>::empty() =~= section_names(done));
    }
}

/// The sections of a page are named as its headings are, in the order of
/// the page.
pub proof fn lemma_names_in_order(tokens: Seq<TokenView>)
    ensures
        section_names(sections_of(tokens)) == heading_names_from(tokens, 0),
{
    lemma_section_names(tokens, 0, Seq::empty());
    assert(section_names(Seq::<SectionView>::empty()) + heading_names_from(tokens, 0)
        =~= heading_names_from(tokens, 0));
}

/// Walking on from `i` keeps the items read so far and adds those met, in
/// the order of the page.
pub proof fn lemma_all_items(tokens: Seq<TokenView>, i: int, done: Seq<SectionView>)
    requires
        0 <= i,
    ensures
        all_items(sections_from(tokens, i, done)) == all_items(done) + items_from(
            tokens,
            i,
            done.len() > 0,
        ),
    decreases tokens.len() - i,
{
    if i < tokens.len() {
        if is_heading(tokens[i]) {
            let next = done.push(
                SectionView { name: leading_text(tokens, i), items: Seq::empty() },
            );
            lemma_all_items(tokens, i + 1, next);
            assert(next.drop_last() =~= done);
            assert(all_items(next) =~= all_items(done));
        } else if is_item(tokens[i]) && done.len() > 0 {
            let item = item_at(tokens, i);
            let next = with_item(done, item);
            lemma_all_items(tokens, i + 1, next);
            assert(next.drop_last() =~= done.drop_last());
            assert(all_items(next) =~= all_items(done).push(item));
            assert(all_items(next) + items_from(tokens, i + 1, true) =~= all_items(done) + (seq![
                item,
            ] + items_from(tokens, i + 1, true)));
        } else {
            lemma_all_items(tokens, i + 1, done);
        }
    } else {
        assert(all_items(done) + Seq::<ItemView>::empty() =~= all_items(done));
    }
}

/// The items of a page, section after section, are the items that come
/// after its first heading, in the order of the page.
pub proof fn lemma_items_in_order(tokens: Seq<TokenView>)
    ensures
        all_items(sections_of(tokens)) == items_from(tokens, 0, false),
{
    lemma_all_items(tokens, 0, Seq::empty());
    assert(all_items(Seq::<SectionView>::empty()) + items_from(tokens, 0, false) =~= items_from(
        tokens,
        0,
        false,
    ));
}

/// Where no token is a heading, none is counted.
pub proof fn lemma_no_headings(tokens: Seq<TokenView>, i: int)
    requires
        forall|k: int| 0 <= k < tokens.len() ==> !is_heading(#[trigger] tokens[k]),
    ensures
        headings_from(tokens, i) == 0,
    decreases tokens.len() - i,
{
    if 0 <= i < tokens.len() {
        lemma_no_headings(tokens, i + 1);
    }
}

/// A page that can be cut into tokens and holds no heading is read, as a menu
/// without sections.
pub proof fn lemma_empty_document(markup: Seq<char>, origin: MenuRequest)
    requires
        tokens_of(markup) is Ok,
        forall|k: int|
            0 <= k < tokens_of(markup)->Ok_0.len() ==> !is_heading(
                #[trigger] tokens_of(markup)->Ok_0[k],
            ),
    ensures
        parsed_menu(markup, origin) == Ok::<MenuView, ParseErrorView>(
            MenuView {
                date: origin.date,
                meal: origin.meal,
                restaurant: origin.restaurant,
                sections: Seq::empty(),
            },
        ),
{
    let tokens = tokens_of(markup)->Ok_0;
    lemma_no_headings(tokens, 0);
    lemma_sections_are_headings(tokens);
    assert(sections_of(tokens) =~= Seq::<SectionView>::empty());
}

/// A page without any `<` is read, as a menu without sections.
pub proof fn lemma_plain_text(markup: Seq<char>, origin: MenuRequest)
    requires
        forall|k: int| 0 <= k < markup.len() ==> #[trigger] markup[k] != '<',
    ensures
        parsed_menu(markup, origin) is Ok,
        parsed_menu(markup, origin)->Ok_0.sections.len() == 0,
{
    if markup.len() == 0 {
        assert(tokens_of(markup) == Ok::<Seq<TokenView>, Fault>(Seq::empty()));
    } else {
        lemma_scan(markup, 1, Class::Is('<'), true);
        let end = scan(markup, 1, Class::Is('<'), true);
        assert(end == markup.len());
        let t = TokenView::Text { text: markup.subrange(0, end) };
        assert(tokens_from(markup, end) == Ok::<Seq<TokenView>, Fault>(Seq::empty()));
        assert(tokens_of(markup) == Ok::<Seq<TokenView>, Fault>(seq![t] + Seq::empty()));
        let tokens = seq![t] + Seq::<TokenView>::empty();
        assert forall|k: int| 0 <= k < tokens.len() implies !is_heading(
            #[trigger] tokens[k],
        ) by {
            assert(tokens[k] == t);
        }
        lemma_empty_document(markup, origin);
    }
}

/// The sections of a tokenized page, in the order of the page.
pub fn read_sections(tokens: &Vec<Token>) -> (r: Vec<Section>)
    ensures
        section_views(r@) == sections_of(token_views(tokens@)),
{
    let ghost ts = token_views(tokens@);
    let mut r: Vec<Section> = Vec::new();
    let mut i: usize = 0;
    assert(section_views(r@) =~= Seq::<SectionView>::empty());
    while i < tokens.len()
        invariant
            i <= tokens.len(),
            ts == token_views(tokens@),
            sections_of(ts) == sections_from(ts, i as int, section_views(r@)),
        decreases tokens.len() - i,
    {
        let ghost before = section_views(r@);
        assert(ts[i as int] == tokens[i as int]@);
        if class_is(&tokens[i], "sect-item") {
            let name = string_of(&text_after(tokens, i));
            let section = Section { name, items: Vec::new() };
            assert(item_views(section.items@) =~= Seq::<ItemView>::empty());
            r.push(section);
            assert(section_views(r@) =~= before.push(
                SectionView { name: leading_text(ts, i as int), items: Seq::empty() },
            ));
        } else if class_is(&tokens[i], "recipelink") && r.len() > 0 {
            let name = string_of(&text_after(tokens, i));
            let recipe = match attribute_value(&tokens[i], "href") {
                Some(v) => string_of(&v),
                None => String::new(),
            };
            let item = Item { name, recipe, details: None };
            assert(item@ == item_at(ts, i as int));
            let last: usize = r.len() - 1;
            let ghost items_before = item_views(r[last as int].items@);
            let ghost name_before = r[last as int].name@;
            r[last].items.push(item);
            assert(item_views(r[last as int].items@) =~= items_before.push(item@));
            assert(r[last as int].name@ == name_before);
            assert(section_views(r@) =~= with_item(before, item_at(ts, i as int)));
        }
        i = i + 1;
    }
    r
}

/// Reads the page of a menu.
///
/// A page that cannot be cut into tags and text is refused. A page without
/// any section gives a menu without sections: nothing is served.
pub fn parse(markup: &str, origin: &MenuRequest) -> (r: Result<Menu, ParseError>)
    ensures
        reads_as(r, markup@, *origin),
{
    let chars = chars_of(markup);
    match tokenize(&chars) {
        Ok(tokens) => {
            let sections = read_sections(&tokens);
            Ok(
                Menu {
                    date: origin.date,
                    meal: origin.meal,
                    restaurant: origin.restaurant,
                    sections,
                },
            )
        },
        Err(fault) => Err(ParseError::Menu { request: *origin, fault }),
    }
}

} // verus!
