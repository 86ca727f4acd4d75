//! The reader of an item's nutrition page.
//!
//! Each field of the record is the text that directly follows the first
//! opening tag whose `class` names the field. A field whose tag the page does
//! not hold is left empty; that is no fault of the page.

use crate::error::{ParseError, ParseErrorView};
use crate::model::{ItemDetail, ItemDetailView};
use crate::parse::markup::{
    attribute_of, class_is, has_class, leading_text, text_after, token_views, tokenize,
    tokens_of, Token, TokenView,
};
use crate::text::{chars_of, string_of};
use vstd::prelude::*;

verus! {

/// The text of the first token from `i` on whose `class` is `marker`.
pub open spec fn field_from(tokens: Seq<TokenView>, marker: Seq<char>, i: int) -> Option<
    Seq<char>,
>
    decreases tokens.len() - i,
{
    if i < 0 || i >= tokens.len() {
        None
    } else if has_class(tokens[i], marker) {
        Some(leading_text(tokens, i))
    } else {
        field_from(tokens, marker, i + 1)
    }
}

/// The record that a tokenized page holds.
pub open spec fn detail_of(tokens: Seq<TokenView>) -> ItemDetailView {
    ItemDetailView {
        serving_size: field_from(tokens, "serving-size"@, 0),
        calories: field_from(tokens, "calories"@, 0),
        total_fat: field_from(tokens, "total-fat"@, 0),
        carbohydrate: field_from(tokens, "carbohydrate"@, 0),
        protein: field_from(tokens, "protein"@, 0),
        ingredients: field_from(tokens, "ingredients"@, 0),
        allergens: field_from(tokens, "allergens"@, 0),
    }
}

/// What reading an item's page gives: its record, or the fault that kept the
/// page from being cut into tokens.
pub open spec fn parsed_item(markup: Seq<char>) -> Result<ItemDetailView, ParseErrorView> {
    match tokens_of(markup) {
        Ok(tokens) => Ok(detail_of(tokens)),
        Err(fault) => Err(ParseErrorView::Item { fault }),
    }
}

/// Whether `r` is what reading the page `markup` gives.
pub open spec fn reads_as(r: Result<ItemDetail, ParseError>, markup: Seq<char>) -> bool {
    match r {
        Ok(detail) => parsed_item(markup) == Ok::<ItemDetailView, ParseErrorView>(detail@),
        Err(e) => parsed_item(markup) == Err::<ItemDetailView, ParseErrorView>(e@),
    }
}

/// Where no token carries the marker of a field, the field is empty.
pub proof fn lemma_no_fields(tokens: Seq<TokenView>, marker: Seq<char>, i: int)
    requires
        forall|k: int| 0 <= k < tokens.len() ==> !has_class(#[trigger] tokens[k], marker),
    ensures
        field_from(tokens, marker, i) is None,
    decreases tokens.len() - i,
{
    if 0 <= i < tokens.len() {
        lemma_no_fields(tokens, marker, i + 1);
    }
}

/// A page that can be cut into tokens, none of which has a `class`, is
/// read, and gives a record with every field empty.
pub proof fn lemma_bare_page(markup: Seq<char>)
    requires
        tokens_of(markup) is Ok,
        forall|k: int|
            0 <= k < tokens_of(markup)->Ok_0.len() ==> attribute_of(
                #[trigger] tokens_of(markup)->Ok_0[k],
                "class"@,
            ) is None,
    ensures
        parsed_item(markup) == Ok::<ItemDetailView, ParseErrorView>(
            ItemDetailView {
                serving_size: None,
                calories: None,
                total_fat: None,
                carbohydrate: None,
                protein: None,
                ingredients: None,
                allergens: None,
            },
        ),
{
    let tokens = tokens_of(markup)->Ok_0;
    lemma_no_fields(tokens, "serving-size"@, 0);
    lemma_no_fields(tokens, "calories"@, 0);
    lemma_no_fields(tokens, "total-fat"@, 0);
    lemma_no_fields(tokens, "carbohydrate"@, 0);
    lemma_no_fields(tokens, "protein"@, 0);
    lemma_no_fields(tokens, "ingredients"@, 0);
    lemma_no_fields(tokens, "allergens"@, 0);
}

/// The text of the named field of a tokenized page.
pub fn read_field(tokens: &Vec<Token>, marker: &str) -> (r: Option<String>)
    ensures
        crate::model::text_view(r) == field_from(token_views(tokens@), marker@, 0),
{
    let ghost ts = token_views(tokens@);
    let mut i: usize = 0;
    while i < tokens.len()
        invariant
            i <= tokens.len(),
            ts == token_views(tokens@),
            field_from(ts, marker@, 0) == field_from(ts, marker@, i as int),
        decreases tokens.len() - i,
    {
        assert(ts[i as int] == tokens[i as int]@);
        if class_is(&tokens[i], marker) {
            return Some(string_of(&text_after(tokens, i)));
        }
        i = i + 1;
    }
    None
}

/// Reads the page of an item.
///
/// A page that cannot be cut into tags and text is refused; any other page
/// gives a record, with the fields that it does not hold left empty.
pub fn parse(markup: &str) -> (r: Result<ItemDetail, ParseError>)
    ensures
        reads_as(r, markup@),
{
    let chars = chars_of(markup);
    match tokenize(&chars) {
        Ok(tokens) => Ok(
            ItemDetail {
                serving_size: read_field(&tokens, "serving-size"),
                calories: read_field(&tokens, "calories"),
                total_fat: read_field(&tokens, "total-fat"),
                carbohydrate: read_field(&tokens, "carbohydrate"),
                protein: read_field(&tokens, "protein"),
                ingredients: read_field(&tokens, "ingredients"),
                allergens: read_field(&tokens, "allergens"),
            },
        ),
        Err(fault) => Err(ParseError::Item { fault }),
    }
}

} // verus!
