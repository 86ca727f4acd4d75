//! Why a text could not be read.

use crate::parse::markup::Fault;
use crate::request::menu_request::MenuRequest;
use vstd::prelude::*;

verus! {

/// A text that could not be read, with what it was read for.
#[derive(Clone, Debug, PartialEq, Eq)]
pub enum ParseError {
    /// A text that names no date of the calendar in the form YYYY-MM-DD.
    Date { text: String },
    /// The page of a menu that could not be cut into tags and text.
    Menu { request: MenuRequest, fault: Fault },
    /// The page of an item that could not be cut into tags and text.
    Item { fault: Fault },
}

pub enum ParseErrorView {
    Date { text: Seq<char> },
    Menu { request: MenuRequest, fault: Fault },
    Item { fault: Fault },
}

impl View for ParseError {
    type V = ParseErrorView;

    open spec fn view(&self) -> ParseErrorView {
        match self {
            ParseError::Date { text } => ParseErrorView::Date { text: text@ },
            ParseError::Menu { request, fault } => ParseErrorView::Menu {
                request: *request,
                fault: *fault,
            },
            ParseError::Item { fault } => ParseErrorView::Item { fault: *fault },
        }
    }
}

} // verus!
