//! Markup as a flat document: its tags and texts in document order.
//!
//! A page is cut into tags (`<name attr="value">`, `</name>`, declarations such
//! as `<!doctype html>`) and the runs of text between them. A tag runs from `<`
//! to the next `>`. Nothing is required of how tags nest: the readers built on
//! this walk the document in order and recognise elements by their attributes.

use crate::text::{
    chars_of, copy_range, is_text, lemma_scan, same_chars, scan, scan_chars, trim, trimmed, Class,
};
use vstd::prelude::*;

verus! {

/// One attribute of an opening tag.
#[derive(Clone, Debug, PartialEq, Eq)]
pub struct Attribute {
    pub name: Vec<char>,
    pub value: Vec<char>,
}

pub struct AttributeView {
    pub name: Seq<char>,
    pub value: Seq<char>,
}

impl View for Attribute {
    type V = AttributeView;

    open spec fn view(&self) -> AttributeView {
        AttributeView { name: self.name@, value: self.value@ }
    }
}

pub open spec fn attribute_views(v: Seq<Attribute>) -> Seq<AttributeView> {
    v.map_values(|a: Attribute| a@)
}

/// One piece of a page.
#[derive(Clone, Debug, PartialEq, Eq)]
pub enum Token {
    /// An opening tag, with its attributes in the order written.
    Open { name: Vec<char>, attributes: Vec<Attribute> },
    /// A closing tag.
    Close { name: Vec<char> },
    /// The text between two tags, as written.
    Text { text: Vec<char> },
    /// A tag that begins with `!` or `?`: a comment, doctype or instruction.
    Declaration,
}

pub enum TokenView {
    Open { name: Seq<char>, attributes: Seq<AttributeView> },
    Close { name: Seq<char> },
    Text { text: Seq<char> },
    Declaration,
}

impl View for Token {
    type V = TokenView;

    open spec fn view(&self) -> TokenView {
        match self {
            Token::Open { name, attributes } => TokenView::Open {
                name: name@,
                attributes: attribute_views(attributes@),
            },
            Token::Close { name } => TokenView::Close { name: name@ },
            Token::Text { text } => TokenView::Text { text: text@ },
            Token::Declaration => TokenView::Declaration,
        }
    }
}

pub open spec fn token_views(v: Seq<Token>) -> Seq<TokenView> {
    v.map_values(|t: Token| t@)
}

/// Why a page could not be cut into tags and text.
#[derive(Clone, Copy, PartialEq, Eq, Structural, Debug)]
pub enum FaultKind {
    /// A `<` that no `>` follows.
    UnterminatedTag,
    /// A tag without a name, such as `<>` or `</ >`.
    UnnamedTag,
}

/// A fault and the index of the `<` that it was found at.
#[derive(Clone, Copy, PartialEq, Eq, Structural, Debug)]
pub struct Fault {
    pub kind: FaultKind,
    pub at: usize,
}

pub open spec fn is_quote(c: char) -> bool {
    c == '"' || c == '\''
}

/// The attributes written in a tag's body from index `i` on.
///
/// An attribute is a name, which ends at a space, `/` or `=`, and after `=` a
/// value: between two quotes of one kind, or up to the next space. A name
/// without `=` has the empty value; a quote that is not closed runs to the end.
pub open spec fn attributes_from(body: Seq<char>, i: int) -> Seq<AttributeView>
    decreases body.len() + 1 - i,
    via attributes_from_decreases
{
    let j = scan(body, i, Class::Gap, false);
    if i < 0 || j >= body.len() {
        Seq::empty()
    } else {
        let e = scan(body, j, Class::Stop, true);
        if e == j {
            attributes_from(body, j + 1)
        } else if e < body.len() && body[e] == '=' {
            if e + 1 < body.len() && is_quote(body[e + 1]) {
                let q = scan(body, e + 2, Class::Is(body[e + 1]), true);
                seq![AttributeView { name: body.subrange(j, e), value: body.subrange(e + 2, q) }]
                    + attributes_from(body, q + 1)
            } else {
                let v = scan(body, e + 1, Class::Space, true);
                seq![AttributeView { name: body.subrange(j, e), value: body.subrange(e + 1, v) }]
                    + attributes_from(body, v)
            }
        } else {
            seq![AttributeView { name: body.subrange(j, e), value: Seq::empty() }]
                + attributes_from(body, e)
        }
    }
}

#[via_fn]
proof fn attributes_from_decreases(body: Seq<char>, i: int) {
    if i >= 0 && i <= body.len() {
        lemma_scan(body, i, Class::Gap, false);
        let j = scan(body, i, Class::Gap, false);
        if j < body.len() {
            lemma_scan(body, j, Class::Stop, true);
            let e = scan(body, j, Class::Stop, true);
            if e < body.len() && body[e] == '=' {
                if e + 1 < body.len() && is_quote(body[e + 1]) {
                    lemma_scan(body, e + 2, Class::Is(body[e + 1]), true);
                } else {
                    lemma_scan(body, e + 1, Class::Space, true);
                }
            }
        }
    }
}

/// The token that a tag's body (what stands between `<` and `>`) denotes, if any.
pub open spec fn tag_token(body: Seq<char>) -> Option<TokenView> {
    if body.len() > 0 && (body[0] == '!' || body[0] == '?') {
        Some(TokenView::Declaration)
    } else if body.len() > 0 && body[0] == '/' {
        let name = trimmed(body.subrange(1, body.len() as int));
        if name.len() == 0 {
            None
        } else {
            Some(TokenView::Close { name })
        }
    } else {
        let e = scan(body, 0, Class::Gap, true);
        if e == 0 {
            None
        } else {
            Some(
                TokenView::Open { name: body.subrange(0, e), attributes: attributes_from(body, e) },
            )
        }
    }
}

pub open spec fn prepend(t: TokenView, rest: Result<Seq<TokenView>, Fault>) -> Result<
    Seq<TokenView>,
    Fault,
> {
    match rest {
        Ok(ts) => Ok(seq![t] + ts),
        Err(f) => Err(f),
    }
}

/// The tokens of `s` from index `i` on, or the first fault met.
pub open spec fn tokens_from(s: Seq<char>, i: int) -> Result<Seq<TokenView>, Fault>
    decreases s.len() - i,
    via tokens_from_decreases
{
    if i < 0 || i >= s.len() {
        Ok(Seq::empty())
    } else if s[i] == '<' {
        let close = scan(s, i + 1, Class::Is('>'), true);
        if close >= s.len() {
            Err(Fault { kind: FaultKind::UnterminatedTag, at: i as usize })
        } else {
            match tag_token(s.subrange(i + 1, close)) {
                None => Err(Fault { kind: FaultKind::UnnamedTag, at: i as usize }),
                Some(t) => prepend(t, tokens_from(s, close + 1)),
            }
        }
    } else {
        let end = scan(s, i + 1, Class::Is('<'), true);
        prepend(TokenView::Text { text: s.subrange(i, end) }, tokens_from(s, end))
    }
}

#[via_fn]
proof fn tokens_from_decreases(s: Seq<char>, i: int) {
    if 0 <= i < s.len() {
        lemma_scan(s, i + 1, Class::Is('>'), true);
        lemma_scan(s, i + 1, Class::Is('<'), true);
    }
}

/// The tokens of a whole page, or the first fault met.
pub open spec fn tokens_of(s: Seq<char>) -> Result<Seq<TokenView>, Fault> {
    tokens_from(s, 0)
}

pub open spec fn extend(done: Seq<TokenView>, rest: Result<Seq<TokenView>, Fault>) -> Result<
    Seq<TokenView>,
    Fault,
> {
    match rest {
        Ok(ts) => Ok(done + ts),
        Err(f) => Err(f),
    }
}

proof fn lemma_extend_prepend(
    done: Seq<TokenView>,
    t: TokenView,
    rest: Result<Seq<TokenView>, Fault>,
)
    ensures
        extend(done, prepend(t, rest)) == extend(done.push(t), rest),
{
    match rest {
        Ok(ts) => {
            assert(done + (seq![t] + ts) =~= done.push(t) + ts);
        },
        Err(_) => {},
    }
}

fn read_attributes(body: &Vec<char>, from: usize) -> (r: Vec<Attribute>)
    requires
        from <= body.len(),
    ensures
        attribute_views(r@) == attributes_from(body@, from as int),
{
    let n: usize = body.len();
    let mut r: Vec<Attribute> = Vec::new();
    let mut i: usize = from;
    loop
        invariant
            i <= n,
            n == body.len(),
            attributes_from(body@, from as int) == attribute_views(r@) + attributes_from(
                body@,
                i as int,
            ),
        decreases n - i,
    {
        let ghost before = attribute_views(r@);
        let ghost rest = attributes_from(body@, i as int);
        let j: usize = scan_chars(body, i, Class::Gap, false);
        if j >= n {
            assert(before + rest =~= before);
            return r;
        }
        let e: usize = scan_chars(body, j, Class::Stop, true);
        if e == j {
            proof {
                lemma_scan(body@, j as int, Class::Stop, true);
            }
            i = j + 1;
        } else if e < n && body[e] == '=' {
            let name = copy_range(body, j, e);
            if e + 1 < n && (body[e + 1] == '"' || body[e + 1] == '\'') {
                let q: usize = scan_chars(body, e + 2, Class::Is(body[e + 1]), true);
                let value = copy_range(body, e + 2, q);
                let a = Attribute { name, value };
                r.push(a);
                let ghost after = attributes_from(body@, q + 1);
                assert(attribute_views(r@) =~= before.push(a@));
                assert(before + (seq![a@] + after) =~= before.push(a@) + after);
                if q < n {
                    i = q + 1;
                } else {
                    assert(attributes_from(body@, n + 1) =~= attributes_from(body@, n as int));
                    i = n;
                }
            } else {
                let v: usize = scan_chars(body, e + 1, Class::Space, true);
                let value = copy_range(body, e + 1, v);
                let a = Attribute { name, value };
                r.push(a);
                let ghost after = attributes_from(body@, v as int);
                assert(attribute_views(r@) =~= before.push(a@));
                assert(before + (seq![a@] + after) =~= before.push(a@) + after);
                i = v;
            }
        } else {
            let name = copy_range(body, j, e);
            let a = Attribute { name, value: Vec::new() };
            r.push(a);
            let ghost after = attributes_from(body@, e as int);
            assert(attribute_views(r@) =~= before.push(a@));
            assert(before + (seq![a@] + after) =~= before.push(a@) + after);
            i = e;
        }
    }
}

fn read_tag(body: &Vec<char>) -> (r: Option<Token>)
    ensures
        match r {
            Some(t) => tag_token(body@) == Some(t@),
            None => tag_token(body@) is None,
        },
{
    let n: usize = body.len();
    if n > 0 && (body[0] == '!' || body[0] == '?') {
        Some(Token::Declaration)
    } else if n > 0 && body[0] == '/' {
        let rest = copy_range(body, 1, n);
        let name = trim(&rest);
        if name.len() == 0 {
            None
        } else {
            Some(Token::Close { name })
        }
    } else {
        let e: usize = scan_chars(body, 0, Class::Gap, true);
        if e == 0 {
            None
        } else {
            let name = copy_range(body, 0, e);
            let attributes = read_attributes(body, e);
            Some(Token::Open { name, attributes })
        }
    }
}

/// Cuts a page into its tokens.
pub fn tokenize(s: &Vec<char>) -> (r: Result<Vec<Token>, Fault>)
    ensures
        match r {
            Ok(v) => tokens_of(s@) == Ok::<Seq<TokenView>, Fault>(token_views(v@)),
            Err(f) => tokens_of(s@) == Err::<Seq<TokenView>, Fault>(f),
        },
{
    let n: usize = s.len();
    let mut r: Vec<Token> = Vec::new();
    let mut i: usize = 0;
    while i < n
        invariant
            i <= n,
            n == s.len(),
            tokens_of(s@) == extend(token_views(r@), tokens_from(s@, i as int)),
        decreases n - i,
    {
        let ghost before = token_views(r@);
        if s[i] == '<' {
            let close: usize = scan_chars(s, i + 1, Class::Is('>'), true);
            if close >= n {
                return Err(Fault { kind: FaultKind::UnterminatedTag, at: i });
            }
            let body = copy_range(s, i + 1, close);
            match read_tag(&body) {
                None => {
                    return Err(Fault { kind: FaultKind::UnnamedTag, at: i });
                },
                Some(t) => {
                    proof {
                        lemma_extend_prepend(before, t@, tokens_from(s@, close + 1));
                    }
                    r.push(t);
                    assert(token_views(r@) =~= before.push(t@));
                    i = close + 1;
                },
            }
        } else {
            let end: usize = scan_chars(s, i + 1, Class::Is('<'), true);
            let t = Token::Text { text: copy_range(s, i, end) };
            proof {
                lemma_extend_prepend(before, t@, tokens_from(s@, end as int));
            }
            r.push(t);
            assert(token_views(r@) =~= before.push(t@));
            i = end;
        }
    }
    assert(token_views(r@) + Seq::<TokenView>::empty() =~= token_views(r@));
    Ok(r)
}


/// The value of the first attribute, from index `i` on, that has the given name.
pub open spec fn attribute_from(attributes: Seq<AttributeView>, name: Seq<char>, i: int) -> Option<
    Seq<char>,
>
    decreases attributes.len() - i,
{
    if i < 0 || i >= attributes.len() {
        None
    } else if attributes[i].name == name {
        Some(attributes[i].value)
    } else {
        attribute_from(attributes, name, i + 1)
    }
}

/// The value that an opening tag gives to the named attribute, where it has one.
pub open spec fn attribute_of(t: TokenView, name: Seq<char>) -> Option<Seq<char>> {
    match t {
        TokenView::Open { attributes, .. } => attribute_from(attributes, name, 0),
        _ => None,
    }
}

/// Whether a token is an opening tag whose `class` attribute is `marker`.
pub open spec fn has_class(t: TokenView, marker: Seq<char>) -> bool {
    attribute_of(t, "class"@) == Some(marker)
}

/// The text that directly follows the token at `i`, without the spaces at its
/// ends; empty where no text follows it.
pub open spec fn leading_text(tokens: Seq<TokenView>, i: int) -> Seq<char> {
    if 0 <= i + 1 < tokens.len() {
        match tokens[i + 1] {
            TokenView::Text { text } => trimmed(text),
            _ => Seq::empty(),
        }
    } else {
        Seq::empty()
    }
}

/// The value of the named attribute of a token, as a copy.
pub fn attribute_value(t: &Token, name: &str) -> (r: Option<Vec<char>>)
    ensures
        match r {
            Some(v) => attribute_of(t@, name@) == Some(v@),
            None => attribute_of(t@, name@) is None,
        },
{
    match t {
        Token::Open { name: _, attributes } => {
            let wanted = chars_of(name);
            let mut i: usize = 0;
            while i < attributes.len()
                invariant
                    i <= attributes.len(),
                    wanted@ == name@,
                    attribute_of(t@, name@) == attribute_from(
                        attribute_views(attributes@),
                        name@,
                        i as int,
                    ),
                decreases attributes.len() - i,
            {
                if same_chars(&attributes[i].name, &wanted) {
                    let v = copy_range(&attributes[i].value, 0, attributes[i].value.len());
                    assert(v@ =~= attributes[i as int].value@);
                    return Some(v);
                }
                i = i + 1;
            }
            None
        },
        _ => None,
    }
}

/// Whether the `class` attribute of a token is `marker`.
pub fn class_is(t: &Token, marker: &str) -> (r: bool)
    ensures
        r == has_class(t@, marker@),
{
    match attribute_value(t, "class") {
        Some(v) => is_text(&v, marker),
        None => false,
    }
}

/// The text that directly follows the token at `i`, trimmed.
pub fn text_after(tokens: &Vec<Token>, i: usize) -> (r: Vec<char>)
    requires
        i < tokens.len(),
    ensures
        r@ == leading_text(token_views(tokens@), i as int),
{
    if i + 1 < tokens.len() {
        match &tokens[i + 1] {
            Token::Text { text } => trim(text),
            _ => Vec::new(),
        }
    } else {
        Vec::new()
    }
}

} // verus!
