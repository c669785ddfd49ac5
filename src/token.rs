use vstd::prelude::*;

verus! {

/// The reserved words of the language.
#[derive(Clone, Copy, PartialEq, Eq, Structural, Debug)]
pub enum KeywordKind {
    Else,
    Import,
    Return,
    For,
    As,
    Def,
    Elif,
    If,
}

/// The category of a lexeme.
#[derive(Clone, Copy, PartialEq, Eq, Structural, Debug)]
pub enum Category {
    Identifier,
    String,
    Operator,
    Delimiter,
    Integer,
    Float,
    Keyword,
}

/// A classified lexeme; the text is the exact source bytes that produced it.
#[derive(Debug)]
pub enum Token {
    Id(Vec<u8>),
    String(Vec<u8>),
    Operator(Vec<u8>),
    Delimiter(Vec<u8>),
    Integer(Vec<u8>),
    Float(Vec<u8>),
    Keyword(Vec<u8>, KeywordKind),
}

/// What a token stands for: its category, its text and, for a keyword, which one.
pub struct TokenView {
    pub category: Category,
    pub text: Seq<u8>,
    pub keyword: Option<KeywordKind>,
}

/// The token of category `c` with text `text`, for any category but `Keyword`.
pub open spec fn plain(c: Category, text: Seq<u8>) -> TokenView {
    TokenView { category: c, text, keyword: None }
}

/// The name under which a category is shown.
pub open spec fn category_name(c: Category) -> Seq<char> {
    match c {
        Category::Identifier => "Identifier"@,
        Category::String => "String"@,
        Category::Operator => "Operator"@,
        Category::Delimiter => "Delimiter"@,
        Category::Integer => "Integer"@,
        Category::Float => "Float"@,
        Category::Keyword => "Keyword"@,
    }
}

/// Copies a byte string.
pub fn copy_bytes(v: &Vec<u8>) -> (r: Vec<u8>)
    ensures
        r@ == v@,
{
    let mut r: Vec<u8> = Vec::new();
    let mut i: usize = 0;
    while i < v.len()
        invariant
            i <= v@.len(),
            r@ == v@.subrange(0, i as int),
        decreases v@.len() - i,
    {
        r.push(v[i]);
        i = i + 1;
        assert(r@ =~= v@.subrange(0, i as int));
    }
    assert(r@ =~= v@);
    r
}

impl View for Token {
    type V = TokenView;

    open spec fn view(&self) -> TokenView {
        match self {
            Token::Id(t) => plain(Category::Identifier, t@),
            Token::String(t) => plain(Category::String, t@),
            Token::Operator(t) => plain(Category::Operator, t@),
            Token::Delimiter(t) => plain(Category::Delimiter, t@),
            Token::Integer(t) => plain(Category::Integer, t@),
            Token::Float(t) => plain(Category::Float, t@),
            Token::Keyword(t, k) => TokenView {
                category: Category::Keyword,
                text: t@,
                keyword: Some(*k),
            },
        }
    }
}

impl Token {
    /// Builds the token of category `c` over `text`; a keyword is built as an
    /// identifier, since which keyword it is comes from the symbol table.
    pub fn from_category(c: Category, text: Vec<u8>) -> (r: Token)
        ensures
            c != Category::Keyword ==> r@ == plain(c, text@),
            c == Category::Keyword ==> r@ == plain(Category::Identifier, text@),
    {
        match c {
            Category::String => Token::String(text),
            Category::Operator => Token::Operator(text),
            Category::Delimiter => Token::Delimiter(text),
            Category::Integer => Token::Integer(text),
            Category::Float => Token::Float(text),
            _ => Token::Id(text),
        }
    }

    /// The category of the token.
    pub fn category(&self) -> (r: Category)
        ensures
            r == self@.category,
    {
        match self {
            Token::Id(_) => Category::Identifier,
            Token::String(_) => Category::String,
            Token::Operator(_) => Category::Operator,
            Token::Delimiter(_) => Category::Delimiter,
            Token::Integer(_) => Category::Integer,
            Token::Float(_) => Category::Float,
            Token::Keyword(_, _) => Category::Keyword,
        }
    }

    /// The name of the token's category.
    pub fn value(&self) -> (r: &'static str)
        ensures
            r@ == category_name(self@.category),
    {
        proof {
            reveal_strlit("Identifier");
            reveal_strlit("String");
            reveal_strlit("Operator");
            reveal_strlit("Delimiter");
            reveal_strlit("Integer");
            reveal_strlit("Float");
            reveal_strlit("Keyword");
        }
        match self {
            Token::Id(_) => "Identifier",
            Token::String(_) => "String",
            Token::Operator(_) => "Operator",
            Token::Delimiter(_) => "Delimiter",
            Token::Integer(_) => "Integer",
            Token::Float(_) => "Float",
            Token::Keyword(_, _) => "Keyword",
        }
    }

    /// The source text of the token.
    pub fn text(&self) -> (r: &Vec<u8>)
        ensures
            r@ == self@.text,
    {
        match self {
            Token::Id(t) => t,
            Token::String(t) => t,
            Token::Operator(t) => t,
            Token::Delimiter(t) => t,
            Token::Integer(t) => t,
            Token::Float(t) => t,
            Token::Keyword(t, _) => t,
        }
    }

    /// Which keyword the token is, if it is one.
    pub fn keyword(&self) -> (r: Option<KeywordKind>)
        ensures
            r == self@.keyword,
    {
        match self {
            Token::Keyword(_, k) => Some(*k),
            _ => None,
        }
    }
}

impl Clone for Token {
    fn clone(&self) -> (r: Self)
        ensures
            r@ == self@,
    {
        match self {
            Token::Id(t) => Token::Id(copy_bytes(t)),
            Token::String(t) => Token::String(copy_bytes(t)),
            Token::Operator(t) => Token::Operator(copy_bytes(t)),
            Token::Delimiter(t) => Token::Delimiter(copy_bytes(t)),
            Token::Integer(t) => Token::Integer(copy_bytes(t)),
            Token::Float(t) => Token::Float(copy_bytes(t)),
            Token::Keyword(t, k) => Token::Keyword(copy_bytes(t), *k),
        }
    }
}

} // verus!
