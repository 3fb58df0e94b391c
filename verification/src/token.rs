//! Lexical atoms consumed by the resolver.

use vstd::prelude::*;

verus! {

/// Lexical category of a token.  The resolver itself only distinguishes
/// newlines (which terminate resolution) from everything else; the categories
/// matter to pattern matching and operator resolution.
#[derive(Clone, Copy, Debug, PartialEq, Eq, Structural)]
pub enum Variant {
    /// Terminates resolution; inside a block it separates the block's lines.
    Newline,
    /// An identifier.
    Ident,
    /// A binary operator.  Sequence operators (for example `,`) chain the
    /// elements of array and tuple literals.
    Operator { is_sequence: bool },
    /// Any other symbol, for example a group delimiter.
    Symbol,
}

/// A lexical atom: its source text, the whitespace preceding it, and its
/// category.
#[derive(Debug)]
pub struct Token {
    /// Trivia (whitespace) between the previous token and this one.
    pub left_offset: String,
    /// The token's source text.
    pub code: String,
    /// The token's lexical category.
    pub variant: Variant,
}

/// Mathematical image of a [`Token`].
pub struct SpecToken {
    pub left_offset: Seq<char>,
    pub code: Seq<char>,
    pub variant: Variant,
}

impl View for Token {
    type V = SpecToken;

    open spec fn view(&self) -> SpecToken {
        SpecToken { left_offset: self.left_offset@, code: self.code@, variant: self.variant }
    }
}

impl DeepView for Token {
    type V = SpecToken;

    open spec fn deep_view(&self) -> SpecToken {
        self.view()
    }
}

impl SpecToken {
    /// Whether the token ends resolution.
    pub open spec fn is_newline(self) -> bool {
        self.variant is Newline
    }
}

impl Token {
    /// Constructor.
    pub fn new(left_offset: String, code: String, variant: Variant) -> (r: Token)
        ensures
            r@ == (SpecToken { left_offset: left_offset@, code: code@, variant }),
    {
        Token { left_offset, code, variant }
    }

    /// A newline token with no text of its own.
    pub fn newline() -> (r: Token)
        ensures
            r@ == (SpecToken {
                left_offset: Seq::<char>::empty(),
                code: Seq::<char>::empty(),
                variant: Variant::Newline,
            }),
    {
        Token { left_offset: String::new(), code: String::new(), variant: Variant::Newline }
    }

    /// An identifier token.
    pub fn ident(left_offset: String, code: String) -> (r: Token)
        ensures
            r@ == (SpecToken { left_offset: left_offset@, code: code@, variant: Variant::Ident }),
    {
        Token { left_offset, code, variant: Variant::Ident }
    }

    /// A symbol token, for example a group delimiter.
    pub fn symbol(left_offset: String, code: String) -> (r: Token)
        ensures
            r@ == (SpecToken { left_offset: left_offset@, code: code@, variant: Variant::Symbol }),
    {
        Token { left_offset, code, variant: Variant::Symbol }
    }

    /// An operator token.
    pub fn operator(left_offset: String, code: String, is_sequence: bool) -> (r: Token)
        ensures
            r@ == (SpecToken {
                left_offset: left_offset@,
                code: code@,
                variant: Variant::Operator { is_sequence },
            }),
    {
        Token { left_offset, code, variant: Variant::Operator { is_sequence } }
    }

    /// Whether the token ends resolution.
    pub fn is_newline(&self) -> (r: bool)
        ensures
            r == self@.is_newline(),
    {
        matches!(self.variant, Variant::Newline)
    }

    /// An identical token.
    pub fn copied(&self) -> (r: Token)
        ensures
            r@ == self@,
    {
        Token {
            left_offset: self.left_offset.clone(),
            code: self.code.clone(),
            variant: self.variant,
        }
    }
}

} // verus!
