use vstd::prelude::*;

verus! {

/// Strength of a boundary between two pieces of content.
#[derive(Clone, Copy, Debug, PartialEq, Eq, Structural)]
pub enum SeparatorKind {
    /// A strong boundary: sentence or clause punctuation.
    Hard,
    /// A weak boundary: whitespace or connecting punctuation.
    Soft,
}

/// Category of a token.
#[derive(Clone, Copy, Debug, PartialEq, Eq, Structural)]
pub enum TokenKind {
    /// Indexable content.
    Word,
    /// A word of the supplied stop-word list.
    StopWord,
    /// Punctuation or whitespace.
    Separator(SeparatorKind),
    /// Not classified yet.
    Unknown,
}

impl Default for TokenKind {
    fn default() -> (r: TokenKind)
        ensures
            r == TokenKind::Unknown,
    {
        TokenKind::Unknown
    }
}

/// A unit of text handed over by a segmenter.
#[derive(Clone, Debug)]
pub struct Token {
    /// The text that the token stands for.
    pub lemma: String,
    /// Its category; `Unknown` until classified.
    pub kind: TokenKind,
}

impl Token {
    /// An unclassified token over `lemma`.
    pub fn new(lemma: &str) -> (r: Token)
        ensures
            r.lemma@ == lemma@,
            r.kind == TokenKind::Unknown,
    {
        Token { lemma: lemma.to_owned(), kind: TokenKind::Unknown }
    }

    /// The text of the token.
    pub fn lemma(&self) -> (r: &str)
        ensures
            r@ == self.lemma@,
    {
        self.lemma.as_str()
    }

    /// The separator strength, where the token is a separator.
    pub fn separator_kind(&self) -> (r: Option<SeparatorKind>)
        ensures
            r == (match self.kind {
                TokenKind::Separator(k) => Some(k),
                _ => None,
            }),
    {
        match self.kind {
            TokenKind::Separator(k) => Some(k),
            _ => None,
        }
    }

    /// Whether the token is indexable content.
    pub fn is_word(&self) -> (r: bool)
        ensures
            r == (self.kind == TokenKind::Word),
    {
        self.kind == TokenKind::Word
    }

    /// Whether the token is a stop word.
    pub fn is_stopword(&self) -> (r: bool)
        ensures
            r == (self.kind == TokenKind::StopWord),
    {
        self.kind == TokenKind::StopWord
    }

    /// Whether the token is a separator of either strength.
    pub fn is_separator(&self) -> (r: bool)
        ensures
            r == (self.kind is Separator),
    {
        match self.kind {
            TokenKind::Separator(_) => true,
            _ => false,
        }
    }
}

} // verus!
