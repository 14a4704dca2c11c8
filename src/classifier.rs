use crate::separator::{
    classify_separator, is_cyrillic_letter, is_hard_punctuation,
    separator_from_transliteration, separator_kind_of,
};
use crate::token::{SeparatorKind, Token, TokenKind};
use std::collections::VecDeque;
use vstd::prelude::*;
use vstd::utf8::encode_utf8;

verus! {

#[verifier::external_type_specification]
#[verifier::external_body]
#[verifier::reject_recursive_types(D)]
pub struct ExFstSet<D>(fst::Set<D>);

/// The byte strings held by an fst set.
pub uninterp spec fn stop_words_of(set: fst::Set<Vec<u8>>) -> Set<Seq<u8>>;

/// Relies on `fst::Set::contains`: true exactly when the UTF-8 bytes of `key`
/// are one of the byte strings of the set.
#[verifier::external_body]
fn stop_words_contain(set: &fst::Set<Vec<u8>>, key: &str) -> (r: bool)
    ensures
        r == stop_words_of(*set).contains(encode_utf8(key@)),
{
    set.contains(key)
}

/// Every character of `s` is a separator.
pub open spec fn all_separators(s: Seq<char>) -> bool {
    forall|i: int| 0 <= i < s.len() ==> (#[trigger] separator_kind_of(s[i])) is Some
}

/// Some character of `s` is a hard separator.
pub open spec fn has_hard_separator(s: Seq<char>) -> bool {
    exists|i: int| 0 <= i < s.len() && #[trigger] separator_kind_of(s[i]) == Some(SeparatorKind::Hard)
}

/// Kind of a lemma that is not a stop word.
pub open spec fn lemma_kind(s: Seq<char>) -> TokenKind {
    if all_separators(s) {
        if has_hard_separator(s) {
            TokenKind::Separator(SeparatorKind::Hard)
        } else {
            TokenKind::Separator(SeparatorKind::Soft)
        }
    } else {
        TokenKind::Word
    }
}

/// The UTF-8 bytes of `lemma` are one of the stop words in force.
pub open spec fn is_stop_word(lemma: Seq<char>, stop_words: Option<Set<Seq<u8>>>) -> bool {
    match stop_words {
        Some(sw) => sw.contains(encode_utf8(lemma)),
        None => false,
    }
}

/// Kind of a lemma given the stop words in force, if any.
pub open spec fn token_kind(lemma: Seq<char>, stop_words: Option<Set<Seq<u8>>>) -> TokenKind {
    if is_stop_word(lemma, stop_words) {
        TokenKind::StopWord
    } else {
        lemma_kind(lemma)
    }
}

/// Kind of a lemma that is not a stop word: a separator when every character
/// is one (hard when any is hard), a word otherwise.
pub fn classify_lemma(lemma: &str) -> (r: TokenKind)
    ensures
        r == lemma_kind(lemma@),
{
    let mut all: bool = true;
    let mut hard: bool = false;
    for c in it: lemma.chars()
        invariant
            it.seq() == lemma@,
            all <==> forall|j: int| 0 <= j < it.index() ==> (#[trigger] separator_kind_of(it.seq()[j])) is Some,
            all ==> (hard <==> exists|j: int|
                0 <= j < it.index() && #[trigger] separator_kind_of(it.seq()[j]) == Some(SeparatorKind::Hard)),
    {
        if all {
            match classify_separator(c) {
                Some(SeparatorKind::Hard) => {
                    hard = true;
                },
                Some(SeparatorKind::Soft) => {},
                None => {
                    all = false;
                },
            }
        }
    }
    if !all {
        TokenKind::Word
    } else if hard {
        TokenKind::Separator(SeparatorKind::Hard)
    } else {
        TokenKind::Separator(SeparatorKind::Soft)
    }
}

/// Gives each token its kind, with an optional stop-word set.
#[derive(Clone)]
pub struct TokenClassifier<'sw> {
    stop_words: Option<&'sw fst::Set<Vec<u8>>>,
}

impl<'sw> Default for TokenClassifier<'sw> {
    fn default() -> (r: TokenClassifier<'sw>)
        ensures
            r.stop_word_set() is None,
    {
        TokenClassifier { stop_words: None }
    }
}

impl<'sw> TokenClassifier<'sw> {
    /// The stop words in force, if any.
    pub closed spec fn stop_word_set(&self) -> Option<Set<Seq<u8>>> {
        match self.stop_words {
            Some(sw) => Some(stop_words_of(*sw)),
            None => None,
        }
    }

    /// `token` as this classifier leaves it.
    pub open spec fn classified(&self, token: Token) -> Token {
        Token { lemma: token.lemma, kind: token_kind(token.lemma@, self.stop_word_set()) }
    }

    /// A classifier that uses `stop_words` where given.
    pub fn new(stop_words: Option<&'sw fst::Set<Vec<u8>>>) -> (r: TokenClassifier<'sw>)
        ensures
            r.stop_word_set() == (match stop_words {
                Some(sw) => Some(stop_words_of(*sw)),
                None => None,
            }),
    {
        TokenClassifier { stop_words }
    }

    /// Sets the kind of `token`: `StopWord` when its lemma is in the stop-word
    /// set, else a separator when every character is one (hard when any is
    /// hard), else `Word`. The lemma is kept.
    pub fn classify(&self, token: Token) -> (r: Token)
        ensures
            r == self.classified(token),
    {
        let mut token = token;
        let is_stop_word = match self.stop_words {
            Some(sw) => stop_words_contain(sw, token.lemma.as_str()),
            None => false,
        };
        if is_stop_word {
            token.kind = TokenKind::StopWord;
        } else {
            token.kind = classify_lemma(token.lemma.as_str());
        }
        token
    }
}

/// A single forward pass over tokens coming from a segmenter.
pub struct SegmentedTokenIter {
    tokens: VecDeque<Token>,
}

impl SegmentedTokenIter {
    /// The tokens not yet pulled, in order.
    pub closed spec fn remaining(&self) -> Seq<Token> {
        self.tokens@
    }

    /// A pass over `tokens`, in order.
    pub fn new(tokens: Vec<Token>) -> (r: SegmentedTokenIter)
        ensures
            r.remaining() == tokens@,
    {
        let mut tokens = tokens;
        let ghost all = tokens@;
        let mut queue: VecDeque<Token> = VecDeque::new();
        while tokens.len() > 0
            invariant
                tokens@ + queue@ == all,
            decreases tokens@.len(),
        {
            let t = tokens.pop().unwrap();
            queue.push_front(t);
            assert(tokens@ + queue@ =~= all);
        }
        assert(queue@ =~= all);
        SegmentedTokenIter { tokens: queue }
    }

    /// Pulls the next token, if one is left.
    pub fn next(&mut self) -> (r: Option<Token>)
        ensures
            old(self).remaining().len() == 0 ==> r is None && final(self).remaining() == old(self).remaining(),
            old(self).remaining().len() > 0 ==> r == Some(old(self).remaining()[0])
                && final(self).remaining() == old(self).remaining().drop_first(),
    {
        let r = self.tokens.pop_front();
        proof {
            if old(self).remaining().len() > 0 {
                assert(self.tokens@ =~= old(self).remaining().drop_first());
            }
        }
        r
    }

    /// Classifies each token as it is pulled, without stop words.
    pub fn classify(self) -> (r: ClassifiedTokenIter<'static>)
        ensures
            r.remaining() == self.remaining(),
            r.classifier().stop_word_set() is None,
    {
        self.classify_with_stop_words(None)
    }

    /// Classifies each token as it is pulled; a token whose lemma is in
    /// `stop_words` becomes a stop word.
    pub fn classify_with_stop_words<'sw>(self, stop_words: Option<&'sw fst::Set<Vec<u8>>>) -> (r:
        ClassifiedTokenIter<'sw>)
        ensures
            r.remaining() == self.remaining(),
            r.classifier().stop_word_set() == (match stop_words {
                Some(sw) => Some(stop_words_of(*sw)),
                None => None,
            }),
    {
        ClassifiedTokenIter { inner: self, classifier: TokenClassifier::new(stop_words) }
    }
}

/// A pass over classified tokens: each token is classified as it is pulled.
pub struct ClassifiedTokenIter<'sw> {
    inner: SegmentedTokenIter,
    classifier: TokenClassifier<'sw>,
}

impl<'sw> ClassifiedTokenIter<'sw> {
    /// The tokens not yet pulled, before classification.
    pub closed spec fn remaining(&self) -> Seq<Token> {
        self.inner.remaining()
    }

    /// The classifier applied to each token.
    pub closed spec fn classifier(&self) -> TokenClassifier<'sw> {
        self.classifier
    }

    /// Pulls the next token and classifies it; `None` once the tokens are
    /// exhausted.
    pub fn next(&mut self) -> (r: Option<Token>)
        ensures
            final(self).classifier() == old(self).classifier(),
            old(self).remaining().len() == 0 ==> r is None && final(self).remaining() == old(self).remaining(),
            old(self).remaining().len() > 0 ==> r == Some(old(self).classifier().classified(old(self).remaining()[0]))
                && final(self).remaining() == old(self).remaining().drop_first(),
    {
        match self.inner.next() {
            Some(token) => Some(self.classifier.classify(token)),
            None => None,
        }
    }
}

/// A lemma made only of spaces, and not a stop word, is a soft separator.
pub proof fn space_lemma_is_soft(lemma: Seq<char>, stop_words: Option<Set<Seq<u8>>>)
    requires
        forall|i: int|
            0 <= i < lemma.len() ==> #[trigger] lemma[i] == ' ',
        !is_stop_word(lemma, stop_words),
    ensures
        token_kind(lemma, stop_words) == TokenKind::Separator(SeparatorKind::Soft),
{
    assert forall|i: int| 0 <= i < lemma.len() implies #[trigger] separator_kind_of(lemma[i])
        == Some(SeparatorKind::Soft) by {
        assert(seq![lemma[i]][0] == lemma[i]);
    }
}

/// A non-empty lemma made only of hard punctuation, and not a stop word, is a
/// hard separator.
pub proof fn hard_punctuation_lemma_is_hard(lemma: Seq<char>, stop_words: Option<Set<Seq<u8>>>)
    requires
        lemma.len() > 0,
        forall|i: int| 0 <= i < lemma.len() ==> is_hard_punctuation(#[trigger] lemma[i]),
        !is_stop_word(lemma, stop_words),
    ensures
        token_kind(lemma, stop_words) == TokenKind::Separator(SeparatorKind::Hard),
{
    assert forall|i: int| 0 <= i < lemma.len() implies #[trigger] separator_kind_of(lemma[i])
        == Some(SeparatorKind::Hard) by {
        assert(seq![lemma[i]][0] == lemma[i]);
    }
    assert(separator_kind_of(lemma[0]) == Some(SeparatorKind::Hard));
}

/// A lemma made only of separators, at least one of them hard, and not a stop
/// word, is a hard separator: hard dominates soft.
pub proof fn mixed_separator_lemma_is_hard(lemma: Seq<char>, stop_words: Option<Set<Seq<u8>>>, k: int)
    requires
        forall|i: int| 0 <= i < lemma.len() ==> (#[trigger] separator_kind_of(lemma[i])) is Some,
        0 <= k < lemma.len(),
        separator_kind_of(lemma[k]) == Some(SeparatorKind::Hard),
        !is_stop_word(lemma, stop_words),
    ensures
        token_kind(lemma, stop_words) == TokenKind::Separator(SeparatorKind::Hard),
{
}

/// A lemma with one character that is not a separator, and not a stop word,
/// is a word, whatever its other characters are.
pub proof fn lemma_with_non_separator_is_word(lemma: Seq<char>, stop_words: Option<Set<Seq<u8>>>, k: int)
    requires
        0 <= k < lemma.len(),
        separator_kind_of(lemma[k]) is None,
        !is_stop_word(lemma, stop_words),
    ensures
        token_kind(lemma, stop_words) == TokenKind::Word,
{
}

/// A Cyrillic letter is never a separator, whatever its transliteration; a
/// lemma holding one, and not a stop word, is a word.
pub proof fn cyrillic_letter_is_not_separator(
    lemma: Seq<char>,
    stop_words: Option<Set<Seq<u8>>>,
    k: int,
    translit: Option<Seq<char>>,
)
    requires
        0 <= k < lemma.len(),
        is_cyrillic_letter(lemma[k]),
        !is_stop_word(lemma, stop_words),
    ensures
        separator_from_transliteration(lemma[k], translit) is None,
        separator_kind_of(lemma[k]) is None,
        token_kind(lemma, stop_words) == TokenKind::Word,
{
}

/// A lemma whose exact bytes are a stop word is a stop word, whatever it
/// would be otherwise; any other lemma is classified as if there were no stop
/// words, so a lemma that differs from a stop word only in case is not one.
pub proof fn stop_word_takes_precedence(lemma: Seq<char>, stop_words: Set<Seq<u8>>)
    ensures
        stop_words.contains(encode_utf8(lemma)) ==> token_kind(lemma, Some(stop_words))
            == TokenKind::StopWord,
        !stop_words.contains(encode_utf8(lemma)) ==> token_kind(lemma, Some(stop_words))
            == token_kind(lemma, None),
{
}

/// Classification depends on the lemma and the stop words alone: classifying
/// a classified token again gives the same token, and two tokens with the same
/// lemma get the same kind, whatever kind they held before.
pub proof fn classification_is_idempotent(classifier: TokenClassifier, a: Token, b: Token)
    ensures
        classifier.classified(classifier.classified(a)) == classifier.classified(a),
        a.lemma@ == b.lemma@ ==> classifier.classified(a).kind == classifier.classified(b).kind,
{
}

} // verus!
