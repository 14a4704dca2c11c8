use charabia::classifier::{classify_lemma, ClassifiedTokenIter, SegmentedTokenIter, TokenClassifier};
use charabia::separator::{classify_ascii, classify_separator, classify_separator_with};
use charabia::token::{SeparatorKind, Token, TokenKind};

fn kind_of(classifier: &TokenClassifier, lemma: &str) -> TokenKind {
    classifier.classify(Token::new(lemma)).kind
}

#[test]
fn separators() {
    let classifier = TokenClassifier::default();

    let token = classifier.classify(Token::new("   "));
    assert_eq!(token.separator_kind(), Some(SeparatorKind::Soft));

    let token = classifier.classify(Token::new("\" "));
    assert_eq!(token.separator_kind(), Some(SeparatorKind::Soft));

    let token = classifier.classify(Token::new("@   "));
    assert_eq!(token.separator_kind(), Some(SeparatorKind::Soft));

    let token = classifier.classify(Token::new("."));
    assert_eq!(token.separator_kind(), Some(SeparatorKind::Hard));

    let token = classifier.classify(Token::new("   ."));
    assert_eq!(token.separator_kind(), Some(SeparatorKind::Hard));

    let token = classifier.classify(Token::new("  。"));
    assert_eq!(token.separator_kind(), Some(SeparatorKind::Hard));

    let token = classifier.classify(Token::new("S.O.S"));
    assert!(token.is_word());

    let token = classifier.classify(Token::new("ь"));
    assert!(token.is_word());
}

#[test]
fn stop_words() {
    let stop_words = fst::Set::from_iter(["the"].iter()).unwrap();
    let classifier = TokenClassifier::new(Some(&stop_words));

    let token = classifier.classify(Token::new("the"));
    assert!(token.is_stopword());

    let token = classifier.classify(Token::new("The"));
    assert!(token.is_word());

    let token = classifier.classify(Token::new("foobar"));
    assert!(token.is_word());
}

#[test]
fn whitespace_only_lemmas_are_soft() {
    let classifier = TokenClassifier::default();
    for lemma in [" ", "   ", "\u{3000}", " \u{00A0} "] {
        assert_eq!(kind_of(&classifier, lemma), TokenKind::Separator(SeparatorKind::Soft));
    }
}

#[test]
fn control_whitespace_has_no_transliteration() {
    // deunicode maps control characters to the empty string
    let classifier = TokenClassifier::default();
    for lemma in ["\t", "\n", " \r\n"] {
        assert_eq!(kind_of(&classifier, lemma), TokenKind::Word);
    }
    assert_eq!(classify_separator('\t'), None);
}

#[test]
fn hard_punctuation_lemmas_are_hard() {
    let classifier = TokenClassifier::default();
    for lemma in [".", ";", ",", "!", "?", "()", "[]", "{}", "|", "...", "?!"] {
        assert_eq!(kind_of(&classifier, lemma), TokenKind::Separator(SeparatorKind::Hard));
    }
}

#[test]
fn mixed_separator_lemmas_are_hard() {
    let classifier = TokenClassifier::default();
    for lemma in ["- .", "_,", "' ;", "\"!\"", " : ? "] {
        assert_eq!(kind_of(&classifier, lemma), TokenKind::Separator(SeparatorKind::Hard));
    }
}

#[test]
fn soft_punctuation_lemmas_are_soft() {
    let classifier = TokenClassifier::default();
    for lemma in ["-", "_", "'", ":", "/", "\\", "@", "\"", "+", "~", "=", "^", "*", "#", "- _"] {
        assert_eq!(kind_of(&classifier, lemma), TokenKind::Separator(SeparatorKind::Soft));
    }
}

#[test]
fn lemmas_with_content_are_words() {
    let classifier = TokenClassifier::default();
    for lemma in ["S.O.S", "a", "hello", " x ", "1.5", "$", "%", "&", "<", ">", "`"] {
        assert_eq!(kind_of(&classifier, lemma), TokenKind::Word);
    }
}

#[test]
fn empty_lemma_is_soft() {
    let classifier = TokenClassifier::default();
    assert_eq!(kind_of(&classifier, ""), TokenKind::Separator(SeparatorKind::Soft));
}

#[test]
fn cyrillic_letters_are_words() {
    let classifier = TokenClassifier::default();
    for lemma in ["ь", "Ь", "ъ", "А", "я", "привет", "ь."] {
        assert_eq!(kind_of(&classifier, lemma), TokenKind::Word);
    }
    assert_eq!(classify_separator('ь'), None);
    assert_eq!(classify_separator('ъ'), None);
}

#[test]
fn cyrillic_exception_ignores_transliteration() {
    assert_eq!(classify_separator_with('ь', Some("'")), None);
    assert_eq!(classify_separator_with('x', Some("'")), Some(SeparatorKind::Soft));
}

#[test]
fn separator_from_given_transliteration() {
    assert_eq!(classify_separator_with('a', None), None);
    assert_eq!(classify_separator_with('a', Some("")), None);
    assert_eq!(classify_separator_with('a', Some(". ")), Some(SeparatorKind::Hard));
    assert_eq!(classify_separator_with('a', Some(" .")), Some(SeparatorKind::Soft));
    assert_eq!(classify_separator_with('a', Some("ab")), None);
}

#[test]
fn ascii_separator_table() {
    assert_eq!(classify_ascii(' '), Some(SeparatorKind::Soft));
    assert_eq!(classify_ascii('\u{3000}'), Some(SeparatorKind::Soft));
    assert_eq!(classify_ascii('#'), Some(SeparatorKind::Soft));
    assert_eq!(classify_ascii('|'), Some(SeparatorKind::Hard));
    assert_eq!(classify_ascii('a'), None);
    assert_eq!(classify_ascii('$'), None);
}

#[test]
fn transliterated_punctuation_is_classified() {
    // the ideographic full stop transliterates to a period
    assert_eq!(classify_separator('。'), Some(SeparatorKind::Hard));
    // the full-width comma transliterates to a comma
    assert_eq!(classify_separator('，'), Some(SeparatorKind::Hard));
    assert_eq!(classify_separator('é'), None);
    assert_eq!(classify_separator('a'), None);
}

#[test]
fn classify_lemma_without_stop_words() {
    assert_eq!(classify_lemma("  。"), TokenKind::Separator(SeparatorKind::Hard));
    assert_eq!(classify_lemma("the"), TokenKind::Word);
}

#[test]
fn stop_word_overrides_separator_and_word() {
    let stop_words = fst::Set::from_iter([",", "and", "the"].iter()).unwrap();
    let classifier = TokenClassifier::new(Some(&stop_words));
    assert_eq!(kind_of(&classifier, ","), TokenKind::StopWord);
    assert_eq!(kind_of(&classifier, "and"), TokenKind::StopWord);
    assert_eq!(kind_of(&classifier, "AND"), TokenKind::Word);
    assert_eq!(kind_of(&classifier, "."), TokenKind::Separator(SeparatorKind::Hard));
    assert_eq!(kind_of(&classifier, "the "), TokenKind::Word);
}

#[test]
fn classification_is_repeatable() {
    let stop_words = fst::Set::from_iter(["the"].iter()).unwrap();
    let classifier = TokenClassifier::new(Some(&stop_words));
    for lemma in ["the", "The", " .", "  ", "word", ""] {
        let once = classifier.classify(Token::new(lemma));
        let twice = classifier.classify(once.clone());
        assert_eq!(once.kind, twice.kind);
        assert_eq!(once.lemma, twice.lemma);
        let mut stale = Token::new(lemma);
        stale.kind = TokenKind::StopWord;
        assert_eq!(classifier.classify(stale).kind, once.kind);
    }
}

#[test]
fn end_to_end_scenarios() {
    let none = TokenClassifier::new(None);
    assert_eq!(kind_of(&none, "   "), TokenKind::Separator(SeparatorKind::Soft));
    assert_eq!(kind_of(&none, "."), TokenKind::Separator(SeparatorKind::Hard));
    assert_eq!(kind_of(&none, "  。"), TokenKind::Separator(SeparatorKind::Hard));

    let stop_words = fst::Set::from_iter(["the"].iter()).unwrap();
    let with = TokenClassifier::new(Some(&stop_words));
    assert_eq!(kind_of(&with, "the"), TokenKind::StopWord);
    assert_eq!(kind_of(&with, "foobar"), TokenKind::Word);
}

#[test]
fn classified_iterator_keeps_order() {
    let tokens = vec![Token::new("the"), Token::new(" "), Token::new("cat"), Token::new(".")];
    let stop_words = fst::Set::from_iter(["the"].iter()).unwrap();
    let mut iter: ClassifiedTokenIter = SegmentedTokenIter::new(tokens).classify_with_stop_words(Some(&stop_words));
    let mut out = Vec::new();
    while let Some(token) = iter.next() {
        out.push((token.lemma.clone(), token.kind));
    }
    assert_eq!(
        out,
        vec![
            ("the".to_string(), TokenKind::StopWord),
            (" ".to_string(), TokenKind::Separator(SeparatorKind::Soft)),
            ("cat".to_string(), TokenKind::Word),
            (".".to_string(), TokenKind::Separator(SeparatorKind::Hard)),
        ]
    );
    assert!(iter.next().is_none());
}

#[test]
fn classified_iterator_without_stop_words() {
    let tokens = vec![Token::new("the"), Token::new("")];
    let mut iter = SegmentedTokenIter::new(tokens).classify();
    assert_eq!(iter.next().map(|t| t.kind), Some(TokenKind::Word));
    assert_eq!(iter.next().map(|t| t.kind), Some(TokenKind::Separator(SeparatorKind::Soft)));
    assert!(iter.next().is_none());
}

#[test]
fn segmented_iterator_yields_in_order() {
    let mut iter = SegmentedTokenIter::new(vec![Token::new("a"), Token::new("b")]);
    assert_eq!(iter.next().map(|t| t.lemma), Some("a".to_string()));
    assert_eq!(iter.next().map(|t| t.lemma), Some("b".to_string()));
    assert!(iter.next().is_none());
}

#[test]
fn token_accessors() {
    let mut token = Token::new("x");
    assert_eq!(token.lemma(), "x");
    assert_eq!(token.kind, TokenKind::Unknown);
    assert_eq!(TokenKind::default(), TokenKind::Unknown);
    assert!(!token.is_word() && !token.is_stopword() && !token.is_separator());
    token.kind = TokenKind::Separator(SeparatorKind::Soft);
    assert!(token.is_separator());
    assert_eq!(token.separator_kind(), Some(SeparatorKind::Soft));
}
