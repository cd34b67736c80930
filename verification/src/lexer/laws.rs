//! What holds of every text that is tokenized.
use crate::lexer::scan::{
    identifier_end, is_identifier_part, lemma_newlines_bounds, lemma_scan_advances, scan_token,
    string_scan, token_start, token_stream, unclosed_string_message, Cursor, Scanned,
    StringScan, TokenStart,
};
use crate::lexer::symbols::SymbolType;
use crate::lexer::tokenizer::{TokenType, TokenView, Tokenizer};
use crate::lexer::unicode::alphabetic;
use vstd::prelude::*;

verus! {

/// Two tokenizers that have been made for the same text yield the same
/// tokens, call by call, and the same error if the text goes wrong.
pub proof fn lemma_tokenizing_is_deterministic(first: Tokenizer, second: Tokenizer)
    requires
        first.source() == second.source(),
        first.cursor() == Cursor::start(),
        second.cursor() == Cursor::start(),
    ensures
        scan_token(first.source(), first.cursor()) == scan_token(
            second.source(),
            second.cursor(),
        ),
        token_stream(first.source(), first.cursor()) == token_stream(
            second.source(),
            second.cursor(),
        ),
{
}

/// Whether the character at index `at` is escaped in a string literal whose
/// body begins at `body`: a backslash stands before it that is not escaped
/// itself.
pub open spec fn is_escaped(source: Seq<char>, body: int, at: int) -> bool
    decreases at - body,
{
    if at <= body || at > source.len() {
        false
    } else {
        source[at - 1] == '\\' && !is_escaped(source, body, at - 1)
    }
}

/// Whether the string literal whose body begins at `body` has no closing
/// quote: every `"` after `body` is escaped.
pub open spec fn is_unterminated(source: Seq<char>, body: int) -> bool {
    forall|at: int|
        body <= at < source.len() && source[at] == '"' ==> #[trigger] is_escaped(source, body, at)
}

/// The scan of a string literal without a closing quote runs to the end of
/// the source.
pub proof fn lemma_unterminated_scan(source: Seq<char>, body: int, from: int, text: Seq<char>)
    requires
        0 <= body <= from <= source.len(),
        is_unterminated(source, body),
    ensures
        string_scan(source, from, is_escaped(source, body, from), text) is Unclosed,
    decreases source.len() - from,
{
    if from < source.len() {
        let c = source[from];
        let escaped = is_escaped(source, body, from);
        if escaped {
            lemma_unterminated_scan(source, body, from + 1, text.push(c));
        } else if c == '\\' {
            lemma_unterminated_scan(source, body, from + 1, text);
        } else if c != '"' {
            lemma_unterminated_scan(source, body, from + 1, text.push(c));
        }
    }
}

/// A scan of a string literal that finds the closing quote finds the first
/// quote that is not escaped.
pub proof fn lemma_closing_quote_is_first_unescaped(
    source: Seq<char>,
    body: int,
    from: int,
    text: Seq<char>,
)
    requires
        0 <= body <= from <= source.len(),
    ensures
        string_scan(source, from, is_escaped(source, body, from), text) matches StringScan::Closed {
            at,
            ..
        } ==> {
            &&& from <= at < source.len()
            &&& source[at] == '"'
            &&& !is_escaped(source, body, at)
            &&& forall|i: int|
                from <= i < at && source[i] == '"' ==> #[trigger] is_escaped(source, body, i)
        },
    decreases source.len() - from,
{
    if from < source.len() {
        let c = source[from];
        if is_escaped(source, body, from) {
            lemma_closing_quote_is_first_unescaped(source, body, from + 1, text.push(c));
        } else if c == '\\' {
            lemma_closing_quote_is_first_unescaped(source, body, from + 1, text);
        } else if c != '"' {
            lemma_closing_quote_is_first_unescaped(source, body, from + 1, text.push(c));
        }
    }
}

/// The tokenizer only moves forward: a call leaves neither the position nor
/// the line counter smaller than it found them.
pub proof fn lemma_tokenizer_moves_forward(source: Seq<char>, cursor: Cursor)
    ensures
        cursor.position <= scan_token(source, cursor).cursor.position,
        cursor.line <= scan_token(source, cursor).cursor.line,
    decreases source.len() - cursor.position,
{
    lemma_scan_advances(source, cursor);
    if 0 <= cursor.position < source.len() {
        let after = cursor.read_one(source);
        let stop = scan_token(source, cursor).cursor.position;
        lemma_newlines_bounds(source, after.position, stop);
        lemma_newlines_bounds(source, after.position, stop + 1);
        if token_start(source[cursor.position]) == TokenStart::Blank {
            lemma_tokenizer_moves_forward(source, after);
        }
    }
}

/// A string literal without a closing quote is a lexical error whose
/// message calls the literal unclosed, and the tokens end there.
pub proof fn lemma_unterminated_string_is_rejected(source: Seq<char>, cursor: Cursor)
    requires
        0 <= cursor.position < source.len(),
        token_start(source[cursor.position]) == TokenStart::StringQuote,
        is_unterminated(source, cursor.position + 1),
    ensures
        scan_token(source, cursor).outcome matches Scanned::Failure(error) && error.message
            == unclosed_string_message() && error.position == source.len() + 1,
        token_stream(source, cursor).tokens.len() == 0,
        token_stream(source, cursor).failure matches Some(error) && error.message
            == unclosed_string_message(),
{
    lemma_unterminated_scan(source, cursor.position + 1, cursor.position + 1, Seq::empty());
}

/// A punctuation mark is a token by itself: the token of a symbol holds the
/// one character that the symbol stands for, and begins where it ends.
pub proof fn lemma_symbol_token_is_one_character(source: Seq<char>, cursor: Cursor)
    ensures
        scan_token(source, cursor).outcome matches Scanned::Token(token) ==> (
        token.token_type matches Some(TokenType::Symbol(symbol)) ==> token.value == Some(
            seq![symbol.character()],
        ) && token.start_pos == token.end_pos),
    decreases source.len() - cursor.position,
{
    if 0 <= cursor.position < source.len() {
        let c = source[cursor.position];
        SymbolType::lemma_of_finds_the_symbol(c);
        if token_start(c) == TokenStart::Blank {
            lemma_symbol_token_is_one_character(source, cursor.read_one(source));
        }
    }
}

/// Whether the tokenizer, called `calls` times at `from`, yields a token
/// each time and then stands at `to`.
pub open spec fn reaches(source: Seq<char>, from: Cursor, to: Cursor, calls: nat) -> bool
    decreases calls,
{
    if calls == 0 {
        from == to
    } else {
        scan_token(source, from).outcome is Token && reaches(
            source,
            scan_token(source, from).cursor,
            to,
            (calls - 1) as nat,
        )
    }
}

/// What the tokenizer yields from a place that it reaches is the end of what
/// it yields from where it began: the same tokens after those of the calls
/// in between, and the same error, if any.
pub proof fn lemma_stream_continues(source: Seq<char>, from: Cursor, to: Cursor, calls: nat)
    requires
        reaches(source, from, to, calls),
    ensures
        token_stream(source, from).failure == token_stream(source, to).failure,
        token_stream(source, from).tokens.len() == calls + token_stream(source, to).tokens.len(),
        token_stream(source, from).tokens.skip(calls as int) == token_stream(source, to).tokens,
    decreases calls,
{
    if calls > 0 {
        lemma_stream_continues(
            source,
            scan_token(source, from).cursor,
            to,
            (calls - 1) as nat,
        );
    }
}

/// A text in which a string literal without a closing quote begins where a
/// token is due is not tokenized to its end: after the tokens before the
/// literal comes a lexical error whose message calls the literal unclosed.
pub proof fn lemma_text_with_unterminated_string(
    source: Seq<char>,
    quote: Cursor,
    calls: nat,
)
    requires
        reaches(source, Cursor::start(), quote, calls),
        0 <= quote.position < source.len(),
        token_start(source[quote.position]) == TokenStart::StringQuote,
        is_unterminated(source, quote.position + 1),
    ensures
        token_stream(source, Cursor::start()).tokens.len() == calls,
        token_stream(source, Cursor::start()).failure matches Some(error) && error.message
            == unclosed_string_message(),
{
    lemma_unterminated_string_is_rejected(source, quote);
    lemma_stream_continues(source, Cursor::start(), quote, calls);
}

/// A stretch of the source: the characters at the indices from `start` up
/// to, but not including, `end`.
pub ghost struct Word {
    pub start: int,
    pub end: int,
}

/// Whether `c` separates words: the tokenizer takes it for white space, and
/// it is no part of an identifier.
pub open spec fn is_separator(c: char) -> bool {
    token_start(c) == TokenStart::Blank && !is_identifier_part(c)
}

/// Whether the index `i` lies in one of the words.
pub open spec fn in_word(words: Seq<Word>, i: int) -> bool {
    exists|k: int| 0 <= k < words.len() && (#[trigger] words[k]).start <= i < words[k].end
}

/// Whether `source` consists of alphabetic words at the given places, in
/// the order of the source and at least one character apart, and of
/// separators everywhere else.
pub open spec fn is_words(source: Seq<char>, words: Seq<Word>) -> bool {
    &&& forall|k: int|
        0 <= k < words.len() ==> 0 <= (#[trigger] words[k]).start < words[k].end <= source.len()
    &&& forall|k: int|
        #![trigger words[k]]
        0 <= k < words.len() - 1 ==> words[k].end < words[k + 1].start
    &&& forall|i: int|
        0 <= i < source.len() ==> if in_word(words, i) {
            alphabetic(#[trigger] source[i])
        } else {
            is_separator(source[i])
        }
}

/// Whether `token` is the identifier that consists of the characters of
/// `word`, with the positions of its first and its last character, counted
/// from 1.
pub open spec fn is_word_token(token: TokenView, source: Seq<char>, word: Word) -> bool {
    &&& token.token_type == Some(TokenType::Identifier)
    &&& token.value == Some(source.subrange(word.start, word.end))
    &&& token.start_pos == word.start + 1
    &&& token.end_pos == word.end
}

/// Of two words the earlier ends before the later begins.
proof fn lemma_words_in_order(source: Seq<char>, words: Seq<Word>, j: int, k: int)
    requires
        is_words(source, words),
        0 <= j < k < words.len(),
    ensures
        words[j].end < words[k].start,
    decreases k - j,
{
    if j + 1 < k {
        lemma_words_in_order(source, words, j, k - 1);
    }
}

/// The index `i` lies in no word if it lies after the word before the
/// `k`-th, if there is one, and before the `k`-th, if there is one.
proof fn lemma_between_words(source: Seq<char>, words: Seq<Word>, k: int, i: int)
    requires
        is_words(source, words),
        0 <= k <= words.len(),
        k > 0 ==> words[k - 1].end <= i,
        k < words.len() ==> i < words[k].start,
    ensures
        !in_word(words, i),
{
    assert forall|j: int| 0 <= j < words.len() implies !((#[trigger] words[j]).start <= i
        < words[j].end) by {
        if j < k - 1 {
            lemma_words_in_order(source, words, j, k - 1);
        } else if j > k {
            lemma_words_in_order(source, words, k, j);
        }
    }
}

/// From any index within a word on, the identifier characters end where
/// the word ends.
proof fn lemma_identifier_ends_with_word(source: Seq<char>, words: Seq<Word>, k: int, from: int)
    requires
        is_words(source, words),
        0 <= k < words.len(),
        words[k].start <= from <= words[k].end,
    ensures
        identifier_end(source, from) == words[k].end,
    decreases words[k].end - from,
{
    if from < words[k].end {
        lemma_identifier_ends_with_word(source, words, k, from + 1);
    } else if from < source.len() {
        lemma_between_words(source, words, k + 1, from);
    }
}

/// Where the next word begins, or the source ends if there is none.
pub open spec fn next_word_start(source: Seq<char>, words: Seq<Word>, k: int) -> int {
    if 0 <= k < words.len() {
        words[k].start
    } else {
        source.len() as int
    }
}

/// From a place between the words before the `k`-th and the `k`-th, the
/// tokenizer yields the words from the `k`-th on, one identifier each.
proof fn lemma_words_from(source: Seq<char>, words: Seq<Word>, k: int, cursor: Cursor)
    requires
        is_words(source, words),
        0 <= k <= words.len(),
        0 <= cursor.position <= next_word_start(source, words, k),
        k > 0 ==> words[k - 1].end <= cursor.position,
    ensures
        token_stream(source, cursor).failure is None,
        token_stream(source, cursor).tokens.len() == words.len() - k,
        forall|j: int|
            0 <= j < words.len() - k ==> is_word_token(
                #[trigger] token_stream(source, cursor).tokens[j],
                source,
                words[k + j],
            ),
    decreases words.len() - k, next_word_start(source, words, k) - cursor.position,
{
    if cursor.position < next_word_start(source, words, k) {
        lemma_between_words(source, words, k, cursor.position);
        lemma_words_from(source, words, k, cursor.read_one(source));
    } else if k < words.len() {
        // The word is one identifier, and the words after it follow.
        lemma_identifier_ends_with_word(source, words, k, cursor.position + 1);
        let rest = token_stream(source, scan_token(source, cursor).cursor);
        lemma_words_from(source, words, k + 1, scan_token(source, cursor).cursor);
        assert forall|j: int| 0 < j < words.len() - k implies is_word_token(
            #[trigger] token_stream(source, cursor).tokens[j],
            source,
            words[k + j],
        ) by {
            assert(is_word_token(rest.tokens[j - 1], source, words[k + 1 + (j - 1)]));
        }
    }
}

/// A text that consists of alphabetic words with white space between and
/// around them is tokenized into one identifier for each word, in the order
/// of the source; each token holds the characters of its word and the
/// positions of the first and the last of them, counted from 1.
pub proof fn lemma_words_become_identifiers(source: Seq<char>, words: Seq<Word>)
    requires
        is_words(source, words),
    ensures
        token_stream(source, Cursor::start()).failure is None,
        token_stream(source, Cursor::start()).tokens.len() == words.len(),
        forall|k: int|
            0 <= k < words.len() ==> is_word_token(
                #[trigger] token_stream(source, Cursor::start()).tokens[k],
                source,
                words[k],
            ),
{
    lemma_words_from(source, words, 0, Cursor::start());
}

} // verus!
