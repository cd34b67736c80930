//! The single-character punctuation marks of the language.
use vstd::prelude::*;

verus! {

/// A punctuation mark. Each variant stands for exactly one character.
#[derive(Debug, PartialEq, Eq, Clone, Copy, Structural)]
pub enum SymbolType {
    /// `!`
    ExclamationMark,
    /// `@`
    AtSign,
    /// `#`
    Hashtag,
    /// `$`
    Dollar,
    /// `%`
    Percent,
    /// `^`
    Power,
    /// `&`
    Ampersand,
    /// `*`
    Asterisk,
    /// `(`
    ParenthesisLeft,
    /// `)`
    ParenthesisRight,
    /// `[`
    BracketLeft,
    /// `]`
    BracketRight,
    /// `{`
    BraceLeft,
    /// `}`
    BraceRight,
    /// `-`
    Minus,
    /// `+`
    Plus,
    /// `/`
    Slash,
    /// `\`
    Backslash,
    /// `=`
    Equals,
    /// `:`
    Colon,
    /// `;`
    Semicolon,
    /// `.`
    Dot,
    /// `,`
    Comma,
    /// `?`
    QuestionMark,
    /// `"`
    DoubleQuote,
    /// `'`
    SingleQuote,
    /// `` ` ``
    Backtick,
    /// `~`
    Tilde,
    /// `|`
    Pipe,
    /// `<`
    TagLeft,
    /// `>`
    TagRight,
}

impl SymbolType {
    /// The character that this symbol stands for.
    pub open spec fn character(self) -> char {
        match self {
            SymbolType::ExclamationMark => '!',
            SymbolType::AtSign => '@',
            SymbolType::Hashtag => '#',
            SymbolType::Dollar => '$',
            SymbolType::Percent => '%',
            SymbolType::Power => '^',
            SymbolType::Ampersand => '&',
            SymbolType::Asterisk => '*',
            SymbolType::ParenthesisLeft => '(',
            SymbolType::ParenthesisRight => ')',
            SymbolType::BracketLeft => '[',
            SymbolType::BracketRight => ']',
            SymbolType::BraceLeft => '{',
            SymbolType::BraceRight => '}',
            SymbolType::Minus => '-',
            SymbolType::Plus => '+',
            SymbolType::Slash => '/',
            SymbolType::Backslash => '\\',
            SymbolType::Equals => '=',
            SymbolType::Colon => ':',
            SymbolType::Semicolon => ';',
            SymbolType::Dot => '.',
            SymbolType::Comma => ',',
            SymbolType::QuestionMark => '?',
            SymbolType::DoubleQuote => '"',
            SymbolType::SingleQuote => '\'',
            SymbolType::Backtick => '`',
            SymbolType::Tilde => '~',
            SymbolType::Pipe => '|',
            SymbolType::TagLeft => '<',
            SymbolType::TagRight => '>',
        }
    }

    /// The name of the symbol, as it is written in messages.
    pub open spec fn name_text(self) -> Seq<char> {
        match self {
            SymbolType::ExclamationMark => "ExclamationMark"@,
            SymbolType::AtSign => "AtSign"@,
            SymbolType::Hashtag => "Hashtag"@,
            SymbolType::Dollar => "Dollar"@,
            SymbolType::Percent => "Percent"@,
            SymbolType::Power => "Power"@,
            SymbolType::Ampersand => "Ampersand"@,
            SymbolType::Asterisk => "Asterisk"@,
            SymbolType::ParenthesisLeft => "ParenthesisLeft"@,
            SymbolType::ParenthesisRight => "ParenthesisRight"@,
            SymbolType::BracketLeft => "BracketLeft"@,
            SymbolType::BracketRight => "BracketRight"@,
            SymbolType::BraceLeft => "BraceLeft"@,
            SymbolType::BraceRight => "BraceRight"@,
            SymbolType::Minus => "Minus"@,
            SymbolType::Plus => "Plus"@,
            SymbolType::Slash => "Slash"@,
            SymbolType::Backslash => "Backslash"@,
            SymbolType::Equals => "Equals"@,
            SymbolType::Colon => "Colon"@,
            SymbolType::Semicolon => "Semicolon"@,
            SymbolType::Dot => "Dot"@,
            SymbolType::Comma => "Comma"@,
            SymbolType::QuestionMark => "QuestionMark"@,
            SymbolType::DoubleQuote => "DoubleQuote"@,
            SymbolType::SingleQuote => "SingleQuote"@,
            SymbolType::Backtick => "Backtick"@,
            SymbolType::Tilde => "Tilde"@,
            SymbolType::Pipe => "Pipe"@,
            SymbolType::TagLeft => "TagLeft"@,
            SymbolType::TagRight => "TagRight"@,
        }
    }

    /// The name of the symbol, as it is written in messages.
    pub fn name(&self) -> (r: &'static str)
        ensures
            r@ == self.name_text(),
    {
        match self {
            SymbolType::ExclamationMark => "ExclamationMark",
            SymbolType::AtSign => "AtSign",
            SymbolType::Hashtag => "Hashtag",
            SymbolType::Dollar => "Dollar",
            SymbolType::Percent => "Percent",
            SymbolType::Power => "Power",
            SymbolType::Ampersand => "Ampersand",
            SymbolType::Asterisk => "Asterisk",
            SymbolType::ParenthesisLeft => "ParenthesisLeft",
            SymbolType::ParenthesisRight => "ParenthesisRight",
            SymbolType::BracketLeft => "BracketLeft",
            SymbolType::BracketRight => "BracketRight",
            SymbolType::BraceLeft => "BraceLeft",
            SymbolType::BraceRight => "BraceRight",
            SymbolType::Minus => "Minus",
            SymbolType::Plus => "Plus",
            SymbolType::Slash => "Slash",
            SymbolType::Backslash => "Backslash",
            SymbolType::Equals => "Equals",
            SymbolType::Colon => "Colon",
            SymbolType::Semicolon => "Semicolon",
            SymbolType::Dot => "Dot",
            SymbolType::Comma => "Comma",
            SymbolType::QuestionMark => "QuestionMark",
            SymbolType::DoubleQuote => "DoubleQuote",
            SymbolType::SingleQuote => "SingleQuote",
            SymbolType::Backtick => "Backtick",
            SymbolType::Tilde => "Tilde",
            SymbolType::Pipe => "Pipe",
            SymbolType::TagLeft => "TagLeft",
            SymbolType::TagRight => "TagRight",
        }
    }

    /// Whether some symbol stands for `c`.
    pub open spec fn is_symbol(c: char) -> bool {
        exists|s: SymbolType| s.character() == c
    }

    /// The symbol that stands for `c`, if there is one.
    pub open spec fn of(c: char) -> Option<SymbolType> {
        if Self::is_symbol(c) {
            Some(choose|s: SymbolType| s.character() == c)
        } else {
            None
        }
    }

    /// Looks the character up in the table of symbols.
    pub fn from_char(c: char) -> (r: Option<Self>)
        ensures
            r == Self::of(c),
            r matches Some(s) ==> s.character() == c,
            r is None ==> forall|s: SymbolType| s.character() != c,
    {
        let r = match c {
            '!' => Some(Self::ExclamationMark),
            '@' => Some(Self::AtSign),
            '#' => Some(Self::Hashtag),
            '$' => Some(Self::Dollar),
            '%' => Some(Self::Percent),
            '^' => Some(Self::Power),
            '&' => Some(Self::Ampersand),
            '*' => Some(Self::Asterisk),
            '(' => Some(Self::ParenthesisLeft),
            ')' => Some(Self::ParenthesisRight),
            '[' => Some(Self::BracketLeft),
            ']' => Some(Self::BracketRight),
            '{' => Some(Self::BraceLeft),
            '}' => Some(Self::BraceRight),
            '-' => Some(Self::Minus),
            '+' => Some(Self::Plus),
            '/' => Some(Self::Slash),
            '\\' => Some(Self::Backslash),
            '=' => Some(Self::Equals),
            ':' => Some(Self::Colon),
            ';' => Some(Self::Semicolon),
            '.' => Some(Self::Dot),
            ',' => Some(Self::Comma),
            '?' => Some(Self::QuestionMark),
            '"' => Some(Self::DoubleQuote),
            '\'' => Some(Self::SingleQuote),
            '`' => Some(Self::Backtick),
            '~' => Some(Self::Tilde),
            '|' => Some(Self::Pipe),
            '<' => Some(Self::TagLeft),
            '>' => Some(Self::TagRight),
            _ => None,
        };
        proof {
            Self::lemma_of_finds_the_symbol(c);
            if let Some(s) = r {
                assert(s.character() == c);
            }
        }
        r
    }

    /// `of(c)` is `Some(s)` exactly when `s` stands for `c`.
    pub proof fn lemma_of_finds_the_symbol(c: char)
        ensures
            forall|s: SymbolType| (#[trigger] s.character() == c) <==> Self::of(c) == Some(s),
    {
    }

    /// No two symbols stand for the same character.
    pub proof fn lemma_one_symbol_per_character(a: SymbolType, b: SymbolType)
        ensures
            a.character() == b.character() ==> a == b,
    {
    }
}

} // verus!
