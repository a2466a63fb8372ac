//! The scanner: a single left-to-right pass over a source string that
//! produces the ordered sequence of its tokens, terminated by exactly
//! one end-of-input token, while tracking 1-based source lines and
//! recording recovered lexical errors.
//!
//! The whole pass is specified by [`spec_step`], which says for every
//! cursor position what the scanner consumes and emits there, and by
//! [`spec_scan`], which folds those steps over the source. Numeric
//! literal payloads are carried as their exact source text; turning
//! that text into a machine float is left to callers.

use vstd::prelude::*;

use crate::error::ScanError;
use crate::error::ScanErrorView;

verus! {

/// What a character counts as for `char::is_alphanumeric`: the Unicode
/// classes Alphabetic, Nd, Nl and No. A property of the character
/// alone; the full table is Unicode's, so it is left unspecified here.
pub uninterp spec fn alphanumeric(c: char) -> bool;

/// Relies on `char::is_alphanumeric`, whose result depends on the
/// character alone.
pub assume_specification[ char::is_alphanumeric ](c: char) -> (r: bool)
    ensures
        r == alphanumeric(c),
;

/// The closed set of lexical categories.
#[derive(Clone, Copy, PartialEq, Eq, Structural, Debug)]
pub enum TokenType {
    LeftParen,
    RightParen,
    LeftBrace,
    RightBrace,
    Comma,
    Dot,
    Minus,
    Plus,
    Semicolon,
    Slash,
    Star,
    Bang,
    BangEqual,
    Equal,
    EqualEqual,
    Greater,
    GreaterEqual,
    Less,
    LessEqual,
    Identifier,
    String,
    Number,
    And,
    Class,
    Else,
    False,
    Fun,
    For,
    If,
    Nil,
    Or,
    Print,
    Return,
    Super,
    This,
    True,
    Var,
    While,
    EOF,
}

/// The name under which a token type renders in diagnostics.
pub open spec fn spec_token_type_name(t: TokenType) -> Seq<char> {
    match t {
        TokenType::LeftParen => "LeftParen"@,
        TokenType::RightParen => "RightParen"@,
        TokenType::LeftBrace => "LeftBrace"@,
        TokenType::RightBrace => "RightBrace"@,
        TokenType::Comma => "Comma"@,
        TokenType::Dot => "Dot"@,
        TokenType::Minus => "Minus"@,
        TokenType::Plus => "Plus"@,
        TokenType::Semicolon => "Semicolon"@,
        TokenType::Slash => "Slash"@,
        TokenType::Star => "Star"@,
        TokenType::Bang => "Bang"@,
        TokenType::BangEqual => "BangEqual"@,
        TokenType::Equal => "Equal"@,
        TokenType::EqualEqual => "EqualEqual"@,
        TokenType::Greater => "Greater"@,
        TokenType::GreaterEqual => "GreaterEqual"@,
        TokenType::Less => "Less"@,
        TokenType::LessEqual => "LessEqual"@,
        TokenType::Identifier => "Identifier"@,
        TokenType::String => "String"@,
        TokenType::Number => "Number"@,
        TokenType::And => "And"@,
        TokenType::Class => "Class"@,
        TokenType::Else => "Else"@,
        TokenType::False => "False"@,
        TokenType::Fun => "Fun"@,
        TokenType::For => "For"@,
        TokenType::If => "If"@,
        TokenType::Nil => "Nil"@,
        TokenType::Or => "Or"@,
        TokenType::Print => "Print"@,
        TokenType::Return => "Return"@,
        TokenType::Super => "Super"@,
        TokenType::This => "This"@,
        TokenType::True => "True"@,
        TokenType::Var => "Var"@,
        TokenType::While => "While"@,
        TokenType::EOF => "EOF"@,
    }
}

impl TokenType {
    /// Renders the token type under its diagnostic name.
    pub fn render(&self) -> (r: String)
        ensures
            r@ == spec_token_type_name(*self),
    {
        match self {
            TokenType::LeftParen => String::from_str("LeftParen"),
            TokenType::RightParen => String::from_str("RightParen"),
            TokenType::LeftBrace => String::from_str("LeftBrace"),
            TokenType::RightBrace => String::from_str("RightBrace"),
            TokenType::Comma => String::from_str("Comma"),
            TokenType::Dot => String::from_str("Dot"),
            TokenType::Minus => String::from_str("Minus"),
            TokenType::Plus => String::from_str("Plus"),
            TokenType::Semicolon => String::from_str("Semicolon"),
            TokenType::Slash => String::from_str("Slash"),
            TokenType::Star => String::from_str("Star"),
            TokenType::Bang => String::from_str("Bang"),
            TokenType::BangEqual => String::from_str("BangEqual"),
            TokenType::Equal => String::from_str("Equal"),
            TokenType::EqualEqual => String::from_str("EqualEqual"),
            TokenType::Greater => String::from_str("Greater"),
            TokenType::GreaterEqual => String::from_str("GreaterEqual"),
            TokenType::Less => String::from_str("Less"),
            TokenType::LessEqual => String::from_str("LessEqual"),
            TokenType::Identifier => String::from_str("Identifier"),
            TokenType::String => String::from_str("String"),
            TokenType::Number => String::from_str("Number"),
            TokenType::And => String::from_str("And"),
            TokenType::Class => String::from_str("Class"),
            TokenType::Else => String::from_str("Else"),
            TokenType::False => String::from_str("False"),
            TokenType::Fun => String::from_str("Fun"),
            TokenType::For => String::from_str("For"),
            TokenType::If => String::from_str("If"),
            TokenType::Nil => String::from_str("Nil"),
            TokenType::Or => String::from_str("Or"),
            TokenType::Print => String::from_str("Print"),
            TokenType::Return => String::from_str("Return"),
            TokenType::Super => String::from_str("Super"),
            TokenType::This => String::from_str("This"),
            TokenType::True => String::from_str("True"),
            TokenType::Var => String::from_str("Var"),
            TokenType::While => String::from_str("While"),
            TokenType::EOF => String::from_str("EOF"),
        }
    }
}

/// The literal payload a token carries. A numeric payload is the exact
/// source text of the number; decoding it into a machine float is the
/// caller's business, since the lexical grammar alone fixes the text.
#[derive(Debug)]
pub enum TokenLiteral {
    Str(String),
    Num(String),
    NoLiteral,
}

/// Mathematical image of a [`TokenLiteral`], payloads as sequences.
#[verifier::ext_equal]
pub enum TokenLiteralView {
    Str(Seq<char>),
    Num(Seq<char>),
    NoLiteral,
}

impl View for TokenLiteral {
    type V = TokenLiteralView;

    open spec fn view(&self) -> TokenLiteralView {
        match self {
            TokenLiteral::Str(s) => TokenLiteralView::Str(s@),
            TokenLiteral::Num(s) => TokenLiteralView::Num(s@),
            TokenLiteral::NoLiteral => TokenLiteralView::NoLiteral,
        }
    }
}

impl Clone for TokenLiteral {
    fn clone(&self) -> (res: Self)
        ensures
            res@ == self@,
    {
        match self {
            TokenLiteral::Str(s) => TokenLiteral::Str(s.clone()),
            TokenLiteral::Num(s) => TokenLiteral::Num(s.clone()),
            TokenLiteral::NoLiteral => TokenLiteral::NoLiteral,
        }
    }
}

impl PartialEq for TokenLiteral {
    fn eq(&self, other: &Self) -> (r: bool) {
        match (self, other) {
            (TokenLiteral::Str(a), TokenLiteral::Str(b)) => *a == *b,
            (TokenLiteral::Num(a), TokenLiteral::Num(b)) => *a == *b,
            (TokenLiteral::NoLiteral, TokenLiteral::NoLiteral) => true,
            _ => false,
        }
    }
}

impl vstd::std_specs::cmp::PartialEqSpecImpl for TokenLiteral {
    open spec fn obeys_eq_spec() -> bool {
        true
    }

    open spec fn eq_spec(&self, other: &Self) -> bool {
        self@ == other@
    }
}

/// The diagnostic rendering of a literal payload: string and numeric
/// payloads quoted in single quotes, no payload as the word `None`.
pub open spec fn spec_literal_render(l: TokenLiteralView) -> Seq<char> {
    match l {
        TokenLiteralView::Str(s) => "'"@ + s + "'"@,
        TokenLiteralView::Num(s) => "'"@ + s + "'"@,
        TokenLiteralView::NoLiteral => "None"@,
    }
}

impl TokenLiteral {
    /// Renders the payload for diagnostics.
    pub fn render(&self) -> (r: String)
        ensures
            r@ == spec_literal_render(self@),
    {
        match self {
            TokenLiteral::Str(s) => {
                let mut r = String::from_str("'");
                r.append(s.as_str());
                r.append("'");
                r
            },
            TokenLiteral::Num(s) => {
                let mut r = String::from_str("'");
                r.append(s.as_str());
                r.append("'");
                r
            },
            TokenLiteral::NoLiteral => String::from_str("None"),
        }
    }
}

/// One token: its category, the exact source substring it came from
/// (for a string token, without the surrounding quotes; for the
/// end-of-input token, empty), its literal payload, and the 1-based
/// source line it was produced on.
#[derive(Debug)]
pub struct Token {
    pub token_type: TokenType,
    pub lexeme: String,
    pub literal: TokenLiteral,
    pub line: usize,
}

/// Mathematical image of a [`Token`].
#[verifier::ext_equal]
pub struct TokenView {
    pub token_type: TokenType,
    pub lexeme: Seq<char>,
    pub literal: TokenLiteralView,
    pub line: nat,
}

impl View for Token {
    type V = TokenView;

    open spec fn view(&self) -> TokenView {
        TokenView {
            token_type: self.token_type,
            lexeme: self.lexeme@,
            literal: self.literal@,
            line: self.line as nat,
        }
    }
}

impl Clone for Token {
    fn clone(&self) -> (res: Self)
        ensures
            res@ == self@,
    {
        Token {
            token_type: self.token_type,
            lexeme: self.lexeme.clone(),
            literal: self.literal.clone(),
            line: self.line,
        }
    }
}

impl PartialEq for Token {
    fn eq(&self, other: &Self) -> (r: bool) {
        self.lexeme == other.lexeme && self.line == other.line && self.literal == other.literal
            && self.token_type == other.token_type
    }
}

impl vstd::std_specs::cmp::PartialEqSpecImpl for Token {
    open spec fn obeys_eq_spec() -> bool {
        true
    }

    open spec fn eq_spec(&self, other: &Self) -> bool {
        self@ == other@
    }
}

/// The diagnostic rendering of a token:
/// `type: '<kind>', lexeme: '<lexeme>', literal: <payload>`.
pub open spec fn spec_token_render(t: TokenView) -> Seq<char> {
    "type: '"@ + spec_token_type_name(t.token_type) + "', lexeme: '"@ + t.lexeme + "', literal: "@
        + spec_literal_render(t.literal)
}

impl Token {
    /// Builds a token from its four attributes; never fails.
    pub fn new(token_type: TokenType, lexeme: String, literal: TokenLiteral, line: usize) -> (r:
        Self)
        ensures
            r@ == (TokenView { token_type, lexeme: lexeme@, literal: literal@, line: line as nat }),
    {
        Self { token_type, lexeme, line, literal }
    }

    /// Renders the token as its human-readable diagnostic form.
    pub fn render(&self) -> (r: String)
        ensures
            r@ == spec_token_render(self@),
    {
        let mut r = String::from_str("type: '");
        r.append(self.token_type.render().as_str());
        r.append("', lexeme: '");
        r.append(self.lexeme.as_str());
        r.append("', literal: ");
        r.append(self.literal.render().as_str());
        r
    }
}

/// A decimal digit, the only characters a numeric literal is made of.
pub open spec fn is_digit(c: char) -> bool {
    '0' <= c && c <= '9'
}

/// A character that may continue (or begin, unless it is a digit) an
/// identifier: alphanumeric or an underscore.
pub open spec fn is_identifier_char(c: char) -> bool {
    alphanumeric(c) || c == '_'
}

/// How many newline characters `src` holds at positions `[a, b)`.
pub open spec fn newline_count(src: Seq<char>, a: int, b: int) -> int
    decreases b - a,
{
    if b <= a || b > src.len() || a < 0 {
        0
    } else {
        newline_count(src, a, b - 1) + if src[b - 1] == '\n' {
            1int
        } else {
            0int
        }
    }
}

/// The first position at or after `p` holding a newline; the length of
/// `src` if there is none.
pub open spec fn line_end(src: Seq<char>, p: int) -> int
    decreases src.len() - p,
{
    if p < 0 || p >= src.len() {
        src.len() as int
    } else if src[p] == '\n' {
        p
    } else {
        line_end(src, p + 1)
    }
}

/// The first position at or after `p` holding a double quote; the
/// length of `src` if there is none.
pub open spec fn quote_end(src: Seq<char>, p: int) -> int
    decreases src.len() - p,
{
    if p < 0 || p >= src.len() {
        src.len() as int
    } else if src[p] == '"' {
        p
    } else {
        quote_end(src, p + 1)
    }
}

/// The first position at or after `p` holding a non-digit; the length
/// of `src` if the digits run to the end.
pub open spec fn digits_end(src: Seq<char>, p: int) -> int
    decreases src.len() - p,
{
    if p < 0 || p >= src.len() {
        src.len() as int
    } else if !is_digit(src[p]) {
        p
    } else {
        digits_end(src, p + 1)
    }
}

/// The first position at or after `p` holding a character that cannot
/// continue an identifier; the length of `src` if there is none.
pub open spec fn ident_end(src: Seq<char>, p: int) -> int
    decreases src.len() - p,
{
    if p < 0 || p >= src.len() {
        src.len() as int
    } else if !is_identifier_char(src[p]) {
        p
    } else {
        ident_end(src, p + 1)
    }
}

/// The first position at or after `p` where a `*/` pair begins; the
/// length of `src` if there is none.
pub open spec fn block_comment_close(src: Seq<char>, p: int) -> int
    decreases src.len() - p,
{
    if p < 0 || p + 1 >= src.len() {
        src.len() as int
    } else if src[p] == '*' && src[p + 1] == '/' {
        p
    } else {
        block_comment_close(src, p + 1)
    }
}

/// The token type a lone punctuation character scans to, if any.
/// Slash and the four one-or-two-character operators are not here:
/// they need a look at the next character first.
pub open spec fn single_char_kind(c: char) -> Option<TokenType> {
    if c == '(' {
        Some(TokenType::LeftParen)
    } else if c == ')' {
        Some(TokenType::RightParen)
    } else if c == '{' {
        Some(TokenType::LeftBrace)
    } else if c == '}' {
        Some(TokenType::RightBrace)
    } else if c == ',' {
        Some(TokenType::Comma)
    } else if c == '.' {
        Some(TokenType::Dot)
    } else if c == '-' {
        Some(TokenType::Minus)
    } else if c == '+' {
        Some(TokenType::Plus)
    } else if c == ';' {
        Some(TokenType::Semicolon)
    } else if c == '*' {
        Some(TokenType::Star)
    } else {
        None
    }
}

/// The token type of `!`, `=`, `<` or `>` when no `=` follows it.
pub open spec fn one_char_operator_kind(c: char) -> TokenType {
    if c == '!' {
        TokenType::Bang
    } else if c == '=' {
        TokenType::Equal
    } else if c == '<' {
        TokenType::Less
    } else {
        TokenType::Greater
    }
}

/// The token type of `!`, `=`, `<` or `>` when an `=` follows it.
pub open spec fn two_char_operator_kind(c: char) -> TokenType {
    if c == '!' {
        TokenType::BangEqual
    } else if c == '=' {
        TokenType::EqualEqual
    } else if c == '<' {
        TokenType::LessEqual
    } else {
        TokenType::GreaterEqual
    }
}

/// The category of an identifier-shaped word: its keyword type if it
/// matches a reserved word exactly, `Identifier` otherwise.
pub open spec fn keyword_kind(text: Seq<char>) -> TokenType {
    if text == "and"@ {
        TokenType::And
    } else if text == "class"@ {
        TokenType::Class
    } else if text == "else"@ {
        TokenType::Else
    } else if text == "false"@ {
        TokenType::False
    } else if text == "for"@ {
        TokenType::For
    } else if text == "fun"@ {
        TokenType::Fun
    } else if text == "if"@ {
        TokenType::If
    } else if text == "nil"@ {
        TokenType::Nil
    } else if text == "or"@ {
        TokenType::Or
    } else if text == "print"@ {
        TokenType::Print
    } else if text == "return"@ {
        TokenType::Return
    } else if text == "super"@ {
        TokenType::Super
    } else if text == "this"@ {
        TokenType::This
    } else if text == "true"@ {
        TokenType::True
    } else if text == "var"@ {
        TokenType::Var
    } else if text == "while"@ {
        TokenType::While
    } else {
        TokenType::Identifier
    }
}

/// What one iteration of the scan does at one cursor position: where
/// the cursor and the line counter move, and the at most one token and
/// at most one error it emits.
#[verifier::ext_equal]
pub struct StepView {
    pub pos: int,
    pub line: int,
    pub token: Option<TokenView>,
    pub error: Option<ScanErrorView>,
}

/// A token with no literal payload, as the punctuation, operator and
/// keyword cases emit.
pub open spec fn plain_token(t: TokenType, lexeme: Seq<char>, line: int) -> TokenView {
    TokenView { token_type: t, lexeme, literal: TokenLiteralView::NoLiteral, line: line as nat }
}

/// A step that only moves the cursor (whitespace and comments).
pub open spec fn silent_step(pos: int, line: int) -> StepView {
    StepView { pos, line, token: None, error: None }
}

/// A step that emits one token.
pub open spec fn token_step(pos: int, line: int, t: TokenView) -> StepView {
    StepView { pos, line, token: Some(t), error: None }
}

/// What the scanner does at position `pos` of `src` (which must be a
/// valid position) when the line counter stands at `line`: the
/// longest-match tokenization rule of the language, one token at a
/// time.
pub open spec fn spec_step(src: Seq<char>, pos: int, line: int) -> StepView {
    let c = src[pos];
    let len = src.len() as int;
    if c == '\n' {
        silent_step(pos + 1, line + 1)
    } else if c == ' ' || c == '\r' || c == '\t' {
        silent_step(pos + 1, line)
    } else if single_char_kind(c) is Some {
        token_step(
            pos + 1,
            line,
            plain_token(single_char_kind(c)->Some_0, src.subrange(pos, pos + 1), line),
        )
    } else if c == '!' || c == '=' || c == '<' || c == '>' {
        if pos + 1 < len && src[pos + 1] == '=' {
            token_step(
                pos + 2,
                line,
                plain_token(two_char_operator_kind(c), src.subrange(pos, pos + 2), line),
            )
        } else {
            token_step(
                pos + 1,
                line,
                plain_token(one_char_operator_kind(c), src.subrange(pos, pos + 1), line),
            )
        }
    } else if c == '/' {
        if pos + 1 < len && src[pos + 1] == '/' {
            // Line comment: skipped through the end of the line; the
            // newline itself is left for the next step.
            silent_step(line_end(src, pos + 2), line)
        } else if pos + 1 < len && src[pos + 1] == '*' {
            // Block comment: skipped through the first `*/`; reaching
            // the end of input without one swallows the rest silently.
            let close = block_comment_close(src, pos + 2);
            if close < len {
                silent_step(close + 2, line + newline_count(src, pos + 2, close))
            } else {
                silent_step(len, line + newline_count(src, pos + 2, len))
            }
        } else {
            token_step(pos + 1, line, plain_token(TokenType::Slash, src.subrange(pos, pos + 1), line))
        }
    } else if c == '"' {
        let q = quote_end(src, pos + 1);
        if q < len {
            // The token carries the line its opening quote stands on;
            // the counter itself moves past the embedded newlines.
            let text = src.subrange(pos + 1, q);
            let line2 = line + newline_count(src, pos + 1, q);
            token_step(
                q + 1,
                line2,
                TokenView {
                    token_type: TokenType::String,
                    lexeme: text,
                    literal: TokenLiteralView::Str(text),
                    line: line as nat,
                },
            )
        } else {
            let line2 = line + newline_count(src, pos + 1, len);
            StepView {
                pos: len,
                line: line2,
                token: None,
                error: Some(
                    ScanErrorView { line: line2 as nat, message: "Unterminated string."@ },
                ),
            }
        }
    } else if is_digit(c) {
        let j = digits_end(src, pos + 1);
        let k = if j + 1 < len && src[j] == '.' && is_digit(src[j + 1]) {
            digits_end(src, j + 1)
        } else {
            j
        };
        let text = src.subrange(pos, k);
        token_step(
            k,
            line,
            TokenView {
                token_type: TokenType::Number,
                lexeme: text,
                literal: TokenLiteralView::Num(text),
                line: line as nat,
            },
        )
    } else if is_identifier_char(c) {
        let j = ident_end(src, pos + 1);
        let text = src.subrange(pos, j);
        let kind = keyword_kind(text);
        token_step(
            j,
            line,
            TokenView {
                token_type: kind,
                lexeme: text,
                literal: if kind is Identifier {
                    TokenLiteralView::Str(text)
                } else {
                    TokenLiteralView::NoLiteral
                },
                line: line as nat,
            },
        )
    } else {
        StepView {
            pos: pos + 1,
            line,
            token: None,
            error: Some(
                ScanErrorView {
                    line: line as nat,
                    message: "Unexpected character: "@ + seq![c],
                },
            ),
        }
    }
}

/// A newline count is between zero and the width of its range.
pub proof fn lemma_newline_count_bounds(src: Seq<char>, a: int, b: int)
    ensures
        0 <= newline_count(src, a, b),
        newline_count(src, a, b) <= if b - a >= 0 {
            b - a
        } else {
            0
        },
    decreases b - a,
{
    if !(b <= a || b > src.len() || a < 0) {
        lemma_newline_count_bounds(src, a, b - 1);
    }
}

/// Each of the scan's search helpers stays within `[p, len]`.
pub proof fn lemma_search_bounds(src: Seq<char>, p: int)
    requires
        0 <= p <= src.len(),
    ensures
        p <= line_end(src, p) <= src.len(),
        p <= quote_end(src, p) <= src.len(),
        p <= digits_end(src, p) <= src.len(),
        p <= ident_end(src, p) <= src.len(),
        p <= block_comment_close(src, p) <= src.len(),
        block_comment_close(src, p) < src.len() ==> block_comment_close(src, p) + 1 < src.len(),
    decreases src.len() - p,
{
    if p < src.len() {
        lemma_search_bounds(src, p + 1);
    }
}

/// A scan step at a valid position consumes at least one character,
/// never runs past the end, and advances the line counter by at most
/// the number of characters it consumed.
pub proof fn lemma_spec_step_bounds(src: Seq<char>, pos: int, line: int)
    requires
        0 <= pos < src.len(),
    ensures
        pos < spec_step(src, pos, line).pos <= src.len(),
        line <= spec_step(src, pos, line).line <= line + (spec_step(src, pos, line).pos - pos),
{
    let len = src.len() as int;
    lemma_search_bounds(src, pos + 1);
    if pos + 2 <= len {
        lemma_search_bounds(src, pos + 2);
    }
    let c = src[pos];
    if c == '/' && pos + 1 < len && src[pos + 1] == '*' {
        let close = block_comment_close(src, pos + 2);
        if close < len {
            lemma_newline_count_bounds(src, pos + 2, close);
        } else {
            lemma_newline_count_bounds(src, pos + 2, len);
        }
    } else if c == '"' {
        let q = quote_end(src, pos + 1);
        if q < len {
            lemma_newline_count_bounds(src, pos + 1, q);
        } else {
            lemma_newline_count_bounds(src, pos + 1, len);
        }
    } else if is_digit(c) {
        let j = digits_end(src, pos + 1);
        if j + 1 < len && src[j] == '.' && is_digit(src[j + 1]) {
            lemma_search_bounds(src, j + 1);
        }
    }
}

/// Everything a scan of the tail of the source emits: the tokens and
/// the errors in order, and where the line counter ends.
#[verifier::ext_equal]
pub struct ScanView {
    pub tokens: Seq<TokenView>,
    pub errors: Seq<ScanErrorView>,
    pub line: int,
}

/// The sequence an optional emission contributes: empty or one item.
pub open spec fn opt_seq<A>(o: Option<A>) -> Seq<A> {
    match o {
        Some(a) => seq![a],
        None => Seq::empty(),
    }
}

/// Everything the scanner emits from position `pos` to the end of the
/// source, starting with the line counter at `line`; the terminal
/// end-of-input token is not included.
pub open spec fn spec_scan_from(src: Seq<char>, pos: int, line: int) -> ScanView
    decreases src.len() - pos,
    via spec_scan_from_decreases
{
    if pos < 0 || pos >= src.len() {
        ScanView { tokens: Seq::empty(), errors: Seq::empty(), line }
    } else {
        let st = spec_step(src, pos, line);
        let rest = spec_scan_from(src, st.pos, st.line);
        ScanView {
            tokens: opt_seq(st.token) + rest.tokens,
            errors: opt_seq(st.error) + rest.errors,
            line: rest.line,
        }
    }
}

#[via_fn]
proof fn spec_scan_from_decreases(src: Seq<char>, pos: int, line: int) {
    if 0 <= pos < src.len() {
        lemma_spec_step_bounds(src, pos, line);
    }
}

/// The terminal token every scan ends with: end of input, an empty
/// lexeme, no literal, on the line the cursor ended on.
pub open spec fn eof_token(line: int) -> TokenView {
    TokenView {
        token_type: TokenType::EOF,
        lexeme: Seq::empty(),
        literal: TokenLiteralView::NoLiteral,
        line: line as nat,
    }
}

/// The full token sequence a scan of `src` from a fresh scanner
/// produces: every token of the source in order, then the terminal
/// end-of-input token.
pub open spec fn spec_scan_tokens(src: Seq<char>) -> Seq<TokenView> {
    spec_scan_from(src, 0, 1).tokens + seq![eof_token(spec_scan_from(src, 0, 1).line)]
}

/// The errors a scan of `src` from a fresh scanner records, in order.
pub open spec fn spec_scan_errors(src: Seq<char>) -> Seq<ScanErrorView> {
    spec_scan_from(src, 0, 1).errors
}

/// Mathematical image of a [`Scanner`]: the source as a character
/// sequence, the two cursors and the line counter as naturals, and
/// the emitted tokens and errors as sequences of their images.
#[verifier::ext_equal]
pub struct ScannerView {
    pub source: Seq<char>,
    pub start: nat,
    pub current: nat,
    pub line: nat,
    pub tokens: Seq<TokenView>,
    pub errors: Seq<ScanErrorView>,
}

impl ScannerView {
    /// A scanner that has not consumed or emitted anything yet.
    pub open spec fn is_fresh(self) -> bool {
        &&& self.start == 0
        &&& self.current == 0
        &&& self.line == 1
        &&& self.tokens == Seq::<TokenView>::empty()
        &&& self.errors == Seq::<ScanErrorView>::empty()
    }
}

/// The payload view a token built through `add_token` carries.
pub open spec fn literal_view_of(o: Option<TokenLiteral>) -> TokenLiteralView {
    match o {
        Some(l) => l@,
        None => TokenLiteralView::NoLiteral,
    }
}

/// The scanner: the source text, the start of the token being built,
/// the read position, the running 1-based line counter, and the
/// tokens and recovered errors accumulated so far.
pub struct Scanner {
    source: Vec<char>,
    start: usize,
    current: usize,
    line: usize,
    tokens: Vec<Token>,
    errors: Vec<ScanError>,
}

impl View for Scanner {
    type V = ScannerView;

    closed spec fn view(&self) -> ScannerView {
        ScannerView {
            source: self.source@,
            start: self.start as nat,
            current: self.current as nat,
            line: self.line as nat,
            tokens: self.tokens@.map_values(|t: Token| t@),
            errors: self.errors@.map_values(|e: ScanError| e@),
        }
    }
}

/// The characters of a string, in order, as a vector.
fn chars_of(s: &String) -> (r: Vec<char>)
    ensures
        r@ == s@,
{
    let st = s.as_str();
    let n = st.unicode_len();
    let mut v: Vec<char> = Vec::new();
    let mut i: usize = 0;
    while i < n
        invariant
            i <= n,
            n == st@.len(),
            st@ == s@,
            v@ == st@.subrange(0, i as int),
        decreases n - i,
    {
        v.push(st.get_char(i));
        proof {
            assert(v@ =~= st@.subrange(0, i + 1 as int));
        }
        i = i + 1;
    }
    proof {
        assert(st@.subrange(0, n as int) =~= st@);
    }
    v
}

impl Scanner {
    /// The scanner's structural invariant: the cursors sit inside the
    /// source in order, and the line counter, which starts at one and
    /// grows by at most one per consumed character, stays bounded by
    /// the read position.
    pub open spec fn wf(&self) -> bool {
        &&& self@.start <= self@.current <= self@.source.len()
        &&& 1 <= self@.line
        &&& self@.line <= 1 + self@.current
        &&& self@.source.len() < usize::MAX
    }

    /// A fresh scanner over the given source. The one precondition is
    /// a machine limit: the character count must leave room for the
    /// line counter, which can grow up to one past it, in a `usize`.
    pub fn new(source: String) -> (r: Self)
        requires
            source@.len() < usize::MAX,
        ensures
            r@.source == source@,
            r@.is_fresh(),
            r.wf(),
    {
        let r = Self {
            source: chars_of(&source),
            start: 0,
            current: 0,
            line: 1,
            tokens: Vec::new(),
            errors: Vec::new(),
        };
        proof {
            assert(r@.tokens =~= Seq::<TokenView>::empty());
            assert(r@.errors =~= Seq::<ScanErrorView>::empty());
        }
        r
    }

    /// The errors recovered so far, in the order they were noticed.
    pub fn errors(&self) -> (r: &Vec<ScanError>)
        ensures
            r@.map_values(|e: ScanError| e@) == self@.errors,
    {
        &self.errors
    }

    /// Indicates whether the read position has reached the end of the
    /// source.
    fn is_at_end(&self) -> (r: bool)
        ensures
            r == (self@.current >= self@.source.len()),
    {
        self.current >= self.source.len()
    }

    /// Returns the character at the read position and moves past it.
    fn advance(&mut self) -> (c: char)
        requires
            old(self).wf(),
            old(self)@.current < old(self)@.source.len(),
        ensures
            self_stays_put_except_cursor(*old(self), *final(self)),
            final(self)@.current == old(self)@.current + 1,
            final(self)@.line == old(self)@.line,
            c == old(self)@.source[old(self)@.current as int],
            final(self).wf(),
    {
        let ch = self.source[self.current];
        self.current = self.current + 1;
        ch
    }

    /// Consumes the character at the read position exactly when it is
    /// the expected one.
    fn match_token(&mut self, expected: char) -> (r: bool)
        requires
            old(self).wf(),
        ensures
            self_stays_put_except_cursor(*old(self), *final(self)),
            final(self)@.line == old(self)@.line,
            r == (old(self)@.current < old(self)@.source.len()
                && old(self)@.source[old(self)@.current as int] == expected),
            final(self)@.current == old(self)@.current + if r {
                1int
            } else {
                0int
            },
            final(self).wf(),
    {
        if self.is_at_end() {
            return false;
        }
        if self.source[self.current] != expected {
            return false;
        }
        self.current = self.current + 1;
        true
    }

    /// The character at the read position, or the NUL character at the
    /// end of input; the read position does not move.
    fn peek(&self) -> (c: char)
        ensures
            c == if self@.current < self@.source.len() {
                self@.source[self@.current as int]
            } else {
                '\0'
            },
    {
        if self.is_at_end() {
            return '\0';
        }
        self.source[self.current]
    }

    /// The character just after the read position, or the NUL
    /// character if there is none.
    fn peek_next(&self) -> (c: char)
        requires
            self.wf(),
        ensures
            c == if self@.current + 1 < self@.source.len() {
                self@.source[self@.current as int + 1]
            } else {
                '\0'
            },
    {
        if self.current + 1 >= self.source.len() {
            return '\0';
        }
        self.source[self.current + 1]
    }

    /// The source text between two positions, as a fresh string.
    fn text_range(&self, a: usize, b: usize) -> (r: String)
        requires
            a <= b <= self@.source.len(),
        ensures
            r@ == self@.source.subrange(a as int, b as int),
    {
        let mut r = String::new();
        let mut i: usize = a;
        while i < b
            invariant
                a <= i <= b <= self@.source.len(),
                r@ == self@.source.subrange(a as int, i as int),
            decreases b - i,
        {
            r.push(self.source[i]);
            proof {
                assert(r@ =~= self@.source.subrange(a as int, i + 1 as int));
            }
            i = i + 1;
        }
        r
    }

    /// Appends one finished token.
    fn push_token(&mut self, t: Token)
        ensures
            final(self)@ == (ScannerView {
                tokens: old(self)@.tokens + seq![t@],
                ..old(self)@
            }),
    {
        self.tokens.push(t);
        proof {
            assert(self@.tokens =~= old(self)@.tokens + seq![t@]);
            assert(final(self)@ =~= (ScannerView {
                tokens: old(self)@.tokens + seq![t@],
                ..old(self)@
            }));
        }
    }

    /// Records one recovered lexical error at the current line.
    fn record_error(&mut self, message: String)
        ensures
            final(self)@ == (ScannerView {
                errors: old(self)@.errors + seq![
                    ScanErrorView { line: old(self)@.line, message: message@ },
                ],
                ..old(self)@
            }),
    {
        self.errors.push(ScanError { line: self.line, message });
        proof {
            assert(self@.errors =~= old(self)@.errors + seq![
                ScanErrorView { line: old(self)@.line, message: message@ },
            ]);
            assert(final(self)@ =~= (ScannerView {
                errors: old(self)@.errors + seq![
                    ScanErrorView { line: old(self)@.line, message: message@ },
                ],
                ..old(self)@
            }));
        }
    }

    /// Builds the token for the source text between the two cursors
    /// and appends it.
    fn add_token(&mut self, token_type: TokenType, literal: Option<TokenLiteral>)
        requires
            old(self)@.start <= old(self)@.current <= old(self)@.source.len(),
        ensures
            final(self)@ == (ScannerView {
                tokens: old(self)@.tokens + seq![
                    TokenView {
                        token_type,
                        lexeme: old(self)@.source.subrange(
                            old(self)@.start as int,
                            old(self)@.current as int,
                        ),
                        literal: literal_view_of(literal),
                        line: old(self)@.line,
                    },
                ],
                ..old(self)@
            }),
    {
        let text = self.text_range(self.start, self.current);
        match literal {
            Option::Some(v) => {
                let line = self.line;
                self.push_token(Token::new(token_type, text, v, line));
            },
            Option::None => {
                let line = self.line;
                self.push_token(Token::new(token_type, text, TokenLiteral::NoLiteral, line));
            },
        }
    }
    /// Tells whether the character at the read position is a decimal
    /// digit; false at the end of input.
    fn peek_is_digit(&self) -> (r: bool)
        ensures
            r == (self@.current < self@.source.len() && is_digit(
                self@.source[self@.current as int],
            )),
    {
        if self.is_at_end() {
            return false;
        }
        let c = self.source[self.current];
        '0' <= c && c <= '9'
    }

    /// Tells whether the character just after the read position is a
    /// decimal digit; false when there is none.
    fn peek_next_is_digit(&self) -> (r: bool)
        requires
            self.wf(),
        ensures
            r == (self@.current + 1 < self@.source.len() && is_digit(
                self@.source[self@.current as int + 1],
            )),
    {
        if self.current + 1 >= self.source.len() {
            return false;
        }
        let c = self.source[self.current + 1];
        '0' <= c && c <= '9'
    }

    /// Indicates whether a character is valid inside an identifier.
    fn is_valid_identifier_char(&self, c: char) -> (r: bool)
        ensures
            r == is_identifier_char(c),
    {
        c.is_alphanumeric() || c == '_'
    }

    /// Tells whether the character at the read position can continue
    /// an identifier; false at the end of input.
    fn peek_is_identifier_char(&self) -> (r: bool)
        ensures
            r == (self@.current < self@.source.len() && is_identifier_char(
                self@.source[self@.current as int],
            )),
    {
        if self.is_at_end() {
            return false;
        }
        let c = self.source[self.current];
        self.is_valid_identifier_char(c)
    }

    /// Scans the rest of a string literal, the opening quote already
    /// consumed: up to the closing quote it emits the quote-stripped
    /// text as one token on the line the string starts on, counting
    /// embedded newlines into the line counter; if the input ends
    /// first it records an unterminated-string error at the line the
    /// counter then stands on.
    fn parse_string(&mut self)
        requires
            old(self).wf(),
            old(self)@.start + 1 == old(self)@.current,
        ensures
            final(self).wf(),
            ({
                let src = old(self)@.source;
                let len = src.len() as int;
                let c0 = old(self)@.current as int;
                let q = quote_end(src, c0);
                let line2 = old(self)@.line + newline_count(src, c0, if q < len {
                    q
                } else {
                    len
                });
                if q < len {
                    final(self)@ == (ScannerView {
                        current: (q + 1) as nat,
                        line: line2 as nat,
                        tokens: old(self)@.tokens + seq![
                            TokenView {
                                token_type: TokenType::String,
                                lexeme: src.subrange(c0, q),
                                literal: TokenLiteralView::Str(src.subrange(c0, q)),
                                line: old(self)@.line,
                            },
                        ],
                        ..old(self)@
                    })
                } else {
                    final(self)@ == (ScannerView {
                        current: src.len(),
                        line: line2 as nat,
                        errors: old(self)@.errors + seq![
                            ScanErrorView { line: line2 as nat, message: "Unterminated string."@ },
                        ],
                        ..old(self)@
                    })
                }
            }),
    {
        let ghost src = self@.source;
        let ghost c0 = self@.current as int;
        let ghost line0 = self@.line as int;
        // The line the string starts on: no newline lies between the
        // token's start and here, so the counter still points at it.
        let start_line = self.line;
        while !self.is_at_end() && self.peek() != '"'
            invariant
                self.wf(),
                self@.source == src,
                0 <= c0 <= self@.current as int <= src.len(),
                quote_end(src, c0) == quote_end(src, self@.current as int),
                self@.line == line0 + newline_count(src, c0, self@.current as int),
                self@.start == old(self)@.start,
                self@.tokens == old(self)@.tokens,
                self@.errors == old(self)@.errors,
            decreases src.len() - self@.current,
        {
            let ch = self.advance();
            if ch == '\n' {
                self.line = self.line + 1;
            }
        }

        if self.is_at_end() {
            self.record_error(String::from_str("Unterminated string."));
            proof {
                assert(self@ =~= (ScannerView {
                    current: src.len(),
                    line: self@.line,
                    errors: old(self)@.errors + seq![
                        ScanErrorView { line: self@.line, message: "Unterminated string."@ },
                    ],
                    ..old(self)@
                }));
            }
            return ;
        }

        self.advance();

        // Trim surrounding quotes; the token bypasses `add_token`,
        // whose lexeme would keep them.
        let text = self.text_range(self.start + 1, self.current - 1);
        let literal = text.clone();
        self.push_token(Token::new(TokenType::String, text, TokenLiteral::Str(literal), start_line));
        proof {
            let q = quote_end(src, c0);
            assert(self@ =~= (ScannerView {
                current: (q + 1) as nat,
                line: self@.line,
                tokens: old(self)@.tokens + seq![
                    TokenView {
                        token_type: TokenType::String,
                        lexeme: src.subrange(c0, q),
                        literal: TokenLiteralView::Str(src.subrange(c0, q)),
                        line: old(self)@.line,
                    },
                ],
                ..old(self)@
            }));
        }
    }

    /// Scans the rest of a numeric literal, its first digit already
    /// consumed: a digit run, optionally one dot followed by at least
    /// one digit and a further digit run; the token carries the
    /// matched text both as lexeme and as payload.
    fn number(&mut self)
        requires
            old(self).wf(),
            old(self)@.start + 1 == old(self)@.current,
        ensures
            final(self).wf(),
            ({
                let src = old(self)@.source;
                let len = src.len() as int;
                let j = digits_end(src, old(self)@.current as int);
                let k = if j + 1 < len && src[j] == '.' && is_digit(src[j + 1]) {
                    digits_end(src, j + 1)
                } else {
                    j
                };
                let text = src.subrange(old(self)@.start as int, k);
                final(self)@ == (ScannerView {
                    current: k as nat,
                    tokens: old(self)@.tokens + seq![
                        TokenView {
                            token_type: TokenType::Number,
                            lexeme: text,
                            literal: TokenLiteralView::Num(text),
                            line: old(self)@.line,
                        },
                    ],
                    ..old(self)@
                })
            }),
    {
        let ghost src = self@.source;
        let ghost c0 = self@.current as int;
        while self.peek_is_digit()
            invariant
                self.wf(),
                self@.source == src,
                0 <= c0 <= self@.current as int <= src.len(),
                digits_end(src, c0) == digits_end(src, self@.current as int),
                self@.start == old(self)@.start,
                self@.line == old(self)@.line,
                self@.tokens == old(self)@.tokens,
                self@.errors == old(self)@.errors,
            decreases src.len() - self@.current,
        {
            self.advance();
        }

        let ghost j = self@.current as int;
        if self.peek() == '.' && self.peek_next_is_digit() {
            self.advance();
            while self.peek_is_digit()
                invariant
                    self.wf(),
                    self@.source == src,
                    j + 1 <= self@.current as int <= src.len(),
                    digits_end(src, j + 1) == digits_end(src, self@.current as int),
                    self@.start == old(self)@.start,
                    self@.line == old(self)@.line,
                    self@.tokens == old(self)@.tokens,
                    self@.errors == old(self)@.errors,
                decreases src.len() - self@.current,
            {
                self.advance();
            }
        }

        // The matched text is the payload itself: the lexical grammar
        // fixes it, and decoding it into a float is the caller's
        // business.
        let text = self.text_range(self.start, self.current);
        self.add_token(TokenType::Number, Option::Some(TokenLiteral::Num(text)));
    }

    /// Scans the rest of an identifier-shaped word, its first
    /// character already consumed, and emits the keyword token it
    /// matches exactly, or an identifier token carrying the word.
    fn identifier(&mut self)
        requires
            old(self).wf(),
            old(self)@.start + 1 == old(self)@.current,
        ensures
            final(self).wf(),
            ({
                let src = old(self)@.source;
                let j = ident_end(src, old(self)@.current as int);
                let text = src.subrange(old(self)@.start as int, j);
                let kind = keyword_kind(text);
                final(self)@ == (ScannerView {
                    current: j as nat,
                    tokens: old(self)@.tokens + seq![
                        TokenView {
                            token_type: kind,
                            lexeme: text,
                            literal: if kind is Identifier {
                                TokenLiteralView::Str(text)
                            } else {
                                TokenLiteralView::NoLiteral
                            },
                            line: old(self)@.line,
                        },
                    ],
                    ..old(self)@
                })
            }),
    {
        let ghost src = self@.source;
        let ghost c0 = self@.current as int;
        while self.peek_is_identifier_char()
            invariant
                self.wf(),
                self@.source == src,
                0 <= c0 <= self@.current as int <= src.len(),
                ident_end(src, c0) == ident_end(src, self@.current as int),
                self@.start == old(self)@.start,
                self@.line == old(self)@.line,
                self@.tokens == old(self)@.tokens,
                self@.errors == old(self)@.errors,
            decreases src.len() - self@.current,
        {
            self.advance();
        }

        let text = self.text_range(self.start, self.current);
        let token_type = if text == String::from_str("and") {
            TokenType::And
        } else if text == String::from_str("class") {
            TokenType::Class
        } else if text == String::from_str("else") {
            TokenType::Else
        } else if text == String::from_str("false") {
            TokenType::False
        } else if text == String::from_str("for") {
            TokenType::For
        } else if text == String::from_str("fun") {
            TokenType::Fun
        } else if text == String::from_str("if") {
            TokenType::If
        } else if text == String::from_str("nil") {
            TokenType::Nil
        } else if text == String::from_str("or") {
            TokenType::Or
        } else if text == String::from_str("print") {
            TokenType::Print
        } else if text == String::from_str("return") {
            TokenType::Return
        } else if text == String::from_str("super") {
            TokenType::Super
        } else if text == String::from_str("this") {
            TokenType::This
        } else if text == String::from_str("true") {
            TokenType::True
        } else if text == String::from_str("var") {
            TokenType::Var
        } else if text == String::from_str("while") {
            TokenType::While
        } else {
            TokenType::Identifier
        };

        match token_type {
            TokenType::Identifier => {
                self.add_token(TokenType::Identifier, Option::Some(TokenLiteral::Str(text)));
            },
            _ => {
                self.add_token(token_type, Option::None);
            },
        }
    }

    /// Skips a block comment, the opening `/*` already consumed:
    /// everything through the first `*/` goes, newlines counted; with
    /// no closer the rest of the input is swallowed silently.
    fn block_comment(&mut self)
        requires
            old(self).wf(),
        ensures
            final(self).wf(),
            ({
                let src = old(self)@.source;
                let len = src.len() as int;
                let c0 = old(self)@.current as int;
                let close = block_comment_close(src, c0);
                if close < len {
                    final(self)@ == (ScannerView {
                        current: (close + 2) as nat,
                        line: (old(self)@.line + newline_count(src, c0, close)) as nat,
                        ..old(self)@
                    })
                } else {
                    final(self)@ == (ScannerView {
                        current: src.len(),
                        line: (old(self)@.line + newline_count(src, c0, len)) as nat,
                        ..old(self)@
                    })
                }
            }),
    {
        let ghost src = self@.source;
        let ghost c0 = self@.current as int;
        let ghost line0 = self@.line as int;
        while !self.is_at_end() && !(self.peek() == '*' && self.peek_next() == '/')
            invariant
                self.wf(),
                self@.source == src,
                0 <= c0 <= self@.current as int <= src.len(),
                block_comment_close(src, c0) == block_comment_close(src, self@.current as int),
                self@.line == line0 + newline_count(src, c0, self@.current as int),
                self@.start == old(self)@.start,
                self@.tokens == old(self)@.tokens,
                self@.errors == old(self)@.errors,
            decreases src.len() - self@.current,
        {
            let ch = self.advance();
            if ch == '\n' {
                self.line = self.line + 1;
            }
        }

        if !self.is_at_end() {
            self.advance();
            self.advance();
        }
        proof {
            assert(self@ =~= (ScannerView {
                current: self@.current,
                line: self@.line,
                ..old(self)@
            }));
        }
    }

    /// Scans one token (or one skipped stretch, or one recovered
    /// error) at the read position, which must not be at the end,
    /// exactly as [`spec_step`] describes.
    fn scan_token(&mut self)
        requires
            old(self).wf(),
            old(self)@.current < old(self)@.source.len(),
            old(self)@.start == old(self)@.current,
        ensures
            final(self).wf(),
            ({
                let st = spec_step(
                    old(self)@.source,
                    old(self)@.current as int,
                    old(self)@.line as int,
                );
                final(self)@ == (ScannerView {
                    current: st.pos as nat,
                    line: st.line as nat,
                    tokens: old(self)@.tokens + opt_seq(st.token),
                    errors: old(self)@.errors + opt_seq(st.error),
                    ..old(self)@
                })
            }),
    {
        let ghost src = self@.source;
        let ghost pos = self@.current as int;
        let ghost line0 = self@.line as int;
        proof {
            lemma_spec_step_bounds(src, pos, line0);
        }
        let c = self.advance();
        match c {
            '\n' => {
                self.line = self.line + 1;
            },
            ' ' | '\r' | '\t' => {
                // Whitespace produces no token.
            },
            '(' => self.add_token(TokenType::LeftParen, Option::None),
            ')' => self.add_token(TokenType::RightParen, Option::None),
            '{' => self.add_token(TokenType::LeftBrace, Option::None),
            '}' => self.add_token(TokenType::RightBrace, Option::None),
            ',' => self.add_token(TokenType::Comma, Option::None),
            '.' => self.add_token(TokenType::Dot, Option::None),
            '-' => self.add_token(TokenType::Minus, Option::None),
            '+' => self.add_token(TokenType::Plus, Option::None),
            ';' => self.add_token(TokenType::Semicolon, Option::None),
            '*' => self.add_token(TokenType::Star, Option::None),
            '!' => {
                let token = if self.match_token('=') {
                    TokenType::BangEqual
                } else {
                    TokenType::Bang
                };
                self.add_token(token, Option::None);
            },
            '=' => {
                let token = if self.match_token('=') {
                    TokenType::EqualEqual
                } else {
                    TokenType::Equal
                };
                self.add_token(token, Option::None);
            },
            '<' => {
                let token = if self.match_token('=') {
                    TokenType::LessEqual
                } else {
                    TokenType::Less
                };
                self.add_token(token, Option::None);
            },
            '>' => {
                let token = if self.match_token('=') {
                    TokenType::GreaterEqual
                } else {
                    TokenType::Greater
                };
                self.add_token(token, Option::None);
            },
            '/' => {
                // A second slash opens a line comment, running to the
                // end of the line; a star opens a block comment.
                if self.match_token('/') {
                    let ghost c2 = self@.current as int;
                    while !self.is_at_end() && self.peek() != '\n'
                        invariant
                            self.wf(),
                            self@.source == src,
                            c2 <= self@.current as int <= src.len(),
                            line_end(src, c2) == line_end(src, self@.current as int),
                            self@.start == old(self)@.start,
                            self@.line == old(self)@.line,
                            self@.tokens == old(self)@.tokens,
                            self@.errors == old(self)@.errors,
                        decreases src.len() - self@.current,
                    {
                        self.advance();
                    }
                } else if self.match_token('*') {
                    self.block_comment();
                } else {
                    self.add_token(TokenType::Slash, Option::None);
                }
            },
            '"' => {
                self.parse_string();
            },
            character => {
                if is_digit_char(character) {
                    self.number();
                } else if self.is_valid_identifier_char(character) {
                    self.identifier();
                } else {
                    let mut message = String::from_str("Unexpected character: ");
                    message.push(character);
                    self.record_error(message);
                }
            },
        }
        proof {
            let st = spec_step(src, pos, line0);
            assert(self@ =~= (ScannerView {
                current: st.pos as nat,
                line: st.line as nat,
                tokens: old(self)@.tokens + opt_seq(st.token),
                errors: old(self)@.errors + opt_seq(st.error),
                ..old(self)@
            }));
        }
    }

    /// Scans the whole remaining source: every token in order, then
    /// exactly one end-of-input token on the line the cursor ended on.
    /// The call never fails; recovered errors are accumulated beside
    /// the tokens. For a fresh scanner the result is exactly
    /// [`spec_scan_tokens`] of the source and the recorded errors are
    /// exactly [`spec_scan_errors`] of it.
    pub fn scan_tokens(&mut self) -> (r: Vec<Token>)
        requires
            old(self).wf(),
        ensures
            final(self).wf(),
            final(self)@.source == old(self)@.source,
            ({
                let s = spec_scan_from(
                    old(self)@.source,
                    old(self)@.current as int,
                    old(self)@.line as int,
                );
                &&& final(self)@.tokens == old(self)@.tokens + s.tokens + seq![eof_token(s.line)]
                &&& final(self)@.errors == old(self)@.errors + s.errors
                &&& final(self)@.line == s.line
                &&& final(self)@.current == old(self)@.source.len()
                &&& r@.map_values(|t: Token| t@) == final(self)@.tokens
            }),
            old(self)@.is_fresh() ==> r@.map_values(|t: Token| t@) == spec_scan_tokens(
                old(self)@.source,
            ) && final(self)@.errors == spec_scan_errors(old(self)@.source),
    {
        let ghost src = self@.source;
        let ghost pos0 = self@.current as int;
        let ghost line0 = self@.line as int;
        let ghost t0 = self@.tokens;
        let ghost e0 = self@.errors;
        while !self.is_at_end()
            invariant
                self.wf(),
                self@.source == src,
                t0 + spec_scan_from(src, pos0, line0).tokens == self@.tokens + spec_scan_from(
                    src,
                    self@.current as int,
                    self@.line as int,
                ).tokens,
                e0 + spec_scan_from(src, pos0, line0).errors == self@.errors + spec_scan_from(
                    src,
                    self@.current as int,
                    self@.line as int,
                ).errors,
                spec_scan_from(src, pos0, line0).line == spec_scan_from(
                    src,
                    self@.current as int,
                    self@.line as int,
                ).line,
            decreases src.len() - self@.current,
        {
            let ghost cur = self@.current as int;
            let ghost ln = self@.line as int;
            let ghost tks = self@.tokens;
            let ghost ers = self@.errors;
            self.start = self.current;
            self.scan_token();
            proof {
                lemma_spec_step_bounds(src, cur, ln);
                let st = spec_step(src, cur, ln);
                let rest = spec_scan_from(src, st.pos, st.line);
                assert(spec_scan_from(src, cur, ln).tokens == opt_seq(st.token) + rest.tokens);
                assert(spec_scan_from(src, cur, ln).errors == opt_seq(st.error) + rest.errors);
                assert(self@.tokens == tks + opt_seq(st.token));
                assert(self@.errors == ers + opt_seq(st.error));
                assert(self@.current as int == st.pos && self@.line as int == st.line);
                assert(tks + (opt_seq(st.token) + rest.tokens) =~= (tks + opt_seq(st.token))
                    + rest.tokens);
                assert(ers + (opt_seq(st.error) + rest.errors) =~= (ers + opt_seq(st.error))
                    + rest.errors);
            }
        }

        proof {
            assert(self@.tokens + spec_scan_from(src, self@.current as int, self@.line as int).tokens
                =~= self@.tokens);
            assert(self@.errors + spec_scan_from(src, self@.current as int, self@.line as int).errors
                =~= self@.errors);
        }

        let line = self.line;
        self.push_token(Token::new(TokenType::EOF, String::new(), TokenLiteral::NoLiteral, line));
        proof {
            let s = spec_scan_from(src, pos0, line0);
            assert(self@.tokens =~= (t0 + s.tokens) + seq![eof_token(s.line)]);
            assert(self@.tokens =~= t0 + s.tokens + seq![eof_token(s.line)]);
        }

        let r = self.tokens.clone();
        proof {
            assert(r@.len() == self.tokens@.len());
            assert forall|i: int| 0 <= i < r@.len() implies #[trigger] r@[i]@ == self.tokens@[i]@ by {
                assert(cloned(self.tokens@[i], r@[i]));
            }
            assert(r@.map_values(|t: Token| t@) =~= self.tokens@.map_values(|t: Token| t@));
            if old(self)@.is_fresh() {
                let s = spec_scan_from(src, 0, 1);
                assert(Seq::<TokenView>::empty() + s.tokens =~= s.tokens);
                assert(Seq::<ScanErrorView>::empty() + s.errors =~= s.errors);
                assert(self@.tokens =~= spec_scan_tokens(src));
            }
        }
        r
    }
}

/// A decimal digit test on one character.
fn is_digit_char(c: char) -> (r: bool)
    ensures
        r == is_digit(c),
{
    '0' <= c && c <= '9'
}

/// Everything but the read position agrees between two scanner states;
/// what the cursor-moving helpers leave untouched.
pub open spec fn self_stays_put_except_cursor(a: Scanner, b: Scanner) -> bool {
    &&& b@.source == a@.source
    &&& b@.start == a@.start
    &&& b@.tokens == a@.tokens
    &&& b@.errors == a@.errors
}

} // verus!
