use vstd::prelude::*;
use crate::ident::{ident_continue, ident_start, is_ident, is_ident_continue, is_ident_start, Ident};
use crate::text::{chars_of, decimal, push_char, push_decimal, string_of_range};

verus! {

/// What the parser looked for where it found something else.
#[derive(Clone, Copy, PartialEq, Eq, Structural, Debug)]
pub enum Expected {
    /// The start of a token: a letter, `_`, `"`, `{`, `}`, `:`, `,` or `=>`.
    Token,
    /// The `"` that ends a string.
    ClosingQuote,
    /// One of the escapes `\\`, `\"`, `\'`, `\n`, `\r`, `\t`, `\0`.
    Escape,
    /// `pub`, `label_enum` or `struct`: the start of a declaration.
    Item,
    /// `label_enum` or `struct`, after `pub`.
    Declaration,
    /// A name.
    Name,
    /// `:`
    Colon,
    /// `{`
    OpenBrace,
    /// A string.
    String,
    /// `=>`
    FatArrow,
    /// The name of a value, or `}`.
    ValueOrClose,
    /// The key of a label, or `}`.
    LabelOrClose,
    /// `,` or `}`.
    CommaOrClose,
    /// `{` with the values of a label, or the name of a `label_enum`.
    Values,
}

/// Malformed input: where it is, the token that is at fault as it is
/// written (nothing at the end of the input), and what was looked for.
#[derive(Debug, PartialEq, Eq)]
pub struct ParseError {
    pub offset: usize,
    pub found: String,
    pub expected: Expected,
}

/// What a [`ParseError`] stands for.
pub struct ParseErrorView {
    pub offset: int,
    pub found: Seq<char>,
    pub expected: Expected,
}

impl View for ParseError {
    type V = ParseErrorView;

    open spec fn view(&self) -> ParseErrorView {
        ParseErrorView { offset: self.offset as int, found: self.found@, expected: self.expected }
    }
}

impl Expected {
    /// What was looked for, in words.
    pub open spec fn text(self) -> Seq<char> {
        match self {
            Expected::Token => "the start of a token"@,
            Expected::ClosingQuote => "the `\"` that ends the string"@,
            Expected::Escape => "a known escape"@,
            Expected::Item => "`pub`, `label_enum` or `struct`"@,
            Expected::Declaration => "`label_enum` or `struct`"@,
            Expected::Name => "a name"@,
            Expected::Colon => "`:`"@,
            Expected::OpenBrace => "`{`"@,
            Expected::String => "a string"@,
            Expected::FatArrow => "`=>`"@,
            Expected::ValueOrClose => "the name of a value or `}`"@,
            Expected::LabelOrClose => "the key of a label or `}`"@,
            Expected::CommaOrClose => "`,` or `}`"@,
            Expected::Values => "`{` or the name of a `label_enum`"@,
        }
    }

    /// What was looked for, in words.
    pub fn as_str(self) -> (r: &'static str)
        ensures
            r@ == self.text(),
    {
        match self {
            Expected::Token => "the start of a token",
            Expected::ClosingQuote => "the `\"` that ends the string",
            Expected::Escape => "a known escape",
            Expected::Item => "`pub`, `label_enum` or `struct`",
            Expected::Declaration => "`label_enum` or `struct`",
            Expected::Name => "a name",
            Expected::Colon => "`:`",
            Expected::OpenBrace => "`{`",
            Expected::String => "a string",
            Expected::FatArrow => "`=>`",
            Expected::ValueOrClose => "the name of a value or `}`",
            Expected::LabelOrClose => "the key of a label or `}`",
            Expected::CommaOrClose => "`,` or `}`",
            Expected::Values => "`{` or the name of a `label_enum`",
        }
    }
}

/// The diagnostic for malformed input: it names the offending token, or
/// the end of the input, and says where it is and what was looked for.
pub open spec fn parse_message_of(e: ParseErrorView) -> Seq<char> {
    (if e.found.len() == 0 {
        "unexpected end of input"@
    } else {
        "unexpected `"@ + e.found + "`"@
    }) + " at offset "@ + decimal(e.offset as nat) + ": expected "@ + e.expected.text()
}

impl ParseError {
    /// The diagnostic for this error.
    pub fn message(&self) -> (r: String)
        ensures
            r@ == parse_message_of(self@),
    {
        let mut out = String::new();
        if self.found.as_str().unicode_len() == 0 {
            out.append("unexpected end of input");
            assert(out@ =~= "unexpected end of input"@);
        } else {
            out.append("unexpected `");
            out.append(self.found.as_str());
            out.append("`");
            assert(out@ =~= "unexpected `"@ + self.found@ + "`"@);
        }
        out.append(" at offset ");
        push_decimal(&mut out, self.offset as u128);
        out.append(": expected ");
        out.append(self.expected.as_str());
        out
    }
}

/// The kinds of token of the input language.
#[derive(Debug, PartialEq, Eq)]
pub enum TokenKind {
    Ident(Ident),
    Str(String),
    Pub,
    Struct,
    LabelEnum,
    /// A word that generated code cannot use as a name.
    Reserved,
    OpenBrace,
    CloseBrace,
    Colon,
    Comma,
    FatArrow,
}

/// What a [`TokenKind`] stands for.
pub enum KindView {
    Ident(Seq<char>),
    Str(Seq<char>),
    Pub,
    Struct,
    LabelEnum,
    Reserved,
    OpenBrace,
    CloseBrace,
    Colon,
    Comma,
    FatArrow,
}

impl View for TokenKind {
    type V = KindView;

    open spec fn view(&self) -> KindView {
        match self {
            TokenKind::Ident(name) => KindView::Ident(name@),
            TokenKind::Str(value) => KindView::Str(value@),
            TokenKind::Pub => KindView::Pub,
            TokenKind::Struct => KindView::Struct,
            TokenKind::LabelEnum => KindView::LabelEnum,
            TokenKind::Reserved => KindView::Reserved,
            TokenKind::OpenBrace => KindView::OpenBrace,
            TokenKind::CloseBrace => KindView::CloseBrace,
            TokenKind::Colon => KindView::Colon,
            TokenKind::Comma => KindView::Comma,
            TokenKind::FatArrow => KindView::FatArrow,
        }
    }
}

/// A token: its kind, where it starts, and how it is written.
#[derive(Debug, PartialEq, Eq)]
pub struct Token {
    pub kind: TokenKind,
    pub offset: usize,
    pub text: String,
}

/// What a [`Token`] stands for.
pub struct TokenView {
    pub kind: KindView,
    pub offset: int,
    pub text: Seq<char>,
}

impl View for Token {
    type V = TokenView;

    open spec fn view(&self) -> TokenView {
        TokenView { kind: self.kind@, offset: self.offset as int, text: self.text@ }
    }
}

/// The views of a list of tokens, in order.
pub open spec fn tokens_view(tokens: Seq<Token>) -> Seq<TokenView> {
    Seq::new(tokens.len(), |i: int| tokens[i]@)
}

/// A character that separates tokens.
pub open spec fn is_space(c: char) -> bool {
    c == ' ' || c == '\t' || c == '\n' || c == '\r'
}

/// The first position at or after `pos` that holds no space.
pub open spec fn skip_space(s: Seq<char>, pos: int) -> int
    decreases s.len() - pos,
{
    if 0 <= pos < s.len() && is_space(s[pos]) {
        skip_space(s, pos + 1)
    } else {
        pos
    }
}

/// The first position at or after `pos` that holds no identifier
/// character.
pub open spec fn ident_end(s: Seq<char>, pos: int) -> int
    decreases s.len() - pos,
{
    if 0 <= pos < s.len() && is_ident_continue(s[pos]) {
        ident_end(s, pos + 1)
    } else {
        pos
    }
}

/// The character that `\c` stands for in a string.
pub open spec fn unescape(c: char) -> Option<char> {
    if c == '\\' || c == '"' || c == '\'' {
        Some(c)
    } else if c == 'n' {
        Some('\n')
    } else if c == 'r' {
        Some('\r')
    } else if c == 't' {
        Some('\t')
    } else if c == '0' {
        Some('\0')
    } else {
        None
    }
}

/// How the scan of a string ended.
pub enum StringScan {
    /// At the closing quote: the value, and the position behind the quote.
    Closed { value: Seq<char>, end: int },
    /// At the end of the input.
    Unterminated,
    /// At a `\` that no known escape follows.
    BadEscape { at: int },
}

/// Scans a string from `pos`, behind its opening quote or later, with the
/// value `acc` read so far.
pub open spec fn scan_string(s: Seq<char>, pos: int, acc: Seq<char>) -> StringScan
    decreases s.len() - pos,
{
    if pos < 0 || pos >= s.len() {
        StringScan::Unterminated
    } else if s[pos] == '"' {
        StringScan::Closed { value: acc, end: pos + 1 }
    } else if s[pos] == '\\' {
        if pos + 1 >= s.len() {
            StringScan::Unterminated
        } else {
            match unescape(s[pos + 1]) {
                Some(c) => scan_string(s, pos + 2, acc.push(c)),
                None => StringScan::BadEscape { at: pos },
            }
        }
    } else {
        scan_string(s, pos + 1, acc.push(s[pos]))
    }
}

/// `text` is a word that the language of the generated code keeps for
/// itself, so that it cannot name a type, a variant or a field there.
pub open spec fn is_reserved(text: Seq<char>) -> bool {
    text == "as"@ || text == "break"@ || text == "const"@ || text == "continue"@ ||
    text == "crate"@ || text == "else"@ || text == "enum"@ || text == "extern"@ ||
    text == "false"@ || text == "fn"@ || text == "for"@ || text == "if"@ || text == "impl"@ ||
    text == "in"@ || text == "let"@ || text == "loop"@ || text == "match"@ || text == "mod"@ ||
    text == "move"@ || text == "mut"@ || text == "ref"@ || text == "return"@ ||
    text == "self"@ || text == "Self"@ || text == "static"@ || text == "super"@ ||
    text == "trait"@ || text == "true"@ || text == "type"@ || text == "unsafe"@ ||
    text == "use"@ || text == "where"@ || text == "while"@ || text == "async"@ ||
    text == "await"@ || text == "dyn"@ || text == "abstract"@ || text == "become"@ ||
    text == "box"@ || text == "do"@ || text == "final"@ || text == "macro"@ ||
    text == "override"@ || text == "priv"@ || text == "typeof"@ || text == "unsized"@ ||
    text == "virtual"@ || text == "yield"@ || text == "try"@ || text == "gen"@ || text == "_"@
}

/// The kind of a word: a keyword of the input language, a reserved word,
/// or a name.
pub open spec fn word_kind(text: Seq<char>) -> KindView {
    if text == "pub"@ {
        KindView::Pub
    } else if text == "struct"@ {
        KindView::Struct
    } else if text == "label_enum"@ {
        KindView::LabelEnum
    } else if is_reserved(text) {
        KindView::Reserved
    } else {
        KindView::Ident(text)
    }
}

/// The token of kind `kind` that is written in `s` from `start` to `end`.
pub open spec fn token(s: Seq<char>, kind: KindView, start: int, end: int) -> TokenView {
    TokenView { kind, offset: start, text: s.subrange(start, end) }
}

/// The error for what is written in `s` from `start` to `end`.
pub open spec fn lex_error(s: Seq<char>, start: int, end: int, expected: Expected)
    -> ParseErrorView {
    ParseErrorView { offset: start, found: s.subrange(start, end), expected }
}

/// The token that starts at `pos`, where a character that is no space
/// stands, and the position behind it.
pub open spec fn token_at(s: Seq<char>, pos: int) -> Result<(TokenView, int), ParseErrorView> {
    let c = s[pos];
    if is_ident_start(c) {
        let end = ident_end(s, pos + 1);
        Ok((token(s, word_kind(s.subrange(pos, end)), pos, end), end))
    } else if c == '{' {
        Ok((token(s, KindView::OpenBrace, pos, pos + 1), pos + 1))
    } else if c == '}' {
        Ok((token(s, KindView::CloseBrace, pos, pos + 1), pos + 1))
    } else if c == ':' {
        Ok((token(s, KindView::Colon, pos, pos + 1), pos + 1))
    } else if c == ',' {
        Ok((token(s, KindView::Comma, pos, pos + 1), pos + 1))
    } else if c == '=' && pos + 1 < s.len() && s[pos + 1] == '>' {
        Ok((token(s, KindView::FatArrow, pos, pos + 2), pos + 2))
    } else if c == '"' {
        match scan_string(s, pos + 1, Seq::empty()) {
            StringScan::Closed { value, end } => Ok((token(s, KindView::Str(value), pos, end), end)),
            StringScan::Unterminated => Err(
                lex_error(s, pos, s.len() as int, Expected::ClosingQuote),
            ),
            StringScan::BadEscape { at } => Err(lex_error(s, at, at + 2, Expected::Escape)),
        }
    } else {
        Err(lex_error(s, pos, pos + 1, Expected::Token))
    }
}

/// The end of an identifier lies at or behind the start of the scan, and
/// inside the input; up to it stand identifier characters.
pub proof fn lemma_ident_end(s: Seq<char>, pos: int)
    requires
        0 <= pos <= s.len(),
    ensures
        pos <= ident_end(s, pos) <= s.len(),
        forall|i: int| pos <= i < ident_end(s, pos) ==> is_ident_continue(#[trigger] s[i]),
    decreases s.len() - pos,
{
    if pos < s.len() && is_ident_continue(s[pos]) {
        lemma_ident_end(s, pos + 1);
    }
}

/// A string ends behind the start of its scan, and inside the input.
pub proof fn lemma_scan_string(s: Seq<char>, pos: int, acc: Seq<char>)
    requires
        0 <= pos <= s.len(),
    ensures
        match scan_string(s, pos, acc) {
            StringScan::Closed { value, end } => pos < end <= s.len(),
            StringScan::Unterminated => true,
            StringScan::BadEscape { at } => pos <= at && at + 2 <= s.len(),
        },
    decreases s.len() - pos,
{
    if pos < s.len() && s[pos] != '"' {
        if s[pos] == '\\' {
            if pos + 1 < s.len() && unescape(s[pos + 1]) is Some {
                lemma_scan_string(s, pos + 2, acc.push(unescape(s[pos + 1])->0));
            }
        } else {
            lemma_scan_string(s, pos + 1, acc.push(s[pos]));
        }
    }
}

/// A token ends behind its start, and inside the input.
pub proof fn lemma_token_at(s: Seq<char>, pos: int)
    requires
        0 <= pos < s.len(),
    ensures
        token_at(s, pos) matches Ok((t, end)) ==> pos < end <= s.len(),
{
    lemma_ident_end(s, pos + 1);
    lemma_scan_string(s, pos + 1, Seq::empty());
}

/// The tokens of `s` from `pos` on, or the first error.
pub open spec fn lex(s: Seq<char>, pos: int) -> Result<Seq<TokenView>, ParseErrorView>
    decreases s.len() - pos,
{
    let start = skip_space(s, pos);
    if pos < 0 || start < 0 || start >= s.len() {
        Ok(Seq::empty())
    } else {
        match token_at(s, start) {
            Err(e) => Err(e),
            Ok((t, end)) => {
                proof {
                    lemma_skip_space(s, pos);
                    lemma_token_at(s, start);
                }
                match lex(s, end) {
                    Err(e) => Err(e),
                    Ok(rest) => Ok(seq![t] + rest),
                }
            },
        }
    }
}

/// Skipping spaces does not go back, nor beyond the end of the input.
pub proof fn lemma_skip_space(s: Seq<char>, pos: int)
    requires
        0 <= pos,
    ensures
        pos <= skip_space(s, pos),
        pos <= s.len() ==> skip_space(s, pos) <= s.len(),
        skip_space(s, pos) < s.len() ==> !is_space(s[skip_space(s, pos)]),
    decreases s.len() - pos,
{
    if pos < s.len() && is_space(s[pos]) {
        lemma_skip_space(s, pos + 1);
    }
}

/// The tokens `front` followed by what `rest` gives.
pub open spec fn tokens_then(front: Seq<TokenView>, rest: Result<Seq<TokenView>, ParseErrorView>)
    -> Result<Seq<TokenView>, ParseErrorView> {
    match rest {
        Ok(tokens) => Ok(front + tokens),
        Err(e) => Err(e),
    }
}

/// Whether `c` separates tokens.
fn space(c: char) -> (r: bool)
    ensures
        r == is_space(c),
{
    c == ' ' || c == '\t' || c == '\n' || c == '\r'
}

/// The character that `\c` stands for in a string.
fn unescaped(c: char) -> (r: Option<char>)
    ensures
        r == unescape(c),
{
    if c == '\\' || c == '"' || c == '\'' {
        Some(c)
    } else if c == 'n' {
        Some('\n')
    } else if c == 'r' {
        Some('\r')
    } else if c == 't' {
        Some('\t')
    } else if c == '0' {
        Some('\0')
    } else {
        None
    }
}

/// The error for what is written in `s` from `start` to `end`.
fn error_in(s: &Vec<char>, start: usize, end: usize, expected: Expected) -> (r: ParseError)
    requires
        start <= end <= s.len(),
    ensures
        r@ == lex_error(s@, start as int, end as int, expected),
{
    ParseError { offset: start, found: string_of_range(s, start, end), expected }
}

/// The token of kind `kind` that is written in `s` from `start` to `end`.
fn token_in(s: &Vec<char>, kind: TokenKind, start: usize, end: usize) -> (r: Token)
    requires
        start <= end <= s.len(),
    ensures
        r@ == token(s@, kind@, start as int, end as int),
{
    Token { kind, offset: start, text: string_of_range(s, start, end) }
}

/// Whether `text` is the word `word`.
fn is_word(text: &String, word: &str) -> (r: bool)
    ensures
        r == (text@ == word@),
{
    *text == String::from_str(word)
}

/// Whether `text` is a reserved word.
fn reserved(text: &String) -> (r: bool)
    ensures
        r == is_reserved(text@),
{
    is_word(text, "as") || is_word(text, "break") || is_word(text, "const") ||
    is_word(text, "continue") || is_word(text, "crate") || is_word(text, "else") ||
    is_word(text, "enum") || is_word(text, "extern") || is_word(text, "false") ||
    is_word(text, "fn") || is_word(text, "for") || is_word(text, "if") ||
    is_word(text, "impl") || is_word(text, "in") || is_word(text, "let") ||
    is_word(text, "loop") || is_word(text, "match") || is_word(text, "mod") ||
    is_word(text, "move") || is_word(text, "mut") || is_word(text, "ref") ||
    is_word(text, "return") || is_word(text, "self") || is_word(text, "Self") ||
    is_word(text, "static") || is_word(text, "super") || is_word(text, "trait") ||
    is_word(text, "true") || is_word(text, "type") || is_word(text, "unsafe") ||
    is_word(text, "use") || is_word(text, "where") || is_word(text, "while") ||
    is_word(text, "async") || is_word(text, "await") || is_word(text, "dyn") ||
    is_word(text, "abstract") || is_word(text, "become") || is_word(text, "box") ||
    is_word(text, "do") || is_word(text, "final") || is_word(text, "macro") ||
    is_word(text, "override") || is_word(text, "priv") || is_word(text, "typeof") ||
    is_word(text, "unsized") || is_word(text, "virtual") || is_word(text, "yield") ||
    is_word(text, "try") || is_word(text, "gen") || is_word(text, "_")
}

/// The word that is written in `s` from `start` to `end`, as a token.
fn word_token(s: &Vec<char>, start: usize, end: usize) -> (r: Token)
    requires
        start < end <= s.len(),
        is_ident_start(s[start as int]),
        forall|i: int| start <= i < end ==> is_ident_continue(#[trigger] s[i]),
    ensures
        r@ == token(s@, word_kind(s@.subrange(start as int, end as int)), start as int, end as int),
{
    let text = string_of_range(s, start, end);
    let kind = if is_word(&text, "pub") {
        TokenKind::Pub
    } else if is_word(&text, "struct") {
        TokenKind::Struct
    } else if is_word(&text, "label_enum") {
        TokenKind::LabelEnum
    } else if reserved(&text) {
        TokenKind::Reserved
    } else {
        assert(is_ident(text@)) by {
            assert(text@[0] == s[start as int]);
            assert forall|i: int| 0 <= i < text@.len() implies is_ident_continue(
                #[trigger] text@[i],
            ) by {
                assert(text@[i] == s[start + i]);
            }
        }
        TokenKind::Ident(Ident::from_valid(text.as_str()))
    };
    Token { kind, offset: start, text }
}

/// Reads the string that starts at `start` with a quote.
fn string_token(s: &Vec<char>, start: usize) -> (r: Result<(Token, usize), ParseError>)
    requires
        start < s.len(),
        s[start as int] == '"',
    ensures
        match scan_string(s@, start + 1, Seq::empty()) {
            StringScan::Closed { value, end } => r matches Ok((t, e)) && t@ == token(
                s@,
                KindView::Str(value),
                start as int,
                end,
            ) && e == end && start < e <= s.len(),
            StringScan::Unterminated => r matches Err(err) && err@ == lex_error(
                s@,
                start as int,
                s@.len() as int,
                Expected::ClosingQuote,
            ),
            StringScan::BadEscape { at } => r matches Err(err) && err@ == lex_error(
                s@,
                at,
                at + 2,
                Expected::Escape,
            ),
        },
{
    let n = s.len();
    let mut value = String::new();
    let mut i: usize = start + 1;
    while i < n
        invariant
            start < i <= n,
            n == s.len(),
            scan_string(s@, start + 1, Seq::empty()) == scan_string(s@, i as int, value@),
        decreases n - i,
    {
        let c = s[i];
        if c == '"' {
            let t = token_in(s, TokenKind::Str(value), start, i + 1);
            return Ok((t, i + 1));
        } else if c == '\\' {
            if i + 1 >= n {
                return Err(error_in(s, start, n, Expected::ClosingQuote));
            }
            match unescaped(s[i + 1]) {
                Some(u) => {
                    push_char(&mut value, u);
                    i += 2;
                },
                None => {
                    return Err(error_in(s, i, i + 2, Expected::Escape));
                },
            }
        } else {
            push_char(&mut value, c);
            i += 1;
        }
    }
    Err(error_in(s, start, n, Expected::ClosingQuote))
}

/// Reads the token that starts at `pos`.
fn read_token(s: &Vec<char>, pos: usize) -> (r: Result<(Token, usize), ParseError>)
    requires
        pos < s.len(),
    ensures
        match token_at(s@, pos as int) {
            Ok((t, end)) => r matches Ok((found, e)) && found@ == t && e == end && pos < e
                <= s.len(),
            Err(e) => r matches Err(err) && err@ == e,
        },
{
    let n = s.len();
    let c = s[pos];
    if ident_start(c) {
        let mut end: usize = pos + 1;
        while end < n && ident_continue(s[end])
            invariant
                pos < end <= n,
                n == s.len(),
                ident_end(s@, pos + 1) == ident_end(s@, end as int),
                forall|i: int| pos < i < end ==> is_ident_continue(#[trigger] s[i]),
            decreases n - end,
        {
            end += 1;
        }
        Ok((word_token(s, pos, end), end))
    } else if c == '{' {
        Ok((token_in(s, TokenKind::OpenBrace, pos, pos + 1), pos + 1))
    } else if c == '}' {
        Ok((token_in(s, TokenKind::CloseBrace, pos, pos + 1), pos + 1))
    } else if c == ':' {
        Ok((token_in(s, TokenKind::Colon, pos, pos + 1), pos + 1))
    } else if c == ',' {
        Ok((token_in(s, TokenKind::Comma, pos, pos + 1), pos + 1))
    } else if c == '=' && pos + 1 < n && s[pos + 1] == '>' {
        Ok((token_in(s, TokenKind::FatArrow, pos, pos + 2), pos + 2))
    } else if c == '"' {
        string_token(s, pos)
    } else {
        Err(error_in(s, pos, pos + 1, Expected::Token))
    }
}

/// The tokens of the characters `s`, or the first error.
pub fn tokenize_chars(s: &Vec<char>) -> (r: Result<Vec<Token>, ParseError>)
    ensures
        match lex(s@, 0) {
            Ok(tokens) => r matches Ok(found) && tokens_view(found@) == tokens,
            Err(e) => r matches Err(err) && err@ == e,
        },
{
    let n = s.len();
    let mut tokens: Vec<Token> = Vec::new();
    let mut pos: usize = 0;
    loop
        invariant
            pos <= n,
            n == s.len(),
            lex(s@, 0) == tokens_then(tokens_view(tokens@), lex(s@, pos as int)),
        decreases n - pos,
    {
        let ghost before = pos;
        while pos < n && space(s[pos])
            invariant
                before <= pos <= n,
                n == s.len(),
                skip_space(s@, before as int) == skip_space(s@, pos as int),
            decreases n - pos,
        {
            pos += 1;
        }
        if pos >= n {
            assert(tokens_view(tokens@) + Seq::<TokenView>::empty() =~= tokens_view(tokens@));
            return Ok(tokens);
        }
        proof {
            lemma_token_at(s@, pos as int);
        }
        match read_token(s, pos) {
            Err(e) => {
                return Err(e);
            },
            Ok((t, end)) => {
                proof {
                    let front = tokens_view(tokens@);
                    let longer = tokens_view(tokens@.push(t));
                    assert(longer =~= front + seq![t@]);
                    match lex(s@, end as int) {
                        Ok(rest) => {
                            assert(front + (seq![t@] + rest) =~= longer + rest);
                        },
                        Err(_) => {},
                    }
                }
                tokens.push(t);
                pos = end;
            },
        }
    }
}

/// The tokens of `input`, or the first error.
pub fn tokenize(input: &str) -> (r: Result<Vec<Token>, ParseError>)
    ensures
        match lex(input@, 0) {
            Ok(tokens) => r matches Ok(found) && tokens_view(found@) == tokens,
            Err(e) => r matches Err(err) && err@ == e,
        },
{
    let s = chars_of(input);
    tokenize_chars(&s)
}

} // verus!
