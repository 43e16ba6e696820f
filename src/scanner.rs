use vstd::prelude::*;
use crate::number::{canonical_number, canonical_text, is_valid_number, valid_number};
use crate::text::{
    alphabetic, alphanumeric, chars_of, decimal, push_range, decimal_digit, decimal_text, is_alphabetic_char,
    is_alphanumeric_char, is_decimal_digit, is_white_space, string_of, string_of_range, white_space,
};
use crate::token::{Token, TokenKind, TokenType, TokenView};

verus! {

/// A lexical error.
#[derive(Debug, PartialEq)]
pub enum ScannerError {
    UnknownCharacter(char, usize),
    UnterminatedString(usize),
    UnparseableDigit(String, usize),
}

pub type ScannerResult<T> = Result<T, ScannerError>;

/// The model of a `ScannerError`.
pub enum ScanErrorView {
    UnknownCharacter(char, nat),
    UnterminatedString(nat),
    UnparseableDigit(Seq<char>, nat),
}

impl View for ScannerError {
    type V = ScanErrorView;

    open spec fn view(&self) -> ScanErrorView {
        match self {
            ScannerError::UnknownCharacter(c, l) => ScanErrorView::UnknownCharacter(*c, *l as nat),
            ScannerError::UnterminatedString(l) => ScanErrorView::UnterminatedString(*l as nat),
            ScannerError::UnparseableDigit(s, l) => ScanErrorView::UnparseableDigit(s@, *l as nat),
        }
    }
}

/// The line an error is reported at.
pub open spec fn error_line(e: ScanErrorView) -> nat {
    match e {
        ScanErrorView::UnknownCharacter(_, l) => l,
        ScanErrorView::UnterminatedString(l) => l,
        ScanErrorView::UnparseableDigit(_, l) => l,
    }
}

/// The one-line diagnostic for an error.
pub open spec fn error_message(e: ScanErrorView) -> Seq<char> {
    match e {
        ScanErrorView::UnknownCharacter(c, l) => "Scanner Error: Unrecognised character "@ + seq![c]
            + " at line "@ + decimal_text(l),
        ScanErrorView::UnterminatedString(l) => "Scanner Error: Unterminated string at line "@
            + decimal_text(l),
        ScanErrorView::UnparseableDigit(s, l) => "Scanner Error: Unparseable digit "@ + s
            + " at line "@ + decimal_text(l),
    }
}

impl ScannerError {
    pub fn line(&self) -> (r: usize)
        ensures
            r == error_line(self@),
    {
        match self {
            ScannerError::UnknownCharacter(_, line) => *line,
            ScannerError::UnterminatedString(line) => *line,
            ScannerError::UnparseableDigit(_, line) => *line,
        }
    }

    /// The one-line diagnostic for this error.
    pub fn message(&self) -> (r: String)
        ensures
            r@ == error_message(self@),
    {
        match self {
            ScannerError::UnknownCharacter(c, line) => {
                let mut s = String::from_str("Scanner Error: Unrecognised character ");
                let cs = string_of(&vec![*c]);
                s.append(cs.as_str());
                s.append(" at line ");
                s.append(decimal(*line).as_str());
                s
            },
            ScannerError::UnterminatedString(line) => {
                let mut s = String::from_str("Scanner Error: Unterminated string at line ");
                s.append(decimal(*line).as_str());
                s
            },
            ScannerError::UnparseableDigit(text, line) => {
                let mut s = String::from_str("Scanner Error: Unparseable digit ");
                s.append(text.as_str());
                s.append(" at line ");
                s.append(decimal(*line).as_str());
                s
            },
        }
    }
}

/// The number of line feeds in `s`.
pub open spec fn newlines(s: Seq<char>) -> nat
    decreases s.len(),
{
    if s.len() == 0 {
        0
    } else {
        newlines(s.drop_last()) + if s.last() == '\n' { 1nat } else { 0nat }
    }
}

/// The 1-based line of position `p` of `src`.
pub open spec fn line_at(src: Seq<char>, p: int) -> nat {
    1 + newlines(src.subrange(0, p))
}

/// The classes of characters that the scanner consumes in runs.
#[derive(Clone, Copy)]
pub enum CharClass {
    /// Whitespace between tokens.
    White,
    /// The body of a string literal.
    NotQuote,
    /// The body of a comment.
    NotNewline,
    /// What follows the first digit of a number.
    NumberChar,
    /// What follows the first character of an identifier.
    IdentChar,
}

pub open spec fn in_class(c: char, k: CharClass) -> bool {
    match k {
        CharClass::White => is_white_space(c),
        CharClass::NotQuote => c != '"',
        CharClass::NotNewline => c != '\n',
        CharClass::NumberChar => c == '.' || is_alphanumeric_char(c),
        CharClass::IdentChar => is_alphabetic_char(c) || c == '_' || is_decimal_digit(c),
    }
}

fn class_contains(c: char, k: CharClass) -> (r: bool)
    ensures
        r == in_class(c, k),
{
    match k {
        CharClass::White => white_space(c),
        CharClass::NotQuote => c != '"',
        CharClass::NotNewline => c != '\n',
        CharClass::NumberChar => c == '.' || alphanumeric(c),
        CharClass::IdentChar => alphabetic(c) || c == '_' || decimal_digit(c),
    }
}

/// The length of the run of characters of class `k` that starts at `p`.
pub open spec fn run_len(src: Seq<char>, p: int, k: CharClass) -> nat
    decreases src.len() - p,
{
    if 0 <= p < src.len() && in_class(src[p], k) {
        1 + run_len(src, p + 1, k)
    } else {
        0
    }
}

/// What one lexeme yields.
pub enum Lexed {
    /// A comment: nothing.
    Skip,
    Tok(TokenView),
    Fail(ScanErrorView),
}

pub open spec fn tok(kind: TokenKind, line: nat) -> Lexed {
    Lexed::Tok(TokenView { kind, line })
}

/// Whether `rest` starts with `c`.
pub open spec fn starts_with(rest: Seq<char>, c: char) -> bool {
    rest.len() > 0 && rest[0] == c
}

/// A one- or two-character operator whose first character was read, before
/// the unread input `rest`, at line `line`. The number is how many characters
/// of `rest` it takes.
pub open spec fn lex_operator(rest: Seq<char>, line: nat, single: TokenKind, double: TokenKind) -> (
    Lexed,
    nat,
) {
    if starts_with(rest, '=') {
        (tok(double, line), 1)
    } else {
        (tok(single, line), 0)
    }
}

/// How many characters a comment body that starts at `q` of `src` takes, the
/// line feed that ends it included.
pub open spec fn comment_len(src: Seq<char>, q: int) -> nat {
    let n = run_len(src, q, CharClass::NotNewline);
    if q + n < src.len() {
        n + 1
    } else {
        n
    }
}

/// A string literal whose opening quote was read at line `line`: its body is
/// the unread input `rest` up to the next quote.
pub open spec fn lex_string(rest: Seq<char>, line: nat) -> (Lexed, nat) {
    let n = run_len(rest, 0, CharClass::NotQuote);
    let body = rest.subrange(0, n as int);
    if n < rest.len() {
        (tok(TokenKind::LoxString(body), line + newlines(body)), n + 1)
    } else {
        (Lexed::Fail(ScanErrorView::UnterminatedString(line)), n)
    }
}

/// A number whose first character `ch` was read, before the unread input `rest`.
pub open spec fn lex_number(ch: char, rest: Seq<char>, line: nat) -> (Lexed, nat) {
    let n = run_len(rest, 0, CharClass::NumberChar);
    let text = seq![ch] + rest.subrange(0, n as int);
    if valid_number(text) {
        (tok(TokenKind::Number(canonical_text(text)), line), n)
    } else {
        (Lexed::Fail(ScanErrorView::UnparseableDigit(text, line)), n)
    }
}

/// The reserved words and their kinds.
pub open spec fn keyword_table() -> Seq<(Seq<char>, TokenKind)> {
    seq![
        ("or"@, TokenKind::Or),
        ("and"@, TokenKind::And),
        ("if"@, TokenKind::If),
        ("else"@, TokenKind::Else),
        ("var"@, TokenKind::Var),
        ("for"@, TokenKind::For),
        ("while"@, TokenKind::While),
        ("fun"@, TokenKind::Fun),
        ("class"@, TokenKind::Class),
        ("super"@, TokenKind::Super),
        ("this"@, TokenKind::This),
        ("return"@, TokenKind::Return),
        ("true"@, TokenKind::True),
        ("false"@, TokenKind::False),
        ("nil"@, TokenKind::Nil),
    ]
}

/// The kind of the first entry of `table`, from index `i` on, whose word is `w`.
pub open spec fn lookup_from(table: Seq<(Seq<char>, TokenKind)>, w: Seq<char>, i: int) -> Option<
    TokenKind,
>
    decreases table.len() - i,
{
    if i < 0 || i >= table.len() {
        None
    } else if table[i].0 == w {
        Some(table[i].1)
    } else {
        lookup_from(table, w, i + 1)
    }
}

/// The keyword that `w` spells, if any.
pub open spec fn keyword_of(w: Seq<char>) -> Option<TokenKind> {
    lookup_from(keyword_table(), w, 0)
}

/// An identifier or keyword whose first character `ch` was read, before the
/// unread input `rest`.
pub open spec fn lex_identifier(ch: char, rest: Seq<char>, line: nat) -> (Lexed, nat) {
    let n = run_len(rest, 0, CharClass::IdentChar);
    let text = seq![ch] + rest.subrange(0, n as int);
    let kind = match keyword_of(text) {
        Some(k) => k,
        None => TokenKind::Identifier(text),
    };
    (tok(kind, line), n)
}

/// What the lexeme that starts with `ch`, read at line `line` before the unread
/// input `rest`, yields when it is not a comment, and how many characters of
/// `rest` it takes.
pub open spec fn lex_token(ch: char, rest: Seq<char>, line: nat) -> (Lexed, nat) {
    if ch == '(' {
        (tok(TokenKind::LeftParen, line), 0)
    } else if ch == ')' {
        (tok(TokenKind::RightParen, line), 0)
    } else if ch == '{' {
        (tok(TokenKind::LeftBrace, line), 0)
    } else if ch == '}' {
        (tok(TokenKind::RightBrace, line), 0)
    } else if ch == ',' {
        (tok(TokenKind::Comma, line), 0)
    } else if ch == '.' {
        (tok(TokenKind::Dot, line), 0)
    } else if ch == '-' {
        (tok(TokenKind::Minus, line), 0)
    } else if ch == '+' {
        (tok(TokenKind::Plus, line), 0)
    } else if ch == ';' {
        (tok(TokenKind::Semicolon, line), 0)
    } else if ch == '*' {
        (tok(TokenKind::Star, line), 0)
    } else if ch == '!' {
        lex_operator(rest, line, TokenKind::Bang, TokenKind::BangEqual)
    } else if ch == '=' {
        lex_operator(rest, line, TokenKind::Equal, TokenKind::EqualEqual)
    } else if ch == '<' {
        lex_operator(rest, line, TokenKind::Less, TokenKind::LessEqual)
    } else if ch == '>' {
        lex_operator(rest, line, TokenKind::Greater, TokenKind::GreaterEqual)
    } else if ch == '/' {
        (tok(TokenKind::Slash, line), 0)
    } else if ch == '"' {
        lex_string(rest, line)
    } else if is_decimal_digit(ch) {
        lex_number(ch, rest, line)
    } else if is_alphabetic_char(ch) || ch == '_' {
        lex_identifier(ch, rest, line)
    } else {
        (Lexed::Fail(ScanErrorView::UnknownCharacter(ch, line)), 0)
    }
}

/// Whether `ch`, before the unread input `rest`, begins a `//` comment.
pub open spec fn is_comment_start(ch: char, rest: Seq<char>) -> bool {
    ch == '/' && starts_with(rest, '/')
}

/// The lexeme that starts with `ch` before the unread input `rest`: what it
/// yields, and how many characters of `rest` it takes.
pub open spec fn lex_after(ch: char, rest: Seq<char>, line: nat) -> (Lexed, nat) {
    if is_comment_start(ch, rest) {
        (Lexed::Skip, 1 + comment_len(rest, 1))
    } else {
        lex_token(ch, rest, line)
    }
}

/// The lexeme at position `p` of `src` (not whitespace).
pub open spec fn lex_at(src: Seq<char>, p: int) -> (Lexed, nat) {
    lex_after(src[p], src.subrange(p + 1, src.len() as int), line_at(src, p))
}

/// Where scanning goes on after the lexeme at `p`.
pub open spec fn next_pos(src: Seq<char>, p: int) -> int {
    let next = p + 1 + lex_at(src, p).1;
    if next <= src.len() {
        next
    } else {
        src.len() as int
    }
}

/// The tokens and the errors that scanning `src` from position `pos` yields,
/// in source order; the tokens end with one `Eof`.
pub open spec fn scan_from(src: Seq<char>, pos: int) -> (Seq<TokenView>, Seq<ScanErrorView>)
    decreases src.len() - pos,
{
    let p = pos + run_len(src, pos, CharClass::White);
    if pos < 0 || p >= src.len() {
        (seq![TokenView { kind: TokenKind::Eof, line: line_at(src, p) }], Seq::empty())
    } else {
        let (ts, es) = scan_from(src, next_pos(src, p));
        match lex_at(src, p).0 {
            Lexed::Skip => (ts, es),
            Lexed::Tok(t) => (seq![t] + ts, es),
            Lexed::Fail(e) => (ts, seq![e] + es),
        }
    }
}

/// The result of scanning `src` from `pos` on: the tokens when no lexical
/// error occurred, else every lexical error.
pub open spec fn scan_result_from(src: Seq<char>, pos: int) -> Result<
    Seq<TokenView>,
    Seq<ScanErrorView>,
> {
    let (ts, es) = scan_from(src, pos);
    if es.len() == 0 {
        Ok(ts)
    } else {
        Err(es)
    }
}

/// The result of scanning all of `src`.
pub open spec fn scan_result(src: Seq<char>) -> Result<Seq<TokenView>, Seq<ScanErrorView>> {
    scan_result_from(src, 0)
}

pub open spec fn token_views(ts: Seq<Token>) -> Seq<TokenView> {
    ts.map_values(|t: Token| t@)
}

pub open spec fn error_views(es: Seq<ScannerError>) -> Seq<ScanErrorView> {
    es.map_values(|e: ScannerError| e@)
}

/// The model of what `scan_tokens` returns.
pub open spec fn outcome_view(r: Result<Vec<Token>, Vec<ScannerError>>) -> Result<
    Seq<TokenView>,
    Seq<ScanErrorView>,
> {
    match r {
        Ok(ts) => Ok(token_views(ts@)),
        Err(es) => Err(error_views(es@)),
    }
}

/// The model of what one lexeme function returns.
pub open spec fn lexed_of(r: ScannerResult<Token>) -> Lexed {
    match r {
        Ok(t) => Lexed::Tok(t@),
        Err(e) => Lexed::Fail(e@),
    }
}

proof fn lemma_line_step(src: Seq<char>, p: int)
    requires
        0 <= p < src.len(),
    ensures
        line_at(src, p + 1) == line_at(src, p) + if src[p] == '\n' { 1nat } else { 0nat },
        line_at(src, p) <= p + 1,
    decreases p,
{
    assert(src.subrange(0, p + 1).drop_last() =~= src.subrange(0, p));
    if p > 0 {
        lemma_line_step(src, p - 1);
    } else {
        assert(src.subrange(0, 0).len() == 0);
    }
}

proof fn lemma_line_add(src: Seq<char>, a: int, m: int)
    requires
        0 <= a,
        0 <= m,
        a + m <= src.len(),
    ensures
        line_at(src, a + m) == line_at(src, a) + newlines(src.subrange(a, a + m)),
    decreases m,
{
    if m == 0 {
        assert(src.subrange(a, a) =~= Seq::<char>::empty());
    } else {
        lemma_line_add(src, a, m - 1);
        lemma_line_step(src, a + m - 1);
        assert(src.subrange(a, a + m).drop_last() =~= src.subrange(a, a + m - 1));
    }
}

proof fn lemma_run_shift(src: Seq<char>, a: int, i: int, k: CharClass)
    requires
        0 <= a <= src.len(),
        0 <= i,
    ensures
        run_len(src.subrange(a, src.len() as int), i, k) == run_len(src, a + i, k),
    decreases src.len() - a - i,
{
    if a + i < src.len() {
        lemma_run_shift(src, a, i + 1, k);
    }
}

proof fn lemma_run_stops(src: Seq<char>, p: int, k: CharClass)
    requires
        0 <= p <= src.len(),
    ensures
        p + run_len(src, p, k) <= src.len(),
        p + run_len(src, p, k) < src.len() ==> !in_class(src[p + run_len(src, p, k)], k),
    decreases src.len() - p,
{
    if p < src.len() && in_class(src[p], k) {
        lemma_run_stops(src, p + 1, k);
    }
}

proof fn lemma_keyword_step(w: Seq<char>, i: int)
    requires
        0 <= i < keyword_table().len(),
        keyword_table()[i].0 != w,
    ensures
        lookup_from(keyword_table(), w, i) == lookup_from(keyword_table(), w, i + 1),
{
}

proof fn lemma_scan_after_white(src: Seq<char>, pos: int)
    requires
        0 <= pos <= src.len(),
    ensures
        scan_from(src, pos) == scan_from(src, pos + run_len(src, pos, CharClass::White)),
        run_len(src, pos + run_len(src, pos, CharClass::White), CharClass::White) == 0,
{
    let q = pos + run_len(src, pos, CharClass::White);
    lemma_run_stops(src, pos, CharClass::White);
    assert(run_len(src, q, CharClass::White) == 0);
}

/// A scanner over one source text.
pub struct Scanner {
    source: Vec<char>,
    pos: usize,
    line: usize,
    keywords: Vec<(String, TokenType)>,
}

/// Whether `kw` holds the keyword table.
pub open spec fn is_keyword_table(kw: Seq<(String, TokenType)>) -> bool {
    &&& kw.len() == keyword_table().len()
    &&& forall|i: int|
        0 <= i < kw.len() ==> (#[trigger] kw[i]).0@ == keyword_table()[i].0 && kw[i].1@
            == keyword_table()[i].1
}

impl Scanner {
    /// The source text.
    pub closed spec fn text(&self) -> Seq<char> {
        self.source@
    }

    /// The position of the next character to read.
    pub closed spec fn position(&self) -> int {
        self.pos as int
    }

    /// The line counter: the line of the next character to read.
    pub closed spec fn line(&self) -> nat {
        self.line as nat
    }

    /// The input not read yet.
    pub open spec fn rest(&self) -> Seq<char> {
        self.text().subrange(self.position(), self.text().len() as int)
    }

    pub closed spec fn wf(&self) -> bool {
        &&& self.pos <= self.source@.len()
        &&& self.source@.len() < usize::MAX
        &&& self.line == line_at(self.source@, self.pos as int)
        &&& is_keyword_table(self.keywords@)
    }

    pub fn new(source: &str) -> (r: Scanner)
        requires
            source@.len() < usize::MAX,
        ensures
            r.wf(),
            r.text() == source@,
            r.position() == 0,
            r.line() == 1,
            r.rest() == source@,
    {
        let chars = chars_of(source);
        proof {
            assert(chars@.subrange(0, 0) =~= Seq::<char>::empty());
            assert(chars@.subrange(0, chars@.len() as int) =~= chars@);
        }
        Scanner { source: chars, pos: 0, line: 1, keywords: Self::get_keywords() }
    }

    /// The reserved words, each with its kind.
    pub fn get_keywords() -> (r: Vec<(String, TokenType)>)
        ensures
            is_keyword_table(r@),
    {
        let mut keywords: Vec<(String, TokenType)> = Vec::new();
        keywords.push((String::from_str("or"), TokenType::Or));
        keywords.push((String::from_str("and"), TokenType::And));
        keywords.push((String::from_str("if"), TokenType::If));
        keywords.push((String::from_str("else"), TokenType::Else));
        keywords.push((String::from_str("var"), TokenType::Var));
        keywords.push((String::from_str("for"), TokenType::For));
        keywords.push((String::from_str("while"), TokenType::While));
        keywords.push((String::from_str("fun"), TokenType::Fun));
        keywords.push((String::from_str("class"), TokenType::Class));
        keywords.push((String::from_str("super"), TokenType::Super));
        keywords.push((String::from_str("this"), TokenType::This));
        keywords.push((String::from_str("return"), TokenType::Return));
        keywords.push((String::from_str("true"), TokenType::True));
        keywords.push((String::from_str("false"), TokenType::False));
        keywords.push((String::from_str("nil"), TokenType::Nil));
        keywords
    }

    /// Consumes one character.
    fn advance(&mut self) -> (c: char)
        requires
            old(self).wf(),
            old(self).pos < old(self).source@.len(),
        ensures
            final(self).wf(),
            final(self).source == old(self).source,
            final(self).keywords == old(self).keywords,
            final(self).pos == old(self).pos + 1,
            c == old(self).source@[old(self).pos as int],
    {
        let c = self.source[self.pos];
        proof {
            lemma_line_step(self.source@, self.pos as int);
        }
        if c == '\n' {
            self.line = self.line + 1;
        }
        self.pos = self.pos + 1;
        c
    }

    /// Consumes the run of characters of class `k` at the current position.
    fn advance_while(&mut self, k: CharClass)
        requires
            old(self).wf(),
        ensures
            final(self).wf(),
            final(self).source == old(self).source,
            final(self).keywords == old(self).keywords,
            final(self).pos == old(self).pos + run_len(old(self).source@, old(self).pos as int, k),
    {
        let ghost src = self.source@;
        let ghost start = self.pos as int;
        while self.pos < self.source.len() && class_contains(self.source[self.pos], k)
            invariant
                self.wf(),
                self.source == old(self).source,
                self.source@ == src,
                self.keywords == old(self).keywords,
                start <= self.pos,
                start + run_len(src, start, k) == self.pos + run_len(src, self.pos as int, k),
            decreases src.len() - self.pos,
        {
            self.advance();
        }
    }

    pub fn skip_whitespace(&mut self)
        requires
            old(self).wf(),
        ensures
            final(self).wf(),
            final(self).text() == old(self).text(),
            final(self).position() == old(self).position() + run_len(
                old(self).text(),
                old(self).position(),
                CharClass::White,
            ),
    {
        self.advance_while(CharClass::White);
    }

    /// A token of the given kind at the current line.
    pub fn simple_token(&self, token_type: TokenType) -> (r: Token)
        requires
            self.wf(),
        ensures
            r.token_type == token_type,
            r.line == line_at(self.text(), self.position()),
    {
        Token { token_type, line: self.line }
    }

    /// A one- or two-character operator whose first character was just read:
    /// the double kind when the next character is `=`, which it then takes.
    pub fn scan_operator(&mut self, token_type: TokenType, equality_token_type: TokenType) -> (r:
        Token)
        requires
            old(self).wf(),
        ensures
            final(self).wf(),
            final(self).text() == old(self).text(),
            Lexed::Tok(r@) == lex_operator(
                old(self).rest(),
                old(self).line(),
                token_type@,
                equality_token_type@,
            ).0,
            final(self).position() == old(self).position() + lex_operator(
                old(self).rest(),
                old(self).line(),
                token_type@,
                equality_token_type@,
            ).1,
            final(self).line() == old(self).line() + newlines(
                old(self).rest().subrange(0, final(self).position() - old(self).position()),
            ),
    {
        let ghost src = self.source@;
        let ghost a = self.pos as int;
        let ghost rest = self.rest();
        if self.pos < self.source.len() && self.source[self.pos] == '=' {
            let t = self.simple_token(equality_token_type);
            self.advance();
            proof {
                lemma_line_add(src, a, 1);
                assert(rest.subrange(0, 1) =~= src.subrange(a, a + 1));
            }
            t
        } else {
            proof {
                assert(rest.subrange(0, 0) =~= Seq::<char>::empty());
            }
            self.simple_token(token_type)
        }
    }

    /// Skips a comment when `ch`, just read, and the next character are `//`;
    /// says whether it did.
    pub fn skip_comments(&mut self, ch: char) -> (r: bool)
        requires
            old(self).wf(),
        ensures
            final(self).wf(),
            final(self).text() == old(self).text(),
            r == is_comment_start(ch, old(self).rest()),
            r ==> final(self).position() == old(self).position() + 1 + comment_len(
                old(self).rest(),
                1,
            ),
            !r ==> final(self).position() == old(self).position(),
            final(self).line() == old(self).line() + newlines(
                old(self).rest().subrange(0, final(self).position() - old(self).position()),
            ),
    {
        let ghost src = self.source@;
        let ghost a = self.pos as int;
        let ghost rest = self.rest();
        let line = self.line;
        if ch == '/' && self.pos < self.source.len() && self.source[self.pos] == '/' {
            self.advance();
            proof {
                lemma_run_shift(src, a, 1, CharClass::NotNewline);
            }
            self.advance_while(CharClass::NotNewline);
            if self.pos < self.source.len() {
                self.advance();
            }
            proof {
                lemma_line_add(src, a, self.pos - a);
                assert(rest.subrange(0, self.pos - a) =~= src.subrange(a, self.pos as int));
            }
            true
        } else {
            proof {
                assert(rest.subrange(0, 0) =~= Seq::<char>::empty());
            }
            false
        }
    }

    /// A string literal whose opening quote was just read.
    pub fn parse_string(&mut self) -> (r: ScannerResult<Token>)
        requires
            old(self).wf(),
        ensures
            final(self).wf(),
            final(self).text() == old(self).text(),
            lexed_of(r) == lex_string(old(self).rest(), old(self).line()).0,
            final(self).position() == old(self).position() + lex_string(old(self).rest(), old(self).line()).1,
            final(self).line() == old(self).line() + newlines(
                old(self).rest().subrange(0, final(self).position() - old(self).position()),
            ),
    {
        let ghost src = self.source@;
        let ghost a = self.pos as int;
        let ghost rest = self.rest();
        let line = self.line;
        let start = self.pos;
        proof {
            lemma_run_shift(src, a, 0, CharClass::NotQuote);
        }
        self.advance_while(CharClass::NotQuote);
        proof {
            lemma_line_add(src, a, self.pos - a);
            assert(rest.subrange(0, self.pos - a) =~= src.subrange(a, self.pos as int));
        }
        if self.pos < self.source.len() {
            let text = string_of_range(&self.source, start, self.pos);
            let t = self.simple_token(TokenType::LoxString(text));
            self.advance();
            proof {
                lemma_line_add(src, a, self.pos - a);
                assert(rest.subrange(0, self.pos - a) =~= src.subrange(a, self.pos as int));
            }
            Ok(t)
        } else {
            Err(ScannerError::UnterminatedString(line))
        }
    }

    /// A number whose first character `ch` was just read: `ch` and the run of
    /// letters, digits and dots that follows it, as a floating-point literal.
    pub fn parse_number(&mut self, ch: char) -> (r: ScannerResult<Token>)
        requires
            old(self).wf(),
        ensures
            final(self).wf(),
            final(self).text() == old(self).text(),
            lexed_of(r) == lex_number(ch, old(self).rest(), old(self).line()).0,
            final(self).position() == old(self).position() + lex_number(ch, old(self).rest(), old(self).line()).1,
            final(self).line() == old(self).line() + newlines(
                old(self).rest().subrange(0, final(self).position() - old(self).position()),
            ),
    {
        let ghost src = self.source@;
        let ghost a = self.pos as int;
        let ghost rest = self.rest();
        let line = self.line;
        let start = self.pos;
        proof {
            lemma_run_shift(src, a, 0, CharClass::NumberChar);
        }
        self.advance_while(CharClass::NumberChar);
        proof {
            lemma_line_add(src, a, self.pos - a);
            assert(rest.subrange(0, self.pos - a) =~= src.subrange(a, self.pos as int));
        }
        let mut text: Vec<char> = Vec::new();
        text.push(ch);
        push_range(&mut text, &self.source, start, self.pos);
        if is_valid_number(&text) {
            let canonical = string_of(&canonical_number(&text));
            Ok(Token::new(TokenType::Number(canonical), line))
        } else {
            Err(ScannerError::UnparseableDigit(string_of(&text), line))
        }
    }

    /// The kind of the keyword `word`, if it is one.
    fn keyword(&self, word: &String) -> (r: Option<TokenType>)
        requires
            self.wf(),
        ensures
            match r {
                Some(k) => keyword_of(word@) == Some(k@),
                None => keyword_of(word@) is None,
            },
    {
        let mut i: usize = 0;
        while i < self.keywords.len()
            invariant
                self.wf(),
                i <= self.keywords@.len(),
                lookup_from(keyword_table(), word@, 0) == lookup_from(
                    keyword_table(),
                    word@,
                    i as int,
                ),
            decreases self.keywords@.len() - i,
        {
            if self.keywords[i].0 == *word {
                return Some(self.keywords[i].1.duplicate());
            }
            proof {
                lemma_keyword_step(word@, i as int);
            }
            i = i + 1;
        }
        None
    }

    /// An identifier or keyword whose first character `ch` was just read: `ch`
    /// and the longest run of letters, digits and `_` that follows it.
    pub fn parse_identifier(&mut self, ch: char) -> (r: ScannerResult<Token>)
        requires
            old(self).wf(),
        ensures
            final(self).wf(),
            final(self).text() == old(self).text(),
            lexed_of(r) == lex_identifier(ch, old(self).rest(), old(self).line()).0,
            final(self).position() == old(self).position() + lex_identifier(ch, old(self).rest(), old(self).line()).1,
            final(self).line() == old(self).line() + newlines(
                old(self).rest().subrange(0, final(self).position() - old(self).position()),
            ),
    {
        let ghost src = self.source@;
        let ghost a = self.pos as int;
        let ghost rest = self.rest();
        let line = self.line;
        let start = self.pos;
        proof {
            lemma_run_shift(src, a, 0, CharClass::IdentChar);
        }
        self.advance_while(CharClass::IdentChar);
        proof {
            lemma_line_add(src, a, self.pos - a);
            assert(rest.subrange(0, self.pos - a) =~= src.subrange(a, self.pos as int));
        }
        let mut chars: Vec<char> = Vec::new();
        chars.push(ch);
        push_range(&mut chars, &self.source, start, self.pos);
        let text = string_of(&chars);
        match self.keyword(&text) {
            Some(kind) => Ok(Token::new(kind, line)),
            None => Ok(Token::new(TokenType::Identifier(text), line)),
        }
    }

    /// The token, or the lexical error, that starts with `ch`, just read.
    /// A `/` here is a `Slash`: comments are `skip_comments`' part.
    pub fn scan_token(&mut self, ch: char) -> (r: ScannerResult<Token>)
        requires
            old(self).wf(),
        ensures
            final(self).wf(),
            final(self).text() == old(self).text(),
            lexed_of(r) == lex_token(ch, old(self).rest(), old(self).line()).0,
            final(self).position() == old(self).position() + lex_token(ch, old(self).rest(), old(self).line()).1,
            final(self).line() == old(self).line() + newlines(
                old(self).rest().subrange(0, final(self).position() - old(self).position()),
            ),
    {
        let ghost rest = self.rest();
        let line = self.line;
        proof {
            assert(rest.subrange(0, 0) =~= Seq::<char>::empty());
        }
        let token = match ch {
            '(' => Token::new(TokenType::LeftParen, line),
            ')' => Token::new(TokenType::RightParen, line),
            '{' => Token::new(TokenType::LeftBrace, line),
            '}' => Token::new(TokenType::RightBrace, line),
            ',' => Token::new(TokenType::Comma, line),
            '.' => Token::new(TokenType::Dot, line),
            '-' => Token::new(TokenType::Minus, line),
            '+' => Token::new(TokenType::Plus, line),
            ';' => Token::new(TokenType::Semicolon, line),
            '*' => Token::new(TokenType::Star, line),
            '!' => self.scan_operator(TokenType::Bang, TokenType::BangEqual),
            '=' => self.scan_operator(TokenType::Equal, TokenType::EqualEqual),
            '<' => self.scan_operator(TokenType::Less, TokenType::LessEqual),
            '>' => self.scan_operator(TokenType::Greater, TokenType::GreaterEqual),
            '/' => Token::new(TokenType::Slash, line),
            '"' => {
                return self.parse_string();
            },
            _ => {
                if decimal_digit(ch) {
                    return self.parse_number(ch);
                } else if alphabetic(ch) || ch == '_' {
                    return self.parse_identifier(ch);
                } else {
                    return Err(ScannerError::UnknownCharacter(ch, line));
                }
            },
        };
        Ok(token)
    }

    /// Scans the rest of the source: the tokens, ending with `Eof`, when no
    /// lexical error occurs, else every lexical error, in source order.
    pub fn scan_tokens(&mut self) -> (r: Result<Vec<Token>, Vec<ScannerError>>)
        requires
            old(self).wf(),
        ensures
            outcome_view(r) == scan_result_from(old(self).text(), old(self).position()),
            final(self).wf(),
            final(self).text() == old(self).text(),
            final(self).position() == final(self).text().len(),
    {
        let ghost src = self.source@;
        let ghost start = self.pos as int;
        let mut tokens: Vec<Token> = Vec::new();
        let mut errors: Vec<ScannerError> = Vec::new();
        proof {
            lemma_scan_after_white(src, start);
            assert(token_views(tokens@) =~= Seq::<TokenView>::empty());
            assert(error_views(errors@) =~= Seq::<ScanErrorView>::empty());
        }
        self.skip_whitespace();
        while self.pos < self.source.len()
            invariant
                self.wf(),
                self.source@ == src,
                run_len(src, self.pos as int, CharClass::White) == 0,
                token_views(tokens@) + scan_from(src, self.pos as int).0 == scan_from(src, start).0,
                error_views(errors@) + scan_from(src, self.pos as int).1 == scan_from(src, start).1,
            decreases src.len() - self.pos,
        {
            let ghost p = self.pos as int;
            let ghost tv = token_views(tokens@);
            let ghost ev = error_views(errors@);
            let ch = self.advance();
            proof {
                lemma_line_step(src, p);
            }
            if !self.skip_comments(ch) {
                match self.scan_token(ch) {
                    Ok(t) => {
                        tokens.push(t);
                        assert(token_views(tokens@) =~= tv.push(t@));
                    },
                    Err(e) => {
                        errors.push(e);
                        assert(error_views(errors@) =~= ev.push(e@));
                    },
                }
            }
            let ghost q = self.pos as int;
            proof {
                assert(q == p + 1 + lex_at(src, p).1);
                lemma_scan_after_white(src, q);
            }
            self.skip_whitespace();
        }
        let eof = self.simple_token(TokenType::Eof);
        let ghost tv = token_views(tokens@);
        tokens.push(eof);
        proof {
            let tail = scan_from(src, self.pos as int);
            assert(tail.0 =~= seq![eof@]);
            assert(tail.1 =~= Seq::<ScanErrorView>::empty());
            assert(token_views(tokens@) =~= tv.push(eof@));
            assert(token_views(tokens@) =~= scan_from(src, start).0);
            assert(error_views(errors@) =~= scan_from(src, start).1);
        }
        if errors.len() == 0 {
            Ok(tokens)
        } else {
            Err(errors)
        }
    }
}

/// Scans all of `source`: its tokens, ending with one `Eof`, when it holds no
/// lexical error, else every lexical error, in source order.
pub fn scan_all(source: &str) -> (r: Result<Vec<Token>, Vec<ScannerError>>)
    requires
        source@.len() < usize::MAX,
    ensures
        outcome_view(r) == scan_result(source@),
{
    let mut scanner = Scanner::new(source);
    scanner.scan_tokens()
}

/// Scanning is deterministic: two scans of one source that meet `scan_all`'s
/// contract give the same tokens, or the same errors.
pub proof fn scan_is_deterministic(
    src: Seq<char>,
    r1: Result<Vec<Token>, Vec<ScannerError>>,
    r2: Result<Vec<Token>, Vec<ScannerError>>,
)
    requires
        outcome_view(r1) == scan_result(src),
        outcome_view(r2) == scan_result(src),
    ensures
        outcome_view(r1) == outcome_view(r2),
{
}

proof fn lemma_lookup_not_eof(w: Seq<char>, i: int)
    ensures
        lookup_from(keyword_table(), w, i) matches Some(k) ==> !(k is Eof),
    decreases keyword_table().len() - i,
{
    if 0 <= i < keyword_table().len() && keyword_table()[i].0 != w {
        lemma_lookup_not_eof(w, i + 1);
    }
}

proof fn lemma_lexeme_not_eof(src: Seq<char>, p: int)
    requires
        0 <= p < src.len(),
    ensures
        lex_at(src, p).0 matches Lexed::Tok(t) ==> !(t.kind is Eof),
{
    let rest = src.subrange(p + 1, src.len() as int);
    let n = run_len(rest, 0, CharClass::IdentChar);
    lemma_lookup_not_eof(seq![src[p]] + rest.subrange(0, n as int), 0);
}

/// Scanning from any position ends with exactly one `Eof` token, the last.
pub proof fn scan_ends_with_one_eof(src: Seq<char>, pos: int)
    ensures
        scan_from(src, pos).0.len() >= 1,
        scan_from(src, pos).0.last().kind is Eof,
        forall|i: int|
            0 <= i < scan_from(src, pos).0.len() - 1 ==> !(#[trigger] scan_from(src, pos).0[i].kind is Eof),
    decreases src.len() - pos,
{
    let p = pos + run_len(src, pos, CharClass::White);
    if pos < 0 || p >= src.len() {
    } else {
        let q = next_pos(src, p);
        scan_ends_with_one_eof(src, q);
        lemma_lexeme_not_eof(src, p);
        let ts = scan_from(src, q).0;
        match lex_at(src, p).0 {
            Lexed::Tok(t) => {
                assert(scan_from(src, pos).0 == seq![t] + ts);
                assert forall|i: int| 0 <= i < ts.len() ==> (seq![t] + ts)[i + 1] == ts[i] by {}
                assert forall|i: int| 0 <= i < scan_from(src, pos).0.len() - 1 implies !(
                #[trigger] scan_from(src, pos).0[i].kind is Eof) by {
                    if i > 0 {
                        assert((seq![t] + ts)[i] == ts[i - 1]);
                    }
                }
            },
            _ => {},
        }
    }
}

/// A scan that succeeds yields tokens that end with exactly one `Eof`.
pub proof fn scanned_tokens_end_with_one_eof(src: Seq<char>)
    ensures
        scan_result(src) matches Ok(ts) ==> ts.len() >= 1 && ts.last().kind is Eof && forall|i: int|
            0 <= i < ts.len() - 1 ==> !(#[trigger] ts[i].kind is Eof),
{
    scan_ends_with_one_eof(src, 0);
}

proof fn lemma_line_mono(src: Seq<char>, a: int, b: int)
    requires
        0 <= a <= b <= src.len(),
    ensures
        line_at(src, a) <= line_at(src, b),
    decreases b - a,
{
    if a < b {
        lemma_line_step(src, b - 1);
        lemma_line_mono(src, a, b - 1);
    }
}

proof fn lemma_lexeme_line(src: Seq<char>, p: int)
    requires
        0 <= p < src.len(),
    ensures
        lex_at(src, p).0 matches Lexed::Tok(t) ==> line_at(src, p) <= t.line <= line_at(
            src,
            next_pos(src, p),
        ),
{
    lemma_line_mono(src, p, next_pos(src, p));
    let rest = src.subrange(p + 1, src.len() as int);
    if src[p] == '"' {
        let n = run_len(rest, 0, CharClass::NotQuote);
        lemma_run_shift(src, p + 1, 0, CharClass::NotQuote);
        lemma_run_stops(src, p + 1, CharClass::NotQuote);
        if n < rest.len() {
            lemma_line_step(src, p);
            lemma_line_add(src, p + 1, n as int);
            assert(rest.subrange(0, n as int) =~= src.subrange(p + 1, p + 1 + n));
            lemma_line_mono(src, p + 1 + n, next_pos(src, p));
        }
    }
}

/// The tokens of a scan come in source order: their lines never decrease.
pub proof fn scan_lines_ascend(src: Seq<char>, pos: int)
    requires
        0 <= pos <= src.len(),
    ensures
        forall|i: int|
            0 <= i < scan_from(src, pos).0.len() ==> line_at(src, pos) <= (#[trigger] scan_from(
                src,
                pos,
            ).0[i]).line,
        forall|i: int, j: int|
            0 <= i < j < scan_from(src, pos).0.len() ==> (#[trigger] scan_from(src, pos).0[i]).line
                <= (#[trigger] scan_from(src, pos).0[j]).line,
    decreases src.len() - pos,
{
    let p = pos + run_len(src, pos, CharClass::White);
    lemma_run_stops(src, pos, CharClass::White);
    lemma_line_mono(src, pos, p);
    if p >= src.len() {
    } else {
        let q = next_pos(src, p);
        scan_lines_ascend(src, q);
        lemma_lexeme_line(src, p);
        lemma_line_mono(src, pos, q);
        let ts = scan_from(src, q).0;
        if let Lexed::Tok(t) = lex_at(src, p).0 {
            let all = seq![t] + ts;
            assert(scan_from(src, pos).0 == all);
            assert forall|i: int| 0 <= i < all.len() implies line_at(src, pos) <= (
            #[trigger] all[i]).line by {
                if i > 0 {
                    assert(all[i] == ts[i - 1]);
                }
            }
            assert forall|i: int, j: int| 0 <= i < j < all.len() implies (#[trigger] all[i]).line
                <= (#[trigger] all[j]).line by {
                assert(all[j] == ts[j - 1]);
                if i > 0 {
                    assert(all[i] == ts[i - 1]);
                }
            }
        }
    }
}

} // verus!
