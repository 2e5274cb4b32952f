use vstd::prelude::*;

use crate::error::{LexerError, LexerErrorView};
use crate::token::{ColumnOffset, Keywords, Literals, Symbols, Token, TokenKind, TokenType, TokenView, Types};
use vstd::std_specs::convert::FromSpec;

verus! {

/// Where the scanner stands in a file: the 1-based line and column of the next character.
#[derive(Debug, PartialEq, Eq)]
pub struct LexerState {
    /// The current line number.
    pub line: usize,
    /// The current column number.
    pub column: usize,
}

impl LexerState {
    /// The state at the start of a file: line 1, column 1.
    pub fn new() -> (r: LexerState)
        ensures
            r.line == 1,
            r.column == 1,
    {
        LexerState { line: 1, column: 1 }
    }
}

/// `c` is an ASCII decimal digit.
pub open spec fn is_digit(c: char) -> bool {
    '0' as u32 <= c as u32 <= '9' as u32
}

/// `c` is an ASCII letter or an underscore: it starts a word.
pub open spec fn is_word_start(c: char) -> bool {
    ||| 'a' as u32 <= c as u32 <= 'z' as u32
    ||| 'A' as u32 <= c as u32 <= 'Z' as u32
    ||| c == '_'
}

/// `c` may continue a word.
pub open spec fn is_word_char(c: char) -> bool {
    is_word_start(c) || is_digit(c)
}

/// The symbol that the character `c` stands for, if any.
pub open spec fn symbol_of(c: char) -> Option<Symbols> {
    if c == '(' {
        Some(Symbols::OpenParen)
    } else if c == ')' {
        Some(Symbols::CloseParen)
    } else if c == '{' {
        Some(Symbols::OpenCurly)
    } else if c == '}' {
        Some(Symbols::CloseCurly)
    } else if c == ';' {
        Some(Symbols::SemiColon)
    } else {
        None
    }
}

/// The end of the longest run of characters satisfying `p` that starts at index `i` of `s`.
pub open spec fn run_end(s: Seq<char>, i: int, p: spec_fn(char) -> bool) -> int
    decreases s.len() - i,
{
    if 0 <= i < s.len() && p(s[i]) {
        run_end(s, i + 1, p)
    } else {
        i
    }
}

/// What a scanned word is: a keyword, a type name or an identifier.
pub open spec fn classify(text: Seq<char>) -> TokenKind {
    if text == "return"@ {
        TokenKind::Keyword(Keywords::Return)
    } else if text == "int"@ {
        TokenKind::Type(Types::Int)
    } else {
        TokenKind::Identifier(text)
    }
}

/// The tokens and the errors that scanning `s` from index `i` on gives, on line `line`,
/// where the character at index `k` stands in column `col + k`.
pub open spec fn scan(s: Seq<char>, i: int, line: nat, col: nat) -> (Seq<TokenView>, Seq<LexerErrorView>)
    decreases s.len() - i,
    via scan_decreases
{
    if i < 0 || i >= s.len() {
        (Seq::empty(), Seq::empty())
    } else {
        let c = s[i];
        let here = (col + i) as nat;
        if symbol_of(c) is Some {
            let rest = scan(s, i + 1, line, col);
            let t = TokenView { kind: TokenKind::Symbol(symbol_of(c)->0), line, column: here };
            (seq![t] + rest.0, rest.1)
        } else if c == ' ' {
            scan(s, i + 1, line, col)
        } else if is_word_start(c) {
            let j = word_end(s, i);
            let rest = scan(s, j, line, col);
            let t = TokenView { kind: classify(s.subrange(i, j)), line, column: here };
            (seq![t] + rest.0, rest.1)
        } else if is_digit(c) {
            let j = digits_end(s, i);
            let rest = scan(s, j, line, col);
            let t = TokenView {
                kind: TokenKind::IntegerLiteral(s.subrange(i, j)),
                line,
                column: here,
            };
            (seq![t] + rest.0, rest.1)
        } else {
            let rest = scan(s, i + 1, line, col);
            let e = LexerErrorView::UnknownCharacter {
                the_char: c,
                the_line: s,
                line,
                column: here,
            };
            (rest.0, seq![e] + rest.1)
        }
    }
}

#[via_fn]
proof fn scan_decreases(s: Seq<char>, i: int, line: nat, col: nat) {
    if 0 <= i < s.len() {
        lemma_run_end(s, i, |x: char| is_word_char(x));
        lemma_run_end(s, i, |x: char| is_digit(x));
    }
}

/// A run ends within the sequence, and past its start when its first character qualifies.
proof fn lemma_run_end(s: Seq<char>, i: int, p: spec_fn(char) -> bool)
    requires
        0 <= i <= s.len(),
    ensures
        i <= run_end(s, i, p) <= s.len(),
        i < s.len() && p(s[i]) ==> i < run_end(s, i, p),
        forall|k: int| i <= k < run_end(s, i, p) ==> p(#[trigger] s[k]),
        run_end(s, i, p) < s.len() ==> !p(s[run_end(s, i, p)]),
    decreases s.len() - i,
{
    if i < s.len() && p(s[i]) {
        lemma_run_end(s, i + 1, p);
    }
}

/// The end of the word that starts at index `i` of `s`.
pub open spec fn word_end(s: Seq<char>, i: int) -> int {
    run_end(s, i, |x: char| is_word_char(x))
}

/// The end of the run of digits that starts at index `i` of `s`.
pub open spec fn digits_end(s: Seq<char>, i: int) -> int {
    run_end(s, i, |x: char| is_digit(x))
}

/// `c` starts no token: it is not a symbol, a space, a letter, an underscore or a digit.
pub open spec fn is_unknown(c: char) -> bool {
    &&& symbol_of(c) is None
    &&& c != ' '
    &&& !is_word_start(c)
    &&& !is_digit(c)
}

/// A run that starts at or before `i` stops at `i` when the character there does not qualify.
proof fn lemma_run_stops(s: Seq<char>, j: int, i: int, p: spec_fn(char) -> bool)
    requires
        0 <= j <= i < s.len(),
        !p(s[i]),
    ensures
        run_end(s, j, p) <= i,
    decreases i - j,
{
    if j < i && p(s[j]) {
        lemma_run_stops(s, j + 1, i, p);
    }
}

/// The tokens found from index `k` on all stand at column `col + k` or further right.
proof fn lemma_scan_columns(s: Seq<char>, k: int, line: nat, col: nat)
    requires
        0 <= k,
    ensures
        forall|t: int|
            0 <= t < scan(s, k, line, col).0.len() ==> #[trigger] scan(s, k, line, col).0[t].column
                >= col + k,
    decreases s.len() - k,
{
    if k < s.len() {
        let c = s[k];
        if symbol_of(c) is Some || c == ' ' || is_unknown(c) {
            lemma_scan_columns(s, k + 1, line, col);
        } else if is_word_start(c) {
            lemma_run_end(s, k, |x: char| is_word_char(x));
            lemma_scan_columns(s, word_end(s, k), line, col);
        } else {
            lemma_run_end(s, k, |x: char| is_digit(x));
            lemma_scan_columns(s, digits_end(s, k), line, col);
        }
    }
}

/// The character at index `j` of `s`, as a value of its own.
proof fn char_at(s: Seq<char>, j: int) -> (c: char)
    requires
        0 <= j < s.len(),
    ensures
        c == s[j],
{
    s[j]
}

/// Scanning from any index `j` up to an unknown character at `i` reports that character.
proof fn lemma_unknown_reported_from(s: Seq<char>, j: int, i: int, c_i: char, line: nat, col: nat)
    requires
        0 <= j <= i < s.len(),
        s[i] == c_i,
        is_unknown(c_i),
    ensures
        scan(s, j, line, col).1.contains(
            LexerErrorView::UnknownCharacter { the_char: c_i, the_line: s, line, column: (col + i) as nat },
        ),
    decreases i - j,
{
    let r = scan(s, j, line, col);
    let e = LexerErrorView::UnknownCharacter { the_char: c_i, the_line: s, line, column: (col + i) as nat };
    let c = s[j];
    if j == i {
        let rest = scan(s, j + 1, line, col);
        assert(r.1 == seq![e] + rest.1);
        assert(r.1[0] == e);
    } else {
        let next = if is_word_start(c) && symbol_of(c) is None && c != ' ' {
            lemma_run_stops(s, j, i, |x: char| is_word_char(x));
            word_end(s, j)
        } else if is_digit(c) && symbol_of(c) is None && c != ' ' && !is_word_start(c) {
            lemma_run_stops(s, j, i, |x: char| is_digit(x));
            digits_end(s, j)
        } else {
            j + 1
        };
        lemma_run_end(s, j, |x: char| is_word_char(x));
        lemma_run_end(s, j, |x: char| is_digit(x));
        lemma_unknown_reported_from(s, next, i, c_i, line, col);
        let rest = scan(s, next, line, col);
        let k = choose|k: int| 0 <= k < rest.1.len() && rest.1[k] == e;
        if is_unknown(c) {
            let c_j = char_at(s, j);
            let d = LexerErrorView::UnknownCharacter { the_char: c_j, the_line: s, line, column: (col + j) as nat };
            assert(r.1 == seq![d] + rest.1);
            assert(r.1[k + 1] == e);
        } else {
            assert(r.1 == rest.1);
            assert(r.1[k] == e);
        }
    }
}

/// Scanning from any index `j` up to an unknown character at `i` puts no token at its column.
proof fn lemma_unknown_no_token_from(s: Seq<char>, j: int, i: int, line: nat, col: nat)
    requires
        0 <= j <= i < s.len(),
        is_unknown(s[i]),
    ensures
        forall|t: int|
            0 <= t < scan(s, j, line, col).0.len() ==> #[trigger] scan(s, j, line, col).0[t].column
                != col + i,
    decreases i - j,
{
    let c = s[j];
    if j == i {
        lemma_scan_columns(s, j + 1, line, col);
    } else if symbol_of(c) is Some || c == ' ' || is_unknown(c) {
        lemma_unknown_no_token_from(s, j + 1, i, line, col);
    } else if is_word_start(c) {
        lemma_run_end(s, j, |x: char| is_word_char(x));
        lemma_run_stops(s, j, i, |x: char| is_word_char(x));
        lemma_unknown_no_token_from(s, word_end(s, j), i, line, col);
    } else {
        lemma_run_end(s, j, |x: char| is_digit(x));
        lemma_run_stops(s, j, i, |x: char| is_digit(x));
        lemma_unknown_no_token_from(s, digits_end(s, j), i, line, col);
    }
}

/// A character that starts no token is reported as an `UnknownCharacter` error with its own
/// line and column, and no token is made at its column.
pub proof fn law_unknown_character_reported(s: Seq<char>, i: int, line: nat, col: nat)
    requires
        0 <= i < s.len(),
        is_unknown(s[i]),
    ensures
        scan(s, 0, line, col).1.contains(
            LexerErrorView::UnknownCharacter { the_char: s[i], the_line: s, line, column: (col + i) as nat },
        ),
        forall|t: int|
            0 <= t < scan(s, 0, line, col).0.len() ==> #[trigger] scan(s, 0, line, col).0[t].column
                != col + i,
{
    lemma_unknown_reported_from(s, 0, i, s[i], line, col);
    lemma_unknown_no_token_from(s, 0, i, line, col);
}

/// The tokens found from index `k` on stand in strictly increasing columns, all on `line`.
proof fn lemma_scan_ordered(s: Seq<char>, k: int, line: nat, col: nat)
    requires
        0 <= k,
    ensures
        forall|a: int, b: int|
            0 <= a < b < scan(s, k, line, col).0.len() ==> #[trigger] scan(s, k, line, col).0[a].column
                < #[trigger] scan(s, k, line, col).0[b].column,
        forall|a: int|
            0 <= a < scan(s, k, line, col).0.len() ==> #[trigger] scan(s, k, line, col).0[a].line == line,
    decreases s.len() - k,
{
    if k < s.len() {
        let c = s[k];
        let next = if symbol_of(c) is Some || c == ' ' || is_unknown(c) {
            k + 1
        } else if is_word_start(c) {
            lemma_run_end(s, k, |x: char| is_word_char(x));
            word_end(s, k)
        } else {
            lemma_run_end(s, k, |x: char| is_digit(x));
            digits_end(s, k)
        };
        lemma_scan_ordered(s, next, line, col);
        lemma_scan_columns(s, next, line, col);
        let here = scan(s, k, line, col).0;
        let rest = scan(s, next, line, col).0;
        if here.len() != rest.len() {
            assert(here == seq![here[0]] + rest);
            assert forall|a: int, b: int| 0 <= a < b < here.len() implies #[trigger] here[a].column
                < #[trigger] here[b].column by {
                assert(here[b] == rest[b - 1]);
                if a > 0 {
                    assert(here[a] == rest[a - 1]);
                }
            }
            assert forall|a: int| 0 <= a < here.len() implies #[trigger] here[a].line == line by {
                if a > 0 {
                    assert(here[a] == rest[a - 1]);
                }
            }
        }
    }
}

/// Within a line, the tokens come in the order of their columns, strictly, and all carry
/// the line's number.
pub proof fn law_tokens_in_order(s: Seq<char>, line: nat, col: nat)
    ensures
        forall|a: int, b: int|
            0 <= a < b < scan(s, 0, line, col).0.len() ==> #[trigger] scan(s, 0, line, col).0[a].column
                < #[trigger] scan(s, 0, line, col).0[b].column,
        forall|a: int|
            0 <= a < scan(s, 0, line, col).0.len() ==> #[trigger] scan(s, 0, line, col).0[a].line == line,
{
    lemma_scan_ordered(s, 0, line, col);
}

/// How a token is written in source text.
pub open spec fn spelling(k: TokenKind) -> Seq<char> {
    match k {
        TokenKind::IntegerLiteral(text) => text,
        TokenKind::Identifier(text) => text,
        TokenKind::Keyword(Keywords::Return) => "return"@,
        TokenKind::Type(Types::Int) => "int"@,
        TokenKind::Symbol(Symbols::OpenParen) => seq!['('],
        TokenKind::Symbol(Symbols::CloseParen) => seq![')'],
        TokenKind::Symbol(Symbols::OpenCurly) => seq!['{'],
        TokenKind::Symbol(Symbols::CloseCurly) => seq!['}'],
        TokenKind::Symbol(Symbols::SemiColon) => seq![';'],
    }
}

/// A token that its spelling gives back: a literal's text is digits, an identifier's text
/// is a word that is not a keyword or a type name.
pub open spec fn writable(k: TokenKind) -> bool {
    match k {
        TokenKind::IntegerLiteral(text) => text.len() > 0 && forall|j: int|
            0 <= j < text.len() ==> is_digit(#[trigger] text[j]),
        TokenKind::Identifier(text) => {
            &&& text.len() > 0
            &&& is_word_start(text[0])
            &&& forall|j: int| 0 <= j < text.len() ==> is_word_char(#[trigger] text[j])
            &&& text != "return"@
            &&& text != "int"@
        },
        _ => true,
    }
}

/// The tokens `ks` written one after another, each followed by a space.
pub open spec fn spelled(ks: Seq<TokenKind>) -> Seq<char>
    decreases ks.len(),
{
    if ks.len() == 0 {
        Seq::empty()
    } else {
        spelling(ks[0]) + seq![' '] + spelled(ks.drop_first())
    }
}

/// The kinds of scanned tokens.
pub open spec fn kinds_of(ts: Seq<TokenView>) -> Seq<TokenKind> {
    ts.map_values(|t: TokenView| t.kind)
}

/// A run whose characters all qualify and which is followed by one that does not ends there.
proof fn lemma_run_to(s: Seq<char>, i: int, n: int, p: spec_fn(char) -> bool)
    requires
        0 <= i,
        0 <= n,
        i + n < s.len(),
        forall|j: int| 0 <= j < n ==> p(#[trigger] s[i + j]),
        !p(s[i + n]),
    ensures
        run_end(s, i, p) == i + n,
    decreases n,
{
    if n > 0 {
        assert(p(s[i + 0]));
        assert forall|j: int| 0 <= j < n - 1 implies p(#[trigger] s[(i + 1) + j]) by {
            assert(p(s[i + (j + 1)]));
        }
        lemma_run_to(s, i + 1, n - 1, p);
    }
}

/// Writable tokens, spelled out with a space after each, scan back into the same kinds and
/// no errors.
pub proof fn lemma_scan_spelled(s: Seq<char>, i: int, ks: Seq<TokenKind>, line: nat, col: nat)
    requires
        0 <= i <= s.len(),
        s.subrange(i, s.len() as int) == spelled(ks),
        forall|j: int| 0 <= j < ks.len() ==> writable(#[trigger] ks[j]),
    ensures
        scan(s, i, line, col).1.len() == 0,
        kinds_of(scan(s, i, line, col).0) == ks,
    decreases ks.len(),
{
    reveal_strlit("return");
    reveal_strlit("int");
    if ks.len() == 0 {
        assert(s.subrange(i, s.len() as int).len() == 0);
        assert(kinds_of(scan(s, i, line, col).0) =~= ks);
    } else {
        let k = ks[0];
        let w = spelling(k);
        let n = w.len() as int;
        let rest = ks.drop_first();
        let tail = s.subrange(i, s.len() as int);
        assert(tail == w + seq![' '] + spelled(rest));
        assert(forall|j: int| 0 <= j < n ==> #[trigger] s[i + j] == w[j]) by {
            assert forall|j: int| 0 <= j < n implies #[trigger] s[i + j] == w[j] by {
                assert(tail[j] == s[i + j]);
                assert((w + seq![' '] + spelled(rest))[j] == w[j]);
            }
        }
        assert(s[i + n] == ' ') by {
            assert(tail[n] == s[i + n]);
            assert((w + seq![' '] + spelled(rest))[n] == ' ');
        }
        assert(s.subrange(i + n + 1, s.len() as int) =~= spelled(rest)) by {
            assert forall|j: int| 0 <= j < spelled(rest).len() implies s.subrange(
                i + n + 1,
                s.len() as int,
            )[j] == spelled(rest)[j] by {
                assert(tail[n + 1 + j] == s[i + n + 1 + j]);
                assert((w + seq![' '] + spelled(rest))[n + 1 + j] == spelled(rest)[j]);
            }
        }
        assert forall|j: int| 0 <= j < rest.len() implies writable(#[trigger] rest[j]) by {
            assert(writable(ks[j + 1]));
        }
        lemma_scan_spelled(s, i + n + 1, rest, line, col);
        assert(n > 0);
        assert(s[i + 0] == w[0]);
        assert(s[i] == w[0]);
        let after = scan(s, i + n + 1, line, col);
        assert(scan(s, i + n, line, col) == after);
        match k {
            TokenKind::Symbol(sym) => {
                assert(n == 1);
                assert(symbol_of(s[i]) == Some(sym));
            },
            TokenKind::IntegerLiteral(text) => {
                assert(!is_word_start(s[i]));
                assert forall|j: int| 0 <= j < n implies is_digit(#[trigger] s[i + j]) by {
                    assert(s[i + j] == text[j]);
                }
                lemma_run_to(s, i, n, |x: char| is_digit(x));
                assert(s.subrange(i, i + n) =~= w);
            },
            _ => {
                assert forall|j: int| 0 <= j < n implies is_word_char(#[trigger] s[i + j]) by {
                    assert(s[i + j] == w[j]);
                }
                lemma_run_to(s, i, n, |x: char| is_word_char(x));
                assert(s.subrange(i, i + n) =~= w);
            },
        }
        let here = scan(s, i, line, col);
        assert(here.1 == after.1);
        assert(kinds_of(here.0) =~= seq![k] + kinds_of(after.0));
        assert(seq![k] + rest =~= ks);
    }
}

/// The views of a sequence of tokens.
pub open spec fn token_views(ts: Seq<Token>) -> Seq<TokenView> {
    ts.map_values(|t: Token| t@)
}

/// The views of a sequence of lexer errors.
pub open spec fn error_views(es: Seq<LexerError>) -> Seq<LexerErrorView> {
    es.map_values(|e: LexerError| e@)
}

fn is_digit_char(c: char) -> (r: bool)
    ensures
        r == is_digit(c),
{
    '0' as u32 <= c as u32 && c as u32 <= '9' as u32
}

fn starts_word(c: char) -> (r: bool)
    ensures
        r == is_word_start(c),
{
    ('a' as u32 <= c as u32 && c as u32 <= 'z' as u32) || ('A' as u32 <= c as u32 && c as u32
        <= 'Z' as u32) || c == '_'
}

fn continues_word(c: char) -> (r: bool)
    ensures
        r == is_word_char(c),
{
    starts_word(c) || is_digit_char(c)
}

/// The characters of `s`, in order.
fn chars_of(s: &str) -> (r: Vec<char>)
    ensures
        r@ == s@,
{
    let n = s.unicode_len();
    let mut r: Vec<char> = Vec::new();
    let mut i: usize = 0;
    while i < n
        invariant
            n == s@.len(),
            i <= n,
            r@ == s@.subrange(0, i as int),
        decreases n - i,
    {
        r.push(s.get_char(i));
        i = i + 1;
    }
    assert(r@ =~= s@);
    r
}

/// Whether two texts are the same sequence of characters.
pub(crate) fn same_text(a: &str, b: &str) -> (r: bool)
    ensures
        r == (a@ == b@),
{
    let n = a.unicode_len();
    if n != b.unicode_len() {
        return false;
    }
    let mut i: usize = 0;
    while i < n
        invariant
            n == a@.len(),
            n == b@.len(),
            i <= n,
            a@.subrange(0, i as int) =~= b@.subrange(0, i as int),
        decreases n - i,
    {
        if a.get_char(i) != b.get_char(i) {
            return false;
        }
        assert(a@.subrange(0, i + 1) =~= a@.subrange(0, i as int).push(a@[i as int]));
        assert(b@.subrange(0, i + 1) =~= b@.subrange(0, i as int).push(b@[i as int]));
        i = i + 1;
    }
    assert(a@ =~= a@.subrange(0, n as int));
    assert(b@ =~= b@.subrange(0, n as int));
    true
}

/// Appends a token of the given kind at the current position, and moves one column on.
pub fn push_inc_col<T>(tokens: &mut Vec<Token>, state: &mut LexerState, token_type: T)
    where
        TokenType: From<T>,
    requires
        <TokenType as FromSpec<T>>::obeys_from_spec(),
        old(state).column < usize::MAX,
    ensures
        final(tokens)@ == old(tokens)@.push(
            Token {
                token_type: <TokenType as FromSpec<T>>::from_spec(token_type),
                line: old(state).line,
                column: old(state).column,
            },
        ),
        final(state).line == old(state).line,
        final(state).column == old(state).column + 1,
{
    tokens.push(Token::new(token_type, state.line, state.column));
    state.column = state.column + 1;
}

/// Appends a token of the given kind that ends just before the current column: it starts
/// as many columns back as its text spans. The position does not move.
pub fn push_col_offset<T>(tokens: &mut Vec<Token>, state: &mut LexerState, token_type: T)
    where
        TokenType: From<T>,
    requires
        <TokenType as FromSpec<T>>::obeys_from_spec(),
        old(state).column >= <TokenType as FromSpec<T>>::from_spec(token_type).col_offset(),
    ensures
        final(tokens)@ == old(tokens)@.push(
            Token {
                token_type: <TokenType as FromSpec<T>>::from_spec(token_type),
                line: old(state).line,
                column: (old(state).column - <TokenType as FromSpec<T>>::from_spec(
                    token_type,
                ).col_offset()) as usize,
            },
        ),
        *final(state) == *old(state),
{
    let t = TokenType::from(token_type);
    let offset = t.to_col_offset();
    tokens.push(Token { token_type: t, line: state.line, column: state.column - offset });
}

/// Appends the token of a scanned word that ends just before the current column.
fn push_word(tokens: &mut Vec<Token>, state: &mut LexerState, text: String)
    requires
        old(state).column >= text@.len(),
    ensures
        final(tokens)@.len() == old(tokens)@.len() + 1,
        final(tokens)@.subrange(0, old(tokens)@.len() as int) == old(tokens)@,
        final(tokens)@.last()@ == (TokenView {
            kind: classify(text@),
            line: old(state).line as nat,
            column: (old(state).column - text@.len()) as nat,
        }),
        *final(state) == *old(state),
{
    proof {
        reveal_strlit("return");
        reveal_strlit("int");
    }
    if same_text(text.as_str(), "return") {
        push_col_offset(tokens, state, Keywords::Return);
    } else if same_text(text.as_str(), "int") {
        push_col_offset(tokens, state, Types::Int);
    } else {
        let offset = text.as_str().unicode_len();
        tokens.push(
            Token { token_type: TokenType::SomeName(text), line: state.line, column: state.column - offset },
        );
    }
    assert(final(tokens)@.subrange(0, old(tokens)@.len() as int) =~= old(tokens)@);
}

/// The error for the character `c`, found in `line_text` at the position that `state` gives.
fn unknown_character(c: char, line_text: &str, state: &LexerState) -> (r: LexerError)
    ensures
        r@ == (LexerErrorView::UnknownCharacter {
            the_char: c,
            the_line: line_text@,
            line: state.line as nat,
            column: state.column as nat,
        }),
{
    LexerError::UnknownCharacter {
        the_char: c,
        the_line: line_text.to_owned(),
        line: state.line,
        column: state.column,
    }
}

/// Scans one line of source text, `content`, whose first character stands at the position
/// that `state` gives. The tokens found are appended to `tokens`, in order. A character that
/// starts no token is an error; scanning goes on past it, and all such errors of the line are
/// returned together. Afterwards `state` points at the start of the next line.
pub fn tokenize(content: &str, tokens: &mut Vec<Token>, state: &mut LexerState) -> (r: Result<
    (),
    Vec<LexerError>,
>)
    requires
        old(state).line < usize::MAX,
        old(state).column + content@.len() <= usize::MAX,
    ensures
        ({
            let scanned = scan(content@, 0, old(state).line as nat, old(state).column as nat);
            &&& old(tokens)@.len() <= final(tokens)@.len()
            &&& final(tokens)@.subrange(0, old(tokens)@.len() as int) == old(tokens)@
            &&& token_views(final(tokens)@.subrange(old(tokens)@.len() as int, final(tokens)@.len() as int))
                == scanned.0
            &&& match r {
                Ok(_) => scanned.1.len() == 0,
                Err(errors) => scanned.1.len() > 0 && error_views(errors@) == scanned.1,
            }
        }),
        final(state).line == old(state).line + 1,
        final(state).column == 1,
{
    let ghost s = content@;
    let ghost line = old(state).line as nat;
    let ghost col = old(state).column as nat;
    let ghost n0 = old(tokens)@.len() as int;
    let chars = chars_of(content);
    let n = chars.len();
    let mut errors: Vec<LexerError> = Vec::new();
    let mut i: usize = 0;
    while i < n
        invariant
            chars@ == s,
            n == s.len(),
            s == content@,
            i <= n,
            line == state.line,
            line < usize::MAX,
            col + n <= usize::MAX,
            state.column == col + i,
            0 <= n0 <= tokens@.len(),
            tokens@.subrange(0, n0) == old(tokens)@,
            token_views(tokens@.subrange(n0, tokens@.len() as int)) + scan(s, i as int, line, col).0
                == scan(s, 0, line, col).0,
            error_views(errors@) + scan(s, i as int, line, col).1 == scan(s, 0, line, col).1,
        decreases n - i,
    {
        let ghost before = tokens@;
        let ghost errors_before = errors@;
        let c = chars[i];
        let ghost next = scan(s, i as int, line, col);
        if c == '(' || c == ')' || c == '{' || c == '}' || c == ';' {
            let symbol = if c == '(' {
                Symbols::OpenParen
            } else if c == ')' {
                Symbols::CloseParen
            } else if c == '{' {
                Symbols::OpenCurly
            } else if c == '}' {
                Symbols::CloseCurly
            } else {
                Symbols::SemiColon
            };
            push_inc_col(tokens, state, symbol);
            i = i + 1;
            assert(tokens@ == before.push(tokens@.last()));
            assert(tokens@.subrange(n0, tokens@.len() as int) =~= before.subrange(n0, before.len() as int).push(tokens@.last()));
        } else if c == ' ' {
            state.column = state.column + 1;
            i = i + 1;
        } else if starts_word(c) {
            let start = i;
            proof {
                lemma_run_end(s, i as int, |x: char| is_word_char(x));
            }
            while i < n && continues_word(chars[i])
                invariant
                    chars@ == s,
                    n == s.len(),
                    start <= i <= n,
                    state.line == line,
                    state.column == col + i,
                    col + n <= usize::MAX,
                    word_end(s, start as int) == word_end(s, i as int),
                decreases n - i,
            {
                i = i + 1;
                state.column = state.column + 1;
            }
            let text = content.substring_char(start, i).to_owned();
            push_word(tokens, state, text);
            assert(tokens@.subrange(n0, tokens@.len() as int) =~= before.subrange(n0, before.len() as int).push(tokens@.last()));
        } else if is_digit_char(c) {
            let start = i;
            proof {
                lemma_run_end(s, i as int, |x: char| is_digit(x));
            }
            while i < n && is_digit_char(chars[i])
                invariant
                    chars@ == s,
                    n == s.len(),
                    start <= i <= n,
                    state.line == line,
                    state.column == col + i,
                    col + n <= usize::MAX,
                    digits_end(s, start as int) == digits_end(s, i as int),
                decreases n - i,
            {
                i = i + 1;
                state.column = state.column + 1;
            }
            let text = content.substring_char(start, i).to_owned();
            push_col_offset(tokens, state, Literals::Integer(text));
            assert(tokens@.subrange(n0, tokens@.len() as int) =~= before.subrange(n0, before.len() as int).push(tokens@.last()));
        } else {
            errors.push(unknown_character(c, content, state));
            state.column = state.column + 1;
            i = i + 1;
            assert(errors@ =~= errors_before.push(errors@.last()));
        }
    }
    state.line = state.line + 1;
    state.column = 1;
    if errors.len() == 0 {
        Ok(())
    } else {
        Err(errors)
    }
}

} // verus!
