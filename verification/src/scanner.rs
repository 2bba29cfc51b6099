//! The lexer. `sp_scan` gives the exact token that starts at a given source
//! position and how many characters it spans; `sp_tokens` gives the whole
//! stream, each token carrying the 1-based line on which it ends, closed by
//! an end-of-input token. `tokenize` computes exactly that stream.
use vstd::prelude::*;

use crate::num::{is_digit_char, some_or_zero, bits_of_decimal};
use crate::text::{chars_of, string_from_chars};
use crate::token::{ScanError, SpToken, SpTokenKind, Token, TokenKind, sp_is_whitespace};

verus! {

/// ASCII whitespace, as `char::is_ascii_whitespace` defines it.
pub open spec fn is_space_char(c: char) -> bool {
    c == ' ' || c == '\t' || c == '\n' || c == '\r' || c == '\u{0c}'
}

pub open spec fn is_ident_start_char(c: char) -> bool {
    ('a' <= c && c <= 'z') || ('A' <= c && c <= 'Z') || c == '_'
}

/// Whether `c` is alphanumeric in the sense of Unicode: an alphabetic
/// character or one with a numeric general category.
pub uninterp spec fn unicode_alphanumeric(c: char) -> bool;

/// Relies on `char::is_alphanumeric`: a fixed table keyed on the character
/// alone. A newline is neither alphabetic nor numeric.
#[verifier::external_body]
fn exec_unicode_alphanumeric(c: char) -> (r: bool)
    ensures
        r == unicode_alphanumeric(c),
        c == '\n' ==> !r,
{
    c.is_alphanumeric()
}

/// Characters that may continue an identifier.
pub open spec fn is_ident_char(c: char) -> bool {
    unicode_alphanumeric(c) || c == '_'
}

pub open spec fn run_space_len(s: Seq<char>, i: int) -> nat
    decreases s.len() - i,
    when 0 <= i <= s.len()
{
    if i < s.len() && is_space_char(s[i]) {
        1 + run_space_len(s, i + 1)
    } else {
        0
    }
}

pub open spec fn run_ident_len(s: Seq<char>, i: int) -> nat
    decreases s.len() - i,
    when 0 <= i <= s.len()
{
    if i < s.len() && is_ident_char(s[i]) {
        1 + run_ident_len(s, i + 1)
    } else {
        0
    }
}

pub open spec fn run_digit_len(s: Seq<char>, i: int) -> nat
    decreases s.len() - i,
    when 0 <= i <= s.len()
{
    if i < s.len() && is_digit_char(s[i]) {
        1 + run_digit_len(s, i + 1)
    } else {
        0
    }
}

pub open spec fn run_comment_len(s: Seq<char>, i: int) -> nat
    decreases s.len() - i,
    when 0 <= i <= s.len()
{
    if i < s.len() && s[i] != '\n' {
        1 + run_comment_len(s, i + 1)
    } else {
        0
    }
}

pub open spec fn run_string_len(s: Seq<char>, i: int) -> nat
    decreases s.len() - i,
    when 0 <= i <= s.len()
{
    if i < s.len() && s[i] != '"' {
        1 + run_string_len(s, i + 1)
    } else {
        0
    }
}

/// How many newlines lie strictly before position `i`.
pub open spec fn newlines_upto(s: Seq<char>, i: int) -> nat
    decreases i,
    when 0 <= i <= s.len()
{
    if 0 < i <= s.len() {
        newlines_upto(s, i - 1) + (if s[i - 1] == '\n' {
            1nat
        } else {
            0nat
        })
    } else {
        0
    }
}

/// The 1-based line number of position `i`.
pub open spec fn line_at(s: Seq<char>, i: int) -> nat {
    1 + newlines_upto(s, i)
}

pub proof fn lemma_newlines_le(s: Seq<char>, i: int)
    requires
        0 <= i <= s.len(),
    ensures
        newlines_upto(s, i) <= i,
    decreases i,
{
    if i > 0 {
        lemma_newlines_le(s, i - 1);
    }
}

/// The keyword token of a word, if it is a reserved word.
pub open spec fn keyword_of(s: Seq<char>) -> Option<SpTokenKind> {
    if s == "and"@ {
        Some(SpTokenKind::And)
    } else if s == "class"@ {
        Some(SpTokenKind::Class)
    } else if s == "else"@ {
        Some(SpTokenKind::Else)
    } else if s == "false"@ {
        Some(SpTokenKind::False)
    } else if s == "for"@ {
        Some(SpTokenKind::For)
    } else if s == "fun"@ {
        Some(SpTokenKind::Fun)
    } else if s == "if"@ {
        Some(SpTokenKind::If)
    } else if s == "nil"@ {
        Some(SpTokenKind::Nil)
    } else if s == "or"@ {
        Some(SpTokenKind::Or)
    } else if s == "print"@ {
        Some(SpTokenKind::Print)
    } else if s == "return"@ {
        Some(SpTokenKind::Return)
    } else if s == "super"@ {
        Some(SpTokenKind::Super)
    } else if s == "this"@ {
        Some(SpTokenKind::This)
    } else if s == "true"@ {
        Some(SpTokenKind::True)
    } else if s == "var"@ {
        Some(SpTokenKind::Var)
    } else if s == "while"@ {
        Some(SpTokenKind::While)
    } else {
        None
    }
}

pub struct SpScanStep {
    pub kind: SpTokenKind,
    pub consumed: int,
}

/// The token starting at position `i` (which must hold a character): its
/// kind and how many characters it spans. Whitespace runs and comments are
/// tokens here too; `sp_tokens` drops them from the stream.
pub open spec fn sp_scan(s: Seq<char>, i: int) -> SpScanStep
    recommends
        0 <= i < s.len(),
{
    let c = s[i];
    if is_space_char(c) {
        SpScanStep { kind: SpTokenKind::Whitespace, consumed: (1 + run_space_len(s, i + 1)) as int }
    } else if c == '/' {
        if i + 1 < s.len() && s[i + 1] == '/' {
            SpScanStep { kind: SpTokenKind::Comment, consumed: (1 + run_comment_len(s, i + 1)) as int }
        } else {
            SpScanStep { kind: SpTokenKind::Slash, consumed: 1 }
        }
    } else if is_ident_start_char(c) {
        let n = (1 + run_ident_len(s, i + 1)) as int;
        let text = s.subrange(i, i + n);
        match keyword_of(text) {
            Some(k) => SpScanStep { kind: k, consumed: n },
            None => SpScanStep { kind: SpTokenKind::Identifier(text), consumed: n },
        }
    } else if is_digit_char(c) {
        let d = run_digit_len(s, i) as int;
        let n = if i + d + 1 < s.len() && s[i + d] == '.' && is_digit_char(s[i + d + 1]) {
            d + 1 + run_digit_len(s, i + d + 1)
        } else {
            d
        };
        let text = s.subrange(i, i + n);
        SpScanStep {
            kind: SpTokenKind::Number(some_or_zero(bits_of_decimal(text)), text),
            consumed: n,
        }
    } else if c == '(' {
        SpScanStep { kind: SpTokenKind::LeftParen, consumed: 1 }
    } else if c == ')' {
        SpScanStep { kind: SpTokenKind::RightParen, consumed: 1 }
    } else if c == '{' {
        SpScanStep { kind: SpTokenKind::LeftBrace, consumed: 1 }
    } else if c == '}' {
        SpScanStep { kind: SpTokenKind::RightBrace, consumed: 1 }
    } else if c == ',' {
        SpScanStep { kind: SpTokenKind::Comma, consumed: 1 }
    } else if c == ';' {
        SpScanStep { kind: SpTokenKind::Semicolon, consumed: 1 }
    } else if c == '.' {
        SpScanStep { kind: SpTokenKind::Dot, consumed: 1 }
    } else if c == '-' {
        SpScanStep { kind: SpTokenKind::Minus, consumed: 1 }
    } else if c == '+' {
        SpScanStep { kind: SpTokenKind::Plus, consumed: 1 }
    } else if c == '*' {
        SpScanStep { kind: SpTokenKind::Star, consumed: 1 }
    } else if c == '!' {
        if i + 1 < s.len() && s[i + 1] == '=' {
            SpScanStep { kind: SpTokenKind::BangEqual, consumed: 2 }
        } else {
            SpScanStep { kind: SpTokenKind::Bang, consumed: 1 }
        }
    } else if c == '=' {
        if i + 1 < s.len() && s[i + 1] == '=' {
            SpScanStep { kind: SpTokenKind::EqualEqual, consumed: 2 }
        } else {
            SpScanStep { kind: SpTokenKind::Equal, consumed: 1 }
        }
    } else if c == '>' {
        if i + 1 < s.len() && s[i + 1] == '=' {
            SpScanStep { kind: SpTokenKind::GreaterEqual, consumed: 2 }
        } else {
            SpScanStep { kind: SpTokenKind::Greater, consumed: 1 }
        }
    } else if c == '<' {
        if i + 1 < s.len() && s[i + 1] == '=' {
            SpScanStep { kind: SpTokenKind::LessEqual, consumed: 2 }
        } else {
            SpScanStep { kind: SpTokenKind::Less, consumed: 1 }
        }
    } else if c == '"' {
        let q = run_string_len(s, i + 1) as int;
        if i + 1 + q < s.len() {
            SpScanStep { kind: SpTokenKind::Str(s.subrange(i + 1, i + 1 + q)), consumed: q + 2 }
        } else {
            SpScanStep {
                kind: SpTokenKind::Error(ScanError::UnterminatedString),
                consumed: s.len() - i,
            }
        }
    } else {
        SpScanStep { kind: SpTokenKind::Error(ScanError::UnexpectedChar(c)), consumed: 1 }
    }
}

/// The span of the token at `i`, clamped into the remaining input; the
/// clamp is the identity, and makes termination of `sp_tokens` plain.
pub open spec fn sp_consumed(s: Seq<char>, i: int) -> int {
    let n = sp_scan(s, i).consumed;
    if n < 1 {
        1
    } else if n > s.len() - i {
        s.len() - i
    } else {
        n
    }
}

/// The token stream from position `i` on: every non-whitespace,
/// non-comment token in order, each with the line its span ends on, closed
/// by an end-of-input token.
pub open spec fn sp_tokens(s: Seq<char>, i: int) -> Seq<SpToken>
    decreases s.len() - i,
    when 0 <= i <= s.len()
{
    if i >= s.len() {
        seq![SpToken { kind: SpTokenKind::Eof, line: line_at(s, i) }]
    } else {
        let st = sp_scan(s, i);
        let j = i + sp_consumed(s, i);
        let rest = sp_tokens(s, j);
        if sp_is_whitespace(st.kind) {
            rest
        } else {
            seq![SpToken { kind: st.kind, line: line_at(s, j) }] + rest
        }
    }
}

/// The position each token of `sp_tokens` ends at, aligned with the
/// stream; the end-of-input token ends at the end of the source.
pub open spec fn sp_token_ends(s: Seq<char>, i: int) -> Seq<int>
    decreases s.len() - i,
    when 0 <= i <= s.len()
{
    if i >= s.len() {
        seq![i]
    } else {
        let st = sp_scan(s, i);
        let j = i + sp_consumed(s, i);
        let rest = sp_token_ends(s, j);
        if sp_is_whitespace(st.kind) {
            rest
        } else {
            seq![j] + rest
        }
    }
}

/// Every token of the stream carries the 1-based line of the source
/// position its text ends at.
pub proof fn lemma_token_lines_are_end_lines(s: Seq<char>, i: int)
    requires
        0 <= i <= s.len(),
    ensures
        sp_token_ends(s, i).len() == sp_tokens(s, i).len(),
        forall|k: int|
            0 <= k < sp_tokens(s, i).len() ==> (#[trigger] sp_tokens(s, i)[k]).line == line_at(
                s,
                sp_token_ends(s, i)[k],
            ),
    decreases s.len() - i,
{
    if i < s.len() {
        let j = i + sp_consumed(s, i);
        lemma_token_lines_are_end_lines(s, j);
    }
}

fn exec_is_space(c: char) -> (r: bool)
    ensures
        r == is_space_char(c),
{
    c == ' ' || c == '\t' || c == '\n' || c == '\r' || c == '\u{0c}'
}

fn exec_is_ident_start(c: char) -> (r: bool)
    ensures
        r == is_ident_start_char(c),
{
    ('a' <= c && c <= 'z') || ('A' <= c && c <= 'Z') || c == '_'
}

fn exec_is_ident_char(c: char) -> (r: bool)
    ensures
        r == is_ident_char(c),
{
    exec_unicode_alphanumeric(c) || c == '_'
}

fn exec_is_digit(c: char) -> (r: bool)
    ensures
        r == is_digit_char(c),
{
    '0' <= c && c <= '9'
}

fn run_space(src: &Vec<char>, i: usize) -> (r: usize)
    requires
        i <= src.len(),
    ensures
        r as int == run_space_len(src@, i as int),
        i + r <= src.len(),
    decreases src.len() - i,
{
    if i < src.len() && exec_is_space(src[i]) {
        1 + run_space(src, i + 1)
    } else {
        0
    }
}

fn run_ident(src: &Vec<char>, i: usize) -> (r: usize)
    requires
        i <= src.len(),
    ensures
        r as int == run_ident_len(src@, i as int),
        i + r <= src.len(),
    decreases src.len() - i,
{
    if i < src.len() && exec_is_ident_char(src[i]) {
        1 + run_ident(src, i + 1)
    } else {
        0
    }
}

fn run_digit(src: &Vec<char>, i: usize) -> (r: usize)
    requires
        i <= src.len(),
    ensures
        r as int == run_digit_len(src@, i as int),
        i + r <= src.len(),
    decreases src.len() - i,
{
    if i < src.len() && exec_is_digit(src[i]) {
        1 + run_digit(src, i + 1)
    } else {
        0
    }
}

fn run_comment(src: &Vec<char>, i: usize) -> (r: usize)
    requires
        i <= src.len(),
    ensures
        r as int == run_comment_len(src@, i as int),
        i + r <= src.len(),
    decreases src.len() - i,
{
    if i < src.len() && src[i] != '\n' {
        1 + run_comment(src, i + 1)
    } else {
        0
    }
}

fn run_string(src: &Vec<char>, i: usize) -> (r: usize)
    requires
        i <= src.len(),
    ensures
        r as int == run_string_len(src@, i as int),
        i + r <= src.len(),
    decreases src.len() - i,
{
    if i < src.len() && src[i] != '"' {
        1 + run_string(src, i + 1)
    } else {
        0
    }
}

fn count_newlines(src: &Vec<char>, i: usize, j: usize) -> (r: u64)
    requires
        i <= j <= src.len(),
        src@.len() < 0xffff_ffff_ffff_ffff,
    ensures
        r as int == newlines_upto(src@, j as int) - newlines_upto(src@, i as int),
        r <= j - i,
    decreases j - i,
{
    if i < j {
        let rest = count_newlines(src, i + 1, j);
        if src[i] == '\n' {
            rest + 1
        } else {
            rest
        }
    } else {
        0
    }
}

fn copy_range(src: &Vec<char>, a: usize, b: usize) -> (r: Vec<char>)
    requires
        a <= b <= src.len(),
    ensures
        r@ == src@.subrange(a as int, b as int),
{
    let mut out: Vec<char> = Vec::new();
    let mut k: usize = a;
    while k < b
        invariant
            a <= k <= b <= src.len(),
            out@ =~= src@.subrange(a as int, k as int),
        decreases b - k,
    {
        out.push(src[k]);
        assert(out@ =~= src@.subrange(a as int, k + 1 as int));
        k = k + 1;
    }
    assert(out@ =~= src@.subrange(a as int, b as int));
    out
}

fn keyword_token(text: &String) -> (r: Option<TokenKind>)
    ensures
        match keyword_of(text@) {
            Some(k) => r is Some && r->0@ == k,
            None => r is None,
        },
{
    if *text == "and".to_owned() {
        Some(TokenKind::And)
    } else if *text == "class".to_owned() {
        Some(TokenKind::Class)
    } else if *text == "else".to_owned() {
        Some(TokenKind::Else)
    } else if *text == "false".to_owned() {
        Some(TokenKind::False)
    } else if *text == "for".to_owned() {
        Some(TokenKind::For)
    } else if *text == "fun".to_owned() {
        Some(TokenKind::Fun)
    } else if *text == "if".to_owned() {
        Some(TokenKind::If)
    } else if *text == "nil".to_owned() {
        Some(TokenKind::Nil)
    } else if *text == "or".to_owned() {
        Some(TokenKind::Or)
    } else if *text == "print".to_owned() {
        Some(TokenKind::Print)
    } else if *text == "return".to_owned() {
        Some(TokenKind::Return)
    } else if *text == "super".to_owned() {
        Some(TokenKind::Super)
    } else if *text == "this".to_owned() {
        Some(TokenKind::This)
    } else if *text == "true".to_owned() {
        Some(TokenKind::True)
    } else if *text == "var".to_owned() {
        Some(TokenKind::Var)
    } else if *text == "while".to_owned() {
        Some(TokenKind::While)
    } else {
        None
    }
}

fn scan_token(src: &Vec<char>, i: usize) -> (r: (TokenKind, usize))
    requires
        i < src.len(),
    ensures
        r.0@ == sp_scan(src@, i as int).kind,
        r.1 as int == sp_scan(src@, i as int).consumed,
        1 <= r.1,
        i + r.1 <= src.len(),
{
    let c = src[i];
    if exec_is_space(c) {
        (TokenKind::Whitespace, 1 + run_space(src, i + 1))
    } else if c == '/' {
        if i + 1 < src.len() && src[i + 1] == '/' {
            (TokenKind::Comment, 1 + run_comment(src, i + 1))
        } else {
            (TokenKind::Slash, 1)
        }
    } else if exec_is_ident_start(c) {
        let n = 1 + run_ident(src, i + 1);
        let text = string_from_chars(&copy_range(src, i, i + n));
        match keyword_token(&text) {
            Some(k) => (k, n),
            None => (TokenKind::Identifier(text), n),
        }
    } else if exec_is_digit(c) {
        let d = run_digit(src, i);
        let dotted = i + d < src.len() && src[i + d] == '.' && i + d + 1 < src.len()
            && exec_is_digit(src[i + d + 1]);
        let n = if dotted {
            d + 1 + run_digit(src, i + d + 1)
        } else {
            d
        };
        assert(d >= 1);
        let text = string_from_chars(&copy_range(src, i, i + n));
        let bits = match crate::num::exec_bits_of_decimal(text.as_str()) {
            Some(b) => b,
            None => 0,
        };
        (TokenKind::Number(bits, text), n)
    } else if c == '(' {
        (TokenKind::LeftParen, 1)
    } else if c == ')' {
        (TokenKind::RightParen, 1)
    } else if c == '{' {
        (TokenKind::LeftBrace, 1)
    } else if c == '}' {
        (TokenKind::RightBrace, 1)
    } else if c == ',' {
        (TokenKind::Comma, 1)
    } else if c == ';' {
        (TokenKind::Semicolon, 1)
    } else if c == '.' {
        (TokenKind::Dot, 1)
    } else if c == '-' {
        (TokenKind::Minus, 1)
    } else if c == '+' {
        (TokenKind::Plus, 1)
    } else if c == '*' {
        (TokenKind::Star, 1)
    } else if c == '!' {
        if i + 1 < src.len() && src[i + 1] == '=' {
            (TokenKind::BangEqual, 2)
        } else {
            (TokenKind::Bang, 1)
        }
    } else if c == '=' {
        if i + 1 < src.len() && src[i + 1] == '=' {
            (TokenKind::EqualEqual, 2)
        } else {
            (TokenKind::Equal, 1)
        }
    } else if c == '>' {
        if i + 1 < src.len() && src[i + 1] == '=' {
            (TokenKind::GreaterEqual, 2)
        } else {
            (TokenKind::Greater, 1)
        }
    } else if c == '<' {
        if i + 1 < src.len() && src[i + 1] == '=' {
            (TokenKind::LessEqual, 2)
        } else {
            (TokenKind::Less, 1)
        }
    } else if c == '"' {
        let q = run_string(src, i + 1);
        if i + 1 + q < src.len() {
            let content = string_from_chars(&copy_range(src, i + 1, i + 1 + q));
            (TokenKind::Str(content), q + 2)
        } else {
            (TokenKind::Error(ScanError::UnterminatedString), src.len() - i)
        }
    } else {
        (TokenKind::Error(ScanError::UnexpectedChar(c)), 1)
    }
}

/// Lex the whole source into its token stream.
pub fn tokenize(source: &str) -> (r: Vec<Token>)
    requires
        source@.len() < 0xffff_ffff_ffff_ffff,
    ensures
        r.deep_view() == sp_tokens(source@, 0),
{
    let src = chars_of(source);
    let mut out: Vec<Token> = Vec::new();
    let mut i: usize = 0;
    let mut line: u64 = 1;
    while i < src.len()
        invariant
            i <= src.len(),
            src@ == source@,
            src@.len() < 0xffff_ffff_ffff_ffff,
            line as nat == line_at(src@, i as int),
            sp_tokens(src@, 0) =~= out.deep_view() + sp_tokens(src@, i as int),
        decreases src.len() - i,
    {
        let (kind, consumed) = scan_token(&src, i);
        let j = i + consumed;
        proof {
            lemma_newlines_le(src@, j as int);
        }
        let nl = count_newlines(&src, i, j);
        line = line + nl;
        let keep = match kind {
            TokenKind::Whitespace | TokenKind::Comment => false,
            _ => true,
        };
        if keep {
            out.push(Token::new(kind, line));
        }
        proof {
            assert(sp_tokens(src@, 0) =~= out.deep_view() + sp_tokens(src@, j as int));
        }
        i = j;
    }
    out.push(Token::new(TokenKind::Eof, line));
    proof {
        assert(out.deep_view() =~= sp_tokens(src@, 0));
    }
    out
}

} // verus!
