//! The tokenizer: turns source text into a lazy, finite, non-restartable
//! sequence of lexical tokens with source locations.
//!
//! [`next_token_spec`] is the mathematical scanner; [`Tokenizer::next_token`]
//! produces exactly its result. Each produced token carries the position at
//! which its scanning finished, with positions counted one step per consumed
//! character (see [`crate::common::line_of`]). An error carries the position
//! at which scanning failed. A digit at the start of a statement is not a
//! token of the language: it is reported as an unexpected character (the
//! `Number` token kind is reserved and never produced).

use vstd::prelude::*;

use crate::common::{lemma_loc_bounds, FileLocation};
use crate::error::{Error, SpecError, TokenizingErrorKind};
use crate::text::{
    char_alphabetic, char_alphanumeric, char_whitespace, is_alphabetic_char, is_alphanumeric_char,
    is_whitespace_char,
};

verus! {

/// A lexical token: its text and the position where its scanning finished.
#[derive(Debug, Clone)]
pub struct Token {
    pub source: String,
    pub location: FileLocation,
}

/// The kinds of lexical tokens. `Number` is reserved and never produced.
#[derive(Debug, Clone)]
pub enum ConfigToken {
    OptionCommand(Token),
    Id(Token),
    Number(Token),
    Literal(Token),
    TemplateBlock(Token),
    NewLine,
    Eof,
}

/// The mathematical value of a token: its kind and text.
pub enum SpecTok {
    OptionCommand(Seq<char>),
    Id(Seq<char>),
    Number(Seq<char>),
    Literal(Seq<char>),
    TemplateBlock(Seq<char>),
    NewLine,
    Eof,
}

impl View for ConfigToken {
    type V = SpecTok;

    open spec fn view(&self) -> SpecTok {
        match self {
            ConfigToken::OptionCommand(t) => SpecTok::OptionCommand(t.source@),
            ConfigToken::Id(t) => SpecTok::Id(t.source@),
            ConfigToken::Number(t) => SpecTok::Number(t.source@),
            ConfigToken::Literal(t) => SpecTok::Literal(t.source@),
            ConfigToken::TemplateBlock(t) => SpecTok::TemplateBlock(t.source@),
            ConfigToken::NewLine => SpecTok::NewLine,
            ConfigToken::Eof => SpecTok::Eof,
        }
    }
}

/// The end of the run of characters satisfying `p` that starts at `i`.
pub open spec fn run_end(s: Seq<char>, i: int, p: spec_fn(char) -> bool) -> int
    decreases s.len() - i,
{
    if i < 0 || i >= s.len() {
        s.len() as int
    } else if p(s[i]) {
        run_end(s, i + 1, p)
    } else {
        i
    }
}

pub proof fn lemma_run_end(s: Seq<char>, i: int, p: spec_fn(char) -> bool)
    requires
        0 <= i <= s.len(),
    ensures
        i <= run_end(s, i, p) <= s.len(),
        forall|j: int| i <= j < run_end(s, i, p) ==> p(s[j]),
        run_end(s, i, p) < s.len() ==> !p(s[run_end(s, i, p)]),
    decreases s.len() - i,
{
    if i < s.len() && p(s[i]) {
        lemma_run_end(s, i + 1, p);
    }
}

/// Whitespace that is not a line feed: consumed silently between tokens.
pub open spec fn inline_ws_pred() -> spec_fn(char) -> bool {
    |c: char| char_whitespace(c) && c != '\n'
}

pub open spec fn alpha_pred() -> spec_fn(char) -> bool {
    |c: char| char_alphabetic(c)
}

pub open spec fn alnum_pred() -> spec_fn(char) -> bool {
    |c: char| char_alphanumeric(c)
}

pub open spec fn nl_pred() -> spec_fn(char) -> bool {
    |c: char| c == '\n'
}

/// Characters that keep a quoted span open: anything but the quote itself or
/// a line feed.
pub open spec fn lit_pred(q: char) -> spec_fn(char) -> bool {
    |c: char| c != q && c != '\n'
}

/// The index of the first `}` at brace depth 0, scanning from `i` with the
/// given starting depth; the length of `s` if there is none.
pub open spec fn block_end(s: Seq<char>, i: int, depth: int) -> int
    decreases s.len() - i,
{
    if i < 0 || i >= s.len() {
        s.len() as int
    } else if s[i] == '}' && depth == 0 {
        i
    } else {
        block_end(
            s,
            i + 1,
            if s[i] == '{' {
                depth + 1
            } else if s[i] == '}' {
                depth - 1
            } else {
                depth
            },
        )
    }
}

proof fn lemma_block_end(s: Seq<char>, i: int, depth: int)
    requires
        0 <= i <= s.len(),
    ensures
        i <= block_end(s, i, depth) <= s.len(),
        block_end(s, i, depth) < s.len() ==> s[block_end(s, i, depth)] == '}',
    decreases s.len() - i,
{
    if i < s.len() && !(s[i] == '}' && depth == 0) {
        lemma_block_end(
            s,
            i + 1,
            if s[i] == '{' {
                depth + 1
            } else if s[i] == '}' {
                depth - 1
            } else {
                depth
            },
        );
    }
}

/// Whether the span `[lo, hi)` of `s` holds a `{` that is not immediately
/// preceded, within the span, by a backslash.
pub open spec fn has_unescaped_brace(s: Seq<char>, lo: int, hi: int) -> bool {
    exists|j: int| lo <= j < hi && #[trigger] s[j] == '{' && (j == lo || s[j - 1] != '\\')
}

/// One step of the mathematical scanner: the token (or failure) found at
/// cursor `i`, and the cursor after it.
pub struct ScanStep {
    pub token: Result<SpecTok, TokenizingErrorKind>,
    pub next: int,
}

/// Scan a `#command` at `j` (where `s[j] == '#'`): the alphabetic run after
/// the `#` is the command name; an empty run is an error.
pub open spec fn scan_command(s: Seq<char>, j: int) -> ScanStep {
    let k = run_end(s, j + 1, alpha_pred());
    if k == j + 1 {
        ScanStep { token: Err(TokenizingErrorKind::ExpectedCommand), next: k }
    } else {
        ScanStep { token: Ok(SpecTok::OptionCommand(s.subrange(j + 1, k))), next: k }
    }
}

/// Scan a template block at `j` (where `s[j] == '{'`): a line feed right
/// after the opening brace is not content; the block runs to the first `}`
/// at brace depth 0.
pub open spec fn scan_block(s: Seq<char>, j: int) -> ScanStep {
    let start = if j + 1 < s.len() && s[j + 1] == '\n' {
        j + 2
    } else {
        j + 1
    };
    let e = block_end(s, start, 0);
    if e == s.len() {
        ScanStep { token: Err(TokenizingErrorKind::UnterminatedBlock), next: s.len() as int }
    } else {
        ScanStep { token: Ok(SpecTok::TemplateBlock(s.subrange(start, e))), next: e + 1 }
    }
}

/// Scan a quoted span at `j` (where `s[j]` is the quote): it runs to the
/// matching quote on the same line; a line feed or the end of the input
/// first is an error. A span holding an unescaped `{` is a template block,
/// otherwise a literal.
pub open spec fn scan_literal(s: Seq<char>, j: int) -> ScanStep {
    let q = s[j];
    let k = run_end(s, j + 1, lit_pred(q));
    if k == s.len() {
        ScanStep { token: Err(TokenizingErrorKind::UnterminatedString), next: s.len() as int }
    } else if s[k] == '\n' {
        ScanStep { token: Err(TokenizingErrorKind::NoMatchingQuotes), next: k }
    } else {
        let content = s.subrange(j + 1, k);
        if has_unescaped_brace(s, j + 1, k) {
            ScanStep { token: Ok(SpecTok::TemplateBlock(content)), next: k + 1 }
        } else {
            ScanStep { token: Ok(SpecTok::Literal(content)), next: k + 1 }
        }
    }
}

/// The token found at cursor `i`, after skipping inline whitespace, and the
/// cursor after it. The scanning rules, in priority order at the first
/// non-whitespace character: `#` begins a command, `{` a template block, a
/// quote a quoted span, a line feed a (collapsed) newline token, an
/// alphabetic character an identifier; anything else is an error.
pub open spec fn next_token_spec(s: Seq<char>, i: int) -> ScanStep {
    let j = run_end(s, i, inline_ws_pred());
    if j >= s.len() {
        ScanStep { token: Ok(SpecTok::Eof), next: s.len() as int }
    } else {
        let c = s[j];
        if c == '#' {
            scan_command(s, j)
        } else if c == '{' {
            scan_block(s, j)
        } else if c == '"' || c == '\'' {
            scan_literal(s, j)
        } else if c == '\n' {
            ScanStep { token: Ok(SpecTok::NewLine), next: run_end(s, j, nl_pred()) }
        } else if char_alphabetic(c) {
            let k = run_end(s, j + 1, alnum_pred());
            ScanStep { token: Ok(SpecTok::Id(s.subrange(j, k))), next: k }
        } else {
            ScanStep { token: Err(TokenizingErrorKind::UnexpectedChar(c)), next: j }
        }
    }
}

/// The scanner never stands still: it either consumes at least one character
/// or reports the end of the input.
pub proof fn lemma_scan_advances(s: Seq<char>, i: int)
    requires
        0 <= i <= s.len(),
    ensures
        i <= next_token_spec(s, i).next <= s.len(),
        next_token_spec(s, i).token != Ok::<SpecTok, TokenizingErrorKind>(SpecTok::Eof)
            ==> next_token_spec(s, i).next > i || (next_token_spec(s, i).token is Err),
        next_token_spec(s, i).token == Ok::<SpecTok, TokenizingErrorKind>(SpecTok::Eof)
            ==> next_token_spec(s, i).next == s.len(),
{
    let j = run_end(s, i, inline_ws_pred());
    lemma_run_end(s, i, inline_ws_pred());
    if j < s.len() {
        let c = s[j];
        if c == '#' {
            lemma_run_end(s, j + 1, alpha_pred());
        } else if c == '{' {
            let start = if j + 1 < s.len() && s[j + 1] == '\n' {
                j + 2
            } else {
                j + 1
            };
            if start <= s.len() {
                lemma_block_end(s, start, 0);
            }
        } else if c == '"' || c == '\'' {
            lemma_run_end(s, j + 1, lit_pred(c));
        } else if c == '\n' {
            lemma_run_end(s, j, nl_pred());
            assert(nl_pred()(s[j]));
        } else if char_alphabetic(c) {
            lemma_run_end(s, j + 1, alnum_pred());
        }
    }
}

/// The scanner never produces the reserved `Number` token kind.
pub proof fn lemma_scan_not_number(s: Seq<char>, i: int)
    ensures
        next_token_spec(s, i).token matches Ok(t) ==> !(t is Number),
{
}

/// Whether an executable token matches a scanned spec token whose scanning
/// finished at position `next` of `s`.
pub open spec fn token_matches(t: ConfigToken, st: SpecTok, s: Seq<char>, next: int) -> bool {
    t@ == st && match t {
        ConfigToken::OptionCommand(tok) => tok.location.is_loc_of(s, next),
        ConfigToken::Id(tok) => tok.location.is_loc_of(s, next),
        ConfigToken::Number(tok) => tok.location.is_loc_of(s, next),
        ConfigToken::Literal(tok) => tok.location.is_loc_of(s, next),
        ConfigToken::TemplateBlock(tok) => tok.location.is_loc_of(s, next),
        ConfigToken::NewLine => true,
        ConfigToken::Eof => true,
    }
}

/// Whether an executable error is the given lexical failure at position `at`
/// of `s`, for the document named `path`.
pub open spec fn tokenizing_error_matches(
    e: Error,
    path: Seq<char>,
    kind: TokenizingErrorKind,
    s: Seq<char>,
    at: int,
) -> bool {
    match e@ {
        SpecError::Tokenizing { path: p, location, kind: k } => p == path && k == kind
            && location.is_loc_of(s, at),
        _ => false,
    }
}

/// The full outcome of one [`Tokenizer::next_token`] call on `s` at cursor
/// `pos`: the result and the new cursor follow the mathematical scanner.
pub open spec fn next_token_ensures(
    s: Seq<char>,
    path: Seq<char>,
    pos: int,
    r: Result<ConfigToken, Error>,
    new_pos: int,
) -> bool {
    let step = next_token_spec(s, pos);
    new_pos == step.next && match step.token {
        Ok(st) => r is Ok && token_matches(r->Ok_0, st, s, step.next),
        Err(k) => r is Err && tokenizing_error_matches(r->Err_0, path, k, s, step.next),
    }
}

/// A cursor over source text. It is advanced by [`Tokenizer::next_token`]
/// and never rewound: a fresh `Tokenizer` must be built to scan again.
pub struct Tokenizer {
    pub pos: usize,
    pub location: FileLocation,
    pub path: String,
}

impl Tokenizer {
    /// The cursor is inside `s` and the tracked location is the location of
    /// the consumed prefix.
    pub open spec fn wf(self, s: Seq<char>) -> bool {
        self.pos <= s.len() && self.location.is_loc_of(s, self.pos as int)
    }

    /// A tokenizer at the start of a document; `path` names the document in
    /// error messages.
    pub fn new(path: String) -> (r: Self)
        ensures
            r.pos == 0,
            r.location.line == 1,
            r.location.column == 1,
            r.path@ == path@,
    {
        Tokenizer { pos: 0, location: FileLocation::new(), path }
    }

    /// Consume one character, keeping the location in step.
    fn advance(&mut self, source: &str)
        requires
            old(self).wf(source@),
            old(self).pos < source@.len(),
            source@.len() < usize::MAX,
        ensures
            final(self).pos == old(self).pos + 1,
            final(self).wf(source@),
            final(self).path == old(self).path,
    {
        proof {
            lemma_loc_bounds(source@, self.pos as int);
        }
        let c = source.get_char(self.pos);
        if c == '\n' {
            self.location.nl();
        } else {
            self.location.step();
        }
        self.pos = self.pos + 1;
    }

    /// Consume the run of inline whitespace at the cursor.
    fn skip_inline_ws(&mut self, source: &str)
        requires
            old(self).wf(source@),
            source@.len() < usize::MAX,
        ensures
            final(self).wf(source@),
            final(self).path == old(self).path,
            final(self).pos == run_end(source@, old(self).pos as int, inline_ws_pred()),
    {
        let ghost s = source@;
        proof {
            lemma_run_end(s, self.pos as int, inline_ws_pred());
        }
        let n = source.unicode_len();
        loop
            invariant
                s == source@,
                self.wf(s),
                self.path == old(self).path,
                n == s.len(),
                n < usize::MAX,
                old(self).pos <= self.pos,
                run_end(s, old(self).pos as int, inline_ws_pred()) == run_end(
                    s,
                    self.pos as int,
                    inline_ws_pred(),
                ),
            ensures
                self.wf(s),
                self.path == old(self).path,
                self.pos as int == run_end(s, old(self).pos as int, inline_ws_pred()),
            decreases n - self.pos,
        {
            if self.pos >= n {
                break ;
            }
            let c = source.get_char(self.pos);
            if !(is_whitespace_char(c) && c != '\n') {
                proof {
                    assert(!inline_ws_pred()(s[self.pos as int]));
                }
                break ;
            }
            proof {
                assert(inline_ws_pred()(s[self.pos as int]));
            }
            self.advance(source);
        }
    }

    /// Scan a `#command` token; the cursor stands on the `#`.
    fn scan_command_exec(&mut self, source: &str) -> (r: Result<ConfigToken, Error>)
        requires
            old(self).wf(source@),
            source@.len() < usize::MAX,
            old(self).pos < source@.len(),
            source@[old(self).pos as int] == '#',
        ensures
            final(self).wf(source@),
            final(self).path == old(self).path,
            ({
                let step = scan_command(source@, old(self).pos as int);
                final(self).pos == step.next && match step.token {
                    Ok(st) => r is Ok && token_matches(r->Ok_0, st, source@, step.next),
                    Err(k) => r is Err && tokenizing_error_matches(
                        r->Err_0,
                        old(self).path@,
                        k,
                        source@,
                        step.next,
                    ),
                }
            }),
    {
        let ghost s = source@;
        let ghost j = self.pos as int;
        let hash_pos = self.pos;
        let n = source.unicode_len();
        self.advance(source);
        proof {
            lemma_run_end(s, j + 1, alpha_pred());
        }
        loop
            invariant
                s == source@,
                self.wf(s),
                self.path == old(self).path,
                n == s.len(),
                n < usize::MAX,
                j + 1 <= self.pos as int <= s.len(),
                hash_pos == j,
                run_end(s, j + 1, alpha_pred()) == run_end(s, self.pos as int, alpha_pred()),
            ensures
                self.wf(s),
                self.path == old(self).path,
                self.pos as int == run_end(s, j + 1, alpha_pred()),
            decreases n - self.pos,
        {
            if self.pos >= n {
                break ;
            }
            let c = source.get_char(self.pos);
            if !is_alphabetic_char(c) {
                proof {
                    assert(!alpha_pred()(s[self.pos as int]));
                }
                break ;
            }
            proof {
                assert(alpha_pred()(s[self.pos as int]));
            }
            self.advance(source);
        }
        proof {
            assert(self.pos as int == run_end(s, j + 1, alpha_pred()));
        }
        if self.pos == hash_pos + 1 {
            Err(
                Error::tokenizing_error(
                    self.path.clone(),
                    self.location,
                    TokenizingErrorKind::ExpectedCommand,
                ),
            )
        } else {
            let text = source.substring_char(hash_pos + 1, self.pos);
            let token = Token { source: String::from_str(text), location: self.location };
            Ok(ConfigToken::OptionCommand(token))
        }
    }

    /// Scan an identifier token; the cursor stands on its first character.
    fn scan_id_exec(&mut self, source: &str) -> (r: Result<ConfigToken, Error>)
        requires
            old(self).wf(source@),
            source@.len() < usize::MAX,
            old(self).pos < source@.len(),
            char_alphabetic(source@[old(self).pos as int]),
        ensures
            final(self).wf(source@),
            final(self).path == old(self).path,
            ({
                let k = run_end(source@, old(self).pos as int + 1, alnum_pred());
                final(self).pos == k && r is Ok && token_matches(
                    r->Ok_0,
                    SpecTok::Id(source@.subrange(old(self).pos as int, k)),
                    source@,
                    k,
                )
            }),
    {
        let ghost s = source@;
        let ghost j = self.pos as int;
        let start = self.pos;
        let n = source.unicode_len();
        self.advance(source);
        proof {
            lemma_run_end(s, j + 1, alnum_pred());
        }
        loop
            invariant
                s == source@,
                self.wf(s),
                self.path == old(self).path,
                n == s.len(),
                n < usize::MAX,
                j + 1 <= self.pos as int <= s.len(),
                start == j,
                run_end(s, j + 1, alnum_pred()) == run_end(s, self.pos as int, alnum_pred()),
            ensures
                self.wf(s),
                self.path == old(self).path,
                self.pos as int == run_end(s, j + 1, alnum_pred()),
            decreases n - self.pos,
        {
            if self.pos >= n {
                break ;
            }
            let c = source.get_char(self.pos);
            if !is_alphanumeric_char(c) {
                proof {
                    assert(!alnum_pred()(s[self.pos as int]));
                }
                break ;
            }
            proof {
                assert(alnum_pred()(s[self.pos as int]));
            }
            self.advance(source);
        }
        let text = source.substring_char(start, self.pos);
        let token = Token { source: String::from_str(text), location: self.location };
        Ok(ConfigToken::Id(token))
    }

    /// Scan a quoted span; the cursor stands on the opening quote.
    fn scan_literal_exec(&mut self, source: &str) -> (r: Result<ConfigToken, Error>)
        requires
            old(self).wf(source@),
            source@.len() < usize::MAX,
            old(self).pos < source@.len(),
            source@[old(self).pos as int] == '"' || source@[old(self).pos as int] == '\'',
        ensures
            final(self).wf(source@),
            final(self).path == old(self).path,
            ({
                let step = scan_literal(source@, old(self).pos as int);
                final(self).pos == step.next && match step.token {
                    Ok(st) => r is Ok && token_matches(r->Ok_0, st, source@, step.next),
                    Err(k) => r is Err && tokenizing_error_matches(
                        r->Err_0,
                        old(self).path@,
                        k,
                        source@,
                        step.next,
                    ),
                }
            }),
    {
        let ghost s = source@;
        let ghost j = self.pos as int;
        let quote_pos = self.pos;
        let n = source.unicode_len();
        let q = source.get_char(self.pos);
        self.advance(source);
        proof {
            lemma_run_end(s, j + 1, lit_pred(q));
        }
        let mut is_template = false;
        loop
            invariant
                s == source@,
                self.wf(s),
                self.path == old(self).path,
                n == s.len(),
                n < usize::MAX,
                j + 1 <= self.pos as int <= s.len(),
                quote_pos == j,
                q == s[j],
                q == '"' || q == '\'',
                run_end(s, j + 1, lit_pred(q)) == run_end(s, self.pos as int, lit_pred(q)),
                is_template == has_unescaped_brace(s, j + 1, self.pos as int),
            ensures
                s == source@,
                self.wf(s),
                self.path == old(self).path,
                self.pos as int == run_end(s, j + 1, lit_pred(q)),
                is_template == has_unescaped_brace(s, j + 1, self.pos as int),
            decreases n - self.pos,
        {
            if self.pos >= n {
                break ;
            }
            let c = source.get_char(self.pos);
            if c == q || c == '\n' {
                proof {
                    assert(!lit_pred(q)(s[self.pos as int]));
                }
                break ;
            }
            if c == '{' {
                if self.pos == quote_pos + 1 {
                    is_template = true;
                } else {
                    let prev = source.get_char(self.pos - 1);
                    if prev != '\\' {
                        is_template = true;
                    }
                }
            }
            proof {
                assert(lit_pred(q)(s[self.pos as int]));
                let hi = self.pos as int;
                if s[hi] == '{' && (hi == j + 1 || s[hi - 1] != '\\') {
                    assert(has_unescaped_brace(s, j + 1, hi + 1));
                } else {
                    if has_unescaped_brace(s, j + 1, hi + 1) {
                        let w = choose|w: int|
                            j + 1 <= w < hi + 1 && #[trigger] s[w] == '{' && (w == j + 1 || s[w - 1]
                                != '\\');
                        assert(w < hi);
                        assert(has_unescaped_brace(s, j + 1, hi));
                    }
                    if has_unescaped_brace(s, j + 1, hi) {
                        assert(has_unescaped_brace(s, j + 1, hi + 1));
                    }
                }
            }
            self.advance(source);
        }
        let ghost k = self.pos as int;
        if self.pos >= n {
            return Err(
                Error::tokenizing_error(
                    self.path.clone(),
                    self.location,
                    TokenizingErrorKind::UnterminatedString,
                ),
            );
        }
        let c = source.get_char(self.pos);
        if c == '\n' {
            return Err(
                Error::tokenizing_error(
                    self.path.clone(),
                    self.location,
                    TokenizingErrorKind::NoMatchingQuotes,
                ),
            );
        }
        let text = source.substring_char(quote_pos + 1, self.pos);
        let owned = String::from_str(text);
        self.advance(source);
        let token = Token { source: owned, location: self.location };
        if is_template {
            Ok(ConfigToken::TemplateBlock(token))
        } else {
            Ok(ConfigToken::Literal(token))
        }
    }

    /// Scan a template block; the cursor stands on the opening brace.
    fn scan_block_exec(&mut self, source: &str) -> (r: Result<ConfigToken, Error>)
        requires
            old(self).wf(source@),
            source@.len() < usize::MAX,
            old(self).pos < source@.len(),
            source@[old(self).pos as int] == '{',
        ensures
            final(self).wf(source@),
            final(self).path == old(self).path,
            ({
                let step = scan_block(source@, old(self).pos as int);
                final(self).pos == step.next && match step.token {
                    Ok(st) => r is Ok && token_matches(r->Ok_0, st, source@, step.next),
                    Err(k) => r is Err && tokenizing_error_matches(
                        r->Err_0,
                        old(self).path@,
                        k,
                        source@,
                        step.next,
                    ),
                }
            }),
    {
        let ghost s = source@;
        let ghost j = self.pos as int;
        let n = source.unicode_len();
        self.advance(source);
        if self.pos < n {
            let c = source.get_char(self.pos);
            if c == '\n' {
                self.advance(source);
            }
        }
        let start = self.pos;
        let ghost st = start as int;
        proof {
            assert(st == if j + 1 < s.len() && s[j + 1] == '\n' {
                j + 2
            } else {
                j + 1
            });
            lemma_block_end(s, st, 0);
        }
        let mut depth: usize = 0;
        loop
            invariant
                s == source@,
                self.wf(s),
                self.path == old(self).path,
                n == s.len(),
                n < usize::MAX,
                st <= self.pos as int <= s.len(),
                start == st,
                depth as int <= self.pos as int - st,
                block_end(s, st, 0) == block_end(s, self.pos as int, depth as int),
            ensures
                s == source@,
                self.wf(s),
                self.path == old(self).path,
                block_end(s, st, 0) == block_end(s, self.pos as int, depth as int),
                self.pos as int == s.len() || (s[self.pos as int] == '}' && depth == 0),
            decreases n - self.pos,
        {
            if self.pos >= n {
                break ;
            }
            let c = source.get_char(self.pos);
            if c == '}' {
                if depth == 0 {
                    break ;
                }
                depth = depth - 1;
            } else if c == '{' {
                depth = depth + 1;
            }
            self.advance(source);
        }
        if self.pos >= n {
            return Err(
                Error::tokenizing_error(
                    self.path.clone(),
                    self.location,
                    TokenizingErrorKind::UnterminatedBlock,
                ),
            );
        }
        let text = source.substring_char(start, self.pos);
        let owned = String::from_str(text);
        self.advance(source);
        let token = Token { source: owned, location: self.location };
        Ok(ConfigToken::TemplateBlock(token))
    }

    /// Scan a run of one or more line feeds as a single newline token; the
    /// cursor stands on the first line feed.
    fn scan_newline_exec(&mut self, source: &str) -> (r: Result<ConfigToken, Error>)
        requires
            old(self).wf(source@),
            source@.len() < usize::MAX,
            old(self).pos < source@.len(),
            source@[old(self).pos as int] == '\n',
        ensures
            final(self).wf(source@),
            final(self).path == old(self).path,
            final(self).pos == run_end(source@, old(self).pos as int, nl_pred()),
            r is Ok && r->Ok_0@ == SpecTok::NewLine,
    {
        let ghost s = source@;
        let ghost j = self.pos as int;
        let n = source.unicode_len();
        proof {
            lemma_run_end(s, j, nl_pred());
        }
        loop
            invariant
                s == source@,
                self.wf(s),
                self.path == old(self).path,
                n == s.len(),
                n < usize::MAX,
                j <= self.pos as int <= s.len(),
                run_end(s, j, nl_pred()) == run_end(s, self.pos as int, nl_pred()),
            ensures
                self.wf(s),
                self.path == old(self).path,
                self.pos as int == run_end(s, j, nl_pred()),
            decreases n - self.pos,
        {
            if self.pos >= n {
                break ;
            }
            let c = source.get_char(self.pos);
            if c != '\n' {
                proof {
                    assert(!nl_pred()(s[self.pos as int]));
                }
                break ;
            }
            proof {
                assert(nl_pred()(s[self.pos as int]));
            }
            self.advance(source);
        }
        Ok(ConfigToken::NewLine)
    }

    /// Produce the next token of the document, or the failure that stops
    /// scanning. At the end of the input every further call yields `Eof`.
    pub fn next_token(&mut self, source: &str) -> (r: Result<ConfigToken, Error>)
        requires
            old(self).wf(source@),
            source@.len() < usize::MAX,
        ensures
            final(self).wf(source@),
            final(self).path == old(self).path,
            next_token_ensures(
                source@,
                old(self).path@,
                old(self).pos as int,
                r,
                final(self).pos as int,
            ),
    {
        let ghost s = source@;
        let ghost p0 = self.pos as int;
        self.skip_inline_ws(source);
        let n = source.unicode_len();
        if self.pos >= n {
            return Ok(ConfigToken::Eof);
        }
        let c = source.get_char(self.pos);
        if c == '#' {
            self.scan_command_exec(source)
        } else if c == '{' {
            self.scan_block_exec(source)
        } else if c == '"' || c == '\'' {
            self.scan_literal_exec(source)
        } else if c == '\n' {
            self.scan_newline_exec(source)
        } else if is_alphabetic_char(c) {
            self.scan_id_exec(source)
        } else {
            Err(
                Error::tokenizing_error(
                    self.path.clone(),
                    self.location,
                    TokenizingErrorKind::UnexpectedChar(c),
                ),
            )
        }
    }
}

} // verus!
