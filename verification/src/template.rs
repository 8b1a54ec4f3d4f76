//! Compiled templates and their execution.
//!
//! A template body compiles to a sequence of tokens: raw text, a key
//! reference `{key}`, or an indexed key reference `{key.chars}`. A backslash
//! escapes exactly the next character, which suppresses the special meaning
//! of a `{` that follows it; key references run to the first `}` with no
//! brace nesting. Execution writes bytes to a buffer and never fails: an
//! unknown key or index is reported as a [`Warning`] and skipped.

use vstd::prelude::*;
use vstd::utf8::encode_utf8;

use crate::common::{rename_spec, RenamingScheme};
use crate::indexable::{
    full_repr, index_repr, warnings_view, CharIndex, IndexableVariable, SpecIndexable, SpecWarning,
    VariableMap, Warning,
};
use crate::material::{argb_hex, pairs_view, scheme_entries, MateyArgb, MateyScheme};
use crate::text::{is_whitespace_char, char_whitespace, push_str_bytes, extend_bytes, str_eq};
use crate::tokenizer::{lemma_run_end, run_end};

verus! {

/// One token of a compiled template.
#[derive(Debug, Clone)]
pub enum TemplateToken {
    /// Text written verbatim.
    RawString(String),
    /// A key reference, written as the key's full representation.
    Key(String),
    /// A key reference with index characters, each selecting a part of the
    /// key's value.
    IndexedKey(String, String),
}

/// The mathematical value of a [`TemplateToken`].
pub enum SpecTemplateToken {
    RawString(Seq<char>),
    Key(Seq<char>),
    IndexedKey(Seq<char>, Seq<char>),
}

impl View for TemplateToken {
    type V = SpecTemplateToken;

    open spec fn view(&self) -> SpecTemplateToken {
        match self {
            TemplateToken::RawString(s) => SpecTemplateToken::RawString(s@),
            TemplateToken::Key(k) => SpecTemplateToken::Key(k@),
            TemplateToken::IndexedKey(k, i) => SpecTemplateToken::IndexedKey(k@, i@),
        }
    }
}

/// A compiled template: an ordered sequence of tokens. Stateless and
/// reusable; it can be executed against a variable map or a color scheme.
#[derive(Debug, Clone)]
pub struct Template {
    pub expr: Vec<TemplateToken>,
}

impl View for Template {
    type V = Seq<SpecTemplateToken>;

    open spec fn view(&self) -> Seq<SpecTemplateToken> {
        self.expr@.map_values(|t: TemplateToken| t@)
    }
}

pub open spec fn ws_pred() -> spec_fn(char) -> bool {
    |c: char| char_whitespace(c)
}

pub open spec fn not_char_pred(target: char) -> spec_fn(char) -> bool {
    |c: char| c != target
}

/// Characters that continue a raw-text run: anything but `{` or a backslash.
pub open spec fn raw_pred() -> spec_fn(char) -> bool {
    |c: char| c != '{' && c != '\\'
}

/// The end of `s` with trailing whitespace removed, scanning left from `j`.
pub open spec fn trim_end_idx(s: Seq<char>, j: int) -> int
    decreases j,
{
    if j <= 0 {
        0
    } else if char_whitespace(s[j - 1]) {
        trim_end_idx(s, j - 1)
    } else {
        j
    }
}

/// `s` with surrounding whitespace removed.
pub open spec fn trim_spec(s: Seq<char>) -> Seq<char> {
    let a = run_end(s, 0, ws_pred());
    let b = trim_end_idx(s, s.len() as int);
    if a >= b {
        Seq::empty()
    } else {
        s.subrange(a, b)
    }
}

/// The token a key reference's trimmed content stands for: split at the
/// first `.` into key and index characters, or the whole content as the key.
pub open spec fn key_token(t: Seq<char>) -> SpecTemplateToken {
    let d = run_end(t, 0, not_char_pred('.'));
    if d == t.len() {
        SpecTemplateToken::Key(t)
    } else {
        SpecTemplateToken::IndexedKey(t.subrange(0, d), t.subrange(d + 1, t.len() as int))
    }
}

/// The tokens that compiling `s` from index `i` yields. `escaped` holds when
/// the previous character was a backslash that has not yet been consumed by
/// a character.
pub open spec fn compile_from(s: Seq<char>, i: int, escaped: bool) -> Seq<SpecTemplateToken>
    decreases s.len() - i,
    via compile_from_decreases
{
    if i < 0 || i >= s.len() {
        Seq::empty()
    } else if s[i] == '{' && !escaped {
        let close = run_end(s, i + 1, not_char_pred('}'));
        let tok = key_token(trim_spec(s.subrange(i + 1, close)));
        let next = if close == s.len() {
            close
        } else {
            close + 1
        };
        seq![tok] + compile_from(s, next, false)
    } else if s[i] == '\\' {
        compile_from(s, i + 1, true)
    } else {
        let e = run_end(s, i + 1, raw_pred());
        seq![SpecTemplateToken::RawString(s.subrange(i, e))] + compile_from(s, e, false)
    }
}

#[via_fn]
proof fn compile_from_decreases(s: Seq<char>, i: int, escaped: bool) {
    if 0 <= i && i < s.len() {
        if s[i] == '{' && !escaped {
            lemma_run_end(s, i + 1, not_char_pred('}'));
        } else if s[i] != '\\' {
            lemma_run_end(s, i + 1, raw_pred());
        }
    }
}

/// The tokens the template body `s` compiles to.
pub open spec fn compile_spec(s: Seq<char>) -> Seq<SpecTemplateToken> {
    compile_from(s, 0, false)
}

/// What executing one token against a variable map writes and warns.
pub open spec fn run_map_token(t: SpecTemplateToken, m: Map<Seq<char>, SpecIndexable>) -> (
    Seq<u8>,
    Seq<SpecWarning>,
) {
    match t {
        SpecTemplateToken::RawString(s) => (encode_utf8(s), Seq::empty()),
        SpecTemplateToken::Key(k) => if m.contains_key(k) {
            (full_repr(m[k]), Seq::empty())
        } else {
            (Seq::empty(), seq![SpecWarning::KeyNotFound(k)])
        },
        SpecTemplateToken::IndexedKey(k, idxs) => if m.contains_key(k) {
            indexed_spec(m[k], idxs, k, true)
        } else {
            (Seq::empty(), seq![SpecWarning::KeyNotFound(k)])
        },
    }
}

/// What the first `i` index characters select of `v`, and the warnings they
/// raise (when `warn` holds): an index that selects nothing is skipped.
pub open spec fn indexed_upto(
    v: SpecIndexable,
    idxs: Seq<char>,
    i: int,
    key: Seq<char>,
    warn: bool,
) -> (Seq<u8>, Seq<SpecWarning>)
    decreases i,
{
    if i <= 0 {
        (Seq::empty(), Seq::empty())
    } else {
        let prev = indexed_upto(v, idxs, i - 1, key, warn);
        match index_repr(v, idxs[i - 1]) {
            Some(b) => (prev.0 + b, prev.1),
            None => (
                prev.0,
                prev.1 + if warn {
                    seq![SpecWarning::IndexNotFound(idxs[i - 1], key)]
                } else {
                    Seq::empty()
                },
            ),
        }
    }
}

/// What a whole indexed key reference writes and warns.
pub open spec fn indexed_spec(v: SpecIndexable, idxs: Seq<char>, key: Seq<char>, warn: bool) -> (
    Seq<u8>,
    Seq<SpecWarning>,
) {
    indexed_upto(v, idxs, idxs.len() as int, key, warn)
}

/// What executing the first `i` tokens against a variable map writes and
/// warns.
pub open spec fn run_map_upto(
    tokens: Seq<SpecTemplateToken>,
    i: int,
    m: Map<Seq<char>, SpecIndexable>,
) -> (Seq<u8>, Seq<SpecWarning>)
    decreases i,
{
    if i <= 0 {
        (Seq::empty(), Seq::empty())
    } else {
        let prev = run_map_upto(tokens, i - 1, m);
        let h = run_map_token(tokens[i - 1], m);
        (prev.0 + h.0, prev.1 + h.1)
    }
}

/// What executing a template against a variable map writes and warns.
pub open spec fn run_map_spec(tokens: Seq<SpecTemplateToken>, m: Map<Seq<char>, SpecIndexable>) -> (
    Seq<u8>,
    Seq<SpecWarning>,
) {
    run_map_upto(tokens, tokens.len() as int, m)
}

/// What executing one token against one (role name, color) pair writes and
/// warns: `name` is the role name in the document's casing convention,
/// `color` its six hexadecimal digits; other keys write nothing, warning
/// only when `warn` holds.
pub open spec fn run_scheme_token(
    t: SpecTemplateToken,
    name: Seq<char>,
    color: MateyArgb,
    renaming: RenamingScheme,
    warn: bool,
) -> (Seq<u8>, Seq<SpecWarning>) {
    match t {
        SpecTemplateToken::RawString(s) => (encode_utf8(s), Seq::empty()),
        SpecTemplateToken::Key(k) => if k == "name"@ {
            (encode_utf8(rename_spec(name, renaming)), Seq::empty())
        } else if k == "color"@ {
            (argb_hex(color), Seq::empty())
        } else {
            (
                Seq::empty(),
                if warn {
                    seq![SpecWarning::UnknownKey(k)]
                } else {
                    Seq::empty()
                },
            )
        },
        SpecTemplateToken::IndexedKey(k, idxs) => if k == "color"@ {
            indexed_spec(SpecIndexable::Argb(color), idxs, k, warn)
        } else {
            (
                Seq::empty(),
                if warn {
                    seq![SpecWarning::KeyNotIndexable(k)]
                } else {
                    Seq::empty()
                },
            )
        },
    }
}

/// What executing the first `i` tokens against one scheme entry writes and
/// warns.
pub open spec fn scheme_entry_upto(
    tokens: Seq<SpecTemplateToken>,
    i: int,
    name: Seq<char>,
    color: MateyArgb,
    renaming: RenamingScheme,
    warn: bool,
) -> (Seq<u8>, Seq<SpecWarning>)
    decreases i,
{
    if i <= 0 {
        (Seq::empty(), Seq::empty())
    } else {
        let prev = scheme_entry_upto(tokens, i - 1, name, color, renaming, warn);
        let h = run_scheme_token(tokens[i - 1], name, color, renaming, warn);
        (prev.0 + h.0, prev.1 + h.1)
    }
}

/// What executing a whole template against one scheme entry writes and
/// warns.
pub open spec fn run_scheme_entry(
    tokens: Seq<SpecTemplateToken>,
    name: Seq<char>,
    color: MateyArgb,
    renaming: RenamingScheme,
    warn: bool,
) -> (Seq<u8>, Seq<SpecWarning>) {
    scheme_entry_upto(tokens, tokens.len() as int, name, color, renaming, warn)
}

/// What executing a template against the first `e` scheme entries writes and
/// warns: the whole template once per entry, in scheme order, with warnings
/// raised only on the first entry.
pub open spec fn run_scheme_upto(
    tokens: Seq<SpecTemplateToken>,
    entries: Seq<(Seq<char>, MateyArgb)>,
    e: int,
    renaming: RenamingScheme,
) -> (Seq<u8>, Seq<SpecWarning>)
    decreases e,
{
    if e <= 0 {
        (Seq::empty(), Seq::empty())
    } else {
        let prev = run_scheme_upto(tokens, entries, e - 1, renaming);
        let h = run_scheme_entry(tokens, entries[e - 1].0, entries[e - 1].1, renaming, e - 1 == 0);
        (prev.0 + h.0, prev.1 + h.1)
    }
}

/// What executing a template against a whole scheme writes and warns.
pub open spec fn run_scheme_spec(
    tokens: Seq<SpecTemplateToken>,
    entries: Seq<(Seq<char>, MateyArgb)>,
    renaming: RenamingScheme,
) -> (Seq<u8>, Seq<SpecWarning>) {
    run_scheme_upto(tokens, entries, entries.len() as int, renaming)
}

/// The index of the first `target` character at or after `start`, or the
/// character length of `s` if there is none.
fn find_char_from(s: &str, start: usize, target: char) -> (r: usize)
    requires
        start <= s@.len(),
    ensures
        r == run_end(s@, start as int, not_char_pred(target)),
{
    proof {
        lemma_run_end(s@, start as int, not_char_pred(target));
    }
    let n = s.unicode_len();
    let mut j = start;
    loop
        invariant
            start <= j <= n,
            n == s@.len(),
            run_end(s@, start as int, not_char_pred(target)) == run_end(
                s@,
                j as int,
                not_char_pred(target),
            ),
        ensures
            j as int == run_end(s@, start as int, not_char_pred(target)),
        decreases n - j,
    {
        if j >= n {
            break ;
        }
        if s.get_char(j) == target {
            proof {
                assert(!not_char_pred(target)(s@[j as int]));
            }
            break ;
        }
        proof {
            assert(not_char_pred(target)(s@[j as int]));
        }
        j = j + 1;
    }
    j
}

/// The end of the raw-text run that starts at `start`.
fn raw_end_from(s: &str, start: usize) -> (r: usize)
    requires
        start <= s@.len(),
    ensures
        r == run_end(s@, start as int, raw_pred()),
{
    proof {
        lemma_run_end(s@, start as int, raw_pred());
    }
    let n = s.unicode_len();
    let mut j = start;
    loop
        invariant
            start <= j <= n,
            n == s@.len(),
            run_end(s@, start as int, raw_pred()) == run_end(s@, j as int, raw_pred()),
        ensures
            j as int == run_end(s@, start as int, raw_pred()),
        decreases n - j,
    {
        if j >= n {
            break ;
        }
        let c = s.get_char(j);
        if c == '{' || c == '\\' {
            proof {
                assert(!raw_pred()(s@[j as int]));
            }
            break ;
        }
        proof {
            assert(raw_pred()(s@[j as int]));
        }
        j = j + 1;
    }
    j
}

/// `s` with surrounding whitespace removed.
fn trim_exec<'a>(s: &'a str) -> (r: &'a str)
    ensures
        r@ == trim_spec(s@),
{
    let ghost sv = s@;
    proof {
        lemma_run_end(sv, 0, ws_pred());
    }
    let n = s.unicode_len();
    let mut a: usize = 0;
    loop
        invariant
            a <= n,
            n == sv.len(),
            sv == s@,
            run_end(sv, 0, ws_pred()) == run_end(sv, a as int, ws_pred()),
        ensures
            a as int == run_end(sv, 0, ws_pred()),
            a <= n,
        decreases n - a,
    {
        if a >= n {
            break ;
        }
        if !is_whitespace_char(s.get_char(a)) {
            proof {
                assert(!ws_pred()(sv[a as int]));
            }
            break ;
        }
        proof {
            assert(ws_pred()(sv[a as int]));
        }
        a = a + 1;
    }
    let mut b: usize = n;
    loop
        invariant
            a <= b <= n,
            n == sv.len(),
            sv == s@,
            a as int == run_end(sv, 0, ws_pred()),
            trim_end_idx(sv, n as int) == trim_end_idx(sv, b as int),
        ensures
            a <= b <= n,
            trim_end_idx(sv, n as int) == trim_end_idx(sv, b as int),
            b == a || !char_whitespace(sv[b as int - 1]),
        decreases b,
    {
        if b == a {
            break ;
        }
        if !is_whitespace_char(s.get_char(b - 1)) {
            break ;
        }
        b = b - 1;
    }
    proof {
        if b == a {
            if a < n {
                lemma_run_end(sv, 0, ws_pred());
                assert(!ws_pred()(sv[a as int]));
                assert(!char_whitespace(sv[a as int]));
            }
            assert(trim_end_idx(sv, b as int) <= b as int) by {
                lemma_trim_end_le(sv, b as int);
            }
            assert(trim_spec(sv) =~= sv.subrange(a as int, b as int));
        } else {
            assert(trim_end_idx(sv, b as int) == b as int);
            assert(trim_spec(sv) =~= sv.subrange(a as int, b as int));
        }
    }
    s.substring_char(a, b)
}

proof fn lemma_trim_end_le(s: Seq<char>, j: int)
    requires
        0 <= j,
    ensures
        trim_end_idx(s, j) <= j,
    decreases j,
{
    if j > 0 && char_whitespace(s[j - 1]) {
        lemma_trim_end_le(s, j - 1);
    }
}

/// The template token a key reference's trimmed content stands for.
fn key_token_exec(t: &str) -> (r: TemplateToken)
    ensures
        r@ == key_token(t@),
{
    let n = t.unicode_len();
    let d = find_char_from(t, 0, '.');
    proof {
        lemma_run_end(t@, 0, not_char_pred('.'));
    }
    if d >= n {
        TemplateToken::Key(String::from_str(t))
    } else {
        let key = String::from_str(t.substring_char(0, d));
        let idxs = String::from_str(t.substring_char(d + 1, n));
        TemplateToken::IndexedKey(key, idxs)
    }
}

/// Append what the index characters `indexes` select of `value`; report each
/// index character that selects nothing, when `should_warn` holds.
fn write_indexed(
    writer: &mut Vec<u8>,
    value: &IndexableVariable,
    indexes: &str,
    key: &str,
    should_warn: bool,
    warnings: &mut Vec<Warning>,
)
    ensures
        final(writer)@ == old(writer)@ + indexed_spec(value@, indexes@, key@, should_warn).0,
        warnings_view(final(warnings)@) == warnings_view(old(warnings)@) + indexed_spec(
                value@,
                indexes@,
                key@,
                should_warn,
            ).1,
{
    let n = indexes.unicode_len();
    let mut i: usize = 0;
    while i < n
        invariant
            i <= n,
            n == indexes@.len(),
            writer@ == old(writer)@ + indexed_upto(value@, indexes@, i as int, key@, should_warn).0,
            warnings_view(warnings@) == warnings_view(old(warnings)@) + indexed_upto(
                value@,
                indexes@,
                i as int,
                key@,
                should_warn,
            ).1,
        decreases n - i,
    {
        let c = indexes.get_char(i);
        match value.get(c) {
            Some(v) => {
                extend_bytes(writer, v.as_slice());
                proof {
                    assert(writer@ =~= old(writer)@ + indexed_upto(
                        value@,
                        indexes@,
                        i as int + 1,
                        key@,
                        should_warn,
                    ).0);
                    assert(warnings_view(warnings@) =~= warnings_view(old(warnings)@)
                        + indexed_upto(value@, indexes@, i as int + 1, key@, should_warn).1);
                }
            },
            None => {
                let ghost wv_before = warnings_view(warnings@);
                if should_warn {
                    warnings.push(Warning::IndexNotFound(c, String::from_str(key)));
                    proof {
                        assert(warnings_view(warnings@) =~= wv_before + seq![
                            SpecWarning::IndexNotFound(indexes@[i as int], key@),
                        ]);
                    }
                }
                proof {
                    assert(index_repr(value@, indexes@[i as int]) is None);
                    assert(writer@ =~= old(writer)@ + indexed_upto(
                        value@,
                        indexes@,
                        i as int + 1,
                        key@,
                        should_warn,
                    ).0);
                    assert(warnings_view(warnings@) =~= warnings_view(old(warnings)@)
                        + indexed_upto(value@, indexes@, i as int + 1, key@, should_warn).1);
                }
            },
        }
        i = i + 1;
    }
}

impl Template {
    /// Compile a template body.
    pub fn new(template: &str) -> (r: Template)
        ensures
            r@ == compile_spec(template@),
    {
        let ghost tv = template@;
        let n = template.unicode_len();
        let mut expr: Vec<TemplateToken> = Vec::new();
        let mut i: usize = 0;
        let mut escaped = false;
        loop
            invariant
                i <= n,
                n == tv.len(),
                tv == template@,
                compile_spec(tv) == expr@.map_values(|t: TemplateToken| t@) + compile_from(
                    tv,
                    i as int,
                    escaped,
                ),
            ensures
                compile_spec(tv) == expr@.map_values(|t: TemplateToken| t@),
            decreases n - i,
        {
            if i >= n {
                proof {
                    assert(compile_spec(tv) =~= expr@.map_values(|t: TemplateToken| t@)
                        + Seq::<SpecTemplateToken>::empty());
                    assert(compile_spec(tv) =~= expr@.map_values(|t: TemplateToken| t@));
                }
                break ;
            }
            let c = template.get_char(i);
            if c == '{' && !escaped {
                let close = find_char_from(template, i + 1, '}');
                proof {
                    lemma_run_end(tv, i as int + 1, not_char_pred('}'));
                }
                let sub = template.substring_char(i + 1, close);
                let trimmed = trim_exec(sub);
                let tok = key_token_exec(trimmed);
                let ghost before = expr@;
                expr.push(tok);
                proof {
                    assert(expr@.map_values(|t: TemplateToken| t@) =~= before.map_values(
                        |t: TemplateToken| t@,
                    ) + seq![tok@]);
                    assert((before.map_values(|t: TemplateToken| t@) + seq![tok@]) + compile_from(
                        tv,
                        if close == n {
                            close as int
                        } else {
                            close as int + 1
                        },
                        false,
                    ) =~= before.map_values(|t: TemplateToken| t@) + (seq![tok@] + compile_from(
                        tv,
                        if close == n {
                            close as int
                        } else {
                            close as int + 1
                        },
                        false,
                    )));
                }
                i = if close == n {
                    close
                } else {
                    close + 1
                };
                escaped = false;
            } else if c == '\\' {
                escaped = true;
                i = i + 1;
            } else {
                let e = raw_end_from(template, i + 1);
                proof {
                    lemma_run_end(tv, i as int + 1, raw_pred());
                }
                let sub = template.substring_char(i, e);
                let tok = TemplateToken::RawString(String::from_str(sub));
                let ghost before = expr@;
                expr.push(tok);
                proof {
                    assert(expr@.map_values(|t: TemplateToken| t@) =~= before.map_values(
                        |t: TemplateToken| t@,
                    ) + seq![tok@]);
                    assert((before.map_values(|t: TemplateToken| t@) + seq![tok@]) + compile_from(
                        tv,
                        e as int,
                        false,
                    ) =~= before.map_values(|t: TemplateToken| t@) + (seq![tok@] + compile_from(
                        tv,
                        e as int,
                        false,
                    )));
                }
                i = e;
                escaped = false;
            }
        }
        Template { expr }
    }

    /// Execute the template against a variable map, appending to `writer`;
    /// the returned warnings say which keys and indices were skipped.
    pub fn run_with_hashmap(&self, writer: &mut Vec<u8>, map: &VariableMap) -> (w: Vec<Warning>)
        ensures
            final(writer)@ == old(writer)@ + run_map_spec(self@, map@).0,
            warnings_view(w@) == run_map_spec(self@, map@).1,
    {
        let ghost tv = self@;
        let mut warnings: Vec<Warning> = Vec::new();
        let n = self.expr.len();
        let mut i: usize = 0;
        while i < n
            invariant
                i <= n,
                n == self.expr@.len(),
                tv == self@,
                writer@ == old(writer)@ + run_map_upto(tv, i as int, map@).0,
                warnings_view(warnings@) == run_map_upto(tv, i as int, map@).1,
            decreases n - i,
        {
            let ghost wbefore = writer@;
            let ghost abefore = warnings_view(warnings@);
            match &self.expr[i] {
                TemplateToken::RawString(s) => {
                    push_str_bytes(writer, s.as_str());
                },
                TemplateToken::Key(k) => {
                    match map.get(k.as_str()) {
                        Some(value) => {
                            let b = value.get_all();
                            extend_bytes(writer, b.as_slice());
                        },
                        None => {
                            warnings.push(Warning::KeyNotFound(k.clone()));
                        },
                    }
                },
                TemplateToken::IndexedKey(k, idxs) => {
                    match map.get(k.as_str()) {
                        Some(value) => {
                            write_indexed(
                                writer,
                                value,
                                idxs.as_str(),
                                k.as_str(),
                                true,
                                &mut warnings,
                            );
                        },
                        None => {
                            warnings.push(Warning::KeyNotFound(k.clone()));
                        },
                    }
                },
            }
            proof {
                assert(tv[i as int] == self.expr@[i as int]@);
                assert(writer@ =~= wbefore + run_map_token(tv[i as int], map@).0);
                assert(warnings_view(warnings@) =~= abefore + run_map_token(tv[i as int], map@).1);
                assert(writer@ =~= old(writer)@ + run_map_upto(tv, i as int + 1, map@).0);
                assert(warnings_view(warnings@) =~= run_map_upto(tv, i as int + 1, map@).1);
            }
            i = i + 1;
        }
        warnings
    }

    /// Execute the template once per (role name, color) pair, in order,
    /// appending to `writer`; warnings are reported for the first pair only.
    pub fn run_with_entries(
        &self,
        writer: &mut Vec<u8>,
        entries: &Vec<(String, MateyArgb)>,
        renaming: RenamingScheme,
    ) -> (w: Vec<Warning>)
        ensures
            final(writer)@ == old(writer)@ + run_scheme_spec(self@, pairs_view(entries@), renaming).0,
            warnings_view(w@) == run_scheme_spec(self@, pairs_view(entries@), renaming).1,
    {
        let ghost tv = self@;
        let ghost ev = pairs_view(entries@);
        let mut warnings: Vec<Warning> = Vec::new();
        let n = entries.len();
        let mut e: usize = 0;
        while e < n
            invariant
                e <= n,
                n == entries@.len(),
                tv == self@,
                ev == pairs_view(entries@),
                writer@ == old(writer)@ + run_scheme_upto(tv, ev, e as int, renaming).0,
                warnings_view(warnings@) == run_scheme_upto(tv, ev, e as int, renaming).1,
            decreases n - e,
        {
            let ghost wbefore = writer@;
            let ghost abefore = warnings_view(warnings@);
            let should_warn = e == 0;
            self.run_entry(writer, &entries[e].0, &entries[e].1, renaming, should_warn, &mut warnings);
            proof {
                assert(ev[e as int] == (entries@[e as int].0@, entries@[e as int].1));
                assert(writer@ =~= old(writer)@ + run_scheme_upto(tv, ev, e as int + 1, renaming).0);
                assert(warnings_view(warnings@) =~= run_scheme_upto(tv, ev, e as int + 1, renaming).1);
            }
            e = e + 1;
        }
        warnings
    }

    /// Execute the template against every role of a scheme, in the scheme's
    /// fixed order.
    pub fn run_with_scheme(
        &self,
        writer: &mut Vec<u8>,
        scheme: &MateyScheme,
        renaming: RenamingScheme,
    ) -> (w: Vec<Warning>)
        ensures
            final(writer)@ == old(writer)@ + run_scheme_spec(
                self@,
                scheme_entries(*scheme),
                renaming,
            ).0,
            warnings_view(w@) == run_scheme_spec(self@, scheme_entries(*scheme), renaming).1,
    {
        let roles = scheme.roles();
        self.run_with_entries(writer, &roles, renaming)
    }

    /// Execute the template against one (role name, color) pair.
    fn run_entry(
        &self,
        writer: &mut Vec<u8>,
        name: &String,
        color: &MateyArgb,
        renaming: RenamingScheme,
        should_warn: bool,
        warnings: &mut Vec<Warning>,
    )
        ensures
            final(writer)@ == old(writer)@ + run_scheme_entry(
                self@,
                name@,
                *color,
                renaming,
                should_warn,
            ).0,
            warnings_view(final(warnings)@) == warnings_view(old(warnings)@) + run_scheme_entry(
                self@,
                name@,
                *color,
                renaming,
                should_warn,
            ).1,
    {
        let ghost tv = self@;
        let n = self.expr.len();
        let mut i: usize = 0;
        while i < n
            invariant
                i <= n,
                n == self.expr@.len(),
                tv == self@,
                writer@ == old(writer)@ + scheme_entry_upto(
                    tv,
                    i as int,
                    name@,
                    *color,
                    renaming,
                    should_warn,
                ).0,
                warnings_view(warnings@) == warnings_view(old(warnings)@) + scheme_entry_upto(
                    tv,
                    i as int,
                    name@,
                    *color,
                    renaming,
                    should_warn,
                ).1,
            decreases n - i,
        {
            let ghost wbefore = writer@;
            let ghost abefore = warnings_view(warnings@);
            match &self.expr[i] {
                TemplateToken::RawString(s) => {
                    push_str_bytes(writer, s.as_str());
                },
                TemplateToken::Key(k) => {
                    if str_eq(k.as_str(), "name") {
                        let renamed = crate::common::rename_from_snake_case(
                            name.as_str(),
                            renaming,
                        );
                        push_str_bytes(writer, renamed.as_str());
                    } else if str_eq(k.as_str(), "color") {
                        color.push_hex(writer);
                    } else {
                        if should_warn {
                            warnings.push(Warning::UnknownKey(k.clone()));
                        }
                    }
                },
                TemplateToken::IndexedKey(k, idxs) => {
                    if str_eq(k.as_str(), "color") {
                        let value = IndexableVariable::Argb(*color);
                        write_indexed(
                            writer,
                            &value,
                            idxs.as_str(),
                            k.as_str(),
                            should_warn,
                            warnings,
                        );
                    } else {
                        if should_warn {
                            warnings.push(Warning::KeyNotIndexable(k.clone()));
                        }
                    }
                },
            }
            proof {
                assert(tv[i as int] == self.expr@[i as int]@);
                assert(writer@ =~= wbefore + run_scheme_token(
                    tv[i as int],
                    name@,
                    *color,
                    renaming,
                    should_warn,
                ).0);
                assert(warnings_view(warnings@) =~= abefore + run_scheme_token(
                    tv[i as int],
                    name@,
                    *color,
                    renaming,
                    should_warn,
                ).1);
                assert(writer@ =~= old(writer)@ + scheme_entry_upto(
                    tv,
                    i as int + 1,
                    name@,
                    *color,
                    renaming,
                    should_warn,
                ).0);
                assert(warnings_view(warnings@) =~= warnings_view(old(warnings)@)
                    + scheme_entry_upto(tv, i as int + 1, name@, *color, renaming, should_warn).1);
            }
            i = i + 1;
        }
    }
}


/// Law: the empty template body compiles to no tokens, and an empty token
/// sequence writes no bytes and raises no warnings, against any variable map
/// and any scheme.
pub proof fn lemma_empty_template(
    m: Map<Seq<char>, SpecIndexable>,
    entries: Seq<(Seq<char>, MateyArgb)>,
    renaming: RenamingScheme,
)
    ensures
        compile_spec(Seq::<char>::empty()) == Seq::<SpecTemplateToken>::empty(),
        run_map_spec(Seq::<SpecTemplateToken>::empty(), m).0 == Seq::<u8>::empty(),
        run_map_spec(Seq::<SpecTemplateToken>::empty(), m).1 == Seq::<SpecWarning>::empty(),
        run_scheme_spec(Seq::<SpecTemplateToken>::empty(), entries, renaming).0
            == Seq::<u8>::empty(),
        run_scheme_spec(Seq::<SpecTemplateToken>::empty(), entries, renaming).1
            == Seq::<SpecWarning>::empty(),
{
    lemma_run_scheme_empty_tokens(entries, entries.len() as int, renaming);
}

proof fn lemma_run_scheme_empty_tokens(
    entries: Seq<(Seq<char>, MateyArgb)>,
    e: int,
    renaming: RenamingScheme,
)
    ensures
        run_scheme_upto(Seq::<SpecTemplateToken>::empty(), entries, e, renaming).0
            == Seq::<u8>::empty(),
        run_scheme_upto(Seq::<SpecTemplateToken>::empty(), entries, e, renaming).1
            == Seq::<SpecWarning>::empty(),
    decreases e,
{
    if e > 0 {
        lemma_run_scheme_empty_tokens(entries, e - 1, renaming);
        assert(run_scheme_upto(Seq::<SpecTemplateToken>::empty(), entries, e, renaming).0
            =~= Seq::<u8>::empty());
        assert(run_scheme_upto(Seq::<SpecTemplateToken>::empty(), entries, e, renaming).1
            =~= Seq::<SpecWarning>::empty());
    }
}

proof fn lemma_indexed_no_warn(v: SpecIndexable, idxs: Seq<char>, i: int, key: Seq<char>)
    ensures
        indexed_upto(v, idxs, i, key, false).1 == Seq::<SpecWarning>::empty(),
    decreases i,
{
    if i > 0 {
        lemma_indexed_no_warn(v, idxs, i - 1, key);
        assert(indexed_upto(v, idxs, i, key, false).1 =~= Seq::<SpecWarning>::empty());
    }
}

proof fn lemma_scheme_entry_no_warn(
    tokens: Seq<SpecTemplateToken>,
    i: int,
    name: Seq<char>,
    color: MateyArgb,
    renaming: RenamingScheme,
)
    ensures
        scheme_entry_upto(tokens, i, name, color, renaming, false).1
            == Seq::<SpecWarning>::empty(),
    decreases i,
{
    if i > 0 {
        lemma_scheme_entry_no_warn(tokens, i - 1, name, color, renaming);
        match tokens[i - 1] {
            SpecTemplateToken::IndexedKey(k, idxs) => {
                if k == "color"@ {
                    lemma_indexed_no_warn(SpecIndexable::Argb(color), idxs, idxs.len() as int, k);
                }
            },
            _ => {},
        }
        assert(scheme_entry_upto(tokens, i, name, color, renaming, false).1
            =~= Seq::<SpecWarning>::empty());
    }
}

/// Law: executing a template against a scheme reports warnings for the first
/// role only; after the first (role name, color) pair, the same conditions
/// are passed over in silence.
pub proof fn lemma_scheme_warnings_first_entry_only(
    tokens: Seq<SpecTemplateToken>,
    entries: Seq<(Seq<char>, MateyArgb)>,
    renaming: RenamingScheme,
)
    ensures
        run_scheme_spec(tokens, entries, renaming).1 == if entries.len() == 0 {
            Seq::<SpecWarning>::empty()
        } else {
            run_scheme_entry(tokens, entries[0].0, entries[0].1, renaming, true).1
        },
{
    lemma_scheme_upto_warnings(tokens, entries, entries.len() as int, renaming);
}

proof fn lemma_scheme_upto_warnings(
    tokens: Seq<SpecTemplateToken>,
    entries: Seq<(Seq<char>, MateyArgb)>,
    e: int,
    renaming: RenamingScheme,
)
    ensures
        run_scheme_upto(tokens, entries, e, renaming).1 == if e <= 0 {
            Seq::<SpecWarning>::empty()
        } else {
            run_scheme_entry(tokens, entries[0].0, entries[0].1, renaming, true).1
        },
    decreases e,
{
    if e > 0 {
        lemma_scheme_upto_warnings(tokens, entries, e - 1, renaming);
        let first = run_scheme_entry(tokens, entries[0].0, entries[0].1, renaming, true).1;
        if e - 1 == 0 {
            assert(run_scheme_upto(tokens, entries, e, renaming).1 =~= first);
        } else {
            lemma_scheme_entry_no_warn(
                tokens,
                tokens.len() as int,
                entries[e - 1].0,
                entries[e - 1].1,
                renaming,
            );
            assert(run_scheme_upto(tokens, entries, e, renaming).1 =~= first);
        }
    }
}

/// Law: a foreach template whose tokens are raw text except exactly one
/// reference to an unknown key reports exactly one warning, however many
/// roles the scheme has.
pub proof fn lemma_foreach_single_unknown_key_warns_once(
    tokens: Seq<SpecTemplateToken>,
    entries: Seq<(Seq<char>, MateyArgb)>,
    renaming: RenamingScheme,
    k: Seq<char>,
    idx: int,
)
    requires
        entries.len() >= 1,
        0 <= idx < tokens.len(),
        tokens[idx] == SpecTemplateToken::Key(k),
        k != "name"@,
        k != "color"@,
        forall|j: int| 0 <= j < tokens.len() && j != idx ==> tokens[j] is RawString,
    ensures
        run_scheme_spec(tokens, entries, renaming).1 == seq![SpecWarning::UnknownKey(k)],
{
    lemma_scheme_warnings_first_entry_only(tokens, entries, renaming);
    lemma_single_unknown_entry(
        tokens,
        entries[0].0,
        entries[0].1,
        renaming,
        k,
        idx,
        tokens.len() as int,
    );
}

proof fn lemma_single_unknown_entry(
    tokens: Seq<SpecTemplateToken>,
    name: Seq<char>,
    color: MateyArgb,
    renaming: RenamingScheme,
    k: Seq<char>,
    idx: int,
    i: int,
)
    requires
        0 <= idx < tokens.len(),
        tokens[idx] == SpecTemplateToken::Key(k),
        k != "name"@,
        k != "color"@,
        forall|j: int| 0 <= j < tokens.len() && j != idx ==> tokens[j] is RawString,
        i <= tokens.len(),
    ensures
        scheme_entry_upto(tokens, i, name, color, renaming, true).1 == if i <= idx {
            Seq::<SpecWarning>::empty()
        } else {
            seq![SpecWarning::UnknownKey(k)]
        },
    decreases i,
{
    if i > 0 {
        lemma_single_unknown_entry(tokens, name, color, renaming, k, idx, i - 1);
        if i - 1 == idx {
            assert(scheme_entry_upto(tokens, i, name, color, renaming, true).1 =~= seq![
                SpecWarning::UnknownKey(k),
            ]);
        } else {
            assert(tokens[i - 1] is RawString);
            assert(scheme_entry_upto(tokens, i, name, color, renaming, true).1
                =~= scheme_entry_upto(tokens, i - 1, name, color, renaming, true).1);
        }
    }
}

} // verus!
