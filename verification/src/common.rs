//! Source locations and the role-name casing transform.
//!
//! A location is a pure function of the consumed prefix of the source text:
//! scanning starts at line 1, column 1, and every consumed character either
//! advances the column by one or, for a line feed, resets the column to 1 and
//! advances the line.

use vstd::prelude::*;

use crate::text::{push_char, to_upper_char, upper_char};

verus! {

/// The line number after consuming `i` characters of `s`: 1 plus the number
/// of line feeds among them.
pub open spec fn line_of(s: Seq<char>, i: int) -> int
    decreases i,
{
    if i <= 0 {
        1
    } else {
        line_of(s, i - 1) + if s[i - 1] == '\n' {
            1int
        } else {
            0int
        }
    }
}

/// The column after consuming `i` characters of `s`: 1 plus the number of
/// characters consumed since the last line feed.
pub open spec fn col_of(s: Seq<char>, i: int) -> int
    decreases i,
{
    if i <= 0 {
        1
    } else if s[i - 1] == '\n' {
        1
    } else {
        col_of(s, i - 1) + 1
    }
}

pub proof fn lemma_loc_bounds(s: Seq<char>, i: int)
    requires
        0 <= i,
    ensures
        1 <= line_of(s, i) <= i + 1,
        1 <= col_of(s, i) <= i + 1,
    decreases i,
{
    if i > 0 {
        lemma_loc_bounds(s, i - 1);
    }
}

/// A line/column position in a source document.
#[derive(Debug, Clone, Copy, PartialEq, Eq, Structural)]
pub struct FileLocation {
    pub line: usize,
    pub column: usize,
}

impl FileLocation {
    /// The position of the start of a document.
    pub fn new() -> (r: Self)
        ensures
            r.line == 1,
            r.column == 1,
    {
        FileLocation { line: 1, column: 1 }
    }

    /// Advance past one character within the current line.
    pub fn step(&mut self)
        requires
            old(self).column < usize::MAX,
        ensures
            final(self).line == old(self).line,
            final(self).column == old(self).column + 1,
    {
        self.column = self.column + 1;
    }

    /// Advance past a line feed.
    pub fn nl(&mut self)
        requires
            old(self).line < usize::MAX,
        ensures
            final(self).line == old(self).line + 1,
            final(self).column == 1,
    {
        self.column = 1;
        self.line = self.line + 1;
    }

    /// Whether this is the position after consuming `i` characters of `s`.
    pub open spec fn is_loc_of(self, s: Seq<char>, i: int) -> bool {
        self.line == line_of(s, i) && self.column == col_of(s, i)
    }
}

/// The casing conventions a document can ask role names to be emitted in.
/// When a document names no convention, or an unrecognized one, `Snake` is
/// the default.
#[derive(Debug, Clone, Copy, PartialEq, Eq, Structural)]
pub enum RenamingScheme {
    Snake,
    Dash,
    Camel,
    Upper,
    UpperSnake,
    UpperCamel,
    Flat,
}

/// A snake_case role name: lowercase ASCII letters and underscores.
pub open spec fn is_snake(s: Seq<char>) -> bool {
    forall|i: int| 0 <= i < s.len() ==> ('a' <= s[i] && s[i] <= 'z') || s[i] == '_'
}

/// Every underscore replaced by a dash.
pub open spec fn dash_spec(s: Seq<char>) -> Seq<char> {
    s.map_values(
        |c: char|
            if c == '_' {
                '-'
            } else {
                c
            },
    )
}

/// Every letter uppercased, underscores kept.
pub open spec fn upper_snake_spec(s: Seq<char>) -> Seq<char> {
    s.map_values(|c: char| upper_char(c))
}

/// Underscores deleted, every remaining letter uppercased, from index `i` on.
pub open spec fn upper_from(s: Seq<char>, i: int) -> Seq<char>
    decreases s.len() - i,
{
    if i < 0 || i >= s.len() {
        Seq::empty()
    } else if s[i] == '_' {
        upper_from(s, i + 1)
    } else {
        seq![upper_char(s[i])] + upper_from(s, i + 1)
    }
}

/// Underscores deleted, the rest kept, from index `i` on.
pub open spec fn flat_from(s: Seq<char>, i: int) -> Seq<char>
    decreases s.len() - i,
{
    if i < 0 || i >= s.len() {
        Seq::empty()
    } else if s[i] == '_' {
        flat_from(s, i + 1)
    } else {
        seq![s[i]] + flat_from(s, i + 1)
    }
}

/// Camel-casing from index `i` on. Underscores are dropped; a character is
/// uppercased exactly when `pending` holds of it, and an underscore makes the
/// next character pending once a character was already emitted (`seen`).
pub open spec fn camel_from(s: Seq<char>, i: int, seen: bool, pending: bool) -> Seq<char>
    decreases s.len() - i,
{
    if i < 0 || i >= s.len() {
        Seq::empty()
    } else if s[i] == '_' {
        camel_from(s, i + 1, seen, seen || pending)
    } else {
        seq![
            if pending {
                upper_char(s[i])
            } else {
                s[i]
            },
        ] + camel_from(s, i + 1, true, false)
    }
}

/// The camel-case form of `s`: chunks between underscores, empty chunks
/// dropped, each chunk after the first starting uppercase; with
/// `first_upper`, the first chunk starts uppercase too.
pub open spec fn camel_spec(s: Seq<char>, first_upper: bool) -> Seq<char> {
    camel_from(s, 0, false, first_upper)
}

/// The result of renaming `s` into the given casing convention.
pub open spec fn rename_spec(s: Seq<char>, renaming: RenamingScheme) -> Seq<char> {
    match renaming {
        RenamingScheme::Snake => s,
        RenamingScheme::Dash => dash_spec(s),
        RenamingScheme::Upper => upper_from(s, 0),
        RenamingScheme::UpperSnake => upper_snake_spec(s),
        RenamingScheme::Flat => flat_from(s, 0),
        RenamingScheme::Camel => camel_spec(s, false),
        RenamingScheme::UpperCamel => camel_spec(s, true),
    }
}

/// Convert a snake_case role name into the given casing convention.
pub fn rename_from_snake_case(s: &str, renaming: RenamingScheme) -> (r: String)
    ensures
        r@ == rename_spec(s@, renaming),
{
    match renaming {
        RenamingScheme::Snake => String::from_str(s),
        RenamingScheme::Dash => rename_dash(s),
        RenamingScheme::Upper => rename_upper(s),
        RenamingScheme::UpperSnake => rename_upper_snake(s),
        RenamingScheme::Flat => rename_flat(s),
        RenamingScheme::Camel => from_snake(s, false),
        RenamingScheme::UpperCamel => from_snake(s, true),
    }
}

fn rename_dash(s: &str) -> (r: String)
    ensures
        r@ == dash_spec(s@),
{
    let n = s.unicode_len();
    let mut r = String::new();
    let mut i: usize = 0;
    while i < n
        invariant
            n == s@.len(),
            i <= n,
            r@ =~= dash_spec(s@.subrange(0, i as int)),
        decreases n - i,
    {
        let c = s.get_char(i);
        if c == '_' {
            push_char(&mut r, '-');
        } else {
            push_char(&mut r, c);
        }
        i = i + 1;
        proof {
            assert(r@ =~= dash_spec(s@.subrange(0, i as int)));
        }
    }
    proof {
        assert(s@.subrange(0, n as int) =~= s@);
    }
    r
}

fn rename_upper_snake(s: &str) -> (r: String)
    ensures
        r@ == upper_snake_spec(s@),
{
    let n = s.unicode_len();
    let mut r = String::new();
    let mut i: usize = 0;
    while i < n
        invariant
            n == s@.len(),
            i <= n,
            r@ =~= upper_snake_spec(s@.subrange(0, i as int)),
        decreases n - i,
    {
        let c = s.get_char(i);
        push_char(&mut r, to_upper_char(c));
        i = i + 1;
        proof {
            assert(r@ =~= upper_snake_spec(s@.subrange(0, i as int)));
        }
    }
    proof {
        assert(s@.subrange(0, n as int) =~= s@);
    }
    r
}

fn rename_upper(s: &str) -> (r: String)
    ensures
        r@ == upper_from(s@, 0),
{
    let n = s.unicode_len();
    let mut r = String::new();
    let mut i: usize = 0;
    while i < n
        invariant
            n == s@.len(),
            i <= n,
            upper_from(s@, 0) == r@ + upper_from(s@, i as int),
        decreases n - i,
    {
        let c = s.get_char(i);
        if c != '_' {
            push_char(&mut r, to_upper_char(c));
        }
        proof {
            assert((r@ + seq![upper_char(s@[i as int])]) + upper_from(s@, i + 1) =~= r@ + (seq![
                upper_char(s@[i as int]),
            ] + upper_from(s@, i + 1)));
        }
        i = i + 1;
    }
    proof {
        assert(upper_from(s@, n as int) =~= Seq::<char>::empty());
        assert(r@ + Seq::<char>::empty() =~= r@);
    }
    r
}

fn rename_flat(s: &str) -> (r: String)
    ensures
        r@ == flat_from(s@, 0),
{
    let n = s.unicode_len();
    let mut r = String::new();
    let mut i: usize = 0;
    while i < n
        invariant
            n == s@.len(),
            i <= n,
            flat_from(s@, 0) == r@ + flat_from(s@, i as int),
        decreases n - i,
    {
        let c = s.get_char(i);
        if c != '_' {
            push_char(&mut r, c);
        }
        proof {
            assert((r@ + seq![s@[i as int]]) + flat_from(s@, i + 1) =~= r@ + (seq![s@[i as int]]
                + flat_from(s@, i + 1)));
        }
        i = i + 1;
    }
    proof {
        assert(flat_from(s@, n as int) =~= Seq::<char>::empty());
        assert(r@ + Seq::<char>::empty() =~= r@);
    }
    r
}

fn from_snake(s: &str, make_first_upper: bool) -> (r: String)
    ensures
        r@ == camel_spec(s@, make_first_upper),
{
    let n = s.unicode_len();
    let mut r = String::new();
    let mut seen = false;
    let mut pending = make_first_upper;
    let mut i: usize = 0;
    while i < n
        invariant
            n == s@.len(),
            i <= n,
            camel_spec(s@, make_first_upper) == r@ + camel_from(s@, i as int, seen, pending),
        decreases n - i,
    {
        let c = s.get_char(i);
        if c == '_' {
            pending = seen || pending;
        } else {
            let e = if pending {
                to_upper_char(c)
            } else {
                c
            };
            push_char(&mut r, e);
            proof {
                assert((r@ + seq![e]) + camel_from(s@, i + 1, true, false) =~= r@ + (seq![e]
                    + camel_from(s@, i + 1, true, false)));
            }
            seen = true;
            pending = false;
        }
        i = i + 1;
    }
    proof {
        assert(camel_from(s@, n as int, seen, pending) =~= Seq::<char>::empty());
        assert(r@ + Seq::<char>::empty() =~= r@);
    }
    r
}

/// Law: renaming into dash-case yields no underscore.
pub proof fn lemma_rename_dash_no_underscore(s: Seq<char>)
    requires
        is_snake(s),
    ensures
        forall|i: int|
            0 <= i < rename_spec(s, RenamingScheme::Dash).len() ==> rename_spec(
                s,
                RenamingScheme::Dash,
            )[i] != '_',
{
}

proof fn lemma_upper_from_chars(s: Seq<char>, i: int)
    requires
        is_snake(s),
        0 <= i,
    ensures
        forall|j: int|
            0 <= j < upper_from(s, i).len() ==> 'A' <= #[trigger] upper_from(s, i)[j]
                && upper_from(s, i)[j] <= 'Z',
    decreases s.len() - i,
{
    if i < s.len() {
        lemma_upper_from_chars(s, i + 1);
        let r = upper_from(s, i);
        assert forall|j: int| 0 <= j < r.len() implies 'A' <= r[j] && r[j] <= 'Z' by {
            if s[i] == '_' {
                assert(r[j] == upper_from(s, i + 1)[j]);
            } else if j == 0 {
                assert(('a' <= s[i] && s[i] <= 'z') || s[i] == '_');
                assert(r[j] == upper_char(s[i]));
            } else {
                assert(r[j] == upper_from(s, i + 1)[j - 1]);
            }
        }
    }
}

/// Law: renaming into all-caps yields no underscore and no lowercase letter.
pub proof fn lemma_rename_upper_no_underscore_no_lowercase(s: Seq<char>)
    requires
        is_snake(s),
    ensures
        forall|i: int|
            0 <= i < rename_spec(s, RenamingScheme::Upper).len() ==> {
                let c = #[trigger] rename_spec(s, RenamingScheme::Upper)[i];
                c != '_' && !('a' <= c && c <= 'z')
            },
{
    lemma_upper_from_chars(s, 0);
}

proof fn lemma_camel_from_chars(s: Seq<char>, i: int, seen: bool, pending: bool)
    requires
        is_snake(s),
        0 <= i,
    ensures
        forall|j: int|
            0 <= j < camel_from(s, i, seen, pending).len() ==> {
                let c = #[trigger] camel_from(s, i, seen, pending)[j];
                ('a' <= c && c <= 'z') || ('A' <= c && c <= 'Z')
            },
    decreases s.len() - i,
{
    if i < s.len() {
        let r = camel_from(s, i, seen, pending);
        if s[i] == '_' {
            lemma_camel_from_chars(s, i + 1, seen, seen || pending);
            assert forall|j: int|
                0 <= j < r.len() implies ('a' <= r[j] && r[j] <= 'z') || ('A' <= r[j] && r[j]
                <= 'Z') by {
                assert(r[j] == camel_from(s, i + 1, seen, seen || pending)[j]);
            }
        } else {
            lemma_camel_from_chars(s, i + 1, true, false);
            assert forall|j: int|
                0 <= j < r.len() implies ('a' <= r[j] && r[j] <= 'z') || ('A' <= r[j] && r[j]
                <= 'Z') by {
                if j == 0 {
                    assert(('a' <= s[i] && s[i] <= 'z') || s[i] == '_');
                    assert(r[j] == if pending {
                        upper_char(s[i])
                    } else {
                        s[i]
                    });
                } else {
                    assert(r[j] == camel_from(s, i + 1, true, false)[j - 1]);
                }
            }
        }
    }
}

proof fn lemma_camel_from_first(s: Seq<char>, i: int, pending: bool)
    requires
        is_snake(s),
        0 <= i,
        exists|j: int| i <= j < s.len() && s[j] != '_',
    ensures
        camel_from(s, i, false, pending).len() > 0,
        pending ==> 'A' <= camel_from(s, i, false, pending)[0] && camel_from(s, i, false, pending)[0]
            <= 'Z',
        !pending ==> 'a' <= camel_from(s, i, false, pending)[0] && camel_from(
            s,
            i,
            false,
            pending,
        )[0] <= 'z',
    decreases s.len() - i,
{
    let j = choose|j: int| i <= j < s.len() && s[j] != '_';
    if s[i] == '_' {
        assert(i < j <= s.len());
        lemma_camel_from_first(s, i + 1, pending);
    }
}

/// Law: camel-casing a snake_case name that holds at least one letter yields
/// no underscore, and its first character is a lowercase letter.
pub proof fn lemma_rename_camel_shape(s: Seq<char>)
    requires
        is_snake(s),
        exists|j: int| 0 <= j < s.len() && s[j] != '_',
    ensures
        rename_spec(s, RenamingScheme::Camel).len() > 0,
        'a' <= rename_spec(s, RenamingScheme::Camel)[0] && rename_spec(s, RenamingScheme::Camel)[0]
            <= 'z',
        forall|i: int|
            0 <= i < rename_spec(s, RenamingScheme::Camel).len() ==> #[trigger] rename_spec(
                s,
                RenamingScheme::Camel,
            )[i] != '_',
{
    lemma_camel_from_first(s, 0, false);
    lemma_camel_from_chars(s, 0, false, false);
}

/// Law: upper-camel-casing a snake_case name that holds at least one letter
/// yields a first character that is an uppercase letter.
pub proof fn lemma_rename_upper_camel_first_uppercase(s: Seq<char>)
    requires
        is_snake(s),
        exists|j: int| 0 <= j < s.len() && s[j] != '_',
    ensures
        rename_spec(s, RenamingScheme::UpperCamel).len() > 0,
        'A' <= rename_spec(s, RenamingScheme::UpperCamel)[0] && rename_spec(
            s,
            RenamingScheme::UpperCamel,
        )[0] <= 'Z',
{
    lemma_camel_from_first(s, 0, true);
}

} // verus!
