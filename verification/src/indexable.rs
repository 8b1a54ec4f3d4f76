//! The values a template can interpolate: a color with channel indexing, or
//! plain bytes; the variable map that holds them; and the warnings that
//! template execution reports instead of failing.

use vstd::prelude::*;

use crate::material::{argb_hex, MateyArgb};
use crate::text::{dec_bytes, dec_push, extend_bytes, hex2, hex2_push, lower_char, str_eq, to_lower_char};

verus! {

/// A condition that template execution reports and then continues past.
#[derive(Debug, Clone)]
pub enum Warning {
    /// A key with no entry in the variable map.
    KeyNotFound(String),
    /// A key other than `name` or `color` in a foreach template.
    UnknownKey(String),
    /// An indexed key other than `color` in a foreach template.
    KeyNotIndexable(String),
    /// An index character that selects nothing of the key's value.
    IndexNotFound(char, String),
}

/// The mathematical value of a [`Warning`].
pub enum SpecWarning {
    KeyNotFound(Seq<char>),
    UnknownKey(Seq<char>),
    KeyNotIndexable(Seq<char>),
    IndexNotFound(char, Seq<char>),
}

impl View for Warning {
    type V = SpecWarning;

    open spec fn view(&self) -> SpecWarning {
        match self {
            Warning::KeyNotFound(k) => SpecWarning::KeyNotFound(k@),
            Warning::UnknownKey(k) => SpecWarning::UnknownKey(k@),
            Warning::KeyNotIndexable(k) => SpecWarning::KeyNotIndexable(k@),
            Warning::IndexNotFound(c, k) => SpecWarning::IndexNotFound(*c, k@),
        }
    }
}

/// The view of a list of warnings.
pub open spec fn warnings_view(v: Seq<Warning>) -> Seq<SpecWarning> {
    v.map_values(|w: Warning| w@)
}

/// A variable's value: a color, or plain bytes.
#[derive(Debug, Clone)]
pub enum IndexableVariable {
    Argb(MateyArgb),
    PlainString(Vec<u8>),
}

/// The mathematical value of an [`IndexableVariable`].
pub enum SpecIndexable {
    Argb(MateyArgb),
    Plain(Seq<u8>),
}

impl View for IndexableVariable {
    type V = SpecIndexable;

    open spec fn view(&self) -> SpecIndexable {
        match self {
            IndexableVariable::Argb(c) => SpecIndexable::Argb(*c),
            IndexableVariable::PlainString(b) => SpecIndexable::Plain(b@),
        }
    }
}

impl IndexableVariable {
    /// A plain-bytes variable.
    pub fn plain(value: Vec<u8>) -> (r: Self)
        ensures
            r@ == SpecIndexable::Plain(value@),
    {
        IndexableVariable::PlainString(value)
    }
}

/// One channel of a color, rendered as the index character asks: an
/// upper-case index character selects decimal digits, a lower-case one two
/// upper-case hexadecimal digits.
pub open spec fn channel_repr(v: u8, idx: char) -> Seq<u8> {
    if 'A' <= idx && idx <= 'Z' {
        dec_bytes(v)
    } else {
        hex2(v)
    }
}

/// What a single index character selects of a color: `r`, `g`, `b` and `a`
/// (case-insensitively) name the channels; anything else selects nothing.
pub open spec fn argb_index(c: MateyArgb, idx: char) -> Option<Seq<u8>> {
    let l = lower_char(idx);
    if l == 'r' {
        Some(channel_repr(c.red, idx))
    } else if l == 'g' {
        Some(channel_repr(c.green, idx))
    } else if l == 'b' {
        Some(channel_repr(c.blue, idx))
    } else if l == 'a' {
        Some(channel_repr(c.alpha, idx))
    } else {
        None
    }
}

/// The full representation of a variable: plain bytes as they are, a color
/// as its six hexadecimal digits.
pub open spec fn full_repr(v: SpecIndexable) -> Seq<u8> {
    match v {
        SpecIndexable::Argb(c) => argb_hex(c),
        SpecIndexable::Plain(b) => b,
    }
}

/// What a single index character selects of a variable: a channel of a
/// color; nothing of plain bytes, which never support indexing.
pub open spec fn index_repr(v: SpecIndexable, idx: char) -> Option<Seq<u8>> {
    match v {
        SpecIndexable::Argb(c) => argb_index(c, idx),
        SpecIndexable::Plain(_) => None,
    }
}

/// A value a template can read whole or select single characters of.
pub trait CharIndex {
    /// The full representation of the value.
    spec fn spec_get_all(&self) -> Seq<u8>;

    /// What one index character selects of the value.
    spec fn spec_get(&self, idx: char) -> Option<Seq<u8>>;

    /// The full representation of the value.
    fn get_all(&self) -> (r: Vec<u8>)
        ensures
            r@ == self.spec_get_all(),
    ;

    /// What one index character selects of the value.
    fn get(&self, idx: char) -> (r: Option<Vec<u8>>)
        ensures
            match r {
                Some(v) => self.spec_get(idx) == Some(v@),
                None => self.spec_get(idx) is None,
            },
    ;
}

impl CharIndex for MateyArgb {
    open spec fn spec_get_all(&self) -> Seq<u8> {
        argb_hex(*self)
    }

    open spec fn spec_get(&self, idx: char) -> Option<Seq<u8>> {
        argb_index(*self, idx)
    }

    fn get_all(&self) -> (r: Vec<u8>) {
        let mut out: Vec<u8> = Vec::new();
        self.push_hex(&mut out);
        out
    }

    fn get(&self, idx: char) -> (r: Option<Vec<u8>>) {
        let l = to_lower_char(idx);
        let value = if l == 'r' {
            self.red
        } else if l == 'g' {
            self.green
        } else if l == 'b' {
            self.blue
        } else if l == 'a' {
            self.alpha
        } else {
            return None;
        };
        let mut out: Vec<u8> = Vec::new();
        if 'A' <= idx && idx <= 'Z' {
            dec_push(&mut out, value);
        } else {
            hex2_push(&mut out, value);
        }
        Some(out)
    }
}

impl CharIndex for IndexableVariable {
    open spec fn spec_get_all(&self) -> Seq<u8> {
        full_repr(self@)
    }

    open spec fn spec_get(&self, idx: char) -> Option<Seq<u8>> {
        index_repr(self@, idx)
    }

    fn get_all(&self) -> (r: Vec<u8>) {
        match self {
            IndexableVariable::Argb(c) => c.get_all(),
            IndexableVariable::PlainString(b) => {
                let mut out: Vec<u8> = Vec::new();
                extend_bytes(&mut out, b.as_slice());
                out
            },
        }
    }

    fn get(&self, idx: char) -> (r: Option<Vec<u8>>) {
        match self {
            IndexableVariable::Argb(c) => c.get(idx),
            IndexableVariable::PlainString(_) => None,
        }
    }
}

/// The map of named variables a template is executed against: insertion
/// order decides between entries of equal name, the later one winning.
#[derive(Debug, Clone)]
pub struct VariableMap {
    entries: Vec<(String, IndexableVariable)>,
}

/// The mapping that a list of (name, value) entries builds up, later entries
/// overriding earlier ones.
pub open spec fn entries_map(s: Seq<(String, IndexableVariable)>) -> Map<Seq<char>, SpecIndexable>
    decreases s.len(),
{
    if s.len() == 0 {
        Map::empty()
    } else {
        entries_map(s.drop_last()).insert(s.last().0@, s.last().1@)
    }
}

impl View for VariableMap {
    type V = Map<Seq<char>, SpecIndexable>;

    closed spec fn view(&self) -> Map<Seq<char>, SpecIndexable> {
        entries_map(self.entries@)
    }
}

proof fn lemma_entries_map_frame(s: Seq<(String, IndexableVariable)>, k: Seq<char>, i: int)
    requires
        0 <= i <= s.len(),
        forall|j: int| i <= j < s.len() ==> (#[trigger] s[j]).0@ != k,
    ensures
        entries_map(s).contains_key(k) == entries_map(s.subrange(0, i)).contains_key(k),
        entries_map(s).contains_key(k) ==> entries_map(s)[k] == entries_map(s.subrange(0, i))[k],
    decreases s.len() - i,
{
    if i < s.len() {
        lemma_entries_map_frame(s, k, i + 1);
        let t = s.subrange(0, i + 1);
        assert(t.drop_last() =~= s.subrange(0, i));
        assert(entries_map(t) == entries_map(s.subrange(0, i)).insert(s[i].0@, s[i].1@));
    } else {
        assert(s.subrange(0, i) =~= s);
    }
}

impl VariableMap {
    /// An empty variable map.
    pub fn new() -> (r: Self)
        ensures
            r@ == Map::<Seq<char>, SpecIndexable>::empty(),
    {
        VariableMap { entries: Vec::new() }
    }

    /// Bind `key` to `value`, overriding any earlier binding.
    pub fn insert(&mut self, key: String, value: IndexableVariable)
        ensures
            final(self)@ == old(self)@.insert(key@, value@),
    {
        let ghost before = self.entries@;
        self.entries.push((key, value));
        proof {
            assert(self.entries@.drop_last() =~= before);
        }
    }

    /// Look `key` up.
    pub fn get(&self, key: &str) -> (r: Option<&IndexableVariable>)
        ensures
            match r {
                Some(v) => self@.contains_key(key@) && v@ == self@[key@],
                None => !self@.contains_key(key@),
            },
    {
        let ghost s = self.entries@;
        let mut i = self.entries.len();
        loop
            invariant
                s == self.entries@,
                i <= s.len(),
                forall|j: int| i <= j < s.len() ==> (#[trigger] s[j]).0@ != key@,
            ensures
                i <= s.len(),
                forall|j: int| i <= j < s.len() ==> (#[trigger] s[j]).0@ != key@,
                i > 0 ==> s[i - 1].0@ == key@,
            decreases i,
        {
            if i == 0 {
                break ;
            }
            if str_eq(self.entries[i - 1].0.as_str(), key) {
                break ;
            }
            i = i - 1;
        }
        proof {
            lemma_entries_map_frame(s, key@, i as int);
        }
        if i == 0 {
            proof {
                assert(s.subrange(0, 0) =~= Seq::<(String, IndexableVariable)>::empty());
            }
            None
        } else {
            proof {
                let t = s.subrange(0, i as int);
                assert(t.drop_last() =~= s.subrange(0, i - 1));
                assert(t.last() == s[i - 1]);
            }
            Some(&self.entries[i - 1].1)
        }
    }
}

} // verus!
