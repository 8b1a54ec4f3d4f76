//! Command-line option descriptions: the data and matching rules that an
//! argument parser is built from. Walking the process's actual arguments is
//! left to the program around the library.

use vstd::prelude::*;

use vstd::string::StringSliceAdditionalSpecFns;

use crate::text::str_eq;

verus! {

/// Whether an option stands alone or takes a value.
pub enum ArgType {
    Flag,
    Text,
}

/// One command-line option: its name, its short and long spellings, and its
/// help line.
pub struct Arg {
    pub name: &'static str,
    pub short: Option<&'static str>,
    pub long: Option<&'static str>,
    pub help: &'static str,
    pub type_: ArgType,
}

impl Arg {
    /// Describe an option. It must have a short or a long spelling, and a
    /// short spelling is exactly two bytes (a dash and a letter).
    pub fn new(
        name: &'static str,
        short: Option<&'static str>,
        long: Option<&'static str>,
        help: &'static str,
        type_: ArgType,
    ) -> (r: Self)
        requires
            short is Some || long is Some,
            short matches Some(sh) ==> sh.spec_bytes().len() == 2,
        ensures
            r.name == name,
            r.short == short,
            r.long == long,
            r.help == help,
            r.type_ == type_,
    {
        Arg { name, short, long, help, type_ }
    }

    /// Whether `arg` is one of this option's spellings.
    pub fn matches(&self, arg: &str) -> (r: bool)
        ensures
            r == ((self.long matches Some(l) && l@ == arg@) || (self.short matches Some(sh) && sh@
                == arg@)),
    {
        let by_long = match self.long {
            Some(l) => str_eq(l, arg),
            None => false,
        };
        let by_short = match self.short {
            Some(sh) => str_eq(sh, arg),
            None => false,
        };
        by_long || by_short
    }

    /// The width of a short spelling.
    pub fn short_len(&self) -> (r: usize)
        ensures
            r == 2,
    {
        2
    }

    /// The width of the long spelling, in bytes; 0 without one.
    pub fn long_len(&self) -> (r: usize)
        ensures
            r == (match self.long {
                Some(l) => l.spec_bytes().len() as usize,
                None => 0usize,
            }),
    {
        match self.long {
            Some(l) => l.len(),
            None => 0,
        }
    }
}

} // verus!
