//! The `Config` document a source file parses to: an output destination, a
//! naming convention, and the declared templates in order; and its rendering
//! against a scheme and a variable map.

use vstd::prelude::*;
use vstd::utf8::{decode_utf8, valid_utf8};

use crate::common::RenamingScheme;
use crate::error::{Error, SpecError};
use crate::indexable::{warnings_view, SpecWarning, VariableMap, Warning};
use crate::material::{scheme_entries, MateyArgb, MateyScheme};
use crate::template::{run_map_spec, run_scheme_spec, SpecTemplateToken, Template};
use crate::text::{str_eq, string_from_utf8};

verus! {

/// Where rendered output goes: a path written as it stands, or a path that
/// is itself a template, rendered against the variable map.
#[derive(Debug, Clone)]
pub enum OutfileSpec {
    PlainPath(String),
    TemplatedPath(Template),
}

/// The mathematical value of an [`OutfileSpec`].
pub enum SpecOutfile {
    PlainPath(Seq<char>),
    TemplatedPath(Seq<SpecTemplateToken>),
}

impl View for OutfileSpec {
    type V = SpecOutfile;

    open spec fn view(&self) -> SpecOutfile {
        match self {
            OutfileSpec::PlainPath(p) => SpecOutfile::PlainPath(p@),
            OutfileSpec::TemplatedPath(t) => SpecOutfile::TemplatedPath(t@),
        }
    }
}

/// A declared template with its execution contract: a `Foreach` template
/// runs once per scheme role, a `Norm` template once against the variable
/// map.
#[derive(Debug, Clone)]
pub enum ConfigTemplate {
    Foreach(Template),
    Norm(Template),
}

/// The mathematical value of a [`ConfigTemplate`].
pub enum SpecConfigTemplate {
    Foreach(Seq<SpecTemplateToken>),
    Norm(Seq<SpecTemplateToken>),
}

impl View for ConfigTemplate {
    type V = SpecConfigTemplate;

    open spec fn view(&self) -> SpecConfigTemplate {
        match self {
            ConfigTemplate::Foreach(t) => SpecConfigTemplate::Foreach(t@),
            ConfigTemplate::Norm(t) => SpecConfigTemplate::Norm(t@),
        }
    }
}

/// The naming convention a directive's text selects. Unrecognized text falls
/// back to the default, `Snake`.
pub open spec fn naming_of(s: Seq<char>) -> RenamingScheme {
    if s == "snake_case"@ {
        RenamingScheme::Snake
    } else if s == "UPPERCASE"@ {
        RenamingScheme::Upper
    } else if s == "UPPER_CASE"@ || s == "UPPER_SNAKE_CASE"@ {
        RenamingScheme::UpperSnake
    } else if s == "dash-case"@ {
        RenamingScheme::Dash
    } else if s == "camelCase"@ {
        RenamingScheme::Camel
    } else if s == "CamelCase"@ || s == "UpperCamelCase"@ {
        RenamingScheme::UpperCamel
    } else if s == "lowercase"@ || s == "flatcase"@ {
        RenamingScheme::Flat
    } else {
        RenamingScheme::Snake
    }
}

/// The state a document builds up: output destination, naming convention,
/// templates in declaration order.
pub struct SpecBuilder {
    pub outfile: Option<SpecOutfile>,
    pub naming: RenamingScheme,
    pub templates: Seq<SpecConfigTemplate>,
}

/// The mathematical value of a [`Config`].
pub struct SpecConfig {
    pub outfile: SpecOutfile,
    pub naming: RenamingScheme,
    pub templates: Seq<SpecConfigTemplate>,
}

/// Builds a [`Config`] piece by piece as the parser walks the document.
pub struct ConfigBuilder {
    outfile: Option<OutfileSpec>,
    naming: RenamingScheme,
    templates: Vec<ConfigTemplate>,
}

impl View for ConfigBuilder {
    type V = SpecBuilder;

    closed spec fn view(&self) -> SpecBuilder {
        SpecBuilder {
            outfile: match self.outfile {
                Option::None => Option::None,
                Option::Some(o) => Option::Some(o@),
            },
            naming: self.naming,
            templates: self.templates@.map_values(|t: ConfigTemplate| t@),
        }
    }
}

/// A parsed document, immutable once built.
#[derive(Debug, Clone)]
pub struct Config {
    pub outfile: OutfileSpec,
    pub naming: RenamingScheme,
    pub templates: Vec<ConfigTemplate>,
}

impl View for Config {
    type V = SpecConfig;

    open spec fn view(&self) -> SpecConfig {
        SpecConfig {
            outfile: self.outfile@,
            naming: self.naming,
            templates: self.templates@.map_values(|t: ConfigTemplate| t@),
        }
    }
}

/// The builder a document starts from: no output file, default naming, no
/// templates.
pub open spec fn init_builder() -> SpecBuilder {
    SpecBuilder {
        outfile: Option::None,
        naming: RenamingScheme::Snake,
        templates: Seq::empty(),
    }
}

impl ConfigBuilder {
    pub fn new() -> (r: Self)
        ensures
            r@ == init_builder(),
    {
        let r = ConfigBuilder {
            outfile: None,
            naming: RenamingScheme::Snake,
            templates: Vec::new(),
        };
        proof {
            assert(r@.templates =~= init_builder().templates);
        }
        r
    }

    pub fn add_foreach_template(&mut self, template: Template)
        ensures
            final(self)@ == (SpecBuilder {
                templates: old(self)@.templates.push(SpecConfigTemplate::Foreach(template@)),
                ..old(self)@
            }),
    {
        let ghost before = self@.templates;
        self.templates.push(ConfigTemplate::Foreach(template));
        proof {
            assert(self@.templates =~= before.push(SpecConfigTemplate::Foreach(template@)));
        }
    }

    pub fn add_norm_template(&mut self, template: Template)
        ensures
            final(self)@ == (SpecBuilder {
                templates: old(self)@.templates.push(SpecConfigTemplate::Norm(template@)),
                ..old(self)@
            }),
    {
        let ghost before = self@.templates;
        self.templates.push(ConfigTemplate::Norm(template));
        proof {
            assert(self@.templates =~= before.push(SpecConfigTemplate::Norm(template@)));
        }
    }

    pub fn set_outfile(&mut self, outfile: &str)
        ensures
            final(self)@ == (SpecBuilder {
                outfile: Option::Some(SpecOutfile::PlainPath(outfile@)),
                ..old(self)@
            }),
    {
        self.outfile = Some(OutfileSpec::PlainPath(String::from_str(outfile)));
    }

    pub fn set_outfile_template(&mut self, outfile: Template)
        ensures
            final(self)@ == (SpecBuilder {
                outfile: Option::Some(SpecOutfile::TemplatedPath(outfile@)),
                ..old(self)@
            }),
    {
        self.outfile = Some(OutfileSpec::TemplatedPath(outfile));
    }

    /// Select the naming convention the directive's text names;
    /// unrecognized text falls back to the default.
    pub fn set_naming(&mut self, naming: &str)
        ensures
            final(self)@ == (SpecBuilder { naming: naming_of(naming@), ..old(self)@ }),
    {
        self.naming = if str_eq(naming, "snake_case") {
            RenamingScheme::Snake
        } else if str_eq(naming, "UPPERCASE") {
            RenamingScheme::Upper
        } else if str_eq(naming, "UPPER_CASE") || str_eq(naming, "UPPER_SNAKE_CASE") {
            RenamingScheme::UpperSnake
        } else if str_eq(naming, "dash-case") {
            RenamingScheme::Dash
        } else if str_eq(naming, "camelCase") {
            RenamingScheme::Camel
        } else if str_eq(naming, "CamelCase") || str_eq(naming, "UpperCamelCase") {
            RenamingScheme::UpperCamel
        } else if str_eq(naming, "lowercase") || str_eq(naming, "flatcase") {
            RenamingScheme::Flat
        } else {
            RenamingScheme::Snake
        };
    }

    /// Finish the document: a document that never declared an output file is
    /// rejected.
    pub fn build(self) -> (r: Result<Config, Error>)
        ensures
            match self@.outfile {
                Option::Some(o) => r is Ok && r->Ok_0@ == (SpecConfig {
                    outfile: o,
                    naming: self@.naming,
                    templates: self@.templates,
                }),
                Option::None => r is Err && r->Err_0@ == SpecError::NoOutputFile,
            },
    {
        match self.outfile {
            Some(outfile) => Ok(
                Config { outfile, naming: self.naming, templates: self.templates },
            ),
            None => Err(Error::NoOutputFile),
        }
    }
}

/// The resolved output path and the warnings its rendering raised, or
/// nothing if a templated path rendered to bytes that are not valid text.
pub open spec fn resolve_outfile_spec(o: SpecOutfile, m: Map<Seq<char>, crate::indexable::SpecIndexable>) -> Option<
    (Seq<char>, Seq<SpecWarning>),
> {
    match o {
        SpecOutfile::PlainPath(p) => Option::Some((p, Seq::empty())),
        SpecOutfile::TemplatedPath(t) => {
            let r = run_map_spec(t, m);
            if valid_utf8(r.0) {
                Option::Some((decode_utf8(r.0), r.1))
            } else {
                Option::None
            }
        },
    }
}

/// What executing the first `i` declared templates writes and warns: a
/// `Norm` template runs against the variable map, a `Foreach` template once
/// per scheme entry.
pub open spec fn templates_upto(
    ts: Seq<SpecConfigTemplate>,
    i: int,
    entries: Seq<(Seq<char>, MateyArgb)>,
    m: Map<Seq<char>, crate::indexable::SpecIndexable>,
    naming: RenamingScheme,
) -> (Seq<u8>, Seq<SpecWarning>)
    decreases i,
{
    if i <= 0 {
        (Seq::empty(), Seq::empty())
    } else {
        let prev = templates_upto(ts, i - 1, entries, m, naming);
        let h = match ts[i - 1] {
            SpecConfigTemplate::Norm(t) => run_map_spec(t, m),
            SpecConfigTemplate::Foreach(t) => run_scheme_spec(t, entries, naming),
        };
        (prev.0 + h.0, prev.1 + h.1)
    }
}

/// What executing all declared templates, in declaration order, writes and
/// warns.
pub open spec fn templates_output(
    ts: Seq<SpecConfigTemplate>,
    entries: Seq<(Seq<char>, MateyArgb)>,
    m: Map<Seq<char>, crate::indexable::SpecIndexable>,
    naming: RenamingScheme,
) -> (Seq<u8>, Seq<SpecWarning>) {
    templates_upto(ts, ts.len() as int, entries, m, naming)
}

impl Config {
    /// Render the document: resolve the output path, then execute every
    /// declared template in order into one byte buffer. Fails only when a
    /// templated output path is not valid text; unknown keys and indices are
    /// returned as warnings.
    pub fn render(&self, scheme: &MateyScheme, map: &VariableMap) -> (r: Result<
        (String, Vec<u8>, Vec<Warning>),
        Error,
    >)
        ensures
            match resolve_outfile_spec(self@.outfile, map@) {
                Option::Some(resolved) => r is Ok && {
                    let body = templates_output(
                        self@.templates,
                        scheme_entries(*scheme),
                        map@,
                        self@.naming,
                    );
                    r->Ok_0.0@ == resolved.0 && r->Ok_0.1@ == body.0 && warnings_view(r->Ok_0.2@)
                        == resolved.1 + body.1
                },
                Option::None => r is Err && r->Err_0@ == SpecError::InvalidOutputPath,
            },
    {
        let ghost m = map@;
        let mut warnings: Vec<Warning> = Vec::new();
        let path: String = match &self.outfile {
            OutfileSpec::PlainPath(p) => p.clone(),
            OutfileSpec::TemplatedPath(t) => {
                let mut buf: Vec<u8> = Vec::new();
                let mut w = t.run_with_hashmap(&mut buf, map);
                warnings.append(&mut w);
                proof {
                    assert(warnings_view(warnings@) =~= run_map_spec(t@, m).1);
                }
                match string_from_utf8(buf) {
                    Some(s) => s,
                    None => {
                        return Err(Error::InvalidOutputPath);
                    },
                }
            },
        };
        let ghost resolved = resolve_outfile_spec(self@.outfile, m)->Some_0;
        let roles = scheme.roles();
        let mut out: Vec<u8> = Vec::new();
        let n = self.templates.len();
        let mut i: usize = 0;
        while i < n
            invariant
                i <= n,
                n == self.templates@.len(),
                pairs_view_roles(roles@, *scheme),
                out@ == templates_upto(self@.templates, i as int, scheme_entries(*scheme), m, self@.naming).0,
                warnings_view(warnings@) == resolved.1 + templates_upto(
                    self@.templates,
                    i as int,
                    scheme_entries(*scheme),
                    m,
                    self@.naming,
                ).1,
                m == map@,
            decreases n - i,
        {
            let ghost obefore = out@;
            let ghost wbefore = warnings_view(warnings@);
            match &self.templates[i] {
                ConfigTemplate::Norm(t) => {
                    let mut w = t.run_with_hashmap(&mut out, map);
                    warnings.append(&mut w);
                    proof {
                        assert(warnings_view(warnings@) =~= wbefore + run_map_spec(t@, m).1);
                    }
                },
                ConfigTemplate::Foreach(t) => {
                    let mut w = t.run_with_entries(&mut out, &roles, self.naming);
                    warnings.append(&mut w);
                    proof {
                        assert(warnings_view(warnings@) =~= wbefore + run_scheme_spec(
                            t@,
                            scheme_entries(*scheme),
                            self@.naming,
                        ).1);
                    }
                },
            }
            proof {
                assert(self@.templates[i as int] == self.templates@[i as int]@);
                assert(out@ =~= templates_upto(
                    self@.templates,
                    i as int + 1,
                    scheme_entries(*scheme),
                    m,
                    self@.naming,
                ).0);
                assert(warnings_view(warnings@) =~= resolved.1 + templates_upto(
                    self@.templates,
                    i as int + 1,
                    scheme_entries(*scheme),
                    m,
                    self@.naming,
                ).1);
            }
            i = i + 1;
        }
        Ok((path, out, warnings))
    }
}

/// Whether a vector of (role name, color) pairs is exactly the roles of a
/// scheme.
pub open spec fn pairs_view_roles(v: Seq<(String, MateyArgb)>, scheme: MateyScheme) -> bool {
    crate::material::pairs_view(v) == scheme_entries(scheme)
}

} // verus!
