//! The directive parser: it pulls tokens from the tokenizer one at a time
//! and builds a [`Config`], failing fast on the first malformed construct.
//!
//! The grammar, over tokens: a document is a sequence of directives
//! (`#command argument`, terminated by a newline or the end of the input),
//! template declarations (`name { body }`), and newlines, ending at the end
//! of the input. [`parse_from`] is the mathematical parser;
//! [`parse_config`] produces exactly its result.

use vstd::prelude::*;

use crate::config::{
    init_builder, naming_of, Config, ConfigBuilder, SpecBuilder, SpecConfig, SpecConfigTemplate,
    SpecOutfile,
};
use crate::error::{Error, ParseErrorKind, SpecError, TokenizingErrorKind};
use crate::template::{compile_spec, Template};
use crate::text::str_eq;
use crate::tokenizer::{
    lemma_scan_advances, lemma_scan_not_number, next_token_spec, ConfigToken, SpecTok, Tokenizer,
};

verus! {

/// What parsing a document comes to: a configuration, or one of the
/// document-level failures, with the position the failing token's scanning
/// reached.
pub enum ParseOutcome {
    Parsed(SpecConfig),
    TokErr(TokenizingErrorKind, int),
    ParseErr(ParseErrorKind, int),
    NoOutput,
}

/// Finish a document at the end of the input: a document that never
/// declared an output file is rejected.
pub open spec fn finalize(b: SpecBuilder) -> ParseOutcome {
    match b.outfile {
        Option::Some(o) => ParseOutcome::Parsed(
            SpecConfig { outfile: o, naming: b.naming, templates: b.templates },
        ),
        Option::None => ParseOutcome::NoOutput,
    }
}

/// Parse the document `s` from cursor `i` with the state built so far. The
/// reserved `Number` token kind is never produced by the scanner, so its arm
/// is never taken.
pub open spec fn parse_from(s: Seq<char>, i: int, b: SpecBuilder) -> ParseOutcome
    decreases s.len() - i, 0int,
    via parse_from_decreases
{
    let step = next_token_spec(s, i);
    match step.token {
        Err(k) => ParseOutcome::TokErr(k, step.next),
        Ok(tok) => match tok {
            SpecTok::Eof => finalize(b),
            SpecTok::NewLine => parse_from(s, step.next, b),
            SpecTok::OptionCommand(cmd) => parse_command(s, step.next, b, cmd),
            SpecTok::Id(name) => parse_decl(s, step.next, b, name),
            SpecTok::TemplateBlock(_) => ParseOutcome::ParseErr(
                ParseErrorKind::UnnamedTemplate,
                step.next,
            ),
            SpecTok::Literal(_) => ParseOutcome::ParseErr(
                ParseErrorKind::UnexpectedString,
                step.next,
            ),
            SpecTok::Number(_) => ParseOutcome::NoOutput,
        },
    }
}

#[via_fn]
proof fn parse_from_decreases(s: Seq<char>, i: int, b: SpecBuilder) {
    if 0 <= i && i <= s.len() {
        lemma_scan_advances(s, i);
    }
}

/// Parse the argument and terminator of a directive whose command name ends
/// at `cmd_pos`. The argument is a literal, an identifier or a template
/// block; `out` takes it as the output path (templated when it is a block),
/// `naming` selects the casing convention its text names, and any other
/// command is rejected.
pub open spec fn parse_command(s: Seq<char>, i: int, b: SpecBuilder, cmd: Seq<char>) -> ParseOutcome
    decreases s.len() - i, 2int,
    via parse_command_decreases
{
    let cmd_pos = i;
    let step = next_token_spec(s, i);
    match step.token {
        Err(k) => ParseOutcome::TokErr(k, step.next),
        Ok(tok) => {
            let arg = match tok {
                SpecTok::Literal(a) => Option::Some((a, false)),
                SpecTok::TemplateBlock(a) => Option::Some((a, true)),
                SpecTok::Id(a) => Option::Some((a, false)),
                _ => Option::None,
            };
            match arg {
                Option::None => ParseOutcome::ParseErr(ParseErrorKind::ExpectedArgument, cmd_pos),
                Option::Some((a, is_template)) => {
                    if cmd == "out"@ {
                        let o = if is_template {
                            SpecOutfile::TemplatedPath(compile_spec(a))
                        } else {
                            SpecOutfile::PlainPath(a)
                        };
                        parse_terminator(
                            s,
                            step.next,
                            SpecBuilder { outfile: Option::Some(o), ..b },
                            cmd_pos,
                        )
                    } else if cmd == "naming"@ {
                        parse_terminator(
                            s,
                            step.next,
                            SpecBuilder { naming: naming_of(a), ..b },
                            cmd_pos,
                        )
                    } else {
                        ParseOutcome::ParseErr(ParseErrorKind::UnknownCommand, cmd_pos)
                    }
                },
            }
        },
    }
}

#[via_fn]
proof fn parse_command_decreases(s: Seq<char>, i: int, b: SpecBuilder, cmd: Seq<char>) {
    if 0 <= i && i <= s.len() {
        lemma_scan_advances(s, i);
    }
}

/// A directive must be followed by a newline or the end of the input.
pub open spec fn parse_terminator(s: Seq<char>, i: int, b: SpecBuilder, cmd_pos: int) -> ParseOutcome
    decreases s.len() - i, 1int,
    via parse_terminator_decreases
{
    let step = next_token_spec(s, i);
    match step.token {
        Err(k) => ParseOutcome::TokErr(k, step.next),
        Ok(tok) => match tok {
            SpecTok::Eof => finalize(b),
            SpecTok::NewLine => parse_from(s, step.next, b),
            _ => ParseOutcome::ParseErr(ParseErrorKind::ExpectedNewlineAfterCommand, cmd_pos),
        },
    }
}

#[via_fn]
proof fn parse_terminator_decreases(s: Seq<char>, i: int, b: SpecBuilder, cmd_pos: int) {
    if 0 <= i && i <= s.len() {
        lemma_scan_advances(s, i);
    }
}

/// Parse the template block of a declaration whose name ends at `name_pos`:
/// `foreach` and `norm` compile its body; any other name is rejected.
pub open spec fn parse_decl(s: Seq<char>, i: int, b: SpecBuilder, name: Seq<char>) -> ParseOutcome
    decreases s.len() - i, 1int,
    via parse_decl_decreases
{
    let name_pos = i;
    let step = next_token_spec(s, i);
    match step.token {
        Err(k) => ParseOutcome::TokErr(k, step.next),
        Ok(tok) => match tok {
            SpecTok::TemplateBlock(body) => {
                if name == "foreach"@ {
                    parse_from(
                        s,
                        step.next,
                        SpecBuilder {
                            templates: b.templates.push(
                                SpecConfigTemplate::Foreach(compile_spec(body)),
                            ),
                            ..b
                        },
                    )
                } else if name == "norm"@ {
                    parse_from(
                        s,
                        step.next,
                        SpecBuilder {
                            templates: b.templates.push(
                                SpecConfigTemplate::Norm(compile_spec(body)),
                            ),
                            ..b
                        },
                    )
                } else {
                    ParseOutcome::ParseErr(ParseErrorKind::UnsupportedTemplateType, name_pos)
                }
            },
            _ => ParseOutcome::ParseErr(ParseErrorKind::ExpectedTemplate, name_pos),
        },
    }
}

#[via_fn]
proof fn parse_decl_decreases(s: Seq<char>, i: int, b: SpecBuilder, name: Seq<char>) {
    if 0 <= i && i <= s.len() {
        lemma_scan_advances(s, i);
    }
}

/// What parsing the whole document `s` comes to.
pub open spec fn parse_spec(s: Seq<char>) -> ParseOutcome {
    parse_from(s, 0, init_builder())
}

/// Whether an executable error is the given grammar failure at position `at`
/// of `s`, for the document named `path`.
pub open spec fn parse_error_matches(
    e: Error,
    path: Seq<char>,
    kind: ParseErrorKind,
    s: Seq<char>,
    at: int,
) -> bool {
    match e@ {
        SpecError::Parse { path: p, location, kind: k } => p == path && k == kind
            && location.is_loc_of(s, at),
        _ => false,
    }
}

/// Whether an executable error is the failure an outcome names, on `s`, for
/// the document named `path`.
pub open spec fn error_matches_outcome(e: Error, o: ParseOutcome, s: Seq<char>, path: Seq<char>) -> bool {
    match o {
        ParseOutcome::Parsed(_) => false,
        ParseOutcome::TokErr(k, at) => crate::tokenizer::tokenizing_error_matches(
            e,
            path,
            k,
            s,
            at,
        ),
        ParseOutcome::ParseErr(k, at) => parse_error_matches(e, path, k, s, at),
        ParseOutcome::NoOutput => e@ == SpecError::NoOutputFile,
    }
}

/// Whether an executable parse result is the given outcome on `s`, for the
/// document named `path`.
pub open spec fn parse_result_matches(
    r: Result<Config, Error>,
    o: ParseOutcome,
    s: Seq<char>,
    path: Seq<char>,
) -> bool {
    match r {
        Ok(c) => o matches ParseOutcome::Parsed(cv) && c@ == cv,
        Err(e) => error_matches_outcome(e, o, s, path),
    }
}

/// Consume a directive's argument and terminator; `cmd` is its command
/// token, whose scanning ended where the cursor stands.
fn handle_command(
    tk: &mut Tokenizer,
    source: &str,
    builder: &mut ConfigBuilder,
    cmd: &crate::tokenizer::Token,
) -> (r: Result<(), Error>)
    requires
        old(tk).wf(source@),
        source@.len() < usize::MAX,
        cmd.location.is_loc_of(source@, old(tk).pos as int),
    ensures
        final(tk).wf(source@),
        final(tk).path == old(tk).path,
        match r {
            Ok(_) => final(tk).pos > old(tk).pos && parse_command(
                source@,
                old(tk).pos as int,
                old(builder)@,
                cmd.source@,
            ) == parse_from(source@, final(tk).pos as int, final(builder)@),
            Err(e) => error_matches_outcome(
                e,
                parse_command(source@, old(tk).pos as int, old(builder)@, cmd.source@),
                source@,
                old(tk).path@,
            ),
        },
{
    let ghost s = source@;
    let ghost b0 = builder@;
    let ghost cmd_pos = tk.pos as int;
    proof {
        lemma_scan_advances(s, cmd_pos);
    }
    let ghost step2 = next_token_spec(s, cmd_pos);
    let arg_tok = match tk.next_token(source) {
        Ok(t) => t,
        Err(e) => {
            proof {
                assert(parse_command(s, cmd_pos, b0, cmd.source@) == ParseOutcome::TokErr(
                    step2.token->Err_0,
                    step2.next,
                ));
            }
            return Err(e);
        },
    };
    let (arg_text, is_template): (String, bool) = match arg_tok {
        ConfigToken::Literal(a) => (a.source, false),
        ConfigToken::Id(a) => (a.source, false),
        ConfigToken::TemplateBlock(a) => (a.source, true),
        _ => {
            proof {
                assert(parse_command(s, cmd_pos, b0, cmd.source@) == ParseOutcome::ParseErr(
                    ParseErrorKind::ExpectedArgument,
                    cmd_pos,
                ));
            }
            return Err(
                Error::parse_error(
                    tk.path.clone(),
                    cmd.location,
                    ParseErrorKind::ExpectedArgument,
                ),
            );
        },
    };
    if str_eq(cmd.source.as_str(), "out") {
        if is_template {
            builder.set_outfile_template(Template::new(arg_text.as_str()));
        } else {
            builder.set_outfile(arg_text.as_str());
        }
    } else if str_eq(cmd.source.as_str(), "naming") {
        builder.set_naming(arg_text.as_str());
    } else {
        proof {
            assert(parse_command(s, cmd_pos, b0, cmd.source@) == ParseOutcome::ParseErr(
                ParseErrorKind::UnknownCommand,
                cmd_pos,
            ));
        }
        return Err(
            Error::parse_error(tk.path.clone(), cmd.location, ParseErrorKind::UnknownCommand),
        );
    }
    let ghost b2 = builder@;
    proof {
        assert(tk.pos as int == step2.next);
        assert(parse_command(s, cmd_pos, b0, cmd.source@) == parse_terminator(
            s,
            step2.next,
            b2,
            cmd_pos,
        ));
        lemma_scan_advances(s, step2.next);
    }
    let ghost step3 = next_token_spec(s, step2.next);
    let term_tok = match tk.next_token(source) {
        Ok(t) => t,
        Err(e) => {
            proof {
                assert(parse_terminator(s, step2.next, b2, cmd_pos) == ParseOutcome::TokErr(
                    step3.token->Err_0,
                    step3.next,
                ));
            }
            return Err(e);
        },
    };
    match term_tok {
        ConfigToken::Eof => {
            proof {
                assert(parse_terminator(s, step2.next, b2, cmd_pos) == finalize(b2));
                assert(tk.pos == s.len());
                assert(parse_from(s, tk.pos as int, builder@) == finalize(b2));
            }
            Ok(())
        },
        ConfigToken::NewLine => {
            proof {
                assert(parse_terminator(s, step2.next, b2, cmd_pos) == parse_from(
                    s,
                    step3.next,
                    b2,
                ));
                assert(tk.pos as int == step3.next);
            }
            Ok(())
        },
        _ => {
            proof {
                assert(parse_terminator(s, step2.next, b2, cmd_pos) == ParseOutcome::ParseErr(
                    ParseErrorKind::ExpectedNewlineAfterCommand,
                    cmd_pos,
                ));
            }
            Err(
                Error::parse_error(
                    tk.path.clone(),
                    cmd.location,
                    ParseErrorKind::ExpectedNewlineAfterCommand,
                ),
            )
        },
    }
}

/// Consume a template declaration's block; `name` is its name token, whose
/// scanning ended where the cursor stands.
fn handle_decl(
    tk: &mut Tokenizer,
    source: &str,
    builder: &mut ConfigBuilder,
    name: &crate::tokenizer::Token,
) -> (r: Result<(), Error>)
    requires
        old(tk).wf(source@),
        source@.len() < usize::MAX,
        name.location.is_loc_of(source@, old(tk).pos as int),
    ensures
        final(tk).wf(source@),
        final(tk).path == old(tk).path,
        match r {
            Ok(_) => final(tk).pos > old(tk).pos && parse_decl(
                source@,
                old(tk).pos as int,
                old(builder)@,
                name.source@,
            ) == parse_from(source@, final(tk).pos as int, final(builder)@),
            Err(e) => error_matches_outcome(
                e,
                parse_decl(source@, old(tk).pos as int, old(builder)@, name.source@),
                source@,
                old(tk).path@,
            ),
        },
{
    let ghost s = source@;
    let ghost b0 = builder@;
    let ghost name_pos = tk.pos as int;
    proof {
        lemma_scan_advances(s, name_pos);
    }
    let ghost step2 = next_token_spec(s, name_pos);
    let body_tok = match tk.next_token(source) {
        Ok(t) => t,
        Err(e) => {
            proof {
                assert(parse_decl(s, name_pos, b0, name.source@) == ParseOutcome::TokErr(
                    step2.token->Err_0,
                    step2.next,
                ));
            }
            return Err(e);
        },
    };
    let body = match body_tok {
        ConfigToken::TemplateBlock(t) => t,
        _ => {
            proof {
                assert(parse_decl(s, name_pos, b0, name.source@) == ParseOutcome::ParseErr(
                    ParseErrorKind::ExpectedTemplate,
                    name_pos,
                ));
            }
            return Err(
                Error::parse_error(
                    tk.path.clone(),
                    name.location,
                    ParseErrorKind::ExpectedTemplate,
                ),
            );
        },
    };
    if str_eq(name.source.as_str(), "foreach") {
        builder.add_foreach_template(Template::new(body.source.as_str()));
        proof {
            assert(parse_decl(s, name_pos, b0, name.source@) == parse_from(
                s,
                step2.next,
                builder@,
            ));
            assert(tk.pos as int == step2.next);
        }
        Ok(())
    } else if str_eq(name.source.as_str(), "norm") {
        builder.add_norm_template(Template::new(body.source.as_str()));
        proof {
            assert(parse_decl(s, name_pos, b0, name.source@) == parse_from(
                s,
                step2.next,
                builder@,
            ));
            assert(tk.pos as int == step2.next);
        }
        Ok(())
    } else {
        proof {
            assert(parse_decl(s, name_pos, b0, name.source@) == ParseOutcome::ParseErr(
                ParseErrorKind::UnsupportedTemplateType,
                name_pos,
            ));
        }
        Err(
            Error::parse_error(
                tk.path.clone(),
                name.location,
                ParseErrorKind::UnsupportedTemplateType,
            ),
        )
    }
}

/// Parse a whole document into a [`Config`]; `path` names the document in
/// error messages.
pub fn parse_tokens(source: &str, path: String) -> (r: Result<Config, Error>)
    requires
        source@.len() < usize::MAX,
    ensures
        parse_result_matches(r, parse_spec(source@), source@, path@),
{
    let ghost s = source@;
    let ghost path0 = path@;
    let mut tk = Tokenizer::new(path);
    let mut builder = ConfigBuilder::new();
    loop
        invariant
            s == source@,
            s.len() < usize::MAX,
            path0 == path@,
            tk.wf(s),
            tk.path@ == path0,
            parse_spec(s) == parse_from(s, tk.pos as int, builder@),
        decreases s.len() - tk.pos,
    {
        let ghost pos0 = tk.pos as int;
        let ghost b0 = builder@;
        proof {
            lemma_scan_advances(s, pos0);
        }
        let ghost step1 = next_token_spec(s, pos0);
        let tok = match tk.next_token(source) {
            Ok(t) => t,
            Err(e) => {
                proof {
                    assert(parse_from(s, pos0, b0) == ParseOutcome::TokErr(
                        step1.token->Err_0,
                        step1.next,
                    ));
                }
                return Err(e);
            },
        };
        match tok {
            ConfigToken::Eof => {
                proof {
                    assert(parse_from(s, pos0, b0) == finalize(b0));
                }
                return builder.build();
            },
            ConfigToken::NewLine => {
                proof {
                    assert(parse_from(s, pos0, b0) == parse_from(s, tk.pos as int, builder@));
                }
            },
            ConfigToken::OptionCommand(cmd) => {
                proof {
                    assert(parse_from(s, pos0, b0) == parse_command(
                        s,
                        tk.pos as int,
                        b0,
                        cmd.source@,
                    ));
                }
                match handle_command(&mut tk, source, &mut builder, &cmd) {
                    Ok(_) => {
                    },
                    Err(e) => {
                        return Err(e);
                    },
                }
            },
            ConfigToken::Id(name) => {
                proof {
                    assert(parse_from(s, pos0, b0) == parse_decl(
                        s,
                        tk.pos as int,
                        b0,
                        name.source@,
                    ));
                }
                match handle_decl(&mut tk, source, &mut builder, &name) {
                    Ok(_) => {
                    },
                    Err(e) => {
                        return Err(e);
                    },
                }
            },
            ConfigToken::TemplateBlock(t) => {
                proof {
                    assert(parse_from(s, pos0, b0) == ParseOutcome::ParseErr(
                        ParseErrorKind::UnnamedTemplate,
                        step1.next,
                    ));
                }
                return Err(
                    Error::parse_error(
                        tk.path.clone(),
                        t.location,
                        ParseErrorKind::UnnamedTemplate,
                    ),
                );
            },
            ConfigToken::Literal(t) => {
                proof {
                    assert(parse_from(s, pos0, b0) == ParseOutcome::ParseErr(
                        ParseErrorKind::UnexpectedString,
                        step1.next,
                    ));
                }
                return Err(
                    Error::parse_error(
                        tk.path.clone(),
                        t.location,
                        ParseErrorKind::UnexpectedString,
                    ),
                );
            },
            ConfigToken::Number(_) => {
                proof {
                    lemma_scan_not_number(s, pos0);
                    assert(false);
                }
                return Err(Error::NoOutputFile);
            },
        }
    }
}

/// Parse the document read from `path` into a [`Config`].
pub fn parse_config(path: &str, source: &str) -> (r: Result<Config, Error>)
    requires
        source@.len() < usize::MAX,
    ensures
        parse_result_matches(r, parse_spec(source@), source@, path@),
{
    parse_tokens(source, String::from_str(path))
}

} // verus!
