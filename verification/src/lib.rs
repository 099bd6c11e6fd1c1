//! A verified JSON/JSONC parser.
//!
//! The grammar, the tree it denotes, and the error for every rejected
//! input are defined as spec functions in [`model`]; the executable parser
//! is proved to return exactly what the model says. Numbers follow the
//! integer-preference rule, and decimal-to-double conversion runs the
//! Eisel-Lemire approximation in pure integer arithmetic, with doubles
//! carried as IEEE-754 bit patterns.

use vstd::prelude::*;

pub mod binary;
pub mod comment;
pub mod config;
pub mod decimal;
pub mod error;
pub mod find_comment;
pub mod lazy;
pub mod lexer;
pub mod metadata;
pub mod misc;
pub mod model;
pub mod number;
pub mod numbers;
pub mod parser;
pub mod pointer;
pub mod search;
pub mod source;
pub mod span;
pub mod strings;
pub mod value;

verus! {

use crate::comment::Comment;
use crate::config::Config;
use crate::config::RTConfig;
use crate::error::Error;
use crate::model::{cmts_match, node_matches, sp_root, val_err, PRes};
use crate::span::Span;
use crate::value::Value;
use vstd::string::StringSliceAdditionalSpecFns;

/// Parses strict JSON (commas required, no trailing commas, no comments).
///
/// Succeeds if and only if the model's grammar accepts the bytes of `src`,
/// and then returns exactly the tree the model denotes; otherwise it
/// returns the model's error with its byte span (`NumberOverflow` may also
/// stand where the input holds a number whose rounding the 128-bit
/// approximation cannot decide).
pub fn parse(src: &str) -> (r: Result<Span<Value>, Span<Error>>)
    ensures
        match r {
            Ok(v) => sp_root(src.spec_bytes(), true, false, false) matches PRes::Parsed {
                node,
                ..
            } && node_matches(v, node),
            Err(e) => val_err(e, src.spec_bytes(), sp_root(src.spec_bytes(), true, false, false)),
        },
{
    parse_with(src, true, false)
}

/// Parses JSON with the given comma options: `comma` demands commas
/// between members, `trailing_comma` permits one trailing comma (commas
/// optional always permits it).
pub fn parse_with(src: &str, comma: bool, trailing_comma: bool) -> (r: Result<
    Span<Value>,
    Span<Error>,
>)
    ensures
        match r {
            Ok(v) => sp_root(src.spec_bytes(), comma, !comma || trailing_comma, false)
                matches PRes::Parsed { node, .. } && node_matches(v, node),
            Err(e) => val_err(
                e,
                src.spec_bytes(),
                sp_root(src.spec_bytes(), comma, !comma || trailing_comma, false),
            ),
        },
{
    let mut cmts: Vec<Comment> = Vec::new();
    crate::parser::parse_root(src.as_bytes(), comma, !comma || trailing_comma, false, &mut cmts)
}

/// Parses JSON bytes with the three options of the configuration.
///
/// The bytes are parsed as given: string contents are decoded at the byte
/// level, so a source that is not valid UTF-8 yields strings that are not
/// valid UTF-8 either. The `&str` entry points rule this out by type, and
/// [`source::Slice::from_bytes`](crate::source::Slice::from_bytes)
/// validates a byte slice up front, as the byte-slice source is meant to
/// be used.
pub fn parse_bytes_with_config(src: &[u8], cfg: &RTConfig) -> (r: Result<Span<Value>, Span<Error>>)
    ensures
        match r {
            Ok(v) => sp_root(src@, cfg.comma, !cfg.comma || cfg.trailing, cfg.cmnts)
                matches PRes::Parsed { node, .. } && node_matches(v, node),
            Err(e) => val_err(
                e,
                src@,
                sp_root(src@, cfg.comma, !cfg.comma || cfg.trailing, cfg.cmnts),
            ),
        },
{
    let mut cmts: Vec<Comment> = Vec::new();
    let comma = cfg.comma();
    let trailing = cfg.trailing_comma();
    let cm = cfg.comments();
    crate::parser::parse_root(src, comma, !comma || trailing, cm, &mut cmts)
}

/// Parses JSON with the three options of the configuration.
pub fn parse_with_config(src: &str, cfg: &RTConfig) -> (r: Result<Span<Value>, Span<Error>>)
    ensures
        match r {
            Ok(v) => sp_root(src.spec_bytes(), cfg.comma, !cfg.comma || cfg.trailing, cfg.cmnts)
                matches PRes::Parsed { node, .. } && node_matches(v, node),
            Err(e) => val_err(
                e,
                src.spec_bytes(),
                sp_root(src.spec_bytes(), cfg.comma, !cfg.comma || cfg.trailing, cfg.cmnts),
            ),
        },
{
    parse_bytes_with_config(src.as_bytes(), cfg)
}

/// Parses JSON and returns the comments passed over with the value: the
/// tree, the error, and the comment list (each comment's span, form and
/// text) are exactly the model's.
pub fn parse_with_comments(src: &str, cfg: &RTConfig) -> (r: Result<
    (Span<Value>, Vec<Comment>),
    Span<Error>,
>)
    ensures
        match r {
            Ok(p) => sp_root(src.spec_bytes(), cfg.comma, !cfg.comma || cfg.trailing, cfg.cmnts)
                matches PRes::Parsed { node, cmts, .. } && node_matches(p.0, node) && cmts_match(
                p.1@,
                cmts,
            ),
            Err(e) => val_err(
                e,
                src.spec_bytes(),
                sp_root(src.spec_bytes(), cfg.comma, !cfg.comma || cfg.trailing, cfg.cmnts),
            ),
        },
{
    let mut cmts: Vec<Comment> = Vec::new();
    let comma = cfg.comma();
    let trailing = cfg.trailing_comma();
    let cm = cfg.comments();
    match crate::parser::parse_root(src.as_bytes(), comma, !comma || trailing, cm, &mut cmts) {
        Ok(v) => {
            proof {
                let g = sp_root(
                    src.spec_bytes(),
                    cfg.comma,
                    !cfg.comma || cfg.trailing,
                    cfg.cmnts,
                )->Parsed_cmts;
                assert(cmts@.subrange(0, 0) =~= Seq::<Comment>::empty());
                assert(cmts@.subrange(0, cmts@.len() as int) =~= cmts@);
            }
            Ok((v, cmts))
        },
        Err(e) => Err(e),
    }
}

/// A parser bound to its options, as a reusable front end.
#[derive(Clone, Copy, Debug, PartialEq, Eq, Structural)]
pub struct Parser {
    pub comma: bool,
    pub trailing_comma: bool,
    pub comments: bool,
}

impl Parser {
    /// A parser that requires commas and, if asked, tolerates one trailing
    /// comma.
    pub fn new(comma: bool, trailing_comma: bool) -> (r: Parser)
        ensures
            r.comma == comma,
            r.trailing_comma == trailing_comma,
            !r.comments,
    {
        Parser { comma, trailing_comma, comments: false }
    }

    /// The same parser with comments treated as whitespace.
    pub fn allow_comments(self) -> (r: Parser)
        ensures
            r == (Parser { comments: true, ..self }),
    {
        Parser { comments: true, ..self }
    }

    /// Parses the source with this parser's options.
    pub fn parse(&self, src: &str) -> (r: Result<Span<Value>, Span<Error>>)
        ensures
            match r {
                Ok(v) => sp_root(
                    src.spec_bytes(),
                    self.comma,
                    !self.comma || self.trailing_comma,
                    self.comments,
                ) matches PRes::Parsed { node, .. } && node_matches(v, node),
                Err(e) => val_err(
                    e,
                    src.spec_bytes(),
                    sp_root(
                        src.spec_bytes(),
                        self.comma,
                        !self.comma || self.trailing_comma,
                        self.comments,
                    ),
                ),
            },
    {
        let mut cmts: Vec<Comment> = Vec::new();
        crate::parser::parse_root(
            src.as_bytes(),
            self.comma,
            !self.comma || self.trailing_comma,
            self.comments,
            &mut cmts,
        )
    }
}

/// Whatever follows the root value, other than whitespace, is rejected
/// with `UnexpectedToken`: when the model parses a value ending at `next`
/// and a byte below the input's end remains after the whitespace from
/// `next`, the whole parse fails there.
pub proof fn lemma_no_tail(s: Seq<u8>, comma: bool, trailing: bool, cmt: bool)
    requires
        crate::model::sp_value(s, comma, trailing, cmt, 0) is Parsed,
        crate::model::sp_ws(
            s,
            cmt,
            crate::model::sp_value(s, comma, trailing, cmt, 0)->Parsed_next,
        ).next < s.len(),
    ensures
        sp_root(s, comma, trailing, cmt) matches PRes::Fault { err, start, end }
            && err == Error::UnexpectedToken
            && start == crate::model::sp_ws(
                s,
                cmt,
                crate::model::sp_value(s, comma, trailing, cmt, 0)->Parsed_next,
            ).next
            && end == start + 1,
{
}

/// Parses JSON and returns, with the value, the source's line offsets and
/// the comments passed over, for editor-style consumers.
#[verifier::rlimit(100)]
#[verifier::spinoff_prover]
pub fn parse_with_metadata(src: &str, cfg: &RTConfig) -> (r: Result<
    (Span<Value>, crate::metadata::Metadata),
    Span<Error>,
>)
    ensures
        match r {
            Ok(p) => sp_root(src.spec_bytes(), cfg.comma, !cfg.comma || cfg.trailing, cfg.cmnts)
                matches PRes::Parsed { node, cmts, .. } && node_matches(p.0, node)
                && cmts_match(p.1.cmnts@, cmts) && crate::metadata::newline_table(
                src.spec_bytes(),
                p.1.lines@,
            ),
            Err(e) => val_err(
                e,
                src.spec_bytes(),
                sp_root(src.spec_bytes(), cfg.comma, !cfg.comma || cfg.trailing, cfg.cmnts),
            ),
        },
{
    let mut cmts: Vec<Comment> = Vec::new();
    let comma = cfg.comma();
    let trailing = cfg.trailing_comma();
    let cm = cfg.comments();
    let b = src.as_bytes();
    match crate::parser::parse_root(b, comma, !comma || trailing, cm, &mut cmts) {
        Ok(v) => {
            proof {
                assert(cmts@.subrange(0, 0) =~= Seq::<Comment>::empty());
                assert(cmts@.subrange(0, cmts@.len() as int) =~= cmts@);
            }
            let lines = crate::metadata::scan_newlines(b);
            Ok((v, crate::metadata::Metadata { lines, cmnts: cmts }))
        },
        Err(e) => Err(e),
    }
}

/// Order preservation: the keys of a parsed object, visited in order,
/// are exactly the model's keys, which the grammar gathers in source
/// order (duplicates retained).
pub proof fn lemma_order_preservation(v: Span<Value>, g: crate::model::GNode)
    requires
        node_matches(v, g),
        g.val is Obj,
    ensures
        v.data matches Value::Object(ob) && {
            let pairs = g.val->Obj_0;
            &&& ob.0@.len() == pairs.len()
            &&& forall|k: int| 0 <= k < pairs.len() ==> ob.0@[k].0.data@ == (
            #[trigger] pairs[k]).0.bytes
        },
{
    let pairs = g.val->Obj_0;
    match v.data {
        Value::Object(ob) => {
            assert(forall|k: int| 0 <= k < pairs.len() ==> crate::model::key_matches(
                ob.0@[k].0,
                (#[trigger] pairs[k]).0,
            ));
        },
        _ => {
            assert(false);
        },
    }
}

} // verus!
