//! Deferred materialization: a raw byte extent parsed on demand.

use vstd::prelude::*;

verus! {

use crate::comment::Comment;
use crate::error::Error;
use crate::model::sp_value;
use crate::span::Span;
use crate::value::Value;

/// A still-raw value: the source bytes and the offset its lexeme begins
/// at. Nothing is decoded until it is materialized.
#[derive(Clone, Copy, Debug, PartialEq, Eq)]
pub struct Raw<'a> {
    pub data: &'a [u8],
    pub start: usize,
}

impl<'a> Raw<'a> {
    /// A raw cell over the value that begins at `start`.
    pub fn new(data: &'a [u8], start: usize) -> (r: Raw<'a>)
        requires
            start <= data@.len(),
        ensures
            r.data == data,
            r.start == start,
    {
        Raw { data, start }
    }

    /// Parses the raw extent into a value, exactly as the model parses
    /// from `start`.
    pub fn materialize(&self, comma: bool, trailing: bool, cmt: bool) -> (r: Result<
        (Span<Value>, usize),
        Span<Error>,
    >)
        requires
            self.start <= self.data@.len(),
        ensures
            crate::model::vresult(r, self.data@, sp_value(
                self.data@,
                comma,
                trailing,
                cmt,
                self.start as int,
            )),
    {
        let mut cmts: Vec<Comment> = Vec::new();
        crate::parser::parse_value(self.data, comma, trailing, cmt, self.start, &mut cmts)
    }
}

/// A lazy object: the raw bytes and the offset of its `{`, with members
/// materialized only when queried and memoized so a repeated query does
/// not re-parse.
pub struct LazyObject<'a> {
    pub data: &'a [u8],
    pub start: usize,
    pub comma: bool,
    pub trailing: bool,
    pub cmt: bool,
    pub cache: Vec<(crate::value::JsonString, Span<Value>)>,
}

impl<'a> LazyObject<'a> {
    /// The value at `start` parses as an object, and every cached entry is
    /// the model's first member for its key.
    pub open spec fn wf(&self) -> bool {
        &&& self.start <= self.data@.len()
        &&& sp_value(self.data@, self.comma, self.trailing, self.cmt, self.start as int)
            is Parsed
        &&& sp_value(self.data@, self.comma, self.trailing, self.cmt, self.start as int)
            ->Parsed_node.val is Obj
        &&& (forall|k: int| 0 <= k < self.cache@.len()
            ==> (crate::pointer::gobj_first(
                sp_value(self.data@, self.comma, self.trailing, self.cmt, self.start as int)
                    ->Parsed_node.val->Obj_0,
                (#[trigger] self.cache@[k]).0@,
                0,
            ) matches Some(g) && crate::model::node_matches(self.cache@[k].1, g)))
    }

    /// The model's pairs of the object this cell covers.
    pub open spec fn pairs_spec(&self) -> Seq<(crate::model::GKey, crate::model::GNode)> {
        sp_value(self.data@, self.comma, self.trailing, self.cmt, self.start as int)
            ->Parsed_node.val->Obj_0
    }

    /// Validates the extent at `start` and takes it as a lazy object;
    /// anything but a well-formed object there is the error or `Ok(None)`
    /// for a value of another shape.
    pub fn new(
        data: &'a [u8],
        start: usize,
        comma: bool,
        trailing: bool,
        cmt: bool,
    ) -> (r: Result<Option<LazyObject<'a>>, Span<crate::error::Error>>)
        requires
            start <= data@.len(),
        ensures
            match r {
                Ok(Some(lo)) => lo.wf() && lo.data == data && lo.start == start && lo.comma
                    == comma && lo.trailing == trailing && lo.cmt == cmt && lo.cache@.len() == 0,
                Ok(None) => (sp_value(data@, comma, trailing, cmt, start as int) matches
                    crate::model::PRes::Parsed { node, .. } && !(node.val is Obj)),
                Err(e) => crate::model::val_err(
                    e,
                    data@,
                    sp_value(data@, comma, trailing, cmt, start as int),
                ),
            },
    {
        let mut cmts: Vec<Comment> = Vec::new();
        match crate::parser::parse_value(data, comma, trailing, cmt, start, &mut cmts) {
            Ok(p) => {
                let is_obj = p.0.data().is_object();
                proof {
                    let node = sp_value(data@, comma, trailing, cmt, start as int)->Parsed_node;
                    if is_obj {
                        assert(crate::model::val_matches(p.0.data, node.val));
                        if !(node.val is Obj) {
                            assert(false);
                        }
                    } else {
                        if node.val is Obj {
                            assert(crate::model::val_matches(p.0.data, node.val));
                        }
                    }
                }
                if is_obj {
                    Ok(
                        Some(
                            LazyObject {
                                data,
                                start,
                                comma,
                                trailing,
                                cmt,
                                cache: Vec::new(),
                            },
                        ),
                    )
                } else {
                    Ok(None)
                }
            },
            Err(e) => Err(e),
        }
    }

    /// The first member with the given key, from the cache when it was
    /// queried before, else materialized now and memoized; an undecidable
    /// number inside the object may surface as its overflow report.
    #[verifier::rlimit(100)]
    #[verifier::spinoff_prover]
    pub fn get(&mut self, key: &[u8]) -> (r: Result<
        Option<&Span<Value>>,
        Span<crate::error::Error>,
    >)
        requires
            old(self).wf(),
        ensures
            final(self).wf(),
            final(self).data == old(self).data,
            final(self).start == old(self).start,
            final(self).comma == old(self).comma,
            final(self).trailing == old(self).trailing,
            final(self).cmt == old(self).cmt,
            match r {
                Ok(Some(x)) => crate::pointer::gobj_first(old(self).pairs_spec(), key@, 0)
                    matches Some(g) && crate::model::node_matches(*x, g),
                Ok(None) => crate::pointer::gobj_first(old(self).pairs_spec(), key@, 0) is None,
                Err(e) => crate::model::hard_overflow_at(old(self).data@, e),
            },
    {
        let m = self.cache.len();
        let mut j: usize = 0;
        while j < m
            invariant
                0 <= j <= m,
                m == self.cache@.len(),
                self.wf(),
                *self == *old(self),
            decreases m - j,
        {
            if self.cache[j].0.eq_bytes(key) {
                return Ok(Some(&self.cache[j].1));
            }
            j = j + 1;
        }
        // miss: materialize this member and memoize it
        let mut cmts: Vec<Comment> = Vec::new();
        let parsed = match crate::parser::parse_value(
            self.data,
            self.comma,
            self.trailing,
            self.cmt,
            self.start,
            &mut cmts,
        ) {
            Ok(p) => p.0,
            Err(e) => {
                return Err(e);
            },
        };
        let Span { data: pv, start: ps, end: pe } = parsed;
        match pv {
            Value::Object(mut ob) => {
                let ghost gpairs = self.pairs_spec();
                match crate::pointer::obj_index(&ob, key) {
                    Some(k) => {
                        proof {
                            assert(crate::model::key_matches(
                                ob.0@[k as int].0,
                                gpairs[k as int].0,
                            ));
                            assert(forall|t: int| 0 <= t < k ==> (#[trigger] gpairs[t]).0.bytes
                                != key@) by {
                                assert(forall|t: int| 0 <= t < gpairs.len()
                                    ==> crate::model::key_matches(
                                    ob.0@[t].0,
                                    (#[trigger] gpairs[t]).0,
                                ));
                            }
                            crate::pointer::lemma_gobj_first_at(gpairs, key@, 0, k as int);
                        }
                        let pair = ob.0.remove(k);
                        let ghost pre = self.cache@;
                        self.cache.push((crate::value::JsonString::from_slice(key), pair.1));
                        proof {
                            assert(forall|t: int| 0 <= t < pre.len() ==> self.cache@[t]
                                == pre[t]);
                            assert(self.cache@[pre.len() as int].0@ == key@);
                        }
                        let last = self.cache.len() - 1;
                        Ok(Some(&self.cache[last].1))
                    },
                    None => {
                        proof {
                            assert(forall|t: int| 0 <= t < gpairs.len()
                                ==> (#[trigger] gpairs[t]).0.bytes != key@) by {
                                assert(forall|t: int| 0 <= t < gpairs.len()
                                    ==> crate::model::key_matches(
                                    ob.0@[t].0,
                                    (#[trigger] gpairs[t]).0,
                                ));
                            }
                            crate::pointer::lemma_gobj_first_none(gpairs, key@, 0);
                        }
                        Ok(None)
                    },
                }
            },
            _ => {
                proof {
                    let node = sp_value(
                        self.data@,
                        self.comma,
                        self.trailing,
                        self.cmt,
                        self.start as int,
                    )->Parsed_node;
                    assert(crate::model::val_matches(pv, node.val));
                    assert(false);
                }
                Ok(None)
            },
        }
    }
}

} // verus!
