//! Path components for descending into a document.

use vstd::prelude::*;
use vstd::string::StringSliceAdditionalSpecFns;

verus! {

/// One step of a path: an object key or an array index.
#[derive(Clone, Copy, Debug, PartialEq, Eq)]
pub enum Pointer<'a> {
    /// Selects the first member with this key.
    Key(&'a str),
    /// Selects the element at this position.
    Index(usize),
}

/// A type that can act as one step of a path.
pub trait JsonPointer {
    /// The key selected, if the step names an object member.
    spec fn spec_key(&self) -> Option<Seq<char>>;

    /// The index selected, if the step names an array element.
    spec fn spec_index(&self) -> Option<usize>;

    /// The key selected, if the step names an object member.
    fn as_key(&self) -> (r: Option<&str>)
        ensures
            match r {
                Some(s) => self.spec_key() == Some(s@),
                None => self.spec_key() is None,
            },
    ;

    /// The index selected, if the step names an array element.
    fn as_index(&self) -> (r: Option<usize>)
        ensures
            r == self.spec_index(),
    ;
}

impl<'a> JsonPointer for Pointer<'a> {
    open spec fn spec_key(&self) -> Option<Seq<char>> {
        match *self {
            Pointer::Key(s) => Some(s@),
            _ => None,
        }
    }

    open spec fn spec_index(&self) -> Option<usize> {
        match *self {
            Pointer::Index(v) => Some(v),
            _ => None,
        }
    }

    fn as_key(&self) -> (r: Option<&str>) {
        match self {
            Pointer::Key(s) => Some(s),
            _ => None,
        }
    }

    fn as_index(&self) -> (r: Option<usize>) {
        match self {
            Pointer::Index(v) => Some(*v),
            _ => None,
        }
    }
}

impl JsonPointer for usize {
    open spec fn spec_key(&self) -> Option<Seq<char>> {
        None
    }

    open spec fn spec_index(&self) -> Option<usize> {
        Some(*self)
    }

    fn as_key(&self) -> (r: Option<&str>) {
        None
    }

    fn as_index(&self) -> (r: Option<usize>) {
        Some(*self)
    }
}

/// The first member of `pairs`, from `j` on, whose key holds the bytes
/// `keyb`.
pub open spec fn obj_first(
    pairs: Seq<(crate::span::Span<crate::value::JsonString>, crate::span::Span<crate::value::Value>)>,
    keyb: Seq<u8>,
    j: int,
) -> Option<crate::span::Span<crate::value::Value>>
    decreases pairs.len() - j,
{
    if !(0 <= j < pairs.len()) {
        None
    } else if pairs[j].0.data@ == keyb {
        Some(pairs[j].1)
    } else {
        obj_first(pairs, keyb, j + 1)
    }
}

/// Descending from `v` along `path[i..]`: a key selects the first member
/// with that key (compared as UTF-8 bytes), an index the element at that
/// position; a mismatch of shape, a missing key or an index out of range
/// yields nothing.
pub open spec fn sp_pointer<'a>(
    v: crate::span::Span<crate::value::Value>,
    path: Seq<Pointer<'a>>,
    i: int,
) -> Option<crate::span::Span<crate::value::Value>>
    decreases path.len() - i,
{
    if !(0 <= i < path.len()) {
        Some(v)
    } else {
        match path[i] {
            Pointer::Key(s) => match v.data {
                crate::value::Value::Object(ob) => match obj_first(ob.0@, s.spec_bytes(), 0) {
                    Some(child) => sp_pointer(child, path, i + 1),
                    None => None,
                },
                _ => None,
            },
            Pointer::Index(n) => match v.data {
                crate::value::Value::Array(xs) => if n < xs@.len() {
                    sp_pointer(xs@[n as int], path, i + 1)
                } else {
                    None
                },
                _ => None,
            },
        }
    }
}

/// The first member of the object whose key holds the bytes `kb`.
fn obj_lookup<'b>(
    ob: &'b crate::value::Object,
    kb: &[u8],
) -> (r: Option<&'b crate::span::Span<crate::value::Value>>)
    ensures
        match r {
            Some(x) => obj_first(ob.0@, kb@, 0) == Some(*x),
            None => obj_first(ob.0@, kb@, 0) is None,
        },
{
    let m = ob.0.len();
    let mut j: usize = 0;
    while j < m
        invariant
            0 <= j <= m,
            m == ob.0@.len(),
            obj_first(ob.0@, kb@, 0) == obj_first(ob.0@, kb@, j as int),
        decreases m - j,
    {
        if ob.0[j].0.data.eq_bytes(kb) {
            proof {
                assert(obj_first(ob.0@, kb@, j as int) == Some(ob.0@[j as int].1));
            }
            return Some(&ob.0[j].1);
        }
        proof {
            assert(obj_first(ob.0@, kb@, j as int) == obj_first(ob.0@, kb@, j + 1));
        }
        j = j + 1;
    }
    None
}

impl crate::span::Span<crate::value::Value> {
    /// Descends along the path without copying: a key selects the first
    /// member with that key, an index the element at that position.
    pub fn pointer<'b, 'a>(&'b self, path: &[Pointer<'a>]) -> (r: Option<
        &'b crate::span::Span<crate::value::Value>,
    >)
        ensures
            match r {
                Some(x) => sp_pointer(*self, path@, 0) == Some(*x),
                None => sp_pointer(*self, path@, 0) is None,
            },
    {
        let n = path.len();
        let mut cur: &crate::span::Span<crate::value::Value> = self;
        let mut i: usize = 0;
        while i < n
            invariant
                0 <= i <= n,
                n == path@.len(),
                sp_pointer(*self, path@, 0) == sp_pointer(*cur, path@, i as int),
            decreases n - i,
        {
            let step = path[i];
            match step {
                Pointer::Key(s) => {
                    match &cur.data {
                        crate::value::Value::Object(ob) => {
                            match obj_lookup(ob, s.as_bytes()) {
                                Some(child) => {
                                    proof {
                                        assert(sp_pointer(*cur, path@, i as int) == sp_pointer(
                                            *child,
                                            path@,
                                            i + 1,
                                        ));
                                    }
                                    cur = child;
                                },
                                None => {
                                    proof {
                                        assert(sp_pointer(*cur, path@, i as int) is None);
                                    }
                                    return None;
                                },
                            }
                        },
                        _ => {
                            proof {
                                assert(sp_pointer(*cur, path@, i as int) is None);
                            }
                            return None;
                        },
                    }
                },
                Pointer::Index(k) => {
                    match &cur.data {
                        crate::value::Value::Array(xs) => {
                            if k < xs.len() {
                                proof {
                                    assert(sp_pointer(*cur, path@, i as int) == sp_pointer(
                                        xs@[k as int],
                                        path@,
                                        i + 1,
                                    ));
                                }
                                cur = &xs[k];
                            } else {
                                proof {
                                    assert(sp_pointer(*cur, path@, i as int) is None);
                                }
                                return None;
                            }
                        },
                        _ => {
                            proof {
                                assert(sp_pointer(*cur, path@, i as int) is None);
                            }
                            return None;
                        },
                    }
                },
            }
            i = i + 1;
        }
        Some(cur)
    }
}

/// The first member of the model's pairs, from `j` on, whose key holds
/// the bytes `keyb`.
pub open spec fn gobj_first(
    pairs: Seq<(crate::model::GKey, crate::model::GNode)>,
    keyb: Seq<u8>,
    j: int,
) -> Option<crate::model::GNode>
    decreases pairs.len() - j,
{
    if !(0 <= j < pairs.len()) {
        None
    } else if pairs[j].0.bytes == keyb {
        Some(pairs[j].1)
    } else {
        gobj_first(pairs, keyb, j + 1)
    }
}

/// Descending from the model node `g` along `path[i..]`, with the same
/// steps as [`sp_pointer`].
pub open spec fn sp_gpointer<'a>(
    g: crate::model::GNode,
    path: Seq<Pointer<'a>>,
    i: int,
) -> Option<crate::model::GNode>
    decreases path.len() - i,
{
    if !(0 <= i < path.len()) {
        Some(g)
    } else {
        match path[i] {
            Pointer::Key(s) => match g.val {
                crate::model::GVal::Obj(pairs) => match gobj_first(pairs, s.spec_bytes(), 0) {
                    Some(child) => sp_gpointer(child, path, i + 1),
                    None => None,
                },
                _ => None,
            },
            Pointer::Index(n) => match g.val {
                crate::model::GVal::Arr(items) => if n < items.len() {
                    sp_gpointer(items[n as int], path, i + 1)
                } else {
                    None
                },
                _ => None,
            },
        }
    }
}

/// The first match at `k` characterizes `gobj_first`.
pub(crate) proof fn lemma_gobj_first_at(
    pairs: Seq<(crate::model::GKey, crate::model::GNode)>,
    keyb: Seq<u8>,
    j: int,
    k: int,
)
    requires
        0 <= j <= k < pairs.len(),
        pairs[k].0.bytes == keyb,
        forall|t: int| j <= t < k ==> (#[trigger] pairs[t]).0.bytes != keyb,
    ensures
        gobj_first(pairs, keyb, j) == Some(pairs[k].1),
    decreases k - j,
{
    if j < k {
        lemma_gobj_first_at(pairs, keyb, j + 1, k);
    }
}

/// No match anywhere characterizes `gobj_first`.
pub(crate) proof fn lemma_gobj_first_none(
    pairs: Seq<(crate::model::GKey, crate::model::GNode)>,
    keyb: Seq<u8>,
    j: int,
)
    requires
        0 <= j,
        forall|t: int| j <= t < pairs.len() ==> (#[trigger] pairs[t]).0.bytes != keyb,
    ensures
        gobj_first(pairs, keyb, j) is None,
    decreases pairs.len() - j,
{
    if j < pairs.len() {
        lemma_gobj_first_none(pairs, keyb, j + 1);
    }
}

/// The index of the first member of the object whose key holds the bytes
/// `kb`.
pub(crate) fn obj_index(ob: &crate::value::Object, kb: &[u8]) -> (r: Option<usize>)
    ensures
        match r {
            Some(k) => k < ob.0@.len() && ob.0@[k as int].0.data@ == kb@ && (forall|j: int|
                0 <= j < k ==> ob.0@[j].0.data@ != kb@),
            None => forall|j: int| 0 <= j < ob.0@.len() ==> ob.0@[j].0.data@ != kb@,
        },
{
    let m = ob.0.len();
    let mut j: usize = 0;
    while j < m
        invariant
            0 <= j <= m,
            m == ob.0@.len(),
            forall|t: int| 0 <= t < j ==> ob.0@[t].0.data@ != kb@,
        decreases m - j,
    {
        if ob.0[j].0.data.eq_bytes(kb) {
            return Some(j);
        }
        j = j + 1;
    }
    None
}

/// Parses the input and descends to the path's target, handing out that
/// value alone: a key selects the first member with that key, an index
/// the element at that position. `Ok(None)` reports a path the parsed
/// document does not resolve.
#[verifier::rlimit(100)]
#[verifier::spinoff_prover]
pub fn get_from<'a>(
    s: &[u8],
    path: &[Pointer<'a>],
    comma: bool,
    trailing: bool,
    cmt: bool,
) -> (r: Result<Option<crate::span::Span<crate::value::Value>>, crate::span::Span<crate::error::Error>>)
    ensures
        match r {
            Ok(opt) => crate::model::sp_root(s@, comma, trailing, cmt)
                matches crate::model::PRes::Parsed { node, .. } && (match opt {
                Some(x) => sp_gpointer(node, path@, 0) matches Some(t)
                    && crate::model::node_matches(x, t),
                None => sp_gpointer(node, path@, 0) is None,
            }),
            Err(e) => crate::model::val_err(e, s@, crate::model::sp_root(s@, comma, trailing, cmt)),
        },
{
    let mut cmts: Vec<crate::comment::Comment> = Vec::new();
    let root = match crate::parser::parse_root(s, comma, trailing, cmt, &mut cmts) {
        Ok(v) => v,
        Err(e) => {
            return Err(e);
        },
    };
    let ghost g0 = crate::model::sp_root(s@, comma, trailing, cmt)->Parsed_node;
    let n = path.len();
    let mut cur = root;
    let ghost mut gcur = g0;
    let mut i: usize = 0;
    while i < n
        invariant
            0 <= i <= n,
            n == path@.len(),
            crate::model::sp_root(s@, comma, trailing, cmt) is Parsed,
            g0 == crate::model::sp_root(s@, comma, trailing, cmt)->Parsed_node,
            crate::model::node_matches(cur, gcur),
            sp_gpointer(g0, path@, 0) == sp_gpointer(gcur, path@, i as int),
        decreases n - i,
    {
        let step = path[i];
        let crate::span::Span { data, start, end } = cur;
        match step {
            Pointer::Key(strkey) => {
                match data {
                    crate::value::Value::Object(mut ob) => {
                        let ghost gpairs = gcur.val->Obj_0;
                        match obj_index(&ob, strkey.as_bytes()) {
                            Some(k) => {
                                proof {
                                    assert(crate::model::key_matches(
                                        ob.0@[k as int].0,
                                        gpairs[k as int].0,
                                    ));
                                    assert(forall|t: int| 0 <= t < k
                                        ==> (#[trigger] gpairs[t]).0.bytes
                                        != strkey.spec_bytes()) by {
                                        assert(forall|t: int| 0 <= t < gpairs.len()
                                            ==> crate::model::key_matches(
                                            ob.0@[t].0,
                                            (#[trigger] gpairs[t]).0,
                                        ));
                                    }
                                    lemma_gobj_first_at(
                                        gpairs,
                                        strkey.spec_bytes(),
                                        0,
                                        k as int,
                                    );
                                }
                                let pair = ob.0.remove(k);
                                proof {
                                    assert(sp_gpointer(gcur, path@, i as int) == sp_gpointer(
                                        gpairs[k as int].1,
                                        path@,
                                        i + 1,
                                    ));
                                    gcur = gpairs[k as int].1;
                                }
                                cur = pair.1;
                            },
                            None => {
                                proof {
                                    assert(gcur.val is Obj);
                                    assert(forall|t: int| 0 <= t < gpairs.len()
                                        ==> (#[trigger] gpairs[t]).0.bytes
                                        != strkey.spec_bytes()) by {
                                        assert(forall|t: int| 0 <= t < gpairs.len()
                                            ==> crate::model::key_matches(
                                            ob.0@[t].0,
                                            (#[trigger] gpairs[t]).0,
                                        ));
                                    }
                                    lemma_gobj_first_none(gpairs, strkey.spec_bytes(), 0);
                                    assert(sp_gpointer(gcur, path@, i as int) is None);
                                }
                                return Ok(None);
                            },
                        }
                    },
                    _ => {
                        proof {
                            assert(!(gcur.val is Obj)) by {
                                if gcur.val is Obj {
                                    assert(crate::model::val_matches(data, gcur.val));
                                }
                            }
                            assert(sp_gpointer(gcur, path@, i as int) is None);
                        }
                        return Ok(None);
                    },
                }
            },
            Pointer::Index(k) => {
                match data {
                    crate::value::Value::Array(mut xs) => {
                        let ghost gitems = gcur.val->Arr_0;
                        if k < xs.len() {
                            let x = xs.remove(k);
                            proof {
                                assert(crate::model::node_matches(x, gitems[k as int]));
                                assert(sp_gpointer(gcur, path@, i as int) == sp_gpointer(
                                    gitems[k as int],
                                    path@,
                                    i + 1,
                                ));
                                gcur = gitems[k as int];
                            }
                            cur = x;
                        } else {
                            proof {
                                assert(gcur.val is Arr);
                                assert(gitems.len() == xs@.len());
                                assert(sp_gpointer(gcur, path@, i as int) is None);
                            }
                            return Ok(None);
                        }
                    },
                    _ => {
                        proof {
                            assert(!(gcur.val is Arr)) by {
                                if gcur.val is Arr {
                                    assert(crate::model::val_matches(data, gcur.val));
                                }
                            }
                            assert(sp_gpointer(gcur, path@, i as int) is None);
                        }
                        return Ok(None);
                    },
                }
            },
        }
        i = i + 1;
    }
    Ok(Some(cur))
}

} // verus!
