//! The bridge's JSON value model.
//!
//! Request envelopes are built from these values and response envelopes are
//! decoded into them. Numbers are either integers (`Int`) or, for values the
//! integer form cannot hold (fractions, exponents, out-of-range magnitudes),
//! the exact number literal kept as text (`Num`). Strings are carried as
//! their raw UTF-8 content bytes; the codec never needs to decode them.

use vstd::prelude::*;
use vstd::string::StringSliceAdditionalSpecFns;

verus! {

/// An executable JSON value.
#[derive(Debug, PartialEq, Eq)]
pub enum Json {
    Null,
    Bool(bool),
    Int(i64),
    /// A number literal kept as its exact text, for numbers `Int` cannot hold.
    Num(Vec<u8>),
    /// String content as raw bytes, unescaped.
    Str(Vec<u8>),
    Arr(Vec<Json>),
    Obj(Vec<(Vec<u8>, Json)>),
}

/// The mathematical shadow of `Json`: sequences in place of vectors,
/// unbounded integers in place of machine ones.
pub enum Jv {
    Null,
    Bool(bool),
    Int(int),
    Num(Seq<u8>),
    Str(Seq<u8>),
    Arr(Seq<Jv>),
    Obj(Seq<(Seq<u8>, Jv)>),
}

pub open spec fn view_of_json(j: Json) -> Jv
    decreases j,
{
    match j {
        Json::Null => Jv::Null,
        Json::Bool(b) => Jv::Bool(b),
        Json::Int(i) => Jv::Int(i as int),
        Json::Num(s) => Jv::Num(s@),
        Json::Str(s) => Jv::Str(s@),
        Json::Arr(es) => Jv::Arr(views_of_elems(es@)),
        Json::Obj(ps) => Jv::Obj(views_of_pairs(ps@)),
    }
}

pub open spec fn views_of_elems(s: Seq<Json>) -> Seq<Jv>
    decreases s,
{
    if s.len() == 0 {
        Seq::empty()
    } else {
        views_of_elems(s.drop_last()).push(view_of_json(s.last()))
    }
}

pub open spec fn views_of_pairs(s: Seq<(Vec<u8>, Json)>) -> Seq<(Seq<u8>, Jv)>
    decreases s,
{
    if s.len() == 0 {
        Seq::empty()
    } else {
        views_of_pairs(s.drop_last()).push((s.last().0@, view_of_json(s.last().1)))
    }
}

impl View for Json {
    type V = Jv;

    open spec fn view(&self) -> Jv {
        view_of_json(*self)
    }
}

pub proof fn views_of_elems_props(s: Seq<Json>)
    ensures
        views_of_elems(s).len() == s.len(),
        forall|i: int| 0 <= i < s.len() ==> views_of_elems(s)[i] == #[trigger] s[i]@,
    decreases s,
{
    if s.len() > 0 {
        views_of_elems_props(s.drop_last());
        assert forall|i: int| 0 <= i < s.len() implies views_of_elems(s)[i] == #[trigger] s[i]@ by {
            if i < s.len() - 1 {
                assert(views_of_elems(s)[i] == views_of_elems(s.drop_last())[i]);
                assert(s.drop_last()[i] == s[i]);
            } else {
                assert(s.last() == s[i]);
            }
        }
    }
}

pub proof fn views_of_pairs_props(s: Seq<(Vec<u8>, Json)>)
    ensures
        views_of_pairs(s).len() == s.len(),
        forall|i: int| 0 <= i < s.len() ==> views_of_pairs(s)[i] == (#[trigger] s[i].0@, s[i].1@),
    decreases s,
{
    if s.len() > 0 {
        views_of_pairs_props(s.drop_last());
        assert forall|i: int| 0 <= i < s.len() implies views_of_pairs(s)[i] == (
        #[trigger] s[i].0@,
        s[i].1@,
        ) by {
            if i < s.len() - 1 {
                assert(views_of_pairs(s)[i] == views_of_pairs(s.drop_last())[i]);
                assert(s.drop_last()[i] == s[i]);
            } else {
                assert(s.last() == s[i]);
            }
        }
    }
}



/// The UTF-8 bytes of a string slice.
pub fn str_bytes(s: &str) -> (r: Vec<u8>)
    ensures
        r@ == s.spec_bytes(),
{
    vstd::slice::slice_to_vec(s.as_bytes())
}

/// Append the bytes of `src` to `dst`.
pub fn append_bytes(dst: &mut Vec<u8>, src: &Vec<u8>)
    ensures
        final(dst)@ == old(dst)@ + src@,
{
    let n = src.len();
    let mut i: usize = 0;
    while i < n
        invariant
            i <= n,
            n == src@.len(),
            dst@ == old(dst)@ + src@.take(i as int),
        decreases n - i,
    {
        dst.push(src[i]);
        proof {
            assert(old(dst)@ + src@.take(i as int) + seq![src@[i as int]] =~= old(dst)@ + src@.take(
                i + 1,
            ));
        }
        i = i + 1;
    }
    proof {
        assert(src@.take(n as int) =~= src@);
    }
}

/// Copy a byte vector.
pub fn clone_bytes(v: &Vec<u8>) -> (r: Vec<u8>)
    ensures
        r@ == v@,
{
    let mut r: Vec<u8> = Vec::new();
    let n = v.len();
    let mut i: usize = 0;
    while i < n
        invariant
            i <= n,
            n == v@.len(),
            r@ == v@.take(i as int),
        decreases n - i,
    {
        r.push(v[i]);
        proof {
            assert(v@.take(i as int).push(v@[i as int]) =~= v@.take(i + 1));
        }
        i = i + 1;
    }
    proof {
        assert(v@.take(n as int) =~= v@);
    }
    r
}

/// Deep copy of a value.
pub fn clone_json(j: &Json) -> (r: Json)
    ensures
        r@ == j@,
    decreases j,
{
    match j {
        Json::Null => Json::Null,
        Json::Bool(b) => Json::Bool(*b),
        Json::Int(i) => Json::Int(*i),
        Json::Num(s) => Json::Num(clone_bytes(s)),
        Json::Str(s) => Json::Str(clone_bytes(s)),
        Json::Arr(es) => {
            let mut out: Vec<Json> = Vec::new();
            let n = es.len();
            let mut k: usize = 0;
            while k < n
                invariant
                    k <= n,
                    n == es@.len(),
                    j is Arr && j->Arr_0 == *es,
                    out@.len() == k,
                    forall|m: int| 0 <= m < k ==> (#[trigger] out@[m])@ == es@[m]@,
                decreases n - k,
            {
                proof {
                    assert(decreases_to!(*j => j->Arr_0));
                    assert(decreases_to!(*es => es@));
                    assert(decreases_to!(es@ => es@[k as int]));
                }
                let c = clone_json(&es[k]);
                out.push(c);
                k = k + 1;
            }
            proof {
                views_of_elems_props(out@);
                views_of_elems_props(es@);
                assert forall|m: int| 0 <= m < n implies views_of_elems(out@)[m] == views_of_elems(
                    es@,
                )[m] by {
                    assert(out@[m]@ == es@[m]@);
                }
                assert(views_of_elems(out@) =~= views_of_elems(es@));
            }
            Json::Arr(out)
        },
        Json::Obj(ps) => {
            let mut out: Vec<(Vec<u8>, Json)> = Vec::new();
            let n = ps.len();
            let mut k: usize = 0;
            while k < n
                invariant
                    k <= n,
                    n == ps@.len(),
                    j is Obj && j->Obj_0 == *ps,
                    out@.len() == k,
                    forall|m: int| 0 <= m < k ==> (#[trigger] out@[m]).0@ == ps@[m].0@
                        && out@[m].1@ == ps@[m].1@,
                decreases n - k,
            {
                proof {
                    assert(decreases_to!(*j => j->Obj_0));
                    assert(decreases_to!(*ps => ps@));
                    assert(decreases_to!(ps@ => ps@[k as int]));
                    assert(decreases_to!(ps@[k as int] => ps@[k as int].1));
                }
                let key = clone_bytes(&ps[k].0);
                let val = clone_json(&ps[k].1);
                out.push((key, val));
                k = k + 1;
            }
            proof {
                views_of_pairs_props(out@);
                views_of_pairs_props(ps@);
                assert forall|m: int| 0 <= m < n implies views_of_pairs(out@)[m] == views_of_pairs(
                    ps@,
                )[m] by {
                    assert(out@[m].0@ == ps@[m].0@ && out@[m].1@ == ps@[m].1@);
                }
                assert(views_of_pairs(out@) =~= views_of_pairs(ps@));
            }
            Json::Obj(out)
        },
    }
}

/// Well-formedness of a value: integers fit the machine type, and a `Num`
/// holds a valid JSON number literal that the `Int` form could not hold
/// (so the two forms never describe the same number).
pub open spec fn wf(v: Jv) -> bool
    decreases v,
{
    match v {
        Jv::Null => true,
        Jv::Bool(_) => true,
        Jv::Int(i) => i64::MIN <= i <= i64::MAX,
        Jv::Num(s) => crate::lex::is_num_lexeme(s) && !crate::encode::is_i64_lexeme(s),
        Jv::Str(_) => true,
        Jv::Arr(es) => forall|i: int| 0 <= i < es.len() ==> wf(#[trigger] es[i]),
        Jv::Obj(ps) => forall|i: int| 0 <= i < ps.len() ==> wf(#[trigger] ps[i].1),
    }
}

} // verus!
