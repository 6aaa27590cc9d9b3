//! Request builders: one per operation that sends arguments.
//!
//! Each builder normalizes its caller's arguments exactly as the command
//! surface declares — applying the declared defaults, writing `null` for
//! absent optional arguments the worker expects to see, and omitting the
//! keys the worker treats as purely optional — and states the resulting
//! envelope value member for member.

use vstd::prelude::*;
use vstd::string::StringSliceAdditionalSpecFns;

use crate::value::{str_bytes, views_of_elems, views_of_elems_props, views_of_pairs, wf, Json, Jv};

verus! {

/// An optional string argument sent as `null` when absent.
pub open spec fn opt_str_value(o: Option<Vec<u8>>) -> Jv {
    match o {
        Option::Some(s) => Jv::Str(s@),
        Option::None => Jv::Null,
    }
}

/// An optional integer argument sent as `null` when absent.
pub open spec fn opt_int_value(o: Option<i64>) -> Jv {
    match o {
        Option::Some(i) => Jv::Int(i as int),
        Option::None => Jv::Null,
    }
}

/// An optional structured argument sent as `null` when absent.
pub open spec fn opt_json_value(o: Option<Json>) -> Jv {
    match o {
        Option::Some(j) => j@,
        Option::None => Jv::Null,
    }
}

/// An optional integer argument with a declared default.
pub open spec fn int_or_value(o: Option<i64>, d: int) -> Jv {
    match o {
        Option::Some(i) => Jv::Int(i as int),
        Option::None => Jv::Int(d),
    }
}

/// An optional boolean argument with a declared default.
pub open spec fn bool_or_value(o: Option<bool>, d: bool) -> Jv {
    match o {
        Option::Some(b) => Jv::Bool(b),
        Option::None => Jv::Bool(d),
    }
}

/// An optional string argument with a declared default.
pub open spec fn str_or_value(o: Option<Vec<u8>>, d: Seq<u8>) -> Jv {
    match o {
        Option::Some(s) => Jv::Str(s@),
        Option::None => Jv::Str(d),
    }
}

/// A list of strings as an array value.
pub open spec fn str_list_value(l: Seq<Vec<u8>>) -> Jv {
    Jv::Arr(Seq::new(l.len(), |i: int| Jv::Str(l[i]@)))
}

/// A list of integers as an array value.
pub open spec fn int_list_value(l: Seq<i64>) -> Jv {
    Jv::Arr(Seq::new(l.len(), |i: int| Jv::Int(l[i] as int)))
}

/// An optional list of strings sent as `null` when absent.
pub open spec fn opt_str_list_value(o: Option<Vec<Vec<u8>>>) -> Jv {
    match o {
        Option::Some(l) => str_list_value(l@),
        Option::None => Jv::Null,
    }
}

/// A member present only when the argument is.
pub open spec fn maybe_str_arg(key: Seq<u8>, o: Option<Vec<u8>>) -> Seq<(Seq<u8>, Jv)> {
    match o {
        Option::Some(s) => seq![(key, Jv::Str(s@))],
        Option::None => Seq::empty(),
    }
}

/// A member present only when the argument is.
pub open spec fn maybe_bool_arg(key: Seq<u8>, o: Option<bool>) -> Seq<(Seq<u8>, Jv)> {
    match o {
        Option::Some(b) => seq![(key, Jv::Bool(b))],
        Option::None => Seq::empty(),
    }
}

/// A member present only when the argument is.
pub open spec fn maybe_int_arg(key: Seq<u8>, o: Option<i64>) -> Seq<(Seq<u8>, Jv)> {
    match o {
        Option::Some(i) => seq![(key, Jv::Int(i as int))],
        Option::None => Seq::empty(),
    }
}

/// A member present only when the argument is.
pub open spec fn maybe_int_list_arg(key: Seq<u8>, o: Option<Vec<i64>>) -> Seq<(Seq<u8>, Jv)> {
    match o {
        Option::Some(l) => seq![(key, int_list_value(l@))],
        Option::None => Seq::empty(),
    }
}


proof fn wf_int_list(l: Seq<i64>)
    ensures
        wf(int_list_value(l)),
{
    let t = Seq::new(l.len(), |i: int| Jv::Int(l[i] as int));
    assert forall|i: int| 0 <= i < t.len() implies wf(#[trigger] t[i]) by {
        assert(t[i] == Jv::Int(l[i] as int));
    }
}

proof fn wf_str_list(l: Seq<Vec<u8>>)
    ensures
        wf(str_list_value(l)),
{
    let t = Seq::new(l.len(), |i: int| Jv::Str(l[i]@));
    assert forall|i: int| 0 <= i < t.len() implies wf(#[trigger] t[i]) by {
        assert(t[i] == Jv::Str(l[i]@));
    }
}

fn push_arg(ps: &mut Vec<(Vec<u8>, Json)>, key: &str, v: Json)
    ensures
        views_of_pairs(final(ps)@) == views_of_pairs(old(ps)@) + seq![(key.spec_bytes(), v@)],
{
    ps.push((str_bytes(key), v));
    proof {
        assert(ps@.drop_last() =~= old(ps)@);
        assert(views_of_pairs(ps@) == views_of_pairs(old(ps)@).push((key.spec_bytes(), v@)));
        assert(views_of_pairs(old(ps)@).push((key.spec_bytes(), v@)) =~= views_of_pairs(old(ps)@)
            + seq![(key.spec_bytes(), v@)]);
    }
}

fn push_maybe_str(ps: &mut Vec<(Vec<u8>, Json)>, key: &str, o: Option<Vec<u8>>)
    ensures
        views_of_pairs(final(ps)@) == views_of_pairs(old(ps)@) + maybe_str_arg(
            key.spec_bytes(),
            o,
        ),
{
    match o {
        Option::Some(s) => push_arg(ps, key, Json::Str(s)),
        Option::None => {
            proof {
                assert(views_of_pairs(ps@) + Seq::<(Seq<u8>, Jv)>::empty() =~= views_of_pairs(
                    ps@,
                ));
            }
        },
    }
}

fn push_maybe_bool(ps: &mut Vec<(Vec<u8>, Json)>, key: &str, o: Option<bool>)
    ensures
        views_of_pairs(final(ps)@) == views_of_pairs(old(ps)@) + maybe_bool_arg(
            key.spec_bytes(),
            o,
        ),
{
    match o {
        Option::Some(b) => push_arg(ps, key, Json::Bool(b)),
        Option::None => {
            proof {
                assert(views_of_pairs(ps@) + Seq::<(Seq<u8>, Jv)>::empty() =~= views_of_pairs(
                    ps@,
                ));
            }
        },
    }
}

fn push_maybe_int(ps: &mut Vec<(Vec<u8>, Json)>, key: &str, o: Option<i64>)
    ensures
        views_of_pairs(final(ps)@) == views_of_pairs(old(ps)@) + maybe_int_arg(
            key.spec_bytes(),
            o,
        ),
{
    match o {
        Option::Some(i) => push_arg(ps, key, Json::Int(i)),
        Option::None => {
            proof {
                assert(views_of_pairs(ps@) + Seq::<(Seq<u8>, Jv)>::empty() =~= views_of_pairs(
                    ps@,
                ));
            }
        },
    }
}

fn int_list_json(l: Vec<i64>) -> (r: Json)
    ensures
        r@ == int_list_value(l@),
{
    let mut out: Vec<Json> = Vec::new();
    let n = l.len();
    let mut k: usize = 0;
    while k < n
        invariant
            k <= n,
            n == l@.len(),
            out@.len() == k,
            forall|m: int| 0 <= m < k ==> (#[trigger] out@[m]) == Json::Int(l@[m]),
        decreases n - k,
    {
        out.push(Json::Int(l[k]));
        k = k + 1;
    }
    proof {
        views_of_elems_props(out@);
        let t = Seq::new(l@.len(), |i: int| Jv::Int(l@[i] as int));
        assert forall|m: int| 0 <= m < l@.len() implies views_of_elems(out@)[m] == t[m] by {
            assert(out@[m] == Json::Int(l@[m]));
            assert(out@[m]@ == Jv::Int(l@[m] as int));
        }
        assert(views_of_elems(out@) =~= t);
    }
    Json::Arr(out)
}

fn str_list_json(l: Vec<Vec<u8>>) -> (r: Json)
    ensures
        r@ == str_list_value(l@),
{
    let mut out: Vec<Json> = Vec::new();
    let n = l.len();
    let mut k: usize = 0;
    while k < n
        invariant
            k <= n,
            n == l@.len(),
            out@.len() == k,
            forall|m: int| 0 <= m < k ==> (#[trigger] out@[m])@ == Jv::Str(l@[m]@),
        decreases n - k,
    {
        let item = crate::value::clone_bytes(&l[k]);
        out.push(Json::Str(item));
        k = k + 1;
    }
    proof {
        views_of_elems_props(out@);
        let t = Seq::new(l@.len(), |i: int| Jv::Str(l@[i]@));
        assert forall|m: int| 0 <= m < l@.len() implies views_of_elems(out@)[m] == t[m] by {
            assert(out@[m]@ == Jv::Str(l@[m]@));
        }
        assert(views_of_elems(out@) =~= t);
    }
    Json::Arr(out)
}

fn opt_str_json(o: Option<Vec<u8>>) -> (r: Json)
    ensures
        r@ == opt_str_value(o),
{
    match o {
        Option::Some(s) => Json::Str(s),
        Option::None => Json::Null,
    }
}

fn opt_int_json(o: Option<i64>) -> (r: Json)
    ensures
        r@ == opt_int_value(o),
{
    match o {
        Option::Some(i) => Json::Int(i),
        Option::None => Json::Null,
    }
}

fn opt_json(o: Option<Json>) -> (r: Json)
    ensures
        r@ == opt_json_value(o),
{
    match o {
        Option::Some(j) => j,
        Option::None => Json::Null,
    }
}

fn int_or_json(o: Option<i64>, d: i64) -> (r: Json)
    ensures
        r@ == int_or_value(o, d as int),
{
    match o {
        Option::Some(i) => Json::Int(i),
        Option::None => Json::Int(d),
    }
}

fn bool_or_json(o: Option<bool>, d: bool) -> (r: Json)
    ensures
        r@ == bool_or_value(o, d),
{
    match o {
        Option::Some(b) => Json::Bool(b),
        Option::None => Json::Bool(d),
    }
}

fn str_or_json(o: Option<Vec<u8>>, d: &str) -> (r: Json)
    ensures
        r@ == str_or_value(o, d.spec_bytes()),
{
    match o {
        Option::Some(s) => Json::Str(s),
        Option::None => Json::Str(str_bytes(d)),
    }
}

pub fn get_proposal_generation_status_request(job_id: Vec<u8>) -> (r: Json)
    ensures
        r@ == Jv::Obj(
            seq![("job_id".spec_bytes(), Jv::Str(job_id@))],
        ),
        wf(r@),
{
    let mut ps: Vec<(Vec<u8>, Json)> = Vec::new();
    push_arg(&mut ps, "job_id", Json::Str(job_id));
    proof {
        assert(views_of_pairs(ps@) =~= seq![("job_id".spec_bytes(), Jv::Str(job_id@))]);
    }
    let r = Json::Obj(ps);
    proof {
        let t = views_of_pairs(ps@);
        assert(r@ == Jv::Obj(t));
        assert forall|i: int| 0 <= i < t.len() implies wf(#[trigger] t[i].1) by {
            assert(0 <= i < t.len());
        }
        assert(wf(Jv::Obj(t)));
    }
    r
}

pub fn get_algorithm_proposals_request(job_id: Vec<u8>) -> (r: Json)
    ensures
        r@ == Jv::Obj(
            seq![("job_id".spec_bytes(), Jv::Str(job_id@))],
        ),
        wf(r@),
{
    let mut ps: Vec<(Vec<u8>, Json)> = Vec::new();
    push_arg(&mut ps, "job_id", Json::Str(job_id));
    proof {
        assert(views_of_pairs(ps@) =~= seq![("job_id".spec_bytes(), Jv::Str(job_id@))]);
    }
    let r = Json::Obj(ps);
    proof {
        let t = views_of_pairs(ps@);
        assert(r@ == Jv::Obj(t));
        assert forall|i: int| 0 <= i < t.len() implies wf(#[trigger] t[i].1) by {
            assert(0 <= i < t.len());
        }
        assert(wf(Jv::Obj(t)));
    }
    r
}

pub fn get_backtest_status_request(job_id: Vec<u8>) -> (r: Json)
    ensures
        r@ == Jv::Obj(
            seq![("job_id".spec_bytes(), Jv::Str(job_id@))],
        ),
        wf(r@),
{
    let mut ps: Vec<(Vec<u8>, Json)> = Vec::new();
    push_arg(&mut ps, "job_id", Json::Str(job_id));
    proof {
        assert(views_of_pairs(ps@) =~= seq![("job_id".spec_bytes(), Jv::Str(job_id@))]);
    }
    let r = Json::Obj(ps);
    proof {
        let t = views_of_pairs(ps@);
        assert(r@ == Jv::Obj(t));
        assert forall|i: int| 0 <= i < t.len() implies wf(#[trigger] t[i].1) by {
            assert(0 <= i < t.len());
        }
        assert(wf(Jv::Obj(t)));
    }
    r
}

pub fn get_backtest_results_request(job_id: Vec<u8>) -> (r: Json)
    ensures
        r@ == Jv::Obj(
            seq![("job_id".spec_bytes(), Jv::Str(job_id@))],
        ),
        wf(r@),
{
    let mut ps: Vec<(Vec<u8>, Json)> = Vec::new();
    push_arg(&mut ps, "job_id", Json::Str(job_id));
    proof {
        assert(views_of_pairs(ps@) =~= seq![("job_id".spec_bytes(), Jv::Str(job_id@))]);
    }
    let r = Json::Obj(ps);
    proof {
        let t = views_of_pairs(ps@);
        assert(r@ == Jv::Obj(t));
        assert forall|i: int| 0 <= i < t.len() implies wf(#[trigger] t[i].1) by {
            assert(0 <= i < t.len());
        }
        assert(wf(Jv::Obj(t)));
    }
    r
}

pub fn get_analysis_status_request(job_id: Vec<u8>) -> (r: Json)
    ensures
        r@ == Jv::Obj(
            seq![("job_id".spec_bytes(), Jv::Str(job_id@))],
        ),
        wf(r@),
{
    let mut ps: Vec<(Vec<u8>, Json)> = Vec::new();
    push_arg(&mut ps, "job_id", Json::Str(job_id));
    proof {
        assert(views_of_pairs(ps@) =~= seq![("job_id".spec_bytes(), Jv::Str(job_id@))]);
    }
    let r = Json::Obj(ps);
    proof {
        let t = views_of_pairs(ps@);
        assert(r@ == Jv::Obj(t));
        assert forall|i: int| 0 <= i < t.len() implies wf(#[trigger] t[i].1) by {
            assert(0 <= i < t.len());
        }
        assert(wf(Jv::Obj(t)));
    }
    r
}

pub fn get_analysis_results_request(job_id: Vec<u8>) -> (r: Json)
    ensures
        r@ == Jv::Obj(
            seq![("job_id".spec_bytes(), Jv::Str(job_id@))],
        ),
        wf(r@),
{
    let mut ps: Vec<(Vec<u8>, Json)> = Vec::new();
    push_arg(&mut ps, "job_id", Json::Str(job_id));
    proof {
        assert(views_of_pairs(ps@) =~= seq![("job_id".spec_bytes(), Jv::Str(job_id@))]);
    }
    let r = Json::Obj(ps);
    proof {
        let t = views_of_pairs(ps@);
        assert(r@ == Jv::Obj(t));
        assert forall|i: int| 0 <= i < t.len() implies wf(#[trigger] t[i].1) by {
            assert(0 <= i < t.len());
        }
        assert(wf(Jv::Obj(t)));
    }
    r
}

pub fn get_news_collection_status_request(job_id: Vec<u8>) -> (r: Json)
    ensures
        r@ == Jv::Obj(
            seq![("job_id".spec_bytes(), Jv::Str(job_id@))],
        ),
        wf(r@),
{
    let mut ps: Vec<(Vec<u8>, Json)> = Vec::new();
    push_arg(&mut ps, "job_id", Json::Str(job_id));
    proof {
        assert(views_of_pairs(ps@) =~= seq![("job_id".spec_bytes(), Jv::Str(job_id@))]);
    }
    let r = Json::Obj(ps);
    proof {
        let t = views_of_pairs(ps@);
        assert(r@ == Jv::Obj(t));
        assert forall|i: int| 0 <= i < t.len() implies wf(#[trigger] t[i].1) by {
            assert(0 <= i < t.len());
        }
        assert(wf(Jv::Obj(t)));
    }
    r
}

pub fn get_stock_prediction_status_request(job_id: Vec<u8>) -> (r: Json)
    ensures
        r@ == Jv::Obj(
            seq![("job_id".spec_bytes(), Jv::Str(job_id@))],
        ),
        wf(r@),
{
    let mut ps: Vec<(Vec<u8>, Json)> = Vec::new();
    push_arg(&mut ps, "job_id", Json::Str(job_id));
    proof {
        assert(views_of_pairs(ps@) =~= seq![("job_id".spec_bytes(), Jv::Str(job_id@))]);
    }
    let r = Json::Obj(ps);
    proof {
        let t = views_of_pairs(ps@);
        assert(r@ == Jv::Obj(t));
        assert forall|i: int| 0 <= i < t.len() implies wf(#[trigger] t[i].1) by {
            assert(0 <= i < t.len());
        }
        assert(wf(Jv::Obj(t)));
    }
    r
}

pub fn get_stock_predictions_request(job_id: Vec<u8>) -> (r: Json)
    ensures
        r@ == Jv::Obj(
            seq![("job_id".spec_bytes(), Jv::Str(job_id@))],
        ),
        wf(r@),
{
    let mut ps: Vec<(Vec<u8>, Json)> = Vec::new();
    push_arg(&mut ps, "job_id", Json::Str(job_id));
    proof {
        assert(views_of_pairs(ps@) =~= seq![("job_id".spec_bytes(), Jv::Str(job_id@))]);
    }
    let r = Json::Obj(ps);
    proof {
        let t = views_of_pairs(ps@);
        assert(r@ == Jv::Obj(t));
        assert forall|i: int| 0 <= i < t.len() implies wf(#[trigger] t[i].1) by {
            assert(0 <= i < t.len());
        }
        assert(wf(Jv::Obj(t)));
    }
    r
}

pub fn delete_algorithm_request(algo_id: i64) -> (r: Json)
    ensures
        r@ == Jv::Obj(
            seq![("algo_id".spec_bytes(), Jv::Int(algo_id as int))],
        ),
        wf(r@),
{
    let mut ps: Vec<(Vec<u8>, Json)> = Vec::new();
    push_arg(&mut ps, "algo_id", Json::Int(algo_id));
    proof {
        assert(views_of_pairs(ps@) =~= seq![("algo_id".spec_bytes(), Jv::Int(algo_id as int))]);
    }
    let r = Json::Obj(ps);
    proof {
        let t = views_of_pairs(ps@);
        assert(r@ == Jv::Obj(t));
        assert forall|i: int| 0 <= i < t.len() implies wf(#[trigger] t[i].1) by {
            assert(0 <= i < t.len());
        }
        assert(wf(Jv::Obj(t)));
    }
    r
}

pub fn run_data_analysis_request(data_set_id: i64) -> (r: Json)
    ensures
        r@ == Jv::Obj(
            seq![("data_set_id".spec_bytes(), Jv::Int(data_set_id as int))],
        ),
        wf(r@),
{
    let mut ps: Vec<(Vec<u8>, Json)> = Vec::new();
    push_arg(&mut ps, "data_set_id", Json::Int(data_set_id));
    proof {
        assert(views_of_pairs(ps@) =~= seq![("data_set_id".spec_bytes(), Jv::Int(data_set_id as int))]);
    }
    let r = Json::Obj(ps);
    proof {
        let t = views_of_pairs(ps@);
        assert(r@ == Jv::Obj(t));
        assert forall|i: int| 0 <= i < t.len() implies wf(#[trigger] t[i].1) by {
            assert(0 <= i < t.len());
        }
        assert(wf(Jv::Obj(t)));
    }
    r
}

pub fn get_latest_analysis_results_request(data_set_id: i64) -> (r: Json)
    ensures
        r@ == Jv::Obj(
            seq![("data_set_id".spec_bytes(), Jv::Int(data_set_id as int))],
        ),
        wf(r@),
{
    let mut ps: Vec<(Vec<u8>, Json)> = Vec::new();
    push_arg(&mut ps, "data_set_id", Json::Int(data_set_id));
    proof {
        assert(views_of_pairs(ps@) =~= seq![("data_set_id".spec_bytes(), Jv::Int(data_set_id as int))]);
    }
    let r = Json::Obj(ps);
    proof {
        let t = views_of_pairs(ps@);
        assert(r@ == Jv::Obj(t));
        assert forall|i: int| 0 <= i < t.len() implies wf(#[trigger] t[i].1) by {
            assert(0 <= i < t.len());
        }
        assert(wf(Jv::Obj(t)));
    }
    r
}

pub fn delete_data_set_request(data_set_id: i64) -> (r: Json)
    ensures
        r@ == Jv::Obj(
            seq![("data_set_id".spec_bytes(), Jv::Int(data_set_id as int))],
        ),
        wf(r@),
{
    let mut ps: Vec<(Vec<u8>, Json)> = Vec::new();
    push_arg(&mut ps, "data_set_id", Json::Int(data_set_id));
    proof {
        assert(views_of_pairs(ps@) =~= seq![("data_set_id".spec_bytes(), Jv::Int(data_set_id as int))]);
    }
    let r = Json::Obj(ps);
    proof {
        let t = views_of_pairs(ps@);
        assert(r@ == Jv::Obj(t));
        assert forall|i: int| 0 <= i < t.len() implies wf(#[trigger] t[i].1) by {
            assert(0 <= i < t.len());
        }
        assert(wf(Jv::Obj(t)));
    }
    r
}

pub fn check_data_integrity_request(data_set_id: i64) -> (r: Json)
    ensures
        r@ == Jv::Obj(
            seq![("data_set_id".spec_bytes(), Jv::Int(data_set_id as int))],
        ),
        wf(r@),
{
    let mut ps: Vec<(Vec<u8>, Json)> = Vec::new();
    push_arg(&mut ps, "data_set_id", Json::Int(data_set_id));
    proof {
        assert(views_of_pairs(ps@) =~= seq![("data_set_id".spec_bytes(), Jv::Int(data_set_id as int))]);
    }
    let r = Json::Obj(ps);
    proof {
        let t = views_of_pairs(ps@);
        assert(r@ == Jv::Obj(t));
        assert forall|i: int| 0 <= i < t.len() implies wf(#[trigger] t[i].1) by {
            assert(0 <= i < t.len());
        }
        assert(wf(Jv::Obj(t)));
    }
    r
}

/// The worker expects a request body even though there are no arguments:
/// an empty object is sent.
pub fn get_selected_algorithms_request() -> (r: Json)
    ensures
        r@ == Jv::Obj(Seq::<(Seq<u8>, Jv)>::empty()),
        wf(r@),
{
    let ps: Vec<(Vec<u8>, Json)> = Vec::new();
    let r = Json::Obj(ps);
    proof {
        assert(views_of_pairs(ps@) =~= Seq::<(Seq<u8>, Jv)>::empty());
    }
    r
}

pub fn generate_algorithm_proposals_request(data_set_id: i64, analysis_id: Option<i64>, num_proposals: Option<i64>, user_preferences: Option<Json>) -> (r: Json)
    requires
        user_preferences matches Some(j) ==> wf(j@),
    ensures
        r@ == Jv::Obj(
            seq![
                ("data_set_id".spec_bytes(), Jv::Int(data_set_id as int)),
                ("analysis_id".spec_bytes(), opt_int_value(analysis_id)),
                ("num_proposals".spec_bytes(), int_or_value(num_proposals, 5)),
                ("user_preferences".spec_bytes(), opt_json_value(user_preferences)),
            ],
        ),
        wf(r@),
{
    let mut ps: Vec<(Vec<u8>, Json)> = Vec::new();
    push_arg(&mut ps, "data_set_id", Json::Int(data_set_id));
    push_arg(&mut ps, "analysis_id", opt_int_json(analysis_id));
    push_arg(&mut ps, "num_proposals", int_or_json(num_proposals, 5));
    push_arg(&mut ps, "user_preferences", opt_json(user_preferences));
    proof {
        assert(views_of_pairs(ps@) =~= seq![
            ("data_set_id".spec_bytes(), Jv::Int(data_set_id as int)),
            ("analysis_id".spec_bytes(), opt_int_value(analysis_id)),
            ("num_proposals".spec_bytes(), int_or_value(num_proposals, 5)),
            ("user_preferences".spec_bytes(), opt_json_value(user_preferences)),
        ]);
    }
    let r = Json::Obj(ps);
    proof {
        let t = views_of_pairs(ps@);
        assert(r@ == Jv::Obj(t));
        assert forall|i: int| 0 <= i < t.len() implies wf(#[trigger] t[i].1) by {
            assert(0 <= i < t.len());
        }
        assert(wf(Jv::Obj(t)));
    }
    r
}

pub fn select_algorithm_request(proposal_id: Vec<u8>, custom_name: Option<Vec<u8>>) -> (r: Json)
    ensures
        r@ == Jv::Obj(
            seq![
                ("proposal_id".spec_bytes(), Jv::Str(proposal_id@)),
                ("custom_name".spec_bytes(), opt_str_value(custom_name)),
            ],
        ),
        wf(r@),
{
    let mut ps: Vec<(Vec<u8>, Json)> = Vec::new();
    push_arg(&mut ps, "proposal_id", Json::Str(proposal_id));
    push_arg(&mut ps, "custom_name", opt_str_json(custom_name));
    proof {
        assert(views_of_pairs(ps@) =~= seq![
            ("proposal_id".spec_bytes(), Jv::Str(proposal_id@)),
            ("custom_name".spec_bytes(), opt_str_value(custom_name)),
        ]);
    }
    let r = Json::Obj(ps);
    proof {
        let t = views_of_pairs(ps@);
        assert(r@ == Jv::Obj(t));
        assert forall|i: int| 0 <= i < t.len() implies wf(#[trigger] t[i].1) by {
            assert(0 <= i < t.len());
        }
        assert(wf(Jv::Obj(t)));
    }
    r
}

pub fn run_backtest_request(algorithm_ids: Vec<i64>, start_date: Vec<u8>, end_date: Vec<u8>, data_set_id: Option<i64>) -> (r: Json)
    ensures
        r@ == Jv::Obj(
            seq![
                ("algorithm_ids".spec_bytes(), int_list_value(algorithm_ids@)),
                ("start_date".spec_bytes(), Jv::Str(start_date@)),
                ("end_date".spec_bytes(), Jv::Str(end_date@)),
                ("data_set_id".spec_bytes(), opt_int_value(data_set_id)),
            ],
        ),
        wf(r@),
{
    let ghost ga = algorithm_ids@;
    let mut ps: Vec<(Vec<u8>, Json)> = Vec::new();
    push_arg(&mut ps, "algorithm_ids", int_list_json(algorithm_ids));
    push_arg(&mut ps, "start_date", Json::Str(start_date));
    push_arg(&mut ps, "end_date", Json::Str(end_date));
    push_arg(&mut ps, "data_set_id", opt_int_json(data_set_id));
    proof {
        assert(views_of_pairs(ps@) =~= seq![
            ("algorithm_ids".spec_bytes(), int_list_value(algorithm_ids@)),
            ("start_date".spec_bytes(), Jv::Str(start_date@)),
            ("end_date".spec_bytes(), Jv::Str(end_date@)),
            ("data_set_id".spec_bytes(), opt_int_value(data_set_id)),
        ]);
        wf_int_list(ga);
    }
    let r = Json::Obj(ps);
    proof {
        let t = views_of_pairs(ps@);
        assert(r@ == Jv::Obj(t));
        assert forall|i: int| 0 <= i < t.len() implies wf(#[trigger] t[i].1) by {
            assert(0 <= i < t.len());
        }
        assert(wf(Jv::Obj(t)));
    }
    r
}

pub fn get_backtest_results_summary_request(algorithm_ids: Option<Vec<i64>>, limit: Option<i64>) -> (r: Json)
    ensures
        r@ == Jv::Obj(
            maybe_int_list_arg("algorithm_ids".spec_bytes(), algorithm_ids) + maybe_int_arg(
                "limit".spec_bytes(),
                limit,
            ),
        ),
        wf(r@),
{
    let mut ps: Vec<(Vec<u8>, Json)> = Vec::new();
    let ghost gao = algorithm_ids;
    match algorithm_ids {
        Option::Some(ids) => {
            proof {
                wf_int_list(ids@);
            }
            push_arg(&mut ps, "algorithm_ids", int_list_json(ids));
        },
        Option::None => {},
    }
    push_maybe_int(&mut ps, "limit", limit);
    proof {
        assert(views_of_pairs(ps@) =~= maybe_int_list_arg(
            "algorithm_ids".spec_bytes(),
            algorithm_ids,
        ) + maybe_int_arg("limit".spec_bytes(), limit));
    }
    let r = Json::Obj(ps);
    proof {
        let t = views_of_pairs(ps@);
        assert(r@ == Jv::Obj(t));
        assert forall|i: int| 0 <= i < t.len() implies wf(#[trigger] t[i].1) by {
            assert(0 <= i < t.len());
        }
        assert(wf(Jv::Obj(t)));
    }
    r
}

pub fn configure_data_collection_request(action: Vec<u8>, schedule_id: Option<Vec<u8>>, name: Option<Vec<u8>>, source: Option<Vec<u8>>, symbol: Option<Vec<u8>>, cron_expression: Option<Vec<u8>>, start_date: Option<Vec<u8>>, end_date: Option<Vec<u8>>, api_key: Option<Vec<u8>>, data_set_name: Option<Vec<u8>>, enabled: Option<bool>) -> (r: Json)
    ensures
        r@ == Jv::Obj(
            seq![("action".spec_bytes(), Jv::Str(action@))] + maybe_str_arg(
                "schedule_id".spec_bytes(),
                schedule_id,
            ) + maybe_str_arg(
                "name".spec_bytes(),
                name,
            ) + maybe_str_arg(
                "source".spec_bytes(),
                source,
            ) + maybe_str_arg(
                "symbol".spec_bytes(),
                symbol,
            ) + maybe_str_arg(
                "cron_expression".spec_bytes(),
                cron_expression,
            ) + maybe_str_arg(
                "start_date".spec_bytes(),
                start_date,
            ) + maybe_str_arg(
                "end_date".spec_bytes(),
                end_date,
            ) + maybe_str_arg(
                "api_key".spec_bytes(),
                api_key,
            ) + maybe_str_arg(
                "data_set_name".spec_bytes(),
                data_set_name,
            ) + maybe_bool_arg("enabled".spec_bytes(), enabled),
        ),
        wf(r@),
{
    let mut ps: Vec<(Vec<u8>, Json)> = Vec::new();
    push_arg(&mut ps, "action", Json::Str(action));
    push_maybe_str(&mut ps, "schedule_id", schedule_id);
    push_maybe_str(&mut ps, "name", name);
    push_maybe_str(&mut ps, "source", source);
    push_maybe_str(&mut ps, "symbol", symbol);
    push_maybe_str(&mut ps, "cron_expression", cron_expression);
    push_maybe_str(&mut ps, "start_date", start_date);
    push_maybe_str(&mut ps, "end_date", end_date);
    push_maybe_str(&mut ps, "api_key", api_key);
    push_maybe_str(&mut ps, "data_set_name", data_set_name);
    push_maybe_bool(&mut ps, "enabled", enabled);
    proof {
        assert(views_of_pairs(ps@) =~= seq![("action".spec_bytes(), Jv::Str(action@))] + maybe_str_arg(
            "schedule_id".spec_bytes(),
            schedule_id,
        ) + maybe_str_arg(
            "name".spec_bytes(),
            name,
        ) + maybe_str_arg(
            "source".spec_bytes(),
            source,
        ) + maybe_str_arg(
            "symbol".spec_bytes(),
            symbol,
        ) + maybe_str_arg(
            "cron_expression".spec_bytes(),
            cron_expression,
        ) + maybe_str_arg(
            "start_date".spec_bytes(),
            start_date,
        ) + maybe_str_arg(
            "end_date".spec_bytes(),
            end_date,
        ) + maybe_str_arg(
            "api_key".spec_bytes(),
            api_key,
        ) + maybe_str_arg(
            "data_set_name".spec_bytes(),
            data_set_name,
        ) + maybe_bool_arg("enabled".spec_bytes(), enabled));
    }
    let r = Json::Obj(ps);
    proof {
        let t = views_of_pairs(ps@);
        assert(r@ == Jv::Obj(t));
        assert forall|i: int| 0 <= i < t.len() implies wf(#[trigger] t[i].1) by {
            assert(0 <= i < t.len());
        }
        assert(wf(Jv::Obj(t)));
    }
    r
}

pub fn get_data_collection_schedules_request(enabled_only: Option<bool>, schedule_id: Option<Vec<u8>>) -> (r: Json)
    ensures
        r@ == Jv::Obj(
            maybe_bool_arg("enabled_only".spec_bytes(), enabled_only) + maybe_str_arg(
                "schedule_id".spec_bytes(),
                schedule_id,
            ),
        ),
        wf(r@),
{
    let mut ps: Vec<(Vec<u8>, Json)> = Vec::new();
    push_maybe_bool(&mut ps, "enabled_only", enabled_only);
    push_maybe_str(&mut ps, "schedule_id", schedule_id);
    proof {
        assert(views_of_pairs(ps@) =~= maybe_bool_arg("enabled_only".spec_bytes(), enabled_only)
            + maybe_str_arg("schedule_id".spec_bytes(), schedule_id));
    }
    let r = Json::Obj(ps);
    proof {
        let t = views_of_pairs(ps@);
        assert(r@ == Jv::Obj(t));
        assert forall|i: int| 0 <= i < t.len() implies wf(#[trigger] t[i].1) by {
            assert(0 <= i < t.len());
        }
        assert(wf(Jv::Obj(t)));
    }
    r
}

pub fn get_data_collection_status_request(job_id: Option<Vec<u8>>, schedule_id: Option<Vec<u8>>) -> (r: Json)
    ensures
        r@ == Jv::Obj(
            maybe_str_arg("job_id".spec_bytes(), job_id) + maybe_str_arg(
                "schedule_id".spec_bytes(),
                schedule_id,
            ),
        ),
        wf(r@),
{
    let mut ps: Vec<(Vec<u8>, Json)> = Vec::new();
    push_maybe_str(&mut ps, "job_id", job_id);
    push_maybe_str(&mut ps, "schedule_id", schedule_id);
    proof {
        assert(views_of_pairs(ps@) =~= maybe_str_arg("job_id".spec_bytes(), job_id)
            + maybe_str_arg("schedule_id".spec_bytes(), schedule_id));
    }
    let r = Json::Obj(ps);
    proof {
        let t = views_of_pairs(ps@);
        assert(r@ == Jv::Obj(t));
        assert forall|i: int| 0 <= i < t.len() implies wf(#[trigger] t[i].1) by {
            assert(0 <= i < t.len());
        }
        assert(wf(Jv::Obj(t)));
    }
    r
}

pub fn import_ohlcv_data_request(file_path: Vec<u8>, name: Option<Vec<u8>>) -> (r: Json)
    ensures
        r@ == Jv::Obj(
            seq![
                ("file_path".spec_bytes(), Jv::Str(file_path@)),
                ("name".spec_bytes(), opt_str_value(name)),
            ],
        ),
        wf(r@),
{
    let mut ps: Vec<(Vec<u8>, Json)> = Vec::new();
    push_arg(&mut ps, "file_path", Json::Str(file_path));
    push_arg(&mut ps, "name", opt_str_json(name));
    proof {
        assert(views_of_pairs(ps@) =~= seq![
            ("file_path".spec_bytes(), Jv::Str(file_path@)),
            ("name".spec_bytes(), opt_str_value(name)),
        ]);
    }
    let r = Json::Obj(ps);
    proof {
        let t = views_of_pairs(ps@);
        assert(r@ == Jv::Obj(t));
        assert forall|i: int| 0 <= i < t.len() implies wf(#[trigger] t[i].1) by {
            assert(0 <= i < t.len());
        }
        assert(wf(Jv::Obj(t)));
    }
    r
}

pub fn collect_from_api_request(source: Vec<u8>, symbol: Vec<u8>, start_date: Vec<u8>, end_date: Vec<u8>, name: Option<Vec<u8>>, api_key: Option<Vec<u8>>) -> (r: Json)
    ensures
        r@ == Jv::Obj(
            seq![
                ("source".spec_bytes(), Jv::Str(source@)),
                ("symbol".spec_bytes(), Jv::Str(symbol@)),
                ("start_date".spec_bytes(), Jv::Str(start_date@)),
                ("end_date".spec_bytes(), Jv::Str(end_date@)),
                ("name".spec_bytes(), opt_str_value(name)),
                ("api_key".spec_bytes(), opt_str_value(api_key)),
            ],
        ),
        wf(r@),
{
    let mut ps: Vec<(Vec<u8>, Json)> = Vec::new();
    push_arg(&mut ps, "source", Json::Str(source));
    push_arg(&mut ps, "symbol", Json::Str(symbol));
    push_arg(&mut ps, "start_date", Json::Str(start_date));
    push_arg(&mut ps, "end_date", Json::Str(end_date));
    push_arg(&mut ps, "name", opt_str_json(name));
    push_arg(&mut ps, "api_key", opt_str_json(api_key));
    proof {
        assert(views_of_pairs(ps@) =~= seq![
            ("source".spec_bytes(), Jv::Str(source@)),
            ("symbol".spec_bytes(), Jv::Str(symbol@)),
            ("start_date".spec_bytes(), Jv::Str(start_date@)),
            ("end_date".spec_bytes(), Jv::Str(end_date@)),
            ("name".spec_bytes(), opt_str_value(name)),
            ("api_key".spec_bytes(), opt_str_value(api_key)),
        ]);
    }
    let r = Json::Obj(ps);
    proof {
        let t = views_of_pairs(ps@);
        assert(r@ == Jv::Obj(t));
        assert forall|i: int| 0 <= i < t.len() implies wf(#[trigger] t[i].1) by {
            assert(0 <= i < t.len());
        }
        assert(wf(Jv::Obj(t)));
    }
    r
}

pub fn get_data_preview_request(data_set_id: i64, limit: Option<i64>) -> (r: Json)
    ensures
        r@ == Jv::Obj(
            seq![
                ("data_set_id".spec_bytes(), Jv::Int(data_set_id as int)),
                ("limit".spec_bytes(), int_or_value(limit, 100)),
            ],
        ),
        wf(r@),
{
    let mut ps: Vec<(Vec<u8>, Json)> = Vec::new();
    push_arg(&mut ps, "data_set_id", Json::Int(data_set_id));
    push_arg(&mut ps, "limit", int_or_json(limit, 100));
    proof {
        assert(views_of_pairs(ps@) =~= seq![
            ("data_set_id".spec_bytes(), Jv::Int(data_set_id as int)),
            ("limit".spec_bytes(), int_or_value(limit, 100)),
        ]);
    }
    let r = Json::Obj(ps);
    proof {
        let t = views_of_pairs(ps@);
        assert(r@ == Jv::Obj(t));
        assert forall|i: int| 0 <= i < t.len() implies wf(#[trigger] t[i].1) by {
            assert(0 <= i < t.len());
        }
        assert(wf(Jv::Obj(t)));
    }
    r
}

pub fn update_data_set_request(data_set_id: i64, start_date: Option<Vec<u8>>, end_date: Option<Vec<u8>>) -> (r: Json)
    ensures
        r@ == Jv::Obj(
            seq![("data_set_id".spec_bytes(), Jv::Int(data_set_id as int))] + maybe_str_arg(
                "start_date".spec_bytes(),
                start_date,
            ) + maybe_str_arg("end_date".spec_bytes(), end_date),
        ),
        wf(r@),
{
    let mut ps: Vec<(Vec<u8>, Json)> = Vec::new();
    push_arg(&mut ps, "data_set_id", Json::Int(data_set_id));
    push_maybe_str(&mut ps, "start_date", start_date);
    push_maybe_str(&mut ps, "end_date", end_date);
    proof {
        assert(views_of_pairs(ps@) =~= seq![
            ("data_set_id".spec_bytes(), Jv::Int(data_set_id as int)),
        ] + maybe_str_arg("start_date".spec_bytes(), start_date) + maybe_str_arg(
            "end_date".spec_bytes(),
            end_date,
        ));
    }
    let r = Json::Obj(ps);
    proof {
        let t = views_of_pairs(ps@);
        assert(r@ == Jv::Obj(t));
        assert forall|i: int| 0 <= i < t.len() implies wf(#[trigger] t[i].1) by {
            assert(0 <= i < t.len());
        }
        assert(wf(Jv::Obj(t)));
    }
    r
}

pub fn collect_market_news_request(use_rss: Option<bool>, use_api: Option<bool>, api_key: Option<Vec<u8>>, keywords: Option<Vec<Vec<u8>>>, max_articles: Option<i64>) -> (r: Json)
    ensures
        r@ == Jv::Obj(
            seq![
                ("use_rss".spec_bytes(), bool_or_value(use_rss, true)),
                ("use_api".spec_bytes(), bool_or_value(use_api, false)),
                ("api_key".spec_bytes(), opt_str_value(api_key)),
                ("keywords".spec_bytes(), opt_str_list_value(keywords)),
                ("max_articles".spec_bytes(), int_or_value(max_articles, 50)),
            ],
        ),
        wf(r@),
{
    let mut ps: Vec<(Vec<u8>, Json)> = Vec::new();
    push_arg(&mut ps, "use_rss", bool_or_json(use_rss, true));
    push_arg(&mut ps, "use_api", bool_or_json(use_api, false));
    push_arg(&mut ps, "api_key", opt_str_json(api_key));
    let kw: Json = match keywords {
        Option::Some(l) => {
            proof {
                wf_str_list(l@);
            }
            str_list_json(l)
        },
        Option::None => Json::Null,
    };
    push_arg(&mut ps, "keywords", kw);
    push_arg(&mut ps, "max_articles", int_or_json(max_articles, 50));
    proof {
        assert(views_of_pairs(ps@) =~= seq![
            ("use_rss".spec_bytes(), bool_or_value(use_rss, true)),
            ("use_api".spec_bytes(), bool_or_value(use_api, false)),
            ("api_key".spec_bytes(), opt_str_value(api_key)),
            ("keywords".spec_bytes(), opt_str_list_value(keywords)),
            ("max_articles".spec_bytes(), int_or_value(max_articles, 50)),
        ]);
    }
    let r = Json::Obj(ps);
    proof {
        let t = views_of_pairs(ps@);
        assert(r@ == Jv::Obj(t));
        assert forall|i: int| 0 <= i < t.len() implies wf(#[trigger] t[i].1) by {
            assert(0 <= i < t.len());
        }
        assert(wf(Jv::Obj(t)));
    }
    r
}

pub fn get_collected_news_request(limit: Option<i64>, offset: Option<i64>, source: Option<Vec<u8>>, order_by: Option<Vec<u8>>, order_desc: Option<bool>) -> (r: Json)
    ensures
        r@ == Jv::Obj(
            seq![
                ("limit".spec_bytes(), int_or_value(limit, 100)),
                ("offset".spec_bytes(), int_or_value(offset, 0)),
                ("source".spec_bytes(), opt_str_value(source)),
                ("order_by".spec_bytes(), str_or_value(order_by, "published_at".spec_bytes())),
                ("order_desc".spec_bytes(), bool_or_value(order_desc, true)),
            ],
        ),
        wf(r@),
{
    let mut ps: Vec<(Vec<u8>, Json)> = Vec::new();
    push_arg(&mut ps, "limit", int_or_json(limit, 100));
    push_arg(&mut ps, "offset", int_or_json(offset, 0));
    push_arg(&mut ps, "source", opt_str_json(source));
    push_arg(&mut ps, "order_by", str_or_json(order_by, "published_at"));
    push_arg(&mut ps, "order_desc", bool_or_json(order_desc, true));
    proof {
        assert(views_of_pairs(ps@) =~= seq![
            ("limit".spec_bytes(), int_or_value(limit, 100)),
            ("offset".spec_bytes(), int_or_value(offset, 0)),
            ("source".spec_bytes(), opt_str_value(source)),
            ("order_by".spec_bytes(), str_or_value(order_by, "published_at".spec_bytes())),
            ("order_desc".spec_bytes(), bool_or_value(order_desc, true)),
        ]);
    }
    let r = Json::Obj(ps);
    proof {
        let t = views_of_pairs(ps@);
        assert(r@ == Jv::Obj(t));
        assert forall|i: int| 0 <= i < t.len() implies wf(#[trigger] t[i].1) by {
            assert(0 <= i < t.len());
        }
        assert(wf(Jv::Obj(t)));
    }
    r
}

pub fn generate_stock_predictions_request(news_job_id: Option<Vec<u8>>, num_predictions: Option<i64>, user_preferences: Option<Json>, market_trends: Option<Vec<u8>>) -> (r: Json)
    requires
        user_preferences matches Some(j) ==> wf(j@),
    ensures
        r@ == Jv::Obj(
            seq![
                ("news_job_id".spec_bytes(), opt_str_value(news_job_id)),
                ("num_predictions".spec_bytes(), int_or_value(num_predictions, 5)),
                ("user_preferences".spec_bytes(), opt_json_value(user_preferences)),
                ("market_trends".spec_bytes(), opt_str_value(market_trends)),
            ],
        ),
        wf(r@),
{
    let mut ps: Vec<(Vec<u8>, Json)> = Vec::new();
    push_arg(&mut ps, "news_job_id", opt_str_json(news_job_id));
    push_arg(&mut ps, "num_predictions", int_or_json(num_predictions, 5));
    push_arg(&mut ps, "user_preferences", opt_json(user_preferences));
    push_arg(&mut ps, "market_trends", opt_str_json(market_trends));
    proof {
        assert(views_of_pairs(ps@) =~= seq![
            ("news_job_id".spec_bytes(), opt_str_value(news_job_id)),
            ("num_predictions".spec_bytes(), int_or_value(num_predictions, 5)),
            ("user_preferences".spec_bytes(), opt_json_value(user_preferences)),
            ("market_trends".spec_bytes(), opt_str_value(market_trends)),
        ]);
    }
    let r = Json::Obj(ps);
    proof {
        let t = views_of_pairs(ps@);
        assert(r@ == Jv::Obj(t));
        assert forall|i: int| 0 <= i < t.len() implies wf(#[trigger] t[i].1) by {
            assert(0 <= i < t.len());
        }
        assert(wf(Jv::Obj(t)));
    }
    r
}

pub fn save_prediction_action_request(prediction_id: Vec<u8>, action: Vec<u8>, notes: Option<Vec<u8>>) -> (r: Json)
    ensures
        r@ == Jv::Obj(
            seq![
                ("prediction_id".spec_bytes(), Jv::Str(prediction_id@)),
                ("action".spec_bytes(), Jv::Str(action@)),
                ("notes".spec_bytes(), opt_str_value(notes)),
            ],
        ),
        wf(r@),
{
    let mut ps: Vec<(Vec<u8>, Json)> = Vec::new();
    push_arg(&mut ps, "prediction_id", Json::Str(prediction_id));
    push_arg(&mut ps, "action", Json::Str(action));
    push_arg(&mut ps, "notes", opt_str_json(notes));
    proof {
        assert(views_of_pairs(ps@) =~= seq![
            ("prediction_id".spec_bytes(), Jv::Str(prediction_id@)),
            ("action".spec_bytes(), Jv::Str(action@)),
            ("notes".spec_bytes(), opt_str_value(notes)),
        ]);
    }
    let r = Json::Obj(ps);
    proof {
        let t = views_of_pairs(ps@);
        assert(r@ == Jv::Obj(t));
        assert forall|i: int| 0 <= i < t.len() implies wf(#[trigger] t[i].1) by {
            assert(0 <= i < t.len());
        }
        assert(wf(Jv::Obj(t)));
    }
    r
}

pub fn get_prediction_history_request(limit: Option<i64>, start_date: Option<Vec<u8>>, end_date: Option<Vec<u8>>, symbol: Option<Vec<u8>>) -> (r: Json)
    ensures
        r@ == Jv::Obj(
            seq![
                ("limit".spec_bytes(), opt_int_value(limit)),
                ("start_date".spec_bytes(), opt_str_value(start_date)),
                ("end_date".spec_bytes(), opt_str_value(end_date)),
                ("symbol".spec_bytes(), opt_str_value(symbol)),
            ],
        ),
        wf(r@),
{
    let mut ps: Vec<(Vec<u8>, Json)> = Vec::new();
    push_arg(&mut ps, "limit", opt_int_json(limit));
    push_arg(&mut ps, "start_date", opt_str_json(start_date));
    push_arg(&mut ps, "end_date", opt_str_json(end_date));
    push_arg(&mut ps, "symbol", opt_str_json(symbol));
    proof {
        assert(views_of_pairs(ps@) =~= seq![
            ("limit".spec_bytes(), opt_int_value(limit)),
            ("start_date".spec_bytes(), opt_str_value(start_date)),
            ("end_date".spec_bytes(), opt_str_value(end_date)),
            ("symbol".spec_bytes(), opt_str_value(symbol)),
        ]);
    }
    let r = Json::Obj(ps);
    proof {
        let t = views_of_pairs(ps@);
        assert(r@ == Jv::Obj(t));
        assert forall|i: int| 0 <= i < t.len() implies wf(#[trigger] t[i].1) by {
            assert(0 <= i < t.len());
        }
        assert(wf(Jv::Obj(t)));
    }
    r
}

pub fn update_prediction_accuracy_request(prediction_id: Vec<u8>, actual_price: Json, actual_direction: Vec<u8>) -> (r: Json)
    requires
        wf(actual_price@),
    ensures
        r@ == Jv::Obj(
            seq![
                ("prediction_id".spec_bytes(), Jv::Str(prediction_id@)),
                ("actual_price".spec_bytes(), actual_price@),
                ("actual_direction".spec_bytes(), Jv::Str(actual_direction@)),
            ],
        ),
        wf(r@),
{
    let mut ps: Vec<(Vec<u8>, Json)> = Vec::new();
    push_arg(&mut ps, "prediction_id", Json::Str(prediction_id));
    push_arg(&mut ps, "actual_price", actual_price);
    push_arg(&mut ps, "actual_direction", Json::Str(actual_direction));
    proof {
        assert(views_of_pairs(ps@) =~= seq![
            ("prediction_id".spec_bytes(), Jv::Str(prediction_id@)),
            ("actual_price".spec_bytes(), actual_price@),
            ("actual_direction".spec_bytes(), Jv::Str(actual_direction@)),
        ]);
    }
    let r = Json::Obj(ps);
    proof {
        let t = views_of_pairs(ps@);
        assert(r@ == Jv::Obj(t));
        assert forall|i: int| 0 <= i < t.len() implies wf(#[trigger] t[i].1) by {
            assert(0 <= i < t.len());
        }
        assert(wf(Jv::Obj(t)));
    }
    r
}


} // verus!
