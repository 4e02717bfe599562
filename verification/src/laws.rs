use vstd::prelude::*;
use crate::decode::{decode_post, ndjson_line_obj, ndjson_objs, text_recs, Encoding};
use crate::json::{flatten_obj, json_parse, lemma_objs_of_elems_ok, rec_insert_all, ErrM, RecM};
use crate::lines::{lemma_lines_trailing_newline, spec_lines, NEWLINE};
use crate::enrich::{
    add_headers_rec, add_queries_rec, hdr_val, header_lookup, qry_val, query_lookup,
};
use crate::record::{
    lemma_rec_first_index, lemma_rec_first_index_same_keys, lemma_rec_insert_get_other,
    lemma_rec_insert_get_same, lemma_rec_try_insert_get, rec_get, rec_insert, rec_try_insert,
};
use crate::schema::{spec_source_type, spec_source_type_key};
use crate::server::{handle_post, payload_model, spec_path_match};
use crate::source::{build_post, enrich_post, enrich_rec};
use crate::schema::spec_timestamp_key;
use crate::value::JVal;

verus! {

/// Two records are equal in content up to the injected timestamp: same
/// keys in the same order, and the same value everywhere but under the
/// timestamp key.
pub open spec fn rec_eq_mod_ts(a: RecM, b: RecM) -> bool {
    &&& a.len() == b.len()
    &&& forall|j: int| 0 <= j < a.len() ==> (#[trigger] a[j]).0 == b[j].0
    &&& forall|j: int|
        0 <= j < a.len() && a[j].0 != spec_timestamp_key() ==> (#[trigger] a[j]).1 == b[j].1
}

proof fn lemma_insert_mod_ts(a: RecM, b: RecM, k: Seq<char>, v: JVal)
    requires
        rec_eq_mod_ts(a, b),
    ensures
        rec_eq_mod_ts(rec_insert(a, k, v), rec_insert(b, k, v)),
{
    lemma_rec_first_index_same_keys(a, b, k);
    lemma_rec_first_index(a, k);
}

proof fn lemma_try_insert_mod_ts(a: RecM, b: RecM, k: Seq<char>, v: JVal)
    requires
        rec_eq_mod_ts(a, b),
    ensures
        rec_eq_mod_ts(rec_try_insert(a, k, v), rec_try_insert(b, k, v)),
{
    lemma_rec_first_index_same_keys(a, b, k);
}

proof fn lemma_insert_all_mod_ts(a: RecM, b: RecM, p: RecM)
    requires
        rec_eq_mod_ts(a, b),
    ensures
        rec_eq_mod_ts(rec_insert_all(a, p), rec_insert_all(b, p)),
    decreases p.len(),
{
    if p.len() > 0 {
        lemma_insert_all_mod_ts(a, b, p.drop_last());
        lemma_insert_mod_ts(
            rec_insert_all(a, p.drop_last()),
            rec_insert_all(b, p.drop_last()),
            p.last().0,
            p.last().1,
        );
    }
}

/// Flattening the same object under two timestamps yields records equal
/// in content up to the timestamp entry.
pub proof fn lemma_flatten_mod_ts(p: RecM, t1: i64, t2: i64)
    ensures
        rec_eq_mod_ts(flatten_obj(p, t1), flatten_obj(p, t2)),
{
    let b1 = seq![(spec_timestamp_key(), JVal::Timestamp(t1))];
    let b2 = seq![(spec_timestamp_key(), JVal::Timestamp(t2))];
    assert(rec_eq_mod_ts(b1, b2));
    lemma_insert_all_mod_ts(b1, b2, p);
}

/// Idempotent re-decode: decoding the same payload under the same
/// encoding twice fails identically or yields batches equal in content,
/// the injected decode-time timestamps excepted.
pub proof fn lemma_decode_deterministic(
    b: Seq<u8>,
    enc: Encoding,
    r1: Result<Seq<RecM>, ErrM>,
    r2: Result<Seq<RecM>, ErrM>,
)
    requires
        decode_post(b, enc, r1),
        decode_post(b, enc, r2),
    ensures
        r1 is Ok <==> r2 is Ok,
        r1 is Err ==> r1 == r2,
        r1 is Ok ==> r1->Ok_0.len() == r2->Ok_0.len() && forall|i: int|
            0 <= i < r1->Ok_0.len() ==> #[trigger] rec_eq_mod_ts(r1->Ok_0[i], r2->Ok_0[i]),
{
    match enc {
        Encoding::Text => {
            assert forall|i: int| 0 <= i < r1->Ok_0.len() implies #[trigger] rec_eq_mod_ts(
                r1->Ok_0[i],
                r2->Ok_0[i],
            ) by {
                assert(r1->Ok_0[i] == r2->Ok_0[i]);
            }
        },
        Encoding::Ndjson => {
            match crate::decode::ndjson_model(b) {
                Err(_) => {},
                Ok(objs) => {
                    lemma_batches_mod_ts(r1->Ok_0, r2->Ok_0, objs);
                },
            }
        },
        Encoding::Json => {
            match crate::decode::json_model(b) {
                Err(_) => {},
                Ok(objs) => {
                    lemma_batches_mod_ts(r1->Ok_0, r2->Ok_0, objs);
                },
            }
        },
    }
}

proof fn lemma_batches_mod_ts(a: Seq<RecM>, c: Seq<RecM>, objs: Seq<RecM>)
    requires
        crate::json::recs_match(a, objs),
        crate::json::recs_match(c, objs),
    ensures
        a.len() == c.len(),
        forall|i: int| 0 <= i < a.len() ==> #[trigger] rec_eq_mod_ts(a[i], c[i]),
{
    let ts1 = choose|ts: Seq<i64>| crate::json::recs_match_at(a, objs, ts);
    let ts2 = choose|ts: Seq<i64>| crate::json::recs_match_at(c, objs, ts);
    assert forall|i: int| 0 <= i < a.len() implies #[trigger] rec_eq_mod_ts(a[i], c[i]) by {
        assert(a[i] == flatten_obj(objs[i], ts1[i]));
        assert(c[i] == flatten_obj(objs[i], ts2[i]));
        lemma_flatten_mod_ts(objs[i], ts1[i], ts2[i]);
    }
}

/// Text atomicity: a text payload always decodes, to one record per
/// non-empty line, and a trailing newline changes nothing.
pub proof fn lemma_text_atomicity(
    b: Seq<u8>,
    r: Result<Seq<RecM>, ErrM>,
    rn: Result<Seq<RecM>, ErrM>,
)
    requires
        decode_post(b, Encoding::Text, r),
        decode_post(b.push(NEWLINE), Encoding::Text, rn),
    ensures
        r is Ok,
        r->Ok_0.len() == spec_lines(b).len(),
        r == rn,
{
    lemma_lines_trailing_newline(b);
    assert(text_recs(b.push(NEWLINE)) =~= text_recs(b));
    assert(r->Ok_0 == text_recs(b));
    assert(rn->Ok_0 == text_recs(b));
    assert(r == rn) by {
        assert(r == Ok::<Seq<RecM>, ErrM>(text_recs(b)));
        assert(rn == Ok::<Seq<RecM>, ErrM>(text_recs(b)));
    }
}

proof fn lemma_ndjson_objs_some_err(ls: Seq<Seq<u8>>, i: int)
    requires
        0 <= i < ls.len(),
        ndjson_line_obj(ls[i]) is Err,
    ensures
        ndjson_objs(ls) is Err,
        ndjson_objs(ls)->Err_0.0 == 400,
    decreases ls.len(),
{
    if ndjson_line_obj(ls[0]) is Err {
        assert(ndjson_objs(ls)->Err_0 == ndjson_line_obj(ls[0])->Err_0);
        assert(ndjson_line_obj(ls[0])->Err_0.0 == 400) by {
            let l = ls[0];
            match json_parse(l) {
                Err(_) => {},
                Ok(_) => {},
            }
        }
    } else {
        assert(i > 0);
        lemma_ndjson_objs_some_err(ls.drop_first(), i - 1);
    }
}

/// Ndjson all-or-nothing: where any line of the payload does not parse as
/// a JSON object, the whole decode fails with status 400; no record of
/// any other line survives.
pub proof fn lemma_ndjson_all_or_nothing(b: Seq<u8>, i: int, r: Result<Seq<RecM>, ErrM>)
    requires
        decode_post(b, Encoding::Ndjson, r),
        0 <= i < spec_lines(b).len(),
        ndjson_line_obj(spec_lines(b)[i]) is Err,
    ensures
        r is Err,
        r->Err_0.0 == 400,
{
    lemma_ndjson_objs_some_err(spec_lines(b), i);
}

/// Json shape duality: a payload parsing to one JSON object decodes to
/// exactly one record, and one parsing to an array of N objects decodes
/// to exactly N records.
pub proof fn lemma_json_shape_duality(b: Seq<u8>, r: Result<Seq<RecM>, ErrM>)
    requires
        decode_post(b, Encoding::Json, r),
    ensures
        match json_parse(b) {
            Ok(v) => {
                &&& (v is Obj ==> r is Ok && r->Ok_0.len() == 1)
                &&& ((v is Arr && (forall|i: int|
                    0 <= i < v->Arr_0.len() ==> (#[trigger] v->Arr_0[i]) is Obj)) ==> (r is Ok
                    && r->Ok_0.len() == v->Arr_0.len()))
            },
            Err(_) => true,
        },
{
    match json_parse(b) {
        Err(_) => {},
        Ok(v) => match v {
            JVal::Obj(pairs) => {
                let tss = choose|ts: Seq<i64>|
                    crate::json::recs_match_at(r->Ok_0, seq![pairs], ts);
                assert(r->Ok_0.len() == 1);
            },
            JVal::Arr(elems) => {
                if forall|i: int| 0 <= i < elems.len() ==> (#[trigger] elems[i]) is Obj {
                    lemma_objs_of_elems_ok(elems);
                    let objs = crate::json::objs_of_elems(elems)->Ok_0;
                    let tss = choose|ts: Seq<i64>|
                        crate::json::recs_match_at(r->Ok_0, objs, ts);
                    assert(r->Ok_0.len() == elems.len());
                }
            },
            _ => {},
        },
    }
}

proof fn lemma_headers_fold_mod_ts(
    a: RecM,
    b: RecM,
    names: Seq<Seq<char>>,
    hs: Seq<(Seq<char>, Seq<u8>)>,
)
    requires
        rec_eq_mod_ts(a, b),
    ensures
        rec_eq_mod_ts(add_headers_rec(a, names, hs), add_headers_rec(b, names, hs)),
    decreases names.len(),
{
    if names.len() > 0 {
        lemma_headers_fold_mod_ts(a, b, names.drop_last(), hs);
        lemma_insert_mod_ts(
            add_headers_rec(a, names.drop_last(), hs),
            add_headers_rec(b, names.drop_last(), hs),
            names.last(),
            hdr_val(hs, names.last()),
        );
    }
}

proof fn lemma_queries_fold_mod_ts(
    a: RecM,
    b: RecM,
    names: Seq<Seq<char>>,
    qs: Seq<(Seq<char>, Seq<char>)>,
)
    requires
        rec_eq_mod_ts(a, b),
    ensures
        rec_eq_mod_ts(add_queries_rec(a, names, qs), add_queries_rec(b, names, qs)),
    decreases names.len(),
{
    if names.len() > 0 {
        lemma_queries_fold_mod_ts(a, b, names.drop_last(), qs);
        lemma_insert_mod_ts(
            add_queries_rec(a, names.drop_last(), qs),
            add_queries_rec(b, names.drop_last(), qs),
            names.last(),
            qry_val(qs, names.last()),
        );
    }
}

proof fn lemma_enrich_mod_ts(
    a: RecM,
    b: RecM,
    hnames: Seq<Seq<char>>,
    hs: Seq<(Seq<char>, Seq<u8>)>,
    qnames: Seq<Seq<char>>,
    qs: Seq<(Seq<char>, Seq<char>)>,
    pkey: Seq<char>,
    path: Seq<char>,
)
    requires
        rec_eq_mod_ts(a, b),
    ensures
        rec_eq_mod_ts(
            enrich_rec(a, hnames, hs, qnames, qs, pkey, path),
            enrich_rec(b, hnames, hs, qnames, qs, pkey, path),
        ),
{
    lemma_headers_fold_mod_ts(a, b, hnames, hs);
    lemma_queries_fold_mod_ts(
        add_headers_rec(a, hnames, hs),
        add_headers_rec(b, hnames, hs),
        qnames,
        qs,
    );
    let qa = add_queries_rec(add_headers_rec(a, hnames, hs), qnames, qs);
    let qb = add_queries_rec(add_headers_rec(b, hnames, hs), qnames, qs);
    lemma_insert_mod_ts(qa, qb, pkey, JVal::Str(path));
    lemma_try_insert_mod_ts(
        rec_insert(qa, pkey, JVal::Str(path)),
        rec_insert(qb, pkey, JVal::Str(path)),
        spec_source_type_key(),
        JVal::Str(spec_source_type()),
    );
}

/// Enrichment determinism: for a fixed configuration, two requests with
/// the same headers, query, path and body build batches equal in content,
/// the injected decode-time timestamps excepted; failures are identical.
pub proof fn lemma_enrichment_deterministic(
    b: Seq<u8>,
    enc: Encoding,
    hnames: Seq<Seq<char>>,
    hs: Seq<(Seq<char>, Seq<u8>)>,
    qnames: Seq<Seq<char>>,
    qs: Seq<(Seq<char>, Seq<char>)>,
    pkey: Seq<char>,
    path: Seq<char>,
    r1: Result<Seq<RecM>, ErrM>,
    r2: Result<Seq<RecM>, ErrM>,
)
    requires
        build_post(b, enc, hnames, hs, qnames, qs, pkey, path, r1),
        build_post(b, enc, hnames, hs, qnames, qs, pkey, path, r2),
    ensures
        r1 is Ok <==> r2 is Ok,
        r1 is Err ==> r1 == r2,
        r1 is Ok ==> r1->Ok_0.len() == r2->Ok_0.len() && forall|i: int|
            0 <= i < r1->Ok_0.len() ==> #[trigger] rec_eq_mod_ts(r1->Ok_0[i], r2->Ok_0[i]),
{
    let dm1 = choose|dm: Result<Seq<RecM>, ErrM>|
        #[trigger] decode_post(b, enc, dm) && enrich_post(dm, hnames, hs, qnames, qs, pkey, path, r1);
    let dm2 = choose|dm: Result<Seq<RecM>, ErrM>|
        #[trigger] decode_post(b, enc, dm) && enrich_post(dm, hnames, hs, qnames, qs, pkey, path, r2);
    lemma_decode_deterministic(b, enc, dm1, dm2);
    match dm1 {
        Err(_) => {},
        Ok(recs1) => {
            let recs2 = dm2->Ok_0;
            assert forall|i: int| 0 <= i < r1->Ok_0.len() implies #[trigger] rec_eq_mod_ts(
                r1->Ok_0[i],
                r2->Ok_0[i],
            ) by {
                assert(rec_eq_mod_ts(recs1[i], recs2[i]));
                assert(r1->Ok_0[i] == enrich_rec(recs1[i], hnames, hs, qnames, qs, pkey, path));
                assert(r2->Ok_0[i] == enrich_rec(recs2[i], hnames, hs, qnames, qs, pkey, path));
                lemma_enrich_mod_ts(recs1[i], recs2[i], hnames, hs, qnames, qs, pkey, path);
            }
        },
    }
}

proof fn lemma_headers_fold_get_null(
    r: RecM,
    names: Seq<Seq<char>>,
    hs: Seq<(Seq<char>, Seq<u8>)>,
    name: Seq<char>,
)
    requires
        names.contains(name),
        header_lookup(hs, name) is None,
    ensures
        rec_get(add_headers_rec(r, names, hs), name) == Some(JVal::Null),
    decreases names.len(),
{
    let last = names.last();
    let prefix = add_headers_rec(r, names.drop_last(), hs);
    if last == name {
        lemma_rec_insert_get_same(prefix, name, JVal::Null);
    } else {
        let k = choose|k: int| 0 <= k < names.len() && names[k] == name;
        assert(names.drop_last()[k] == name);
        assert(names.drop_last().contains(name));
        lemma_headers_fold_get_null(r, names.drop_last(), hs, name);
        lemma_rec_insert_get_other(prefix, last, hdr_val(hs, last), name);
    }
}

proof fn lemma_queries_fold_get_null(
    r: RecM,
    names: Seq<Seq<char>>,
    qs: Seq<(Seq<char>, Seq<char>)>,
    name: Seq<char>,
)
    requires
        names.contains(name),
        query_lookup(qs, name) is None,
    ensures
        rec_get(add_queries_rec(r, names, qs), name) == Some(JVal::Null),
    decreases names.len(),
{
    let last = names.last();
    let prefix = add_queries_rec(r, names.drop_last(), qs);
    if last == name {
        lemma_rec_insert_get_same(prefix, name, JVal::Null);
    } else {
        let k = choose|k: int| 0 <= k < names.len() && names[k] == name;
        assert(names.drop_last()[k] == name);
        assert(names.drop_last().contains(name));
        lemma_queries_fold_get_null(r, names.drop_last(), qs, name);
        lemma_rec_insert_get_other(prefix, last, qry_val(qs, last), name);
    }
}

proof fn lemma_queries_fold_keep_null(
    r: RecM,
    names: Seq<Seq<char>>,
    qs: Seq<(Seq<char>, Seq<char>)>,
    name: Seq<char>,
)
    requires
        rec_get(r, name) == Some(JVal::Null),
        names.contains(name) ==> query_lookup(qs, name) is None,
    ensures
        rec_get(add_queries_rec(r, names, qs), name) == Some(JVal::Null),
    decreases names.len(),
{
    if names.len() > 0 {
        let last = names.last();
        let prefix = add_queries_rec(r, names.drop_last(), qs);
        if names.drop_last().contains(name) {
            let k = choose|k: int|
                0 <= k < names.drop_last().len() && names.drop_last()[k] == name;
            assert(names[k] == name);
            assert(names.contains(name));
        }
        lemma_queries_fold_keep_null(r, names.drop_last(), qs, name);
        if last == name {
            assert(names.contains(name)) by {
                assert(names[names.len() - 1] == name);
            }
            lemma_rec_insert_get_same(prefix, name, JVal::Null);
        } else {
            lemma_rec_insert_get_other(prefix, last, qry_val(qs, last), name);
        }
    }
}

proof fn lemma_tail_keep_null(
    q: RecM,
    pkey: Seq<char>,
    path: Seq<char>,
    name: Seq<char>,
)
    requires
        rec_get(q, name) == Some(JVal::Null),
        pkey != name,
    ensures
        rec_get(
            rec_try_insert(
                rec_insert(q, pkey, JVal::Str(path)),
                spec_source_type_key(),
                JVal::Str(spec_source_type()),
            ),
            name,
        ) == Some(JVal::Null),
{
    lemma_rec_insert_get_other(q, pkey, JVal::Str(path), name);
    let p = rec_insert(q, pkey, JVal::Str(path));
    lemma_rec_try_insert_get(p, spec_source_type_key(), JVal::Str(spec_source_type()), name);
}

/// Absent header as null: a configured header name the request does not
/// carry is present in every enriched record with an explicit null value.
/// The law holds as long as the name is not also a present query
/// parameter and not the path key, which would overwrite the null later.
pub proof fn lemma_absent_header_as_null(
    r: RecM,
    hnames: Seq<Seq<char>>,
    hs: Seq<(Seq<char>, Seq<u8>)>,
    qnames: Seq<Seq<char>>,
    qs: Seq<(Seq<char>, Seq<char>)>,
    pkey: Seq<char>,
    path: Seq<char>,
    name: Seq<char>,
)
    requires
        hnames.contains(name),
        header_lookup(hs, name) is None,
        qnames.contains(name) ==> query_lookup(qs, name) is None,
        pkey != name,
    ensures
        rec_get(enrich_rec(r, hnames, hs, qnames, qs, pkey, path), name) == Some(JVal::Null),
{
    lemma_headers_fold_get_null(r, hnames, hs, name);
    lemma_queries_fold_keep_null(add_headers_rec(r, hnames, hs), qnames, qs, name);
    lemma_tail_keep_null(
        add_queries_rec(add_headers_rec(r, hnames, hs), qnames, qs),
        pkey,
        path,
        name,
    );
}

/// Every enriched record carries the source-kind key, and, where the
/// path key does not collide with it, the path key holding the matched
/// request path.
pub proof fn lemma_enrichment_always_stamps(
    r: RecM,
    hnames: Seq<Seq<char>>,
    hs: Seq<(Seq<char>, Seq<u8>)>,
    qnames: Seq<Seq<char>>,
    qs: Seq<(Seq<char>, Seq<char>)>,
    pkey: Seq<char>,
    path: Seq<char>,
)
    ensures
        rec_get(enrich_rec(r, hnames, hs, qnames, qs, pkey, path), spec_source_type_key())
            is Some,
        pkey != spec_source_type_key() ==> rec_get(
            enrich_rec(r, hnames, hs, qnames, qs, pkey, path),
            pkey,
        ) == Some(JVal::Str(path)),
{
    let q = add_queries_rec(add_headers_rec(r, hnames, hs), qnames, qs);
    lemma_rec_insert_get_same(q, pkey, JVal::Str(path));
    let p = rec_insert(q, pkey, JVal::Str(path));
    lemma_rec_try_insert_get(p, spec_source_type_key(), JVal::Str(spec_source_type()), pkey);
}

/// Absent query parameter as null: a configured query-parameter name the
/// request does not carry is present in every enriched record with an
/// explicit null value, as long as it is not the path key.
pub proof fn lemma_absent_query_as_null(
    r: RecM,
    hnames: Seq<Seq<char>>,
    hs: Seq<(Seq<char>, Seq<u8>)>,
    qnames: Seq<Seq<char>>,
    qs: Seq<(Seq<char>, Seq<char>)>,
    pkey: Seq<char>,
    path: Seq<char>,
    name: Seq<char>,
)
    requires
        qnames.contains(name),
        query_lookup(qs, name) is None,
        pkey != name,
    ensures
        rec_get(enrich_rec(r, hnames, hs, qnames, qs, pkey, path), name) == Some(JVal::Null),
{
    lemma_queries_fold_get_null(add_headers_rec(r, hnames, hs), qnames, qs, name);
    lemma_tail_keep_null(
        add_queries_rec(add_headers_rec(r, hnames, hs), qnames, qs),
        pkey,
        path,
        name,
    );
}

/// Enrichment determinism at the response level: two requests with the
/// same headers, query, path and body under one configuration get the
/// same status and message, and batches equal in content, the injected
/// decode-time timestamps excepted.
pub proof fn lemma_response_deterministic(
    strict: bool,
    url_path: Seq<char>,
    request_path: Seq<char>,
    hnames: Seq<Seq<char>>,
    hs: Seq<(Seq<char>, Seq<u8>)>,
    qnames: Seq<Seq<char>>,
    qs: Seq<(Seq<char>, Seq<char>)>,
    pkey: Seq<char>,
    enc: Encoding,
    body: Seq<u8>,
    s1: u16,
    m1: Seq<char>,
    e1: Seq<RecM>,
    s2: u16,
    m2: Seq<char>,
    e2: Seq<RecM>,
)
    requires
        handle_post(strict, url_path, request_path, hnames, hs, qnames, qs, pkey, enc, body, s1, m1, e1),
        handle_post(strict, url_path, request_path, hnames, hs, qnames, qs, pkey, enc, body, s2, m2, e2),
    ensures
        s1 == s2,
        m1 == m2,
        e1.len() == e2.len(),
        forall|i: int| 0 <= i < e1.len() ==> #[trigger] rec_eq_mod_ts(e1[i], e2[i]),
{
    if spec_path_match(strict, url_path, request_path) {
        match payload_model(body, hs) {
            Err(_) => {},
            Ok(payload) => {
                let rm1 = choose|rm: Result<Seq<RecM>, ErrM>|
                    #[trigger] build_post(
                        payload, enc, hnames, hs, qnames, qs, pkey, request_path, rm,
                    ) && match rm {
                        Ok(out) => (s1, m1, e1) == (200u16, Seq::<char>::empty(), out),
                        Err(e) => (s1, m1, e1) == (e.0, e.1, Seq::<RecM>::empty()),
                    };
                let rm2 = choose|rm: Result<Seq<RecM>, ErrM>|
                    #[trigger] build_post(
                        payload, enc, hnames, hs, qnames, qs, pkey, request_path, rm,
                    ) && match rm {
                        Ok(out) => (s2, m2, e2) == (200u16, Seq::<char>::empty(), out),
                        Err(e) => (s2, m2, e2) == (e.0, e.1, Seq::<RecM>::empty()),
                    };
                lemma_enrichment_deterministic(
                    payload, enc, hnames, hs, qnames, qs, pkey, request_path, rm1, rm2,
                );
            },
        }
    }
}

} // verus!
