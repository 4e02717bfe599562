use vstd::prelude::*;
use crate::json::RecM;
use crate::record::{rec_insert, rec_try_insert, Record};
use crate::schema::{source_type_key, source_type_tag, spec_source_type, spec_source_type_key};
use crate::strutil::{seq_eq_nocase, str_eq, str_eq_nocase};
use crate::value::{JVal, LogValue};

verus! {

/// The model of a header map: name and raw value of each header in order.
pub open spec fn headers_model(h: Seq<(String, Vec<u8>)>) -> Seq<(Seq<char>, Seq<u8>)> {
    Seq::new(h.len(), |i: int| (h[i].0@, h[i].1@))
}

/// The model of a query-parameter map.
pub open spec fn query_model(q: Seq<(String, String)>) -> Seq<(Seq<char>, Seq<char>)> {
    Seq::new(q.len(), |i: int| (q[i].0@, q[i].1@))
}

/// The model of an ordered list of configured names.
pub open spec fn names_model(v: Seq<String>) -> Seq<Seq<char>> {
    Seq::new(v.len(), |i: int| v[i]@)
}

/// The index of the first header whose name equals `name` up to ASCII
/// case, or -1.
pub open spec fn hdr_first_index(hs: Seq<(Seq<char>, Seq<u8>)>, name: Seq<char>) -> int
    decreases hs.len(),
{
    if hs.len() == 0 {
        -1
    } else if seq_eq_nocase(hs[0].0, name) {
        0
    } else {
        let rest = hdr_first_index(hs.drop_first(), name);
        if rest == -1 {
            -1
        } else {
            rest + 1
        }
    }
}

/// The raw value of the first header named `name`, compared up to ASCII
/// case, if any.
pub open spec fn header_lookup(hs: Seq<(Seq<char>, Seq<u8>)>, name: Seq<char>) -> Option<Seq<u8>> {
    if hdr_first_index(hs, name) == -1 {
        None
    } else {
        Some(hs[hdr_first_index(hs, name)].1)
    }
}

/// The index of the first query parameter named exactly `name`, or -1.
pub open spec fn qry_first_index(qs: Seq<(Seq<char>, Seq<char>)>, name: Seq<char>) -> int
    decreases qs.len(),
{
    if qs.len() == 0 {
        -1
    } else if qs[0].0 == name {
        0
    } else {
        let rest = qry_first_index(qs.drop_first(), name);
        if rest == -1 {
            -1
        } else {
            rest + 1
        }
    }
}

/// The value of the first query parameter named `name`, if any.
pub open spec fn query_lookup(qs: Seq<(Seq<char>, Seq<char>)>, name: Seq<char>) -> Option<
    Seq<char>,
> {
    if qry_first_index(qs, name) == -1 {
        None
    } else {
        Some(qs[qry_first_index(qs, name)].1)
    }
}

proof fn lemma_hdr_first_index(hs: Seq<(Seq<char>, Seq<u8>)>, name: Seq<char>)
    ensures
        hdr_first_index(hs, name) == -1 ==> forall|j: int|
            0 <= j < hs.len() ==> !seq_eq_nocase(hs[j].0, name),
        hdr_first_index(hs, name) != -1 ==> {
            let i = hdr_first_index(hs, name);
            &&& 0 <= i < hs.len()
            &&& seq_eq_nocase(hs[i].0, name)
            &&& forall|j: int| 0 <= j < i ==> !seq_eq_nocase(hs[j].0, name)
        },
    decreases hs.len(),
{
    if hs.len() == 0 {
    } else if seq_eq_nocase(hs[0].0, name) {
    } else {
        lemma_hdr_first_index(hs.drop_first(), name);
        assert forall|j: int| 1 <= j < hs.len() implies hs.drop_first()[j - 1] == hs[j] by {}
    }
}

proof fn lemma_hdr_first_index_is(hs: Seq<(Seq<char>, Seq<u8>)>, name: Seq<char>, i: int)
    requires
        0 <= i < hs.len(),
        seq_eq_nocase(hs[i].0, name),
        forall|j: int| 0 <= j < i ==> !seq_eq_nocase(hs[j].0, name),
    ensures
        hdr_first_index(hs, name) == i,
    decreases hs.len(),
{
    if i == 0 {
    } else {
        assert forall|j: int| 0 <= j < i - 1 implies !seq_eq_nocase(
            hs.drop_first()[j].0,
            name,
        ) by {
            assert(hs.drop_first()[j] == hs[j + 1]);
        }
        assert(hs.drop_first()[i - 1] == hs[i]);
        lemma_hdr_first_index_is(hs.drop_first(), name, i - 1);
    }
}

proof fn lemma_qry_first_index(qs: Seq<(Seq<char>, Seq<char>)>, name: Seq<char>)
    ensures
        qry_first_index(qs, name) == -1 ==> forall|j: int| 0 <= j < qs.len() ==> qs[j].0 != name,
        qry_first_index(qs, name) != -1 ==> {
            let i = qry_first_index(qs, name);
            &&& 0 <= i < qs.len()
            &&& qs[i].0 == name
            &&& forall|j: int| 0 <= j < i ==> qs[j].0 != name
        },
    decreases qs.len(),
{
    if qs.len() == 0 {
    } else if qs[0].0 == name {
    } else {
        lemma_qry_first_index(qs.drop_first(), name);
        assert forall|j: int| 1 <= j < qs.len() implies qs.drop_first()[j - 1] == qs[j] by {}
    }
}

proof fn lemma_qry_first_index_is(qs: Seq<(Seq<char>, Seq<char>)>, name: Seq<char>, i: int)
    requires
        0 <= i < qs.len(),
        qs[i].0 == name,
        forall|j: int| 0 <= j < i ==> qs[j].0 != name,
    ensures
        qry_first_index(qs, name) == i,
    decreases qs.len(),
{
    if i == 0 {
    } else {
        assert forall|j: int| 0 <= j < i - 1 implies qs.drop_first()[j].0 != name by {
            assert(qs.drop_first()[j] == qs[j + 1]);
        }
        assert(qs.drop_first()[i - 1] == qs[i]);
        lemma_qry_first_index_is(qs.drop_first(), name, i - 1);
    }
}

/// The first header whose name matches `name` up to ASCII case.
pub fn header_get<'a>(headers: &'a Vec<(String, Vec<u8>)>, name: &str) -> (r: Option<&'a Vec<u8>>)
    ensures
        match r {
            Some(v) => header_lookup(headers_model(headers@), name@) == Some(v@),
            None => header_lookup(headers_model(headers@), name@) is None,
        },
{
    let ghost hs = headers_model(headers@);
    let n = headers.len();
    let mut i: usize = 0;
    while i < n
        invariant
            n == hs.len(),
            i <= n,
            forall|j: int| 0 <= j < i ==> !seq_eq_nocase(hs[j].0, name@),
        decreases n - i,
    {
        if str_eq_nocase(headers[i].0.as_str(), name) {
            proof {
                lemma_hdr_first_index_is(hs, name@, i as int);
            }
            return Some(&headers[i].1);
        }
        i = i + 1;
    }
    proof {
        lemma_hdr_first_index(hs, name@);
    }
    None
}

/// The first query parameter named exactly `name`.
pub fn query_get<'a>(query: &'a Vec<(String, String)>, name: &str) -> (r: Option<&'a String>)
    ensures
        match r {
            Some(v) => query_lookup(query_model(query@), name@) == Some(v@),
            None => query_lookup(query_model(query@), name@) is None,
        },
{
    let ghost qs = query_model(query@);
    let n = query.len();
    let mut i: usize = 0;
    while i < n
        invariant
            n == qs.len(),
            i <= n,
            forall|j: int| 0 <= j < i ==> qs[j].0 != name@,
        decreases n - i,
    {
        if str_eq(query[i].0.as_str(), name) {
            proof {
                lemma_qry_first_index_is(qs, name@, i as int);
            }
            return Some(&query[i].1);
        }
        i = i + 1;
    }
    proof {
        lemma_qry_first_index(qs, name@);
    }
    None
}

/// The value a captured header contributes: its raw bytes, or an explicit
/// null when the request carries no such header.
pub open spec fn hdr_val(hs: Seq<(Seq<char>, Seq<u8>)>, name: Seq<char>) -> JVal {
    match header_lookup(hs, name) {
        Some(b) => JVal::Bytes(b),
        None => JVal::Null,
    }
}

/// The value a captured query parameter contributes, absent as null.
pub open spec fn qry_val(qs: Seq<(Seq<char>, Seq<char>)>, name: Seq<char>) -> JVal {
    match query_lookup(qs, name) {
        Some(v) => JVal::Str(v),
        None => JVal::Null,
    }
}

/// A record with every configured header name inserted in order, absent
/// headers as explicit nulls.
pub open spec fn add_headers_rec(
    r: RecM,
    names: Seq<Seq<char>>,
    hs: Seq<(Seq<char>, Seq<u8>)>,
) -> RecM
    decreases names.len(),
{
    if names.len() == 0 {
        r
    } else {
        rec_insert(
            add_headers_rec(r, names.drop_last(), hs),
            names.last(),
            hdr_val(hs, names.last()),
        )
    }
}

/// A record with every configured query-parameter name inserted in order.
pub open spec fn add_queries_rec(
    r: RecM,
    names: Seq<Seq<char>>,
    qs: Seq<(Seq<char>, Seq<char>)>,
) -> RecM
    decreases names.len(),
{
    if names.len() == 0 {
        r
    } else {
        rec_insert(
            add_queries_rec(r, names.drop_last(), qs),
            names.last(),
            qry_val(qs, names.last()),
        )
    }
}

/// A fresh byte vector holding the same bytes.
pub fn clone_byte_vec(v: &Vec<u8>) -> (r: Vec<u8>)
    ensures
        r@ == v@,
{
    let r = v.clone();
    proof {
        assert(r@ =~= v@);
    }
    r
}

/// Insert every configured header name into every record of the batch, in
/// configured order: the header's raw bytes when present, an explicit null
/// when absent. Count and order of records are unchanged.
pub fn add_headers(
    events: Vec<Record>,
    headers_config: &Vec<String>,
    headers: &Vec<(String, Vec<u8>)>,
) -> (out: Vec<Record>)
    ensures
        out@.len() == events@.len(),
        forall|i: int|
            0 <= i < events@.len() ==> (#[trigger] out@[i])@ == add_headers_rec(
                events@[i]@,
                names_model(headers_config@),
                headers_model(headers@),
            ),
{
    let ghost hs = headers_model(headers@);
    let ghost nm = names_model(headers_config@);
    let ghost evm = events@;
    let mut events = events;
    let mut out: Vec<Record> = Vec::new();
    let ghost mut done: int = 0;
    while events.len() > 0
        invariant
            0 <= done,
            done + events@.len() == evm.len(),
            out@.len() == done,
            forall|i: int| 0 <= i < events@.len() ==> #[trigger] events@[i] == evm[done + i],
            forall|i: int|
                0 <= i < done ==> (#[trigger] out@[i])@ == add_headers_rec(evm[i]@, nm, hs),
        decreases events@.len(),
    {
        let ghost before = events@;
        let mut rec = events.remove(0);
        let ghost r0 = rec@;
        proof {
            assert(rec == before[0]);
            assert forall|i: int| 0 <= i < events@.len() implies #[trigger] events@[i] == evm[done
                + 1 + i] by {
                assert(events@[i] == before[i + 1]);
            }
            assert(nm.take(0) =~= Seq::<Seq<char>>::empty());
        }
        let mut k: usize = 0;
        while k < headers_config.len()
            invariant
                k <= headers_config@.len(),
                rec@ == add_headers_rec(r0, nm.take(k as int), hs),
            decreases headers_config@.len() - k,
        {
            proof {
                assert(nm.take(k + 1).drop_last() =~= nm.take(k as int));
                assert(nm.take(k + 1).last() == nm[k as int]);
            }
            let name = &headers_config[k];
            match header_get(headers, name.as_str()) {
                Some(v) => {
                    rec.insert(name.as_str(), LogValue::Bytes(clone_byte_vec(v)));
                },
                None => {
                    rec.insert(name.as_str(), LogValue::Null);
                },
            }
            k = k + 1;
        }
        proof {
            assert(nm.take(headers_config@.len() as int) =~= nm);
        }
        out.push(rec);
        proof {
            done = done + 1;
        }
    }
    out
}

/// Insert every configured query-parameter name into every record of the
/// batch, in configured order, absent parameters as explicit nulls.
pub fn add_query_parameters(
    events: Vec<Record>,
    query_parameters_config: &Vec<String>,
    query_parameters: &Vec<(String, String)>,
) -> (out: Vec<Record>)
    ensures
        out@.len() == events@.len(),
        forall|i: int|
            0 <= i < events@.len() ==> (#[trigger] out@[i])@ == add_queries_rec(
                events@[i]@,
                names_model(query_parameters_config@),
                query_model(query_parameters@),
            ),
{
    let ghost qs = query_model(query_parameters@);
    let ghost nm = names_model(query_parameters_config@);
    let ghost evm = events@;
    let mut events = events;
    let mut out: Vec<Record> = Vec::new();
    let ghost mut done: int = 0;
    while events.len() > 0
        invariant
            0 <= done,
            done + events@.len() == evm.len(),
            out@.len() == done,
            forall|i: int| 0 <= i < events@.len() ==> #[trigger] events@[i] == evm[done + i],
            forall|i: int|
                0 <= i < done ==> (#[trigger] out@[i])@ == add_queries_rec(evm[i]@, nm, qs),
        decreases events@.len(),
    {
        let ghost before = events@;
        let mut rec = events.remove(0);
        let ghost r0 = rec@;
        proof {
            assert(rec == before[0]);
            assert forall|i: int| 0 <= i < events@.len() implies #[trigger] events@[i] == evm[done
                + 1 + i] by {
                assert(events@[i] == before[i + 1]);
            }
            assert(nm.take(0) =~= Seq::<Seq<char>>::empty());
        }
        let mut k: usize = 0;
        while k < query_parameters_config.len()
            invariant
                k <= query_parameters_config@.len(),
                rec@ == add_queries_rec(r0, nm.take(k as int), qs),
            decreases query_parameters_config@.len() - k,
        {
            proof {
                assert(nm.take(k + 1).drop_last() =~= nm.take(k as int));
                assert(nm.take(k + 1).last() == nm[k as int]);
            }
            let name = &query_parameters_config[k];
            match query_get(query_parameters, name.as_str()) {
                Some(v) => {
                    let owned = v.clone();
                    rec.insert(name.as_str(), LogValue::Str(owned));
                },
                None => {
                    rec.insert(name.as_str(), LogValue::Null);
                },
            }
            k = k + 1;
        }
        proof {
            assert(nm.take(query_parameters_config@.len() as int) =~= nm);
        }
        out.push(rec);
        proof {
            done = done + 1;
        }
    }
    out
}

/// Insert the configured path key into every record, holding the matched
/// request path; always present, never null.
pub fn add_path(events: Vec<Record>, key: &str, path: &str) -> (out: Vec<Record>)
    ensures
        out@.len() == events@.len(),
        forall|i: int|
            0 <= i < events@.len() ==> (#[trigger] out@[i])@ == rec_insert(
                events@[i]@,
                key@,
                JVal::Str(path@),
            ),
{
    let ghost evm = events@;
    let mut events = events;
    let mut out: Vec<Record> = Vec::new();
    let ghost mut done: int = 0;
    while events.len() > 0
        invariant
            0 <= done,
            done + events@.len() == evm.len(),
            out@.len() == done,
            forall|i: int| 0 <= i < events@.len() ==> #[trigger] events@[i] == evm[done + i],
            forall|i: int|
                0 <= i < done ==> (#[trigger] out@[i])@ == rec_insert(
                    evm[i]@,
                    key@,
                    JVal::Str(path@),
                ),
        decreases events@.len(),
    {
        let ghost before = events@;
        let mut rec = events.remove(0);
        proof {
            assert(rec == before[0]);
            assert forall|i: int| 0 <= i < events@.len() implies #[trigger] events@[i] == evm[done
                + 1 + i] by {
                assert(events@[i] == before[i + 1]);
            }
        }
        rec.insert(key, LogValue::Str(path.to_owned()));
        out.push(rec);
        proof {
            done = done + 1;
        }
    }
    out
}

/// Insert the fixed source-kind tag into every record, only where no field
/// of that name is already present: a user-supplied field shadows the tag.
pub fn add_source_type(events: Vec<Record>) -> (out: Vec<Record>)
    ensures
        out@.len() == events@.len(),
        forall|i: int|
            0 <= i < events@.len() ==> (#[trigger] out@[i])@ == rec_try_insert(
                events@[i]@,
                spec_source_type_key(),
                JVal::Str(spec_source_type()),
            ),
{
    let ghost evm = events@;
    let mut events = events;
    let mut out: Vec<Record> = Vec::new();
    let ghost mut done: int = 0;
    while events.len() > 0
        invariant
            0 <= done,
            done + events@.len() == evm.len(),
            out@.len() == done,
            forall|i: int| 0 <= i < events@.len() ==> #[trigger] events@[i] == evm[done + i],
            forall|i: int|
                0 <= i < done ==> (#[trigger] out@[i])@ == rec_try_insert(
                    evm[i]@,
                    spec_source_type_key(),
                    JVal::Str(spec_source_type()),
                ),
        decreases events@.len(),
    {
        let ghost before = events@;
        let mut rec = events.remove(0);
        proof {
            assert(rec == before[0]);
            assert forall|i: int| 0 <= i < events@.len() implies #[trigger] events@[i] == evm[done
                + 1 + i] by {
                assert(events@[i] == before[i + 1]);
            }
        }
        rec.try_insert(source_type_key(), LogValue::Str(source_type_tag().to_owned()));
        out.push(rec);
        proof {
            done = done + 1;
        }
    }
    out
}

} // verus!
