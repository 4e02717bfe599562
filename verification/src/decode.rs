use vstd::prelude::*;
use vstd::string::StringExecFns;
use crate::error::{json_error, ErrorMessage};
use crate::json::{
    flatten_obj, json_parse, json_parse_object, objs_of_elems, parse_json, recs_match,
    recs_match_at, ErrM, RecM,
};
use crate::lines::{body_to_lines, spec_lines};
use crate::record::Record;
use crate::schema::spec_message_key;
use crate::value::{JVal, LogValue};

verus! {

/// The wire payload shape the decoder expects: newline-delimited plain
/// text, newline-delimited JSON objects, or one JSON array or object.
#[derive(Debug, Clone, Copy, PartialEq, Eq, Structural)]
pub enum Encoding {
    Text,
    Ndjson,
    Json,
}

impl Default for Encoding {
    /// Plain text is assumed when no encoding is configured.
    fn default() -> (r: Encoding)
        ensures
            r == Encoding::Text,
    {
        Encoding::Text
    }
}

/// The model of a batch: each record's entries in order.
pub open spec fn batch_model(v: Seq<Record>) -> Seq<RecM> {
    Seq::new(v.len(), |i: int| v[i]@)
}

/// The model of a decode or build outcome.
pub open spec fn result_model(r: Result<Vec<Record>, ErrorMessage>) -> Result<Seq<RecM>, ErrM> {
    match r {
        Ok(v) => Ok(batch_model(v@)),
        Err(e) => Err((e.code, e.message@)),
    }
}

/// The records of a plain-text payload: one per non-empty line, whose sole
/// entry holds that line's bytes.
pub open spec fn text_recs(b: Seq<u8>) -> Seq<RecM> {
    Seq::new(
        spec_lines(b).len(),
        |i: int| seq![(spec_message_key(), JVal::Bytes(spec_lines(b)[i]))],
    )
}

/// What one line of a newline-delimited JSON payload yields: the entries
/// of the object it parses to, or the failure that aborts the request.
pub open spec fn ndjson_line_obj(l: Seq<u8>) -> Result<RecM, ErrM> {
    match json_parse(l) {
        Err(d) => Err((400u16, "Bad JSON: "@ + "Error parsing Ndjson: "@ + d)),
        Ok(v) => if v is Obj {
            Ok(v->Obj_0)
        } else {
            Err(crate::json::object_kind_err(v))
        },
    }
}

/// The object entry lists of a sequence of lines; the first failing line's
/// failure aborts the whole batch.
pub open spec fn ndjson_objs(ls: Seq<Seq<u8>>) -> Result<Seq<RecM>, ErrM>
    decreases ls.len(),
{
    if ls.len() == 0 {
        Ok(Seq::<RecM>::empty())
    } else {
        match ndjson_line_obj(ls[0]) {
            Err(e) => Err(e),
            Ok(o) => match ndjson_objs(ls.drop_first()) {
                Ok(rest) => Ok(seq![o] + rest),
                Err(e) => Err(e),
            },
        }
    }
}

/// The object entry lists of a newline-delimited JSON payload.
pub open spec fn ndjson_model(b: Seq<u8>) -> Result<Seq<RecM>, ErrM> {
    ndjson_objs(spec_lines(b))
}

/// The object entry lists of a whole-payload JSON value: an array of
/// objects, a single object as a one-element batch, or the failure naming
/// the kind seen.
pub open spec fn json_model(b: Seq<u8>) -> Result<Seq<RecM>, ErrM> {
    match json_parse(b) {
        Err(d) => Err((400u16, "Bad JSON: "@ + "Error parsing Json: "@ + d)),
        Ok(v) => match v {
            JVal::Obj(pairs) => Ok(seq![pairs]),
            JVal::Arr(elems) => objs_of_elems(elems),
            other => Err(crate::json::shape_kind_err(other)),
        },
    }
}

/// What decoding owes for payload `b` under `enc`: text yields exactly the
/// non-empty lines; the JSON modes yield the modelled batch, each record
/// carrying some decode-time timestamp, or exactly the modelled failure.
pub open spec fn decode_post(b: Seq<u8>, enc: Encoding, rm: Result<Seq<RecM>, ErrM>) -> bool {
    match enc {
        Encoding::Text => rm matches Ok(recs) && recs == text_recs(b),
        Encoding::Ndjson => match ndjson_model(b) {
            Ok(objs) => rm matches Ok(recs) && recs_match(recs, objs),
            Err(e) => rm == Err::<Seq<RecM>, ErrM>(e),
        },
        Encoding::Json => match json_model(b) {
            Ok(objs) => rm matches Ok(recs) && recs_match(recs, objs),
            Err(e) => rm == Err::<Seq<RecM>, ErrM>(e),
        },
    }
}

proof fn lemma_ndjson_objs_err(ls: Seq<Seq<u8>>, k: int)
    requires
        0 <= k < ls.len(),
        forall|i: int| 0 <= i < k ==> (#[trigger] ndjson_line_obj(ls[i])) is Ok,
        ndjson_line_obj(ls[k]) is Err,
    ensures
        ndjson_objs(ls) == Err::<Seq<RecM>, ErrM>(ndjson_line_obj(ls[k])->Err_0),
    decreases ls.len(),
{
    if k > 0 {
        lemma_ndjson_objs_err(ls.drop_first(), k - 1);
    }
}

proof fn lemma_ndjson_objs_ok(ls: Seq<Seq<u8>>)
    requires
        forall|i: int| 0 <= i < ls.len() ==> (#[trigger] ndjson_line_obj(ls[i])) is Ok,
    ensures
        ndjson_objs(ls) matches Ok(objs) && objs.len() == ls.len() && forall|i: int|
            0 <= i < ls.len() ==> #[trigger] objs[i] == ndjson_line_obj(ls[i])->Ok_0,
    decreases ls.len(),
{
    if ls.len() > 0 {
        lemma_ndjson_objs_ok(ls.drop_first());
    }
}

/// Decode a raw payload under the configured encoding into a batch of
/// records, or the failure that aborts the whole request: no partial batch
/// is ever returned.
pub fn decode_body(body: &Vec<u8>, enc: Encoding) -> (r: Result<Vec<Record>, ErrorMessage>)
    ensures
        decode_post(body@, enc, result_model(r)),
{
    match enc {
        Encoding::Text => {
            let mut lines = body_to_lines(body);
            let ghost lm = spec_lines(body@);
            let mut recs: Vec<Record> = Vec::new();
            let ghost mut j: int = 0;
            while lines.len() > 0
                invariant
                    0 <= j,
                    j + lines@.len() == lm.len(),
                    recs@.len() == j,
                    forall|i: int| 0 <= i < lines@.len() ==> (#[trigger] lines@[i])@ == lm[j + i],
                    forall|i: int|
                        0 <= i < j ==> #[trigger] recs@[i]@ == seq![
                            (spec_message_key(), JVal::Bytes(lm[i])),
                        ],
                decreases lines@.len(),
            {
                let ghost before = lines@;
                let line = lines.remove(0);
                proof {
                    assert(line@ == lm[j]);
                    assert forall|i: int| 0 <= i < lines@.len() implies (#[trigger] lines@[i])@
                        == lm[j + 1 + i] by {
                        assert(lines@[i] == before[i + 1]);
                    }
                }
                let mut rec = Record::new();
                rec.insert(crate::schema::message_key(), LogValue::Bytes(line));
                proof {
                    assert(rec@ =~= seq![(spec_message_key(), JVal::Bytes(lm[j]))]);
                }
                recs.push(rec);
                proof {
                    j = j + 1;
                }
            }
            proof {
                assert(batch_model(recs@) =~= text_recs(body@));
            }
            Ok(recs)
        },
        Encoding::Ndjson => {
            let mut lines = body_to_lines(body);
            let ghost lm = spec_lines(body@);
            let mut recs: Vec<Record> = Vec::new();
            let ghost mut j: int = 0;
            let ghost mut ts: Seq<i64> = Seq::empty();
            while lines.len() > 0
                invariant
                    0 <= j,
                    j + lines@.len() == lm.len(),
                    recs@.len() == j,
                    ts.len() == j,
                    forall|i: int| 0 <= i < lines@.len() ==> (#[trigger] lines@[i])@ == lm[j + i],
                    forall|i: int| 0 <= i < j ==> (#[trigger] ndjson_line_obj(lm[i])) is Ok,
                    forall|i: int|
                        0 <= i < j ==> #[trigger] recs@[i]@ == flatten_obj(
                            ndjson_line_obj(lm[i])->Ok_0,
                            ts[i],
                        ),
                decreases lines@.len(),
            {
                let ghost before = lines@;
                let line = lines.remove(0);
                proof {
                    assert(line@ == lm[j]);
                    assert forall|i: int| 0 <= i < lines@.len() implies (#[trigger] lines@[i])@
                        == lm[j + 1 + i] by {
                        assert(lines@[i] == before[i + 1]);
                    }
                }
                match parse_json(&line) {
                    Err(d) => {
                        let msg = String::from_str("Error parsing Ndjson: ").concat(d.as_str());
                        let e = json_error(msg);
                        proof {
                            assert(e.message@ =~= ndjson_line_obj(lm[j])->Err_0.1);
                            lemma_ndjson_objs_err(lm, j);
                        }
                        return Err(e);
                    },
                    Ok(v) => {
                        match json_parse_object(v) {
                            Ok(rec) => {
                                recs.push(rec);
                                proof {
                                    let t0 = choose|t: i64|
                                        rec@ == flatten_obj(v@->Obj_0, t);
                                    assert(recs@[j]@ == flatten_obj(
                                        ndjson_line_obj(lm[j])->Ok_0,
                                        t0,
                                    ));
                                    ts = ts.push(t0);
                                }
                            },
                            Err(e) => {
                                proof {
                                    assert(ndjson_line_obj(lm[j]) is Err);
                                    assert((e.code, e.message@) == ndjson_line_obj(
                                        lm[j],
                                    )->Err_0);
                                    lemma_ndjson_objs_err(lm, j);
                                }
                                return Err(e);
                            },
                        }
                    },
                }
                proof {
                    j = j + 1;
                }
            }
            proof {
                lemma_ndjson_objs_ok(lm);
                let objs = ndjson_objs(lm)->Ok_0;
                let am = batch_model(recs@);
                assert forall|i: int| 0 <= i < am.len() implies #[trigger] am[i] == flatten_obj(
                    objs[i],
                    ts[i],
                ) by {
                    assert(recs@[i]@ == flatten_obj(ndjson_line_obj(lm[i])->Ok_0, ts[i]));
                }
                assert(recs_match_at(am, objs, ts));
                assert(recs_match(am, objs));
            }
            Ok(recs)
        },
        Encoding::Json => {
            match parse_json(body) {
                Err(d) => {
                    let msg = String::from_str("Error parsing Json: ").concat(d.as_str());
                    let e = json_error(msg);
                    proof {
                        assert(e.message@ =~= json_model(body@)->Err_0.1);
                    }
                    Err(e)
                },
                Ok(v) => crate::json::json_parse_array_of_object(v),
            }
        },
    }
}

} // verus!
