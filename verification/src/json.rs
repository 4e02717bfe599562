use vstd::prelude::*;
use vstd::string::StringExecFns;
use crate::error::{json_error, ErrorMessage};
use crate::record::{rec_insert, Record};
use crate::schema::{spec_timestamp_key, timestamp_key};
use crate::value::{value_model, JVal, LogValue};

verus! {

/// The model of a record: its entries in order.
pub type RecM = Seq<(Seq<char>, JVal)>;

/// The model of a failure: status code and message.
pub type ErrM = (u16, Seq<char>);

/// What parsing a byte payload as one JSON value yields: the parsed value,
/// or the parser's diagnostic. The result depends on the bytes alone.
pub uninterp spec fn json_parse(b: Seq<u8>) -> Result<JVal, Seq<char>>;

#[verifier::external_type_specification]
#[verifier::external_body]
pub struct ExJsonValue(serde_json::Value);

/// Relies on serde_json::Value being a public enum: each variant moves to
/// the library's own value, one arm each, a number as its decimal text.
#[verifier::external_body]
fn conv_json(v: serde_json::Value) -> LogValue {
    match v {
        serde_json::Value::Null => LogValue::Null,
        serde_json::Value::Bool(b) => LogValue::Bool(b),
        serde_json::Value::Number(n) => LogValue::Num(n.to_string()),
        serde_json::Value::String(s) => LogValue::Str(s),
        serde_json::Value::Array(a) => LogValue::Arr(a.into_iter().map(conv_json).collect()),
        serde_json::Value::Object(m) => LogValue::Obj(
            m.into_iter().map(|(k, x)| (k, conv_json(x))).collect(),
        ),
    }
}

/// Relies on serde_json::from_slice::<serde_json::Value>: the parsed value
/// and the diagnostic of a failure depend on the input bytes alone.
#[verifier::external_body]
pub(crate) fn parse_json(b: &Vec<u8>) -> (r: Result<LogValue, String>)
    ensures
        json_parse(b@) == match r {
            Ok(v) => Ok::<JVal, Seq<char>>(v@),
            Err(d) => Err::<JVal, Seq<char>>(d@),
        },
{
    match serde_json::from_slice::<serde_json::Value>(b.as_slice()) {
        Ok(v) => Ok(conv_json(v)),
        Err(e) => Err(format!("{:?}", e)),
    }
}

/// Relies on chrono::Utc::now for the decode-time wall clock; nothing is
/// assumed of the value.
#[verifier::external_body]
fn now_millis() -> i64 {
    chrono::Utc::now().timestamp_millis()
}

/// The name of a JSON value's kind, as reported in shape errors.
pub open spec fn jval_kind(v: JVal) -> Seq<char> {
    match v {
        JVal::Obj(_) => "Object"@,
        JVal::Arr(_) => "Array"@,
        JVal::Str(_) => "String"@,
        JVal::Num(_) => "Number"@,
        JVal::Bool(_) => "Bool"@,
        JVal::Null => "Null"@,
        JVal::Bytes(_) => "String"@,
        JVal::Timestamp(_) => "Number"@,
    }
}

/// The name of a JSON value's kind.
pub fn json_value_to_type_string(value: &LogValue) -> (s: &'static str)
    ensures
        s@ == jval_kind(value@),
{
    match value {
        LogValue::Obj(_) => "Object",
        LogValue::Arr(_) => "Array",
        LogValue::Str(_) => "String",
        LogValue::Num(_) => "Number",
        LogValue::Bool(_) => "Bool",
        LogValue::Null => "Null",
        LogValue::Bytes(_) => "String",
        LogValue::Timestamp(_) => "Number",
    }
}

/// All of `pairs` inserted into `base`, first pair first.
pub open spec fn rec_insert_all(base: RecM, pairs: RecM) -> RecM
    decreases pairs.len(),
{
    if pairs.len() == 0 {
        base
    } else {
        rec_insert(rec_insert_all(base, pairs.drop_last()), pairs.last().0, pairs.last().1)
    }
}

/// The record a JSON object's entries flatten into: a timestamp taken at
/// decode time, then every entry of the object in order, a key holding a
/// literal dot staying one leaf key.
pub open spec fn flatten_obj(pairs: RecM, t: i64) -> RecM {
    rec_insert_all(seq![(spec_timestamp_key(), JVal::Timestamp(t))], pairs)
}

/// The failure reported for a JSON value where an object was required.
pub open spec fn object_kind_err(v: JVal) -> ErrM {
    (400u16, "Bad JSON: "@ + "Expected Object, got "@ + jval_kind(v))
}

/// The failure reported for a payload that is neither array nor object.
pub open spec fn shape_kind_err(v: JVal) -> ErrM {
    (400u16, "Bad JSON: "@ + "Expected Array or Object, got "@ + jval_kind(v) + "."@)
}

/// The entry lists of the array elements, all of which must be objects;
/// otherwise the failure for the first element of another kind.
pub open spec fn objs_of_elems(elems: Seq<JVal>) -> Result<Seq<RecM>, ErrM>
    decreases elems.len(),
{
    if elems.len() == 0 {
        Ok(Seq::<RecM>::empty())
    } else if !(elems[0] is Obj) {
        Err(object_kind_err(elems[0]))
    } else {
        match objs_of_elems(elems.drop_first()) {
            Ok(rest) => Ok(seq![elems[0]->Obj_0] + rest),
            Err(e) => Err(e),
        }
    }
}

/// `actual` is `objs` flattened record for record, the record at `i`
/// carrying the decode-time timestamp `tss[i]`.
pub open spec fn recs_match_at(actual: Seq<RecM>, objs: Seq<RecM>, tss: Seq<i64>) -> bool {
    &&& actual.len() == objs.len()
    &&& tss.len() == objs.len()
    &&& forall|i: int| 0 <= i < actual.len() ==> #[trigger] actual[i] == flatten_obj(objs[i], tss[i])
}

/// `actual` is `objs` flattened record for record, each record carrying
/// some decode-time timestamp.
pub open spec fn recs_match(actual: Seq<RecM>, objs: Seq<RecM>) -> bool {
    exists|tss: Seq<i64>| recs_match_at(actual, objs, tss)
}

proof fn lemma_objs_of_elems_err(elems: Seq<JVal>, k: int)
    requires
        0 <= k < elems.len(),
        forall|i: int| 0 <= i < k ==> elems[i] is Obj,
        !(elems[k] is Obj),
    ensures
        objs_of_elems(elems) == Err::<Seq<RecM>, ErrM>(object_kind_err(elems[k])),
    decreases elems.len(),
{
    if k > 0 {
        lemma_objs_of_elems_err(elems.drop_first(), k - 1);
    }
}

pub proof fn lemma_objs_of_elems_ok(elems: Seq<JVal>)
    requires
        forall|i: int| 0 <= i < elems.len() ==> elems[i] is Obj,
    ensures
        objs_of_elems(elems) matches Ok(objs) && objs.len() == elems.len() && forall|i: int|
            0 <= i < elems.len() ==> #[trigger] objs[i] == elems[i]->Obj_0,
    decreases elems.len(),
{
    if elems.len() > 0 {
        lemma_objs_of_elems_ok(elems.drop_first());
    }
}

/// Flatten one parsed JSON value, which must be an object, into a record
/// carrying a decode-time timestamp and then the object's entries.
pub fn json_parse_object(value: LogValue) -> (r: Result<Record, ErrorMessage>)
    ensures
        value@ matches JVal::Obj(pairs) ==> (r matches Ok(rec) && exists|t: i64|
            rec@ == flatten_obj(pairs, t)),
        !(value@ is Obj) ==> (r matches Err(e) && (e.code, e.message@) == object_kind_err(value@)),
{
    let ghost vm = value@;
    let mut rec = Record::new();
    let t = now_millis();
    rec.insert(timestamp_key(), LogValue::Timestamp(t));
    proof {
        assert(rec@ =~= seq![(spec_timestamp_key(), JVal::Timestamp(t))]);
    }
    match value {
        LogValue::Obj(mut pairs) => {
            let ghost pm = vm->Obj_0;
            let ghost n = pm.len();
            proof {
                assert(pm.take(0) =~= Seq::<(Seq<char>, JVal)>::empty());
            }
            let ghost mut j: int = 0;
            while pairs.len() > 0
                invariant
                    0 <= j,
                    j + pairs@.len() == n,
                    rec@ == rec_insert_all(
                        seq![(spec_timestamp_key(), JVal::Timestamp(t))],
                        pm.take(j as int),
                    ),
                    forall|i: int|
                        0 <= i < pairs@.len() ==> (#[trigger] pairs@[i].0@, value_model(
                            pairs@[i].1,
                        )) == pm[j + i],
                decreases pairs@.len(),
            {
                let (k, v) = pairs.remove(0);
                proof {
                    assert(pm.take(j + 1).drop_last() =~= pm.take(j));
                    assert(pm.take(j + 1).last() == pm[j]);
                }
                rec.insert(k.as_str(), v);
                proof {
                    j = j + 1;
                }
            }
            proof {
                assert(pm.take(j) =~= pm);
                assert(rec@ == flatten_obj(pm, t));
            }
            Ok(rec)
        },
        other => {
            let kind = json_value_to_type_string(&other);
            let msg = String::from_str("Expected Object, got ").concat(kind);
            let e = json_error(msg);
            proof {
                assert(e.message@ =~= object_kind_err(vm).1);
            }
            Err(e)
        },
    }
}

/// Decode a whole parsed JSON payload: an array of objects becomes one
/// record per element, a single object a one-record batch, and any other
/// shape the failure naming the observed kind.
pub fn json_parse_array_of_object(value: LogValue) -> (r: Result<Vec<Record>, ErrorMessage>)
    ensures
        value@ matches JVal::Arr(elems) ==> match objs_of_elems(elems) {
            Ok(objs) => (r matches Ok(recs) && recs_match(
                Seq::new(recs@.len(), |i: int| recs@[i]@),
                objs,
            )),
            Err(em) => (r matches Err(e) && (e.code, e.message@) == em),
        },
        value@ matches JVal::Obj(pairs) ==> (r matches Ok(recs) && recs_match(
            Seq::new(recs@.len(), |i: int| recs@[i]@),
            seq![pairs],
        )),
        !(value@ is Arr) && !(value@ is Obj) ==> (r matches Err(e) && (e.code, e.message@)
            == shape_kind_err(value@)),
{
    let ghost vm = value@;
    match value {
        LogValue::Arr(mut elems) => {
            let ghost em = vm->Arr_0;
            let ghost n = em.len();
            let mut recs: Vec<Record> = Vec::new();
            let ghost mut j: int = 0;
            let ghost mut ts: Seq<i64> = Seq::empty();
            while elems.len() > 0
                invariant
                    0 <= j,
                    j + elems@.len() == n,
                    recs@.len() == j,
                    ts.len() == j,
                    forall|i: int| 0 <= i < j ==> em[i] is Obj,
                    forall|i: int|
                        0 <= i < j ==> #[trigger] recs@[i]@ == flatten_obj(em[i]->Obj_0, ts[i]),
                    forall|i: int|
                        0 <= i < elems@.len() ==> value_model(#[trigger] elems@[i]) == em[j + i],
                decreases elems@.len(),
            {
                let ghost before = elems@;
                let e = elems.remove(0);
                proof {
                    assert(e == before[0]);
                    assert(value_model(before[0]) == em[j]);
                    assert(j < n);
                    assert forall|i: int| 0 <= i < elems@.len() implies value_model(
                        #[trigger] elems@[i],
                    ) == em[j + 1 + i] by {
                        assert(elems@[i] == before[i + 1]);
                    }
                }
                match json_parse_object(e) {
                    Ok(rec) => {
                        recs.push(rec);
                        proof {
                            assert(em[j] is Obj);
                            assert(recs@[j] == rec);
                            let t0 = choose|t: i64| rec@ == flatten_obj(em[j]->Obj_0, t);
                            assert(recs@[j]@ == flatten_obj(em[j]->Obj_0, t0));
                            ts = ts.push(t0);
                        }
                    },
                    Err(err) => {
                        proof {
                            assert(!(em[j] is Obj));
                            lemma_objs_of_elems_err(em, j);
                        }
                        return Err(err);
                    },
                }
                proof {
                    j = j + 1;
                }
            }
            proof {
                lemma_objs_of_elems_ok(em);
                let objs = objs_of_elems(em)->Ok_0;
                let am = Seq::new(recs@.len(), |i: int| recs@[i]@);
                assert forall|i: int| 0 <= i < am.len() implies #[trigger] am[i] == flatten_obj(
                    objs[i],
                    ts[i],
                ) by {
                    assert(recs@[i]@ == flatten_obj(em[i]->Obj_0, ts[i]));
                }
                assert(recs_match_at(am, objs, ts));
                assert(recs_match(am, objs));
            }
            Ok(recs)
        },
        other => {
            if matches!(&other, LogValue::Obj(_)) {
                let rec = match json_parse_object(other) {
                    Ok(rec) => rec,
                    Err(e) => {
                        proof {
                            assert(false);
                        }
                        return Err(e);
                    },
                };
                let mut recs: Vec<Record> = Vec::new();
                recs.push(rec);
                proof {
                    let pairs = vm->Obj_0;
                    let t = choose|t: i64| rec@ == flatten_obj(pairs, t);
                    let am = Seq::new(recs@.len(), |i: int| recs@[i]@);
                    assert(seq![pairs][0] == pairs);
                    assert(am[0] == rec@);
                    assert(am[0] == flatten_obj(seq![pairs][0], seq![t][0]));
                    assert(recs_match_at(am, seq![pairs], seq![t]));
                    assert(recs_match(am, seq![pairs]));
                }
                Ok(recs)
            } else {
                let kind = json_value_to_type_string(&other);
                let msg = String::from_str("Expected Array or Object, got ").concat(kind).concat(
                    ".",
                );
                let e = json_error(msg);
                proof {
                    assert(e.message@ =~= shape_kind_err(vm).1);
                }
                Err(e)
            }
        },
    }
}

} // verus!
