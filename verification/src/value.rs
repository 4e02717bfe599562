use vstd::prelude::*;

verus! {

/// A structured field value carried by a record: a log field is a null,
/// a boolean, a number (kept as its decimal text), a string, a raw byte
/// string, a timestamp in milliseconds, an array, or a nested mapping.
#[derive(Debug, PartialEq, Eq)]
pub enum LogValue {
    Null,
    Bool(bool),
    Num(String),
    Str(String),
    Bytes(Vec<u8>),
    Timestamp(i64),
    Arr(Vec<LogValue>),
    Obj(Vec<(String, LogValue)>),
}

/// The mathematical model of a `LogValue`.
pub enum JVal {
    Null,
    Bool(bool),
    Num(Seq<char>),
    Str(Seq<char>),
    Bytes(Seq<u8>),
    Timestamp(i64),
    Arr(Seq<JVal>),
    Obj(Seq<(Seq<char>, JVal)>),
}

/// The model of a `LogValue`, defined structurally over the whole tree.
pub open spec fn value_model(v: LogValue) -> JVal
    decreases v,
    via value_model_decreases
{
    match v {
        LogValue::Null => JVal::Null,
        LogValue::Bool(b) => JVal::Bool(b),
        LogValue::Num(s) => JVal::Num(s@),
        LogValue::Str(s) => JVal::Str(s@),
        LogValue::Bytes(b) => JVal::Bytes(b@),
        LogValue::Timestamp(t) => JVal::Timestamp(t),
        LogValue::Arr(a) => JVal::Arr(
            Seq::new(
                a@.len(),
                |i: int| if 0 <= i < a@.len() { value_model(a@[i]) } else { JVal::Null },
            ),
        ),
        LogValue::Obj(o) => JVal::Obj(
            Seq::new(
                o@.len(),
                |i: int|
                    if 0 <= i < o@.len() {
                        (o@[i].0@, value_model(o@[i].1))
                    } else {
                        (Seq::<char>::empty(), JVal::Null)
                    },
            ),
        ),
    }
}

#[via_fn]
proof fn value_model_decreases(v: LogValue) {
    broadcast use vstd::std_specs::vec::axiom_vec_index_decreases;

}

impl View for LogValue {
    type V = JVal;

    open spec fn view(&self) -> JVal {
        value_model(*self)
    }
}

} // verus!
