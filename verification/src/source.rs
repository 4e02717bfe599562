use vstd::prelude::*;
use crate::decode::{decode_body, decode_post, result_model, Encoding};
use crate::enrich::{
    add_headers, add_headers_rec, add_path, add_query_parameters, add_queries_rec,
    add_source_type, headers_model, names_model, query_model,
};
use crate::error::ErrorMessage;
use crate::json::{ErrM, RecM};
use crate::record::{rec_insert, rec_try_insert, Record};
use crate::schema::{spec_source_type, spec_source_type_key};
use crate::value::JVal;

verus! {

/// The per-request strategy of this source kind: the encoding the decoder
/// runs under and the enrichment the batch receives.
pub struct SimpleHttpSource {
    pub encoding: Encoding,
    pub headers: Vec<String>,
    pub query_parameters: Vec<String>,
    pub path_key: String,
}

/// One record after enrichment: the configured header names first, then
/// the configured query parameters, then the path key, each overwriting a
/// colliding field; last the source-kind tag, which never overwrites.
pub open spec fn enrich_rec(
    r: RecM,
    hnames: Seq<Seq<char>>,
    hs: Seq<(Seq<char>, Seq<u8>)>,
    qnames: Seq<Seq<char>>,
    qs: Seq<(Seq<char>, Seq<char>)>,
    path_key: Seq<char>,
    path: Seq<char>,
) -> RecM {
    rec_try_insert(
        rec_insert(
            add_queries_rec(add_headers_rec(r, hnames, hs), qnames, qs),
            path_key,
            JVal::Str(path),
        ),
        spec_source_type_key(),
        JVal::Str(spec_source_type()),
    )
}

/// A decoded batch related to a built batch: a failure passes through
/// unchanged, a decoded batch is enriched record for record.
pub open spec fn enrich_post(
    dm: Result<Seq<RecM>, ErrM>,
    hnames: Seq<Seq<char>>,
    hs: Seq<(Seq<char>, Seq<u8>)>,
    qnames: Seq<Seq<char>>,
    qs: Seq<(Seq<char>, Seq<char>)>,
    path_key: Seq<char>,
    path: Seq<char>,
    rm: Result<Seq<RecM>, ErrM>,
) -> bool {
    match dm {
        Err(e) => rm == Err::<Seq<RecM>, ErrM>(e),
        Ok(recs) => rm matches Ok(out) && out.len() == recs.len() && forall|i: int|
            0 <= i < recs.len() ==> #[trigger] out[i] == enrich_rec(
                recs[i],
                hnames,
                hs,
                qnames,
                qs,
                path_key,
                path,
            ),
    }
}

/// What building a batch from a request owes: some decode outcome allowed
/// for the payload, enriched record for record, or its failure unchanged.
pub open spec fn build_post(
    body: Seq<u8>,
    enc: Encoding,
    hnames: Seq<Seq<char>>,
    hs: Seq<(Seq<char>, Seq<u8>)>,
    qnames: Seq<Seq<char>>,
    qs: Seq<(Seq<char>, Seq<char>)>,
    path_key: Seq<char>,
    path: Seq<char>,
    rm: Result<Seq<RecM>, ErrM>,
) -> bool {
    exists|dm: Result<Seq<RecM>, ErrM>|
        #[trigger] decode_post(body, enc, dm) && enrich_post(
            dm,
            hnames,
            hs,
            qnames,
            qs,
            path_key,
            path,
            rm,
        )
}

impl SimpleHttpSource {
    /// Build the batch for one accepted request: decode the body under the
    /// configured encoding, then enrich every record with the captured
    /// headers, query parameters, request path and source kind. A decode
    /// failure aborts the whole request: nothing is built from it.
    pub fn build_event(
        &self,
        body: &Vec<u8>,
        header_map: &Vec<(String, Vec<u8>)>,
        query_parameters: &Vec<(String, String)>,
        request_path: &str,
    ) -> (r: Result<Vec<Record>, ErrorMessage>)
        ensures
            build_post(
                body@,
                self.encoding,
                names_model(self.headers@),
                headers_model(header_map@),
                names_model(self.query_parameters@),
                query_model(query_parameters@),
                self.path_key@,
                request_path@,
                result_model(r),
            ),
    {
        let decoded = decode_body(body, self.encoding);
        let ghost dm = result_model(decoded);
        match decoded {
            Err(e) => Err(e),
            Ok(events) => {
                let ghost recs = dm->Ok_0;
                let events = add_headers(events, &self.headers, header_map);
                let events = add_query_parameters(
                    events,
                    &self.query_parameters,
                    query_parameters,
                );
                let events = add_path(events, self.path_key.as_str(), request_path);
                let events = add_source_type(events);
                proof {
                    assert(enrich_post(
                        dm,
                        names_model(self.headers@),
                        headers_model(header_map@),
                        names_model(self.query_parameters@),
                        query_model(query_parameters@),
                        self.path_key@,
                        request_path@,
                        result_model(Ok(events)),
                    ));
                }
                Ok(events)
            },
        }
    }
}

} // verus!
