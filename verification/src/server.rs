use vstd::prelude::*;
use vstd::string::StringExecFns;
use crate::decode::Encoding;
use crate::enrich::{header_get, header_lookup, headers_model, names_model, query_model};
use crate::error::ErrorMessage;
use crate::json::{ErrM, RecM};
use crate::record::Record;
use crate::source::{build_post, SimpleHttpSource};
use crate::strutil::{str_eq, str_starts_with};

verus! {

/// What decompressing `b` with the gzip decoder yields, or nothing where
/// the stream is corrupt; a function of the input bytes alone.
pub uninterp spec fn gunzip_of(b: Seq<u8>) -> Option<Seq<u8>>;

/// What decompressing `b` with the deflate decoder yields, or nothing
/// where the stream is corrupt; a function of the input bytes alone.
pub uninterp spec fn inflate_of(b: Seq<u8>) -> Option<Seq<u8>>;

/// Relies on flate2::read::GzDecoder, read to the end: gzip decompression
/// of the input bytes alone.
#[verifier::external_body]
fn gunzip(b: &Vec<u8>) -> (r: Option<Vec<u8>>)
    ensures
        gunzip_of(b@) == match r {
            Some(v) => Some(v@),
            None => None::<Seq<u8>>,
        },
{
    let mut out = Vec::new();
    let mut d = flate2::read::GzDecoder::new(b.as_slice());
    match std::io::Read::read_to_end(&mut d, &mut out) {
        Ok(_) => Some(out),
        Err(_) => None,
    }
}

/// Relies on flate2::read::DeflateDecoder, read to the end: deflate
/// decompression of the input bytes alone.
#[verifier::external_body]
fn inflate(b: &Vec<u8>) -> (r: Option<Vec<u8>>)
    ensures
        inflate_of(b@) == match r {
            Some(v) => Some(v@),
            None => None::<Seq<u8>>,
        },
{
    let mut out = Vec::new();
    let mut d = flate2::read::DeflateDecoder::new(b.as_slice());
    match std::io::Read::read_to_end(&mut d, &mut out) {
        Ok(_) => Some(out),
        Err(_) => None,
    }
}

/// The comma byte separating content-encoding tokens.
pub const COMMA: u8 = 44;

/// The space byte trimmed from the ends of a token.
pub const SPACE: u8 = 32;

/// The fragments of `b` between comma bytes, empty fragments kept.
pub open spec fn split_commas(b: Seq<u8>) -> Seq<Seq<u8>>
    decreases b.len(),
{
    if b.len() == 0 {
        seq![Seq::<u8>::empty()]
    } else {
        let prev = split_commas(b.drop_last());
        if b.last() == COMMA {
            prev.push(Seq::<u8>::empty())
        } else {
            prev.update(prev.len() - 1, prev.last().push(b.last()))
        }
    }
}

/// `t` with leading space bytes dropped.
pub open spec fn trim_left(t: Seq<u8>) -> Seq<u8>
    decreases t.len(),
{
    if t.len() > 0 && t[0] == SPACE {
        trim_left(t.drop_first())
    } else {
        t
    }
}

/// `t` with trailing space bytes dropped.
pub open spec fn trim_right(t: Seq<u8>) -> Seq<u8>
    decreases t.len(),
{
    if t.len() > 0 && t.last() == SPACE {
        trim_right(t.drop_last())
    } else {
        t
    }
}

/// `t` with space bytes dropped from both ends.
pub open spec fn trim_spaces(t: Seq<u8>) -> Seq<u8> {
    trim_right(trim_left(t))
}

/// The compression tokens a content-encoding header value declares, in
/// declared order: the comma-separated fragments, trimmed.
pub open spec fn content_tokens(b: Seq<u8>) -> Seq<Seq<u8>> {
    Seq::new(split_commas(b).len(), |i: int| trim_spaces(split_commas(b)[i]))
}

/// The bytes of the token naming gzip compression.
pub open spec fn gzip_token() -> Seq<u8> {
    seq![103u8, 122u8, 105u8, 112u8]
}

/// The bytes of the token naming deflate compression.
pub open spec fn deflate_token() -> Seq<u8> {
    seq![100u8, 101u8, 102u8, 108u8, 97u8, 116u8, 101u8]
}

/// The failure reported when an encoded body does not decompress.
pub open spec fn decompress_err() -> ErrM {
    (400u16, "Failed decompressing payload"@)
}

/// The failure reported for a compression token other than gzip or
/// deflate.
pub open spec fn unsupported_encoding_err() -> ErrM {
    (415u16, "Unsupported encoding"@)
}

/// The body after undoing the declared compressions: tokens were applied
/// in declared order, so they are undone from the last to the first.
pub open spec fn decompress_model(b: Seq<u8>, tokens: Seq<Seq<u8>>) -> Result<Seq<u8>, ErrM>
    decreases tokens.len(),
{
    if tokens.len() == 0 {
        Ok(b)
    } else if tokens.last() == gzip_token() {
        match gunzip_of(b) {
            Some(v) => decompress_model(v, tokens.drop_last()),
            None => Err(decompress_err()),
        }
    } else if tokens.last() == deflate_token() {
        match inflate_of(b) {
            Some(v) => decompress_model(v, tokens.drop_last()),
            None => Err(decompress_err()),
        }
    } else {
        Err(unsupported_encoding_err())
    }
}

/// The payload handed to the decoder: the raw body, or the body with the
/// compressions of the content-encoding header undone.
pub open spec fn payload_model(body: Seq<u8>, hs: Seq<(Seq<char>, Seq<u8>)>) -> Result<
    Seq<u8>,
    ErrM,
> {
    match header_lookup(hs, "Content-Encoding"@) {
        None => Ok(body),
        Some(v) => decompress_model(body, content_tokens(v)),
    }
}

/// Whether the request path reaches this source: equality under strict
/// routing, a prefix match otherwise.
pub open spec fn spec_path_match(strict: bool, url_path: Seq<char>, request_path: Seq<char>) -> bool {
    if strict {
        request_path == url_path
    } else {
        url_path.is_prefix_of(request_path)
    }
}

/// Whether the request path reaches this source.
pub fn path_matches(strict: bool, url_path: &str, request_path: &str) -> (r: bool)
    ensures
        r == spec_path_match(strict, url_path@, request_path@),
{
    if strict {
        str_eq(request_path, url_path)
    } else {
        str_starts_with(request_path, url_path)
    }
}

/// Split a content-encoding header value into its trimmed tokens.
fn split_tokens(b: &Vec<u8>) -> (out: Vec<Vec<u8>>)
    ensures
        out.deep_view() == content_tokens(b@),
{
    let mut raw: Vec<Vec<u8>> = Vec::new();
    let mut cur: Vec<u8> = Vec::new();
    let mut i: usize = 0;
    proof {
        assert(b@.take(0) =~= Seq::<u8>::empty());
        assert(raw.deep_view().push(cur@) =~~= split_commas(b@.take(0)));
    }
    while i < b.len()
        invariant
            i <= b@.len(),
            raw.deep_view().push(cur@) == split_commas(b@.take(i as int)),
        decreases b@.len() - i,
    {
        let byte = b[i];
        proof {
            assert(b@.take(i + 1).drop_last() =~= b@.take(i as int));
            assert(b@.take(i + 1).last() == byte);
        }
        if byte == COMMA {
            let ghost old_raw = raw.deep_view();
            raw.push(cur);
            cur = Vec::new();
            proof {
                assert(raw.deep_view() =~~= old_raw.push(split_commas(b@.take(i as int)).last()));
                assert(raw.deep_view().push(cur@) =~~= split_commas(b@.take(i + 1)));
            }
        } else {
            cur.push(byte);
            proof {
                let prev = split_commas(b@.take(i as int));
                assert(raw.deep_view().push(cur@) =~~= prev.update(
                    prev.len() - 1,
                    prev.last().push(byte),
                ));
            }
        }
        i = i + 1;
    }
    proof {
        assert(b@.take(b@.len() as int) =~= b@);
    }
    let ghost old_raw = raw.deep_view();
    raw.push(cur);
    proof {
        assert(raw.deep_view() =~~= split_commas(b@));
    }
    let ghost frags = split_commas(b@);
    let mut out: Vec<Vec<u8>> = Vec::new();
    let mut k: usize = 0;
    while k < raw.len()
        invariant
            k <= raw@.len(),
            raw.deep_view() == frags,
            out@.len() == k,
            forall|j: int| 0 <= j < k ==> (#[trigger] out@[j])@ == trim_spaces(frags[j]),
        decreases raw@.len() - k,
    {
        let t = trim_vec(&raw[k]);
        proof {
            assert(raw@[k as int]@ == frags[k as int]);
        }
        out.push(t);
        k = k + 1;
    }
    proof {
        assert(out.deep_view() =~~= content_tokens(b@));
    }
    out
}

proof fn lemma_trim_left_skip(t: Seq<u8>, lo: int)
    requires
        0 <= lo <= t.len(),
        forall|j: int| 0 <= j < lo ==> t[j] == SPACE,
        lo == t.len() || t[lo] != SPACE,
    ensures
        trim_left(t) == t.skip(lo),
    decreases t.len(),
{
    if lo == 0 {
        assert(t.skip(0) =~= t);
    } else {
        assert(t.len() > 0 && t[0] == SPACE);
        assert forall|j: int| 0 <= j < lo - 1 implies t.drop_first()[j] == SPACE by {
            assert(t.drop_first()[j] == t[j + 1]);
        }
        lemma_trim_left_skip(t.drop_first(), lo - 1);
        assert(t.drop_first().skip(lo - 1) =~= t.skip(lo));
    }
}

proof fn lemma_trim_right_take(t: Seq<u8>, hi: int)
    requires
        0 <= hi <= t.len(),
        forall|j: int| hi <= j < t.len() ==> t[j] == SPACE,
        hi == 0 || t[hi - 1] != SPACE,
    ensures
        trim_right(t) == t.take(hi),
    decreases t.len(),
{
    if hi == t.len() {
        assert(t.take(hi) =~= t);
    } else {
        assert(t.len() > 0 && t.last() == SPACE);
        lemma_trim_right_take(t.drop_last(), hi);
        assert(t.drop_last().take(hi) =~= t.take(hi));
    }
}

/// A token with space bytes dropped from both ends.
fn trim_vec(t: &Vec<u8>) -> (out: Vec<u8>)
    ensures
        out@ == trim_spaces(t@),
{
    let n = t.len();
    let mut lo: usize = 0;
    while lo < n && t[lo] == SPACE
        invariant
            lo <= n,
            n == t@.len(),
            forall|j: int| 0 <= j < lo ==> t@[j] == SPACE,
        decreases n - lo,
    {
        lo = lo + 1;
    }
    proof {
        lemma_trim_left_skip(t@, lo as int);
    }
    let mut hi: usize = n;
    while hi > lo && t[hi - 1] == SPACE
        invariant
            lo <= hi <= n,
            n == t@.len(),
            forall|j: int| hi <= j < n ==> t@[j] == SPACE,
        decreases hi,
    {
        hi = hi - 1;
    }
    let ghost mid = t@.skip(lo as int);
    proof {
        assert forall|j: int| hi - lo <= j < mid.len() implies mid[j] == SPACE by {
            assert(mid[j] == t@[j + lo]);
        }
        if hi > lo {
            assert(mid[hi - lo - 1] == t@[hi - 1]);
        }
        lemma_trim_right_take(mid, hi - lo);
    }
    let mut out: Vec<u8> = Vec::new();
    let mut i: usize = lo;
    while i < hi
        invariant
            lo <= i <= hi <= n,
            n == t@.len(),
            out@.len() == i - lo,
            forall|j: int| 0 <= j < out@.len() ==> out@[j] == t@[lo + j],
        decreases hi - i,
    {
        out.push(t[i]);
        i = i + 1;
    }
    proof {
        assert(out@ =~= mid.take(hi - lo));
    }
    out
}

fn is_token(t: &Vec<u8>, ghost_tok: Ghost<Seq<u8>>, lit: &[u8]) -> (r: bool)
    requires
        lit@ == ghost_tok@,
    ensures
        r == (t@ == ghost_tok@),
{
    if t.len() != lit.len() {
        return false;
    }
    let mut i: usize = 0;
    while i < t.len()
        invariant
            t@.len() == lit@.len(),
            i <= t@.len(),
            forall|j: int| 0 <= j < i ==> t@[j] == lit@[j],
        decreases t@.len() - i,
    {
        if t[i] != lit[i] {
            return false;
        }
        i = i + 1;
    }
    proof {
        assert(t@ =~= lit@);
    }
    true
}

/// Undo the compressions the content-encoding header declares, last
/// declared first; an unknown token or a corrupt stream aborts the
/// request before any decoding.
fn decompress_all(body: Vec<u8>, enc_val: &Vec<u8>) -> (r: Result<Vec<u8>, ErrorMessage>)
    ensures
        decompress_model(body@, content_tokens(enc_val@)) == match r {
            Ok(v) => Ok::<Seq<u8>, ErrM>(v@),
            Err(e) => Err::<Seq<u8>, ErrM>((e.code, e.message@)),
        },
{
    let ghost all = content_tokens(enc_val@);
    let mut tokens = split_tokens(enc_val);
    let mut buf = body;
    let ghost b0 = buf@;
    proof {
        assert(tokens.deep_view().take(tokens.deep_view().len() as int) =~= tokens.deep_view());
    }
    while tokens.len() > 0
        invariant
            tokens.deep_view().len() <= all.len(),
            tokens.deep_view() == all.take(tokens.deep_view().len() as int),
            decompress_model(b0, all) == decompress_model(buf@, tokens.deep_view()),
        decreases tokens@.len(),
    {
        let ghost toks = tokens.deep_view();
        let t = match tokens.pop() {
            Some(t) => t,
            None => {
                proof {
                    assert(false);
                }
                return Err(ErrorMessage::new(400, String::new()));
            },
        };
        proof {
            assert(t@ == toks.last());
            assert(tokens.deep_view() =~~= toks.drop_last());
            assert(toks.drop_last() =~= all.take(toks.len() - 1));
        }
        if is_token(&t, Ghost(gzip_token()), &[103u8, 122u8, 105u8, 112u8]) {
            match gunzip(&buf) {
                Some(v) => {
                    buf = v;
                },
                None => {
                    return Err(
                        ErrorMessage::new(
                            400,
                            crate::error::decompress_failure_message(),
                        ),
                    );
                },
            }
        } else if is_token(
            &t,
            Ghost(deflate_token()),
            &[100u8, 101u8, 102u8, 108u8, 97u8, 116u8, 101u8],
        ) {
            match inflate(&buf) {
                Some(v) => {
                    buf = v;
                },
                None => {
                    return Err(
                        ErrorMessage::new(
                            400,
                            crate::error::decompress_failure_message(),
                        ),
                    );
                },
            }
        } else {
            return Err(ErrorMessage::new(415, crate::error::unsupported_encoding_message()));
        }
    }
    proof {
        assert(tokens.deep_view() =~= Seq::<Seq<u8>>::empty());
    }
    Ok(buf)
}

/// The response to one request: its status, a diagnostic for failures,
/// and the records to publish. Records are present only with status 200;
/// on any failure the batch is empty: nothing partial is ever handed on.
pub struct HttpResponse {
    pub status: u16,
    pub message: String,
    pub events: Vec<Record>,
}

/// What handling one request owes: a path mismatch answers 405 with no
/// records; then the declared compressions are undone; then the batch is
/// built; the response carries 200 and the batch, or the failure's status
/// and message and no records.
pub open spec fn handle_post(
    strict: bool,
    url_path: Seq<char>,
    request_path: Seq<char>,
    hnames: Seq<Seq<char>>,
    hs: Seq<(Seq<char>, Seq<u8>)>,
    qnames: Seq<Seq<char>>,
    qs: Seq<(Seq<char>, Seq<char>)>,
    path_key: Seq<char>,
    enc: Encoding,
    body: Seq<u8>,
    status: u16,
    message: Seq<char>,
    events: Seq<RecM>,
) -> bool {
    if !spec_path_match(strict, url_path, request_path) {
        (status, message, events) == (405u16, Seq::<char>::empty(), Seq::<RecM>::empty())
    } else {
        match payload_model(body, hs) {
            Err(e) => (status, message, events) == (e.0, e.1, Seq::<RecM>::empty()),
            Ok(payload) => exists|rm: Result<Seq<RecM>, ErrM>|
                #[trigger] build_post(
                    payload,
                    enc,
                    hnames,
                    hs,
                    qnames,
                    qs,
                    path_key,
                    request_path,
                    rm,
                ) && match rm {
                    Ok(out) => (status, message, events) == (200u16, Seq::<char>::empty(), out),
                    Err(e) => (status, message, events) == (e.0, e.1, Seq::<RecM>::empty()),
                },
        }
    }
}

/// Handle one accepted request end to end, except transport, TLS and
/// authentication, which the surrounding server supplies: route, undo the
/// declared compressions, build the batch, and answer. A failure anywhere
/// answers with its status and publishes nothing.
pub fn handle_request(
    source: &SimpleHttpSource,
    strict_path: bool,
    url_path: &str,
    request_path: &str,
    headers: &Vec<(String, Vec<u8>)>,
    query_parameters: &Vec<(String, String)>,
    body: Vec<u8>,
) -> (resp: HttpResponse)
    ensures
        handle_post(
            strict_path,
            url_path@,
            request_path@,
            names_model(source.headers@),
            headers_model(headers@),
            names_model(source.query_parameters@),
            query_model(query_parameters@),
            source.path_key@,
            source.encoding,
            body@,
            resp.status,
            resp.message@,
            crate::decode::batch_model(resp.events@),
        ),
{
    let ghost hs = headers_model(headers@);
    let ghost bm = body@;
    if !path_matches(strict_path, url_path, request_path) {
        let resp = HttpResponse { status: 405, message: String::new(), events: Vec::new() };
        proof {
            assert(crate::decode::batch_model(resp.events@) =~= Seq::<RecM>::empty());
        }
        return resp;
    }
    let payload = match header_get(headers, "Content-Encoding") {
        None => body,
        Some(v) => {
            let enc_val = crate::enrich::clone_byte_vec(v);
            let ghost vm = v@;
            match decompress_all(body, &enc_val) {
                Ok(p) => {
                    proof {
                        assert(payload_model(bm, hs) == Ok::<Seq<u8>, ErrM>(p@));
                    }
                    p
                },
                Err(e) => {
                    let resp = HttpResponse {
                        status: e.code,
                        message: e.message,
                        events: Vec::new(),
                    };
                    proof {
                        assert(crate::decode::batch_model(resp.events@) =~= Seq::<
                            RecM,
                        >::empty());
                    }
                    return resp;
                },
            }
        },
    };
    proof {
        assert(payload_model(bm, hs) == Ok::<Seq<u8>, ErrM>(payload@));
    }
    let ghost hnames = names_model(source.headers@);
    let ghost qnames = names_model(source.query_parameters@);
    let ghost qs = query_model(query_parameters@);
    let built = source.build_event(&payload, headers, query_parameters, request_path);
    let ghost rm = crate::decode::result_model(built);
    match built {
        Ok(events) => {
            let resp = HttpResponse { status: 200, message: String::new(), events };
            proof {
                assert(crate::decode::batch_model(resp.events@) == rm->Ok_0);
                assert(build_post(
                    payload_model(bm, hs)->Ok_0,
                    source.encoding,
                    hnames,
                    hs,
                    qnames,
                    qs,
                    source.path_key@,
                    request_path@,
                    rm,
                ));
            }
            resp
        },
        Err(e) => {
            let resp = HttpResponse { status: e.code, message: e.message, events: Vec::new() };
            proof {
                assert(crate::decode::batch_model(resp.events@) =~= Seq::<RecM>::empty());
                assert(build_post(
                    payload_model(bm, hs)->Ok_0,
                    source.encoding,
                    hnames,
                    hs,
                    qnames,
                    qs,
                    source.path_key@,
                    request_path@,
                    rm,
                ));
                assert(rm == Err::<Seq<RecM>, ErrM>((e.code, e.message@)));
            }
            resp
        },
    }
}

} // verus!
