use vstd::prelude::*;
use vstd::string::StringExecFns;
use crate::decode::Encoding;
use crate::schema::spec_source_type;
use crate::source::SimpleHttpSource;

verus! {

/// The kind of data a source produces.
#[derive(Debug, Clone, Copy, PartialEq, Eq, Structural)]
pub enum DataType {
    Log,
    Metric,
}

/// A transport resource a source declares before binding, for pre-flight
/// conflict detection against other configured sources.
#[derive(Debug, PartialEq, Eq)]
pub enum Resource {
    Tcp(String),
}

/// The declarative schema of this source: where to listen, how to decode,
/// and what to capture into every record.
pub struct SimpleHttpConfig {
    pub address: String,
    pub encoding: Encoding,
    pub headers: Vec<String>,
    pub query_parameters: Vec<String>,
    pub strict_path: bool,
    pub url_path: String,
    pub path_key: String,
}

/// A fresh vector holding the same strings.
fn clone_string_vec(v: &Vec<String>) -> (r: Vec<String>)
    ensures
        r@ == v@,
{
    let mut r: Vec<String> = Vec::new();
    let mut i: usize = 0;
    while i < v.len()
        invariant
            i <= v@.len(),
            r@.len() == i,
            forall|j: int| 0 <= j < i ==> r@[j] == v@[j],
        decreases v@.len() - i,
    {
        r.push(v[i].clone());
        i = i + 1;
    }
    proof {
        assert(r@ =~= v@);
    }
    r
}

impl Default for SimpleHttpConfig {
    /// The defaults of the schema: listen on every interface at port 80,
    /// decode as plain text, capture nothing, match exactly the root path,
    /// and store the path under "path".
    fn default() -> (c: SimpleHttpConfig)
        ensures
            c.address@ == "0.0.0.0:80"@,
            c.encoding == Encoding::Text,
            c.headers@.len() == 0,
            c.query_parameters@.len() == 0,
            c.strict_path,
            c.url_path@ == "/"@,
            c.path_key@ == "path"@,
    {
        SimpleHttpConfig {
            address: String::from_str("0.0.0.0:80"),
            encoding: Encoding::Text,
            headers: Vec::new(),
            query_parameters: Vec::new(),
            strict_path: true,
            url_path: String::from_str("/"),
            path_key: String::from_str("path"),
        }
    }
}

impl SimpleHttpConfig {
    /// The name this source kind is registered under.
    pub fn source_type(&self) -> (s: &'static str)
        ensures
            s@ == spec_source_type(),
    {
        "http"
    }

    /// The kind of data this source produces: log records.
    pub fn output_type(&self) -> (d: DataType)
        ensures
            d == DataType::Log,
    {
        DataType::Log
    }

    /// The transport resources this source will bind: one TCP address.
    pub fn resources(&self) -> (r: Vec<Resource>)
        ensures
            r@.len() == 1,
            r@[0] matches Resource::Tcp(a) && a@ == self.address@,
    {
        let mut r: Vec<Resource> = Vec::new();
        r.push(Resource::Tcp(self.address.clone()));
        r
    }

    /// The per-request strategy this configuration selects: the pieces of
    /// the schema the event builder reads.
    pub fn build_source(&self) -> (s: SimpleHttpSource)
        ensures
            s.encoding == self.encoding,
            s.headers@ == self.headers@,
            s.query_parameters@ == self.query_parameters@,
            s.path_key@ == self.path_key@,
    {
        SimpleHttpSource {
            encoding: self.encoding,
            headers: clone_string_vec(&self.headers),
            query_parameters: clone_string_vec(&self.query_parameters),
            path_key: self.path_key.clone(),
        }
    }
}

} // verus!
