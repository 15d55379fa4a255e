//! Embedding request and response values and the vector-database
//! configuration.
//!
//! Vector entries are carried as raw 32-bit patterns throughout the
//! library; their numeric reading belongs to the callers at the border.

use vstd::prelude::*;

use crate::error::RagError;
use crate::jsonout::{json_quote, json_string_of};
use crate::strutil::{dec_chars, u64_to_dec_string};

verus! {

/// A batch embedding request: one model and the input texts, in order.
#[derive(Debug, Clone)]
pub struct EmbedRequest {
    pub model: String,
    pub input: Vec<String>,
}

/// A batch embedding response: the serving model and one vector of raw
/// 32-bit entries per input, in input order.
#[derive(Debug, Clone)]
pub struct EmbedResponse {
    pub model: String,
    pub embeddings: Vec<Vec<u32>>,
}

/// An embedding request from a model name and borrowed input texts.
#[allow(non_snake_case)]
pub fn NewEmbedRequest(model: &str, input: Vec<&str>) -> (r: EmbedRequest)
    ensures
        r.model@ == model@,
        r.input.deep_view() == input.deep_view(),
{
    let mut owned: Vec<String> = Vec::new();
    let mut i: usize = 0;
    while i < input.len()
        invariant
            i <= input@.len(),
            owned.deep_view() =~= input.deep_view().take(i as int),
        decreases input@.len() - i,
    {
        let ghost prev = owned.deep_view();
        owned.push(input[i].to_owned());
        proof {
            assert(owned.deep_view() =~= prev.push(input@[i as int]@));
            assert(owned.deep_view() =~= input.deep_view().take(i + 1));
        }
        i += 1;
    }
    proof {
        assert(input.deep_view().take(input@.len() as int) =~= input.deep_view());
    }
    EmbedRequest { model: model.to_owned(), input: owned }
}

/// std's read-write lock, declared so a shared, locked request can stand
/// in a signature; what it holds is opaque to the proofs.
#[verifier::external_type_specification]
#[verifier::external_body]
#[verifier::reject_recursive_types(T)]
pub struct ExRwLock<T: ?Sized>(std::sync::RwLock<T>);

/// Relies on std::sync::Arc::new and std::sync::RwLock::new: wraps a
/// fresh embedding request for shared, locked access across concurrent
/// tasks. What the lock holds is opaque here; the request itself is
/// built as `NewEmbedRequest` builds it.
#[allow(non_snake_case)]
#[verifier::external_body]
pub fn ArcEmbedRequest(model: &str, input: Vec<&str>) -> std::sync::Arc<
    std::sync::RwLock<EmbedRequest>,
> {
    let input: Vec<String> = input.iter().map(|s| s.to_string()).collect();
    let model = model.to_string();
    std::sync::Arc::new(std::sync::RwLock::new(EmbedRequest { model, input }))
}

/// An embedding response from its parts.
#[allow(non_snake_case)]
pub fn NewEmbedResponse(model: String, embeddings: Vec<Vec<u32>>) -> (r: EmbedResponse)
    ensures
        r.model@ == model@,
        r.embeddings.deep_view() == embeddings.deep_view(),
{
    EmbedResponse { model, embeddings }
}

/// An embedding response with no model and no vectors.
#[allow(non_snake_case)]
pub fn EmptyEmbedResponse() -> (r: EmbedResponse)
    ensures
        r.model@.len() == 0,
        r.embeddings@.len() == 0,
{
    EmbedResponse { model: String::new(), embeddings: Vec::new() }
}

/// An embedding request with no model and no inputs.
#[allow(non_snake_case)]
pub fn EmptyEmbedRequest() -> (r: EmbedRequest)
    ensures
        r.model@.len() == 0,
        r.input@.len() == 0,
{
    EmbedRequest { model: String::new(), input: Vec::new() }
}

/// The JSON array of string literals encoding `items`.
pub open spec fn json_string_array(items: Seq<Seq<char>>) -> Seq<char>
    decreases items.len(),
{
    if items.len() == 0 {
        Seq::empty()
    } else if items.len() == 1 {
        json_string_of(items[0])
    } else {
        json_string_array(items.drop_last()) + ","@ + json_string_of(items.last())
    }
}

/// The JSON body of a batch embedding request, exactly as sent on the
/// wire: `{"model":M,"input":[I0,...]}`.
pub open spec fn embed_request_json(model: Seq<char>, input: Seq<Seq<char>>) -> Seq<char> {
    "{\"model\":"@ + json_string_of(model) + ",\"input\":["@ + json_string_array(input) + "]}"@
}

impl EmbedRequest {
    /// The request's JSON wire body, assembled and checked field by
    /// field. The result shape mirrors the callers' expectations; success
    /// is owed on every input.
    pub fn to_json(&self) -> (r: Result<String, RagError>)
        ensures
            r matches Ok(s) && s@ == embed_request_json(self.model@, self.input.deep_view()),
    {
        let quoted_model = json_quote(self.model.as_str());
        let mut body = String::new();
        body.append("{\"model\":");
        body.append(quoted_model.as_str());
        body.append(",\"input\":[");
        let ghost input_views = self.input.deep_view();
        let mut i: usize = 0;
        while i < self.input.len()
            invariant
                i <= self.input@.len(),
                input_views == self.input.deep_view(),
                body@ == "{\"model\":"@ + json_string_of(self.model@) + ",\"input\":["@
                    + json_string_array(input_views.take(i as int)),
            decreases self.input@.len() - i,
        {
            if i > 0 {
                body.append(",");
            }
            let quoted = json_quote(self.input[i].as_str());
            body.append(quoted.as_str());
            proof {
                let taken = input_views.take(i + 1);
                assert(taken.drop_last() =~= input_views.take(i as int));
                assert(taken.last() == input_views[i as int]);
                if i == 0 {
                    assert(json_string_array(taken) == json_string_of(input_views[0]));
                }
            }
            i += 1;
        }
        body.append("]}");
        proof {
            assert(input_views.take(self.input@.len() as int) =~= input_views);
            assert(body@ =~= embed_request_json(self.model@, self.input.deep_view()));
        }
        Ok(body)
    }

    /// Appends one input text to the batch.
    pub fn add_input(&mut self, input: &str)
        ensures
            final(self).model@ == old(self).model@,
            final(self).input.deep_view() == old(self).input.deep_view().push(input@),
    {
        let ghost prev = self.input.deep_view();
        self.input.push(input.to_owned());
        proof {
            assert(self.input.deep_view() =~= prev.push(input@));
        }
    }

    /// Replaces the request's model name.
    pub fn set_model(&mut self, model: String)
        ensures
            final(self).model@ == model@,
            final(self).input.deep_view() == old(self).input.deep_view(),
    {
        self.model = model;
    }

    /// The input texts, in order.
    pub fn get_input(&self) -> (r: Vec<String>)
        ensures
            r.deep_view() == self.input.deep_view(),
    {
        let mut out: Vec<String> = Vec::new();
        let mut i: usize = 0;
        while i < self.input.len()
            invariant
                i <= self.input@.len(),
                out.deep_view() =~= self.input.deep_view().take(i as int),
            decreases self.input@.len() - i,
        {
            let ghost prev = out.deep_view();
            out.push(self.input[i].clone());
            proof {
                assert(out.deep_view() =~= prev.push(self.input@[i as int]@));
                assert(out.deep_view() =~= self.input.deep_view().take(i + 1));
            }
            i += 1;
        }
        proof {
            assert(self.input.deep_view().take(self.input@.len() as int)
                =~= self.input.deep_view());
        }
        out
    }

    /// The request's model name.
    pub fn get_model(&self) -> (r: String)
        ensures
            r@ == self.model@,
    {
        self.model.clone()
    }
}

impl EmbedResponse {
    /// Appends one vector to the response.
    pub fn add_embedding(&mut self, embedding: Vec<u32>)
        ensures
            final(self).model@ == old(self).model@,
            final(self).embeddings@ == old(self).embeddings@.push(embedding),
    {
        self.embeddings.push(embedding);
    }

    /// Replaces the response's model name.
    pub fn set_model(&mut self, model: String)
        ensures
            final(self).model@ == model@,
            final(self).embeddings@ == old(self).embeddings@,
    {
        self.model = model;
    }

    /// The vectors, in input order.
    pub fn get_embeddings(&self) -> (r: Vec<Vec<u32>>)
        ensures
            r.deep_view() == self.embeddings.deep_view(),
    {
        let mut out: Vec<Vec<u32>> = Vec::new();
        let mut i: usize = 0;
        while i < self.embeddings.len()
            invariant
                i <= self.embeddings@.len(),
                out.deep_view() =~= self.embeddings.deep_view().take(i as int),
            decreases self.embeddings@.len() - i,
        {
            let ghost prev = out.deep_view();
            out.push(copy_vector(&self.embeddings[i]));
            proof {
                assert(out.deep_view() =~~= prev.push(self.embeddings@[i as int].deep_view()));
                assert(out.deep_view() =~~= self.embeddings.deep_view().take(i + 1));
            }
            i += 1;
        }
        proof {
            assert(self.embeddings.deep_view().take(self.embeddings@.len() as int)
                =~~= self.embeddings.deep_view());
        }
        out
    }

    /// The response's model name.
    pub fn get_model(&self) -> (r: String)
        ensures
            r@ == self.model@,
    {
        self.model.clone()
    }
}

/// An entry-for-entry copy of one vector.
pub fn copy_vector(src: &Vec<u32>) -> (r: Vec<u32>)
    ensures
        r@ == src@,
{
    let mut out: Vec<u32> = Vec::new();
    let mut i: usize = 0;
    while i < src.len()
        invariant
            i <= src@.len(),
            out@ =~= src@.take(i as int),
        decreases src@.len() - i,
    {
        out.push(src[i]);
        proof {
            assert(out@ =~= src@.take(i + 1));
        }
        i += 1;
    }
    proof {
        assert(src@.take(src@.len() as int) =~= src@);
    }
    out
}

/// The connection settings of the vector database.
pub struct VectorDbConfig {
    pub host: String,
    pub port: u16,
    pub user: String,
    pub dbname: String,
    pub timeout: u64,
}

/// A configuration with the default timeout of five seconds.
#[allow(non_snake_case)]
pub fn NewVectorDbConfig(host: &str, port: u16, user: &str, dbname: &str) -> (r: VectorDbConfig)
    ensures
        r.host@ == host@,
        r.port == port,
        r.user@ == user@,
        r.dbname@ == dbname@,
        r.timeout == 5,
{
    VectorDbConfig {
        host: host.to_owned(),
        port,
        user: user.to_owned(),
        dbname: dbname.to_owned(),
        timeout: 5,
    }
}

/// The connection string of a configuration, exactly:
/// `host=H port=P user=U dbname=D`.
pub open spec fn spec_db_conn_string(
    host: Seq<char>,
    port: int,
    user: Seq<char>,
    dbname: Seq<char>,
) -> Seq<char> {
    "host="@ + host + " port="@ + dec_chars(port) + " user="@ + user + " dbname="@ + dbname
}

impl VectorDbConfig {
    /// The configuration as the key=value connection string the database
    /// client accepts.
    pub fn to_string(&self) -> (r: String)
        ensures
            r@ == spec_db_conn_string(self.host@, self.port as int, self.user@, self.dbname@),
    {
        let mut out = String::new();
        out.append("host=");
        out.append(self.host.as_str());
        out.append(" port=");
        let port_text = u64_to_dec_string(self.port as u64);
        out.append(port_text.as_str());
        out.append(" user=");
        out.append(self.user.as_str());
        out.append(" dbname=");
        out.append(self.dbname.as_str());
        out
    }

    /// A field-for-field copy of the configuration.
    pub fn clone(&self) -> (r: VectorDbConfig)
        ensures
            r.host@ == self.host@,
            r.port == self.port,
            r.user@ == self.user@,
            r.dbname@ == self.dbname@,
            r.timeout == self.timeout,
    {
        VectorDbConfig {
            host: self.host.clone(),
            port: self.port,
            user: self.user.clone(),
            dbname: self.dbname.clone(),
            timeout: self.timeout,
        }
    }
}

} // verus!
