//! Response values: the immediate, non-deferred structured results a host
//! handler hands back to the native routing layer.
//!
//! A response is a status code, a header list, and a body that is empty,
//! text, a structured native value, or a file path. Construction from host
//! values marshals first and fails explicitly on unsupported kinds.

use vstd::prelude::*;

use crate::errors::BridgeError;
use crate::value::{host_of, host_plain, native_of, HostValue, Value, ValueModel};

verus! {

/// What a response carries back to the routing layer.
#[derive(Debug, PartialEq, Eq)]
pub enum ResponseBody {
    Empty,
    Text { content: String, content_type: String },
    Structured { data: Value },
    File { path: String },
}

/// A structured response value consumed by the unifier's immediate path.
pub struct Response {
    pub code: u16,
    pub headers: Vec<(String, String)>,
    pub body: ResponseBody,
}

impl Response {
    /// The mathematical value of a structured body, if the body is one.
    pub open spec fn teon_model(self) -> Option<ValueModel> {
        match self.body {
            ResponseBody::Structured { data } => Some(data.deep()),
            _ => None,
        }
    }

    /// An empty 200 response.
    pub fn empty() -> (r: Response)
        ensures
            r.code == 200,
            r.headers@.len() == 0,
            r.body is Empty,
    {
        Response { code: 200, headers: Vec::new(), body: ResponseBody::Empty }
    }

    /// A 200 text response with the given content and content type.
    pub fn string(content: String, content_type: String) -> (r: Response)
        ensures
            r.code == 200,
            r.headers@.len() == 0,
            (r.body matches ResponseBody::Text { content: c, content_type: t } && c == content
                && t == content_type),
    {
        Response { code: 200, headers: Vec::new(), body: ResponseBody::Text { content, content_type } }
    }

    /// A 200 HTML text response.
    pub fn html(content: String) -> (r: Response)
        ensures
            r.code == 200,
            r.headers@.len() == 0,
            (r.body matches ResponseBody::Text { content: c, content_type: t } && c == content
                && t@ == "text/html"@),
    {
        Self::string(content, "text/html".to_owned())
    }

    /// A 200 structured response holding the marshaled host value; a host
    /// value of unsupported kind is rejected.
    pub fn teon(value: HostValue) -> (r: Result<Response, BridgeError>)
        ensures
            r is Ok <==> host_plain(value.deep()),
            r matches Ok(resp) ==> ({
                &&& resp.code == 200
                &&& resp.headers@.len() == 0
                &&& resp.teon_model() == native_of(value.deep())
            }),
            r matches Err(e) ==> e == BridgeError::MarshalUnsupportedKind,
    {
        let data = match value.to_native() {
            Ok(v) => v,
            Err(e) => {
                return Err(e);
            },
        };
        Ok(Response { code: 200, headers: Vec::new(), body: ResponseBody::Structured { data } })
    }

    /// A 200 structured response whose body wraps the marshaled host value
    /// under the key `data`.
    pub fn data(value: HostValue) -> (r: Result<Response, BridgeError>)
        ensures
            r is Ok <==> host_plain(value.deep()),
            r matches Ok(resp) ==> ({
                &&& resp.code == 200
                &&& resp.headers@.len() == 0
                &&& resp.teon_model() matches Some(m)
                &&& m matches ValueModel::Record(entries)
                &&& entries.len() == 1
                &&& entries[0].0 == "data"@
                &&& Some(entries[0].1) == native_of(value.deep())
            }),
            r matches Err(e) ==> e == BridgeError::MarshalUnsupportedKind,
    {
        let data = match value.to_native() {
            Ok(v) => v,
            Err(e) => {
                return Err(e);
            },
        };
        let mut entries: Vec<(String, Value)> = Vec::new();
        entries.push(("data".to_owned(), data));
        proof {
            crate::value::lemma_deep_value_entries_pointwise(entries@);
        }
        Ok(
            Response {
                code: 200,
                headers: Vec::new(),
                body: ResponseBody::Structured { data: Value::Record(entries) },
            },
        )
    }

    /// A 200 structured response whose body wraps the two marshaled host
    /// values under the keys `data` and `meta`.
    pub fn data_meta(value: HostValue, meta: HostValue) -> (r: Result<Response, BridgeError>)
        ensures
            r is Ok <==> host_plain(value.deep()) && host_plain(meta.deep()),
            r matches Ok(resp) ==> ({
                &&& resp.code == 200
                &&& resp.headers@.len() == 0
                &&& resp.teon_model() matches Some(m)
                &&& m matches ValueModel::Record(entries)
                &&& entries.len() == 2
                &&& entries[0].0 == "data"@
                &&& Some(entries[0].1) == native_of(value.deep())
                &&& entries[1].0 == "meta"@
                &&& Some(entries[1].1) == native_of(meta.deep())
            }),
            r matches Err(e) ==> e == BridgeError::MarshalUnsupportedKind,
    {
        let data = match value.to_native() {
            Ok(v) => v,
            Err(e) => {
                return Err(e);
            },
        };
        let meta_native = match meta.to_native() {
            Ok(v) => v,
            Err(e) => {
                return Err(e);
            },
        };
        let mut entries: Vec<(String, Value)> = Vec::new();
        entries.push(("data".to_owned(), data));
        entries.push(("meta".to_owned(), meta_native));
        proof {
            crate::value::lemma_deep_value_entries_pointwise(entries@);
        }
        Ok(
            Response {
                code: 200,
                headers: Vec::new(),
                body: ResponseBody::Structured { data: Value::Record(entries) },
            },
        )
    }

    /// A 200 response serving the file at `path`.
    pub fn file(path: String) -> (r: Response)
        ensures
            r.code == 200,
            r.headers@.len() == 0,
            (r.body matches ResponseBody::File { path: p } && p == path),
    {
        Response { code: 200, headers: Vec::new(), body: ResponseBody::File { path } }
    }

    /// A 301 redirect to `path`, carried in a `location` header.
    pub fn redirect(path: String) -> (r: Response)
        ensures
            r.code == 301,
            r.headers@.len() == 1,
            r.headers@[0].0@ == "location"@,
            r.headers@[0].1 == path,
            r.body is Empty,
    {
        let mut headers: Vec<(String, String)> = Vec::new();
        headers.push(("location".to_owned(), path));
        Response { code: 301, headers, body: ResponseBody::Empty }
    }

    /// Replace the status code, leaving headers and body alone.
    pub fn set_code(&mut self, code: u16)
        ensures
            final(self).code == code,
            final(self).headers == old(self).headers,
            final(self).body == old(self).body,
    {
        self.code = code;
    }

    pub fn code(&self) -> (c: u16)
        ensures
            c == self.code,
    {
        self.code
    }

    /// Read access to the header list.
    pub fn headers(&self) -> (h: &Vec<(String, String)>)
        ensures
            h@ == self.headers@,
    {
        &self.headers
    }

    pub fn is_file(&self) -> (b: bool)
        ensures
            b == (self.body is File),
    {
        match &self.body {
            ResponseBody::File { .. } => true,
            _ => false,
        }
    }

    pub fn is_text(&self) -> (b: bool)
        ensures
            b == (self.body is Text),
    {
        match &self.body {
            ResponseBody::Text { .. } => true,
            _ => false,
        }
    }

    pub fn is_empty(&self) -> (b: bool)
        ensures
            b == (self.body is Empty),
    {
        match &self.body {
            ResponseBody::Empty => true,
            _ => false,
        }
    }

    pub fn is_teon(&self) -> (b: bool)
        ensures
            b == (self.body is Structured),
    {
        match &self.body {
            ResponseBody::Structured { .. } => true,
            _ => false,
        }
    }

    /// The text content, when the body is text.
    pub fn get_text(&self) -> (r: Option<String>)
        ensures
            r is Some <==> self.body is Text,
            r matches Some(c) ==> (self.body matches ResponseBody::Text { content, .. } && c
                == content),
    {
        match &self.body {
            ResponseBody::Text { content, .. } => Some(content.clone()),
            _ => None,
        }
    }

    /// The structured body marshaled back for the host, when the body is
    /// structured.
    pub fn get_teon(&self) -> (r: Option<HostValue>)
        ensures
            r is Some <==> self.body is Structured,
            r matches Some(h) ==> (self.teon_model() matches Some(m) && h.deep() == host_of(m)),
    {
        match &self.body {
            ResponseBody::Structured { data } => Some(data.to_host()),
            _ => None,
        }
    }

    /// The served file path, when the body is a file.
    pub fn get_file(&self) -> (r: Option<String>)
        ensures
            r is Some <==> self.body is File,
            r matches Some(p) ==> (self.body matches ResponseBody::File { path } && p == path),
    {
        match &self.body {
            ResponseBody::File { path } => Some(path.clone()),
            _ => None,
        }
    }
}

} // verus!
