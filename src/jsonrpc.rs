use vstd::prelude::*;

verus! {

/// A request correlator: an integer, a string, or null.
#[derive(Clone, Debug)]
pub enum Id {
    Number(i64),
    String(String),
    Null,
}

/// What an [`Id`] denotes.
pub enum IdView {
    Number(int),
    String(Seq<char>),
    Null,
}

impl View for Id {
    type V = IdView;

    open spec fn view(&self) -> IdView {
        match self {
            Id::Number(n) => IdView::Number(*n as int),
            Id::String(s) => IdView::String(s@),
            Id::Null => IdView::Null,
        }
    }
}

impl Id {
    /// Whether two ids are the same, by tag and value.
    pub fn same(&self, other: &Id) -> (r: bool)
        ensures
            r == (self@ == other@),
    {
        match (self, other) {
            (Id::Number(a), Id::Number(b)) => *a == *b,
            (Id::String(a), Id::String(b)) => *a == *b,
            (Id::Null, Id::Null) => true,
            _ => false,
        }
    }

    /// A copy of the id.
    pub fn copy(&self) -> (r: Id)
        ensures
            r@ == self@,
    {
        match self {
            Id::Number(n) => Id::Number(*n),
            Id::String(s) => Id::String(s.clone()),
            Id::Null => Id::Null,
        }
    }
}

/// The JSON-RPC error codes that the framework knows by name.
#[derive(Clone, Copy, Debug, PartialEq, Eq, Structural)]
pub enum ErrorCode {
    ParseError,
    InvalidRequest,
    MethodNotFound,
    InvalidParams,
    InternalError,
    ServerNotInitialized,
    RequestCancelled,
    ServerError(i64),
}

impl ErrorCode {
    /// The integer that stands for the code on the wire.
    pub open spec fn spec_code(self) -> int {
        match self {
            ErrorCode::ParseError => -32700,
            ErrorCode::InvalidRequest => -32600,
            ErrorCode::MethodNotFound => -32601,
            ErrorCode::InvalidParams => -32602,
            ErrorCode::InternalError => -32603,
            ErrorCode::ServerNotInitialized => -32002,
            ErrorCode::RequestCancelled => -32800,
            ErrorCode::ServerError(n) => n as int,
        }
    }

    /// The integer that stands for the code on the wire.
    pub fn code(&self) -> (r: i64)
        ensures
            r as int == self.spec_code(),
    {
        match self {
            ErrorCode::ParseError => -32700,
            ErrorCode::InvalidRequest => -32600,
            ErrorCode::MethodNotFound => -32601,
            ErrorCode::InvalidParams => -32602,
            ErrorCode::InternalError => -32603,
            ErrorCode::ServerNotInitialized => -32002,
            ErrorCode::RequestCancelled => -32800,
            ErrorCode::ServerError(n) => *n,
        }
    }

    /// The code that stands for an integer on the wire.
    pub fn from_code(n: i64) -> (r: ErrorCode)
        ensures
            r.spec_code() == n as int,
    {
        if n == -32700 {
            ErrorCode::ParseError
        } else if n == -32600 {
            ErrorCode::InvalidRequest
        } else if n == -32601 {
            ErrorCode::MethodNotFound
        } else if n == -32602 {
            ErrorCode::InvalidParams
        } else if n == -32603 {
            ErrorCode::InternalError
        } else if n == -32002 {
            ErrorCode::ServerNotInitialized
        } else if n == -32800 {
            ErrorCode::RequestCancelled
        } else {
            ErrorCode::ServerError(n)
        }
    }
}

/// A JSON-RPC error object; `data` holds JSON text.
#[derive(Clone, Debug)]
pub struct Error {
    pub code: ErrorCode,
    pub message: String,
    pub data: Option<String>,
}

impl Error {
    /// Error for a message whose JSON could not be parsed.
    pub fn parse_error() -> (r: Error)
        ensures
            r.code == ErrorCode::ParseError,
            r.message@ == "Parse error"@,
            r.data is None,
    {
        Error { code: ErrorCode::ParseError, message: "Parse error".to_string(), data: None }
    }

    /// Error for a message that the lifecycle or the protocol forbids.
    pub fn invalid_request() -> (r: Error)
        ensures
            r.code == ErrorCode::InvalidRequest,
            r.message@ == "Invalid request"@,
            r.data is None,
    {
        Error { code: ErrorCode::InvalidRequest, message: "Invalid request".to_string(), data: None }
    }

    /// Error for a request whose method nobody handles.
    pub fn method_not_found() -> (r: Error)
        ensures
            r.code == ErrorCode::MethodNotFound,
            r.message@ == "Method not found"@,
            r.data is None,
    {
        Error { code: ErrorCode::MethodNotFound, message: "Method not found".to_string(), data: None }
    }

    /// Error for a request whose parameters are missing or malformed.
    pub fn invalid_params(reason: String) -> (r: Error)
        ensures
            r.code == ErrorCode::InvalidParams,
            r.message@ == reason@,
            r.data is None,
    {
        Error { code: ErrorCode::InvalidParams, message: reason, data: None }
    }

    /// Error for a failure inside a handler.
    pub fn internal_error() -> (r: Error)
        ensures
            r.code == ErrorCode::InternalError,
            r.message@ == "Internal error"@,
            r.data is None,
    {
        Error { code: ErrorCode::InternalError, message: "Internal error".to_string(), data: None }
    }

    /// Error for a request that came before `initialize`.
    pub fn server_not_initialized() -> (r: Error)
        ensures
            r.code == ErrorCode::ServerNotInitialized,
            r.message@ == "Server not initialized"@,
            r.data is None,
    {
        Error {
            code: ErrorCode::ServerNotInitialized,
            message: "Server not initialized".to_string(),
            data: None,
        }
    }

    /// Error for a request that was cancelled before its handler finished.
    pub fn request_cancelled() -> (r: Error)
        ensures
            r.code == ErrorCode::RequestCancelled,
            r.message@ == "Canceled"@,
            r.data is None,
    {
        Error { code: ErrorCode::RequestCancelled, message: "Canceled".to_string(), data: None }
    }
}

/// What a response carries: a result (JSON text) or an error.
#[derive(Clone, Debug)]
pub enum Outcome {
    Result(String),
    Error(Error),
}

/// A JSON-RPC response: exactly one of a result or an error.
#[derive(Clone, Debug)]
pub struct Response {
    pub outcome: Outcome,
    pub id: Id,
}

impl Response {
    /// A successful response carrying `result`.
    pub fn ok(id: Id, result: String) -> (r: Response)
        ensures
            r.id@ == id@,
            r.outcome is Result,
            r.outcome->Result_0@ == result@,
    {
        Response { outcome: Outcome::Result(result), id }
    }

    /// An error response; a missing id becomes null.
    pub fn error(id: Option<Id>, error: Error) -> (r: Response)
        ensures
            r.id@ == match id {
                Some(i) => i@,
                None => IdView::Null,
            },
            r.outcome is Error,
            r.outcome->Error_0.code == error.code,
            r.outcome->Error_0.message@ == error.message@,
    {
        let id = match id {
            Some(i) => i,
            None => Id::Null,
        };
        Response { outcome: Outcome::Error(error), id }
    }

    /// Whether the response reports an error.
    pub fn is_error(&self) -> (r: bool)
        ensures
            r == self.outcome is Error,
    {
        match &self.outcome {
            Outcome::Result(_) => false,
            Outcome::Error(_) => true,
        }
    }
}

/// A message that the server writes: a response, or a request or
/// notification of its own whose JSON text it carries.
#[derive(Clone, Debug)]
pub enum Outgoing {
    Response(Response),
    Request(String),
}

} // verus!
