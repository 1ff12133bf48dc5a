//! Replies: their outer shape, the outcome of each call, and the matching of
//! outcomes to calls by identifier.
use vstd::prelude::*;
use vstd::string::StrSliceExecFns;
use crate::call::{Id, MethodCallRequest, same_id};

verus! {

/// The error object of a failed call.
#[derive(Clone, Debug)]
pub struct ErrorObject {
    pub code: i64,
    pub message: String,
    /// Extra information from the server, as JSON text.
    pub data: Option<String>,
}

/// The outcome of one call. A failure carries no identifier when the server
/// could not read the call's own.
#[derive(Clone, Debug)]
#[allow(inconsistent_fields)]
pub enum Output {
    /// The result is held as its JSON text.
    Success { result: String, id: Id },
    Failure { error: ErrorObject, id: Option<Id> },
}

/// The reply of one round trip.
#[derive(Clone, Debug)]
pub enum Response {
    Single(Output),
    Batch(Vec<Output>),
}

/// The outer shape of a reply body.
#[derive(Clone, Copy, Debug, PartialEq, Eq, Structural)]
pub enum ReplyShape {
    Object,
    Array,
}

/// Why a round trip failed as a whole.
#[derive(Clone, Debug)]
pub enum ClientError {
    /// The connection, the send or the receive failed.
    Transport(String),
    /// The reply could not be read as one or more outcomes.
    Decode(String),
    /// A batch was given no call.
    EmptyBatch,
    /// A parameter is not the text of one JSON value.
    InvalidParams(String),
}

pub open spec fn is_json_space(c: char) -> bool {
    c == ' ' || c == '\t' || c == '\n' || c == '\r'
}

/// The shape of a reply, read from its first character that is not white
/// space: an object, an array, or neither.
pub open spec fn reply_shape(s: Seq<char>) -> Option<ReplyShape>
    decreases s.len(),
{
    if s.len() == 0 {
        None
    } else if is_json_space(s[0]) {
        reply_shape(s.drop_first())
    } else if s[0] == '{' {
        Some(ReplyShape::Object)
    } else if s[0] == '[' {
        Some(ReplyShape::Array)
    } else {
        None
    }
}

/// Tells an object reply from an array reply; any other body is a decode
/// error.
pub fn classify_reply(body: &str) -> (r: Result<ReplyShape, ClientError>)
    ensures
        reply_shape(body@) matches Some(k) ==> r == Ok::<ReplyShape, ClientError>(k),
        reply_shape(body@) is None ==> r matches Err(ClientError::Decode(_)),
{
    let n = body.unicode_len();
    let mut i: usize = 0;
    assert(body@.subrange(0, n as int) =~= body@);
    while i < n
        invariant
            n == body@.len(),
            i <= n,
            reply_shape(body@) == reply_shape(body@.subrange(i as int, n as int)),
        decreases n - i,
    {
        let c = body.get_char(i);
        assert(body@.subrange(i as int, n as int)[0] == c);
        if c == ' ' || c == '\t' || c == '\n' || c == '\r' {
            assert(body@.subrange(i as int, n as int).drop_first()
                =~= body@.subrange(i + 1, n as int));
            i = i + 1;
        } else if c == '{' {
            return Ok(ReplyShape::Object);
        } else if c == '[' {
            return Ok(ReplyShape::Array);
        } else {
            return Err(ClientError::Decode(String::from_str("reply is neither an object nor an array")));
        }
    }
    Err(ClientError::Decode(String::from_str("reply is empty")))
}

/// A reply shape the request accepts: an object for a single call; an array
/// or a single object (an error about the whole batch) for a batch.
pub open spec fn accepts_shape(req: MethodCallRequest, k: ReplyShape) -> bool {
    match req {
        MethodCallRequest::Single(_) => k == ReplyShape::Object,
        MethodCallRequest::Batch(_) => true,
    }
}

/// Checks that a reply has a shape its request accepts; any other body is a
/// decode error.
pub fn check_reply_shape(req: &MethodCallRequest, body: &str) -> (r: Result<ReplyShape, ClientError>)
    ensures
        reply_shape(body@) is Some && accepts_shape(*req, reply_shape(body@)->Some_0) ==> r
            == Ok::<ReplyShape, ClientError>(reply_shape(body@)->Some_0),
        reply_shape(body@) is None ==> r matches Err(ClientError::Decode(_)),
        reply_shape(body@) is Some && !accepts_shape(*req, reply_shape(body@)->Some_0) ==> r
            matches Err(ClientError::Decode(_)),
{
    let shape = classify_reply(body)?;
    match (req, shape) {
        (MethodCallRequest::Single(_), ReplyShape::Array) => Err(
            ClientError::Decode(String::from_str("an array replied to a single call")),
        ),
        _ => Ok(shape),
    }
}

/// The identifier an outcome echoes, if any.
pub open spec fn output_id(o: Output) -> Option<Id> {
    match o {
        Output::Success { id, .. } => Some(id),
        Output::Failure { id, .. } => id,
    }
}

/// The outcome answers the call with identifier `id`.
pub open spec fn answers(o: Output, id: Id) -> bool {
    match output_id(o) {
        Some(k) => same_id(k, id),
        None => false,
    }
}

/// Whether two identifiers name the same request.
pub fn ids_match(a: &Id, b: &Id) -> (r: bool)
    ensures
        r == same_id(*a, *b),
{
    match a {
        Id::Num(x) => match b {
            Id::Num(y) => *x == *y,
            Id::Str(_) => false,
        },
        Id::Str(s) => match b {
            Id::Num(_) => false,
            Id::Str(t) => s.eq(t),
        },
    }
}

/// The position of the first outcome that answers the call with identifier
/// `id`, whatever order the server chose; `None` when no outcome does.
pub fn find_outcome(outputs: &Vec<Output>, id: &Id) -> (r: Option<usize>)
    ensures
        r matches Some(i) ==> i < outputs@.len() && answers(outputs@[i as int], *id) && forall|j: int|
            0 <= j < i ==> !answers(#[trigger] outputs@[j], *id),
        r is None ==> forall|j: int|
            0 <= j < outputs@.len() ==> !answers(#[trigger] outputs@[j], *id),
{
    let mut i: usize = 0;
    while i < outputs.len()
        invariant
            i <= outputs@.len(),
            forall|j: int| 0 <= j < i ==> !answers(#[trigger] outputs@[j], *id),
        decreases outputs.len() - i,
    {
        let hit = match &outputs[i] {
            Output::Success { id: k, .. } => ids_match(k, id),
            Output::Failure { id: Some(k), .. } => ids_match(k, id),
            Output::Failure { id: None, .. } => false,
        };
        if hit {
            return Some(i);
        }
        i = i + 1;
    }
    None
}

} // verus!
