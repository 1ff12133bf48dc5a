//! JSON-RPC 2.0 call envelopes and their exact request text.
use vstd::prelude::*;
use vstd::string::StringExecFns;
use crate::wire::{append_decimal, append_json_string, decimal, is_json_value, json_string};

verus! {

/// The protocol version tag carried by every call.
#[derive(Clone, Copy, Debug, PartialEq, Eq, Structural)]
pub enum Version {
    V2_0,
}

/// A request identifier.
#[derive(Clone, Debug)]
pub enum Id {
    Num(u64),
    Str(String),
}

/// The parameters of a call: a positional list of JSON values, each held as
/// its JSON text.
#[derive(Clone, Debug)]
pub enum Params {
    Array(Vec<String>),
}

/// One JSON-RPC 2.0 call.
#[derive(Clone, Debug)]
pub struct MethodCall {
    pub jsonrpc: Version,
    pub method: String,
    pub params: Option<Params>,
    pub id: Id,
}

/// What goes out in one round trip: a single call or an ordered batch.
#[derive(Clone, Debug)]
pub enum MethodCallRequest {
    Single(MethodCall),
    Batch(Vec<MethodCall>),
}

/// Each parameter is the text of exactly one JSON value.
pub open spec fn params_valid(p: Option<Params>) -> bool {
    match p {
        Some(Params::Array(v)) => forall|i: int| 0 <= i < v@.len() ==> is_json_value(#[trigger] v@[i]@),
        None => true,
    }
}

/// What the encoder needs of a request: JSON parameters, and at least one
/// call in a batch.
pub open spec fn request_valid(r: MethodCallRequest) -> bool {
    match r {
        MethodCallRequest::Single(c) => params_valid(c.params),
        MethodCallRequest::Batch(v) => v@.len() > 0 && forall|i: int|
            0 <= i < v@.len() ==> params_valid(#[trigger] v@[i].params),
    }
}

/// Two identifiers name the same request.
pub open spec fn same_id(a: Id, b: Id) -> bool {
    match (a, b) {
        (Id::Num(x), Id::Num(y)) => x == y,
        (Id::Str(s), Id::Str(t)) => s@ == t@,
        _ => false,
    }
}

/// The items of `items` separated by commas.
pub open spec fn join_commas(items: Seq<Seq<char>>) -> Seq<char>
    decreases items.len(),
{
    if items.len() == 0 {
        seq![]
    } else if items.len() == 1 {
        items[0]
    } else {
        join_commas(items.drop_last()) + seq![','] + items.last()
    }
}

/// `items` as a JSON array.
pub open spec fn array_text(items: Seq<Seq<char>>) -> Seq<char> {
    seq!['['] + join_commas(items) + seq![']']
}

/// An identifier as JSON: a number, or a string.
pub open spec fn id_text(id: Id) -> Seq<char> {
    match id {
        Id::Num(n) => decimal(n as nat),
        Id::Str(s) => json_string(s@),
    }
}

/// Positional parameters as a JSON array of their texts.
pub open spec fn params_text(p: Params) -> Seq<char> {
    match p {
        Params::Array(v) => array_text(v@.map_values(|t: String| t@)),
    }
}

/// The `"params"` member with its leading comma, or nothing when a call has
/// no parameters.
pub open spec fn params_member(p: Option<Params>) -> Seq<char> {
    match p {
        None => seq![],
        Some(q) => ",\"params\":"@ + params_text(q),
    }
}

/// The JSON object of one call: `jsonrpc`, `method`, `params` (only when
/// present) and `id`, in that order, without whitespace.
pub open spec fn call_text(c: MethodCall) -> Seq<char> {
    "{\"jsonrpc\":\"2.0\",\"method\":"@ + json_string(c.method@) + params_member(c.params)
        + ",\"id\":"@ + id_text(c.id) + "}"@
}

/// The request body of a round trip.
pub open spec fn request_text(r: MethodCallRequest) -> Seq<char> {
    match r {
        MethodCallRequest::Single(c) => call_text(c),
        MethodCallRequest::Batch(v) => array_text(v@.map_values(|c: MethodCall| call_text(c))),
    }
}

impl MethodCall {
    /// A version 2.0 call of `method` with `params` under the number `id`.
    pub fn new(method: String, params: Option<Params>, id: u64) -> (r: MethodCall)
        ensures
            r.jsonrpc == Version::V2_0,
            r.method@ == method@,
            r.params == params,
            r.id == Id::Num(id),
    {
        MethodCall { jsonrpc: Version::V2_0, method, params, id: Id::Num(id) }
    }
}

fn append_id(out: &mut String, id: &Id)
    ensures
        final(out)@ == old(out)@ + id_text(*id),
{
    match id {
        Id::Num(n) => append_decimal(out, *n),
        Id::Str(s) => append_json_string(out, s.as_str()),
    }
}

/// Appends `items` as a JSON array; each item is already JSON text.
fn append_raw_array(out: &mut String, items: &Vec<String>)
    ensures
        final(out)@ == old(out)@ + array_text(items@.map_values(|t: String| t@)),
{
    let ghost texts = items@.map_values(|t: String| t@);
    out.append("[");
    proof {
        reveal_strlit("[");
    }
    assert(out@ =~= old(out)@ + seq!['['] + join_commas(texts.subrange(0, 0)));
    let mut i: usize = 0;
    while i < items.len()
        invariant
            texts == items@.map_values(|t: String| t@),
            i <= items.len(),
            out@ == old(out)@ + seq!['['] + join_commas(texts.subrange(0, i as int)),
        decreases items.len() - i,
    {
        if i > 0 {
            out.append(",");
        }
        out.append(items[i].as_str());
        assert(texts.subrange(0, i + 1).drop_last() =~= texts.subrange(0, i as int));
        proof {
            reveal_strlit(",");
        }
        i = i + 1;
    }
    assert(texts.subrange(0, items.len() as int) =~= texts);
    out.append("]");
    proof {
        reveal_strlit("]");
    }
    assert(final(out)@ =~= old(out)@ + array_text(texts));
}

fn append_call(out: &mut String, c: &MethodCall)
    ensures
        final(out)@ == old(out)@ + call_text(*c),
{
    out.append("{\"jsonrpc\":\"2.0\",\"method\":");
    append_json_string(out, c.method.as_str());
    match &c.params {
        None => {},
        Some(Params::Array(v)) => {
            out.append(",\"params\":");
            append_raw_array(out, v);
        },
    }
    out.append(",\"id\":");
    append_id(out, &c.id);
    out.append("}");
    assert(final(out)@ =~= old(out)@ + call_text(*c));
}

/// The JSON text of one call.
pub fn encode_call(c: &MethodCall) -> (r: String)
    requires
        params_valid(c.params),
    ensures
        r@ == call_text(*c),
{
    let mut out = String::new();
    append_call(&mut out, c);
    assert(out@ =~= call_text(*c));
    out
}

/// The request body of a round trip: the call's object, or the batch's calls
/// as a JSON array in submission order. The body is JSON because each
/// parameter is.
pub fn encode_request(req: &MethodCallRequest) -> (r: String)
    requires
        request_valid(*req),
    ensures
        r@ == request_text(*req),
{
    match req {
        MethodCallRequest::Single(c) => encode_call(c),
        MethodCallRequest::Batch(calls) => {
            let ghost texts = calls@.map_values(|c: MethodCall| call_text(c));
            let mut out = String::new();
            out.append("[");
            proof {
                reveal_strlit("[");
            }
            assert(out@ =~= seq!['['] + join_commas(texts.subrange(0, 0)));
            let mut i: usize = 0;
            while i < calls.len()
                invariant
                    texts == calls@.map_values(|c: MethodCall| call_text(c)),
                    i <= calls.len(),
                    out@ == seq!['['] + join_commas(texts.subrange(0, i as int)),
                decreases calls.len() - i,
            {
                if i > 0 {
                    out.append(",");
                }
                append_call(&mut out, &calls[i]);
                assert(texts.subrange(0, i + 1).drop_last() =~= texts.subrange(0, i as int));
                proof {
                    reveal_strlit(",");
                }
                i = i + 1;
            }
            assert(texts.subrange(0, calls.len() as int) =~= texts);
            out.append("]");
            proof {
                reveal_strlit("]");
            }
            assert(out@ =~= array_text(texts));
            out
        },
    }
}

/// A call without parameters is written with no `params` member at all, a
/// call with an empty parameter list is written with `"params":[]`, and so the
/// two texts differ even when method and identifier agree.
pub proof fn lemma_params_member(c: MethodCall, d: MethodCall)
    requires
        c.params is None,
        d.params matches Some(Params::Array(v)) && v@.len() == 0,
    ensures
        call_text(c) == "{\"jsonrpc\":\"2.0\",\"method\":"@ + json_string(c.method@)
            + ",\"id\":"@ + id_text(c.id) + "}"@,
        call_text(d) == "{\"jsonrpc\":\"2.0\",\"method\":"@ + json_string(d.method@)
            + ",\"params\":[]"@ + ",\"id\":"@ + id_text(d.id) + "}"@,
        c.method@ == d.method@ && c.id == d.id ==> call_text(c) != call_text(d),
{
    reveal_strlit(",\"params\":");
    reveal_strlit(",\"params\":[]");
    let v = d.params->Some_0->Array_0;
    let texts = v@.map_values(|t: String| t@);
    assert(texts.len() == 0);
    assert(join_commas(texts) =~= seq![]);
    assert(params_member(d.params) =~= ",\"params\":[]"@);
    assert(params_member(c.params) =~= seq![]);
    assert(call_text(c) =~= "{\"jsonrpc\":\"2.0\",\"method\":"@ + json_string(c.method@)
        + ",\"id\":"@ + id_text(c.id) + "}"@);
    assert(call_text(d) =~= "{\"jsonrpc\":\"2.0\",\"method\":"@ + json_string(d.method@)
        + ",\"params\":[]"@ + ",\"id\":"@ + id_text(d.id) + "}"@);
    if c.method@ == d.method@ && c.id == d.id {
        assert(call_text(d).len() == call_text(c).len() + 12);
    }
}

/// A batch goes out as one JSON array whose elements are the calls' objects in
/// the order in which they were submitted.
pub proof fn lemma_batch_order(calls: Vec<MethodCall>)
    requires
        calls@.len() == 2,
    ensures
        request_text(MethodCallRequest::Batch(calls)) == seq!['['] + call_text(calls@[0])
            + seq![','] + call_text(calls@[1]) + seq![']'],
{
    let texts = calls@.map_values(|c: MethodCall| call_text(c));
    assert(texts.drop_last().len() == 1);
    assert(join_commas(texts.drop_last()) == call_text(calls@[0]));
    assert(request_text(MethodCallRequest::Batch(calls)) =~= seq!['['] + call_text(calls@[0])
        + seq![','] + call_text(calls@[1]) + seq![']']);
}

} // verus!
