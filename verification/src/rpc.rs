use vstd::prelude::*;
use vstd::string::StringExecFns;

use crate::error::RpcError;
use crate::json::{
    json_as_array, json_as_str, json_as_u64, json_clone, json_get, json_parse, json_render, Jv,
    json_of, model_of,
};
use crate::text::{str_chars, string_from_chars};
use crate::utxo::Unspent;

verus! {

/// The typed operations the facade exposes. Each knows its endpoint path and
/// which envelope shape the upstream wraps its payload in.
#[derive(Debug, Clone, Copy, PartialEq, Eq, Structural)]
pub enum RpcMethod {
    GetByTicker,
    GetFtInfo,
    ListUnspent,
    Broadcast,
}

/// The dotted endpoint path appended to a base URI for each method.
pub fn endpoint_path(m: RpcMethod) -> (r: &'static str)
    ensures
        r@ == match m {
            RpcMethod::GetByTicker => "blockchain.atomicals.get_by_ticker"@,
            RpcMethod::GetFtInfo => "blockchain.atomicals.get_ft_info"@,
            RpcMethod::ListUnspent => "blockchain.scripthash.listunspent"@,
            RpcMethod::Broadcast => "blockchain.transaction.broadcast"@,
        },
{
    match m {
        RpcMethod::GetByTicker => "blockchain.atomicals.get_by_ticker",
        RpcMethod::GetFtInfo => "blockchain.atomicals.get_ft_info",
        RpcMethod::ListUnspent => "blockchain.scripthash.listunspent",
        RpcMethod::Broadcast => "blockchain.transaction.broadcast",
    }
}

/// Whether the method's payload sits under `response.result` (a double
/// envelope) rather than directly under `response`.
pub fn unwraps_result(m: RpcMethod) -> (r: bool)
    ensures
        r == (m is GetByTicker),
{
    match m {
        RpcMethod::GetByTicker => true,
        _ => false,
    }
}

/// The hexadecimal digit for one value below sixteen.
pub open spec fn hex_digit(n: int) -> char {
    if n == 0 { '0' }
    else if n == 1 { '1' }
    else if n == 2 { '2' }
    else if n == 3 { '3' }
    else if n == 4 { '4' }
    else if n == 5 { '5' }
    else if n == 6 { '6' }
    else if n == 7 { '7' }
    else if n == 8 { '8' }
    else if n == 9 { '9' }
    else if n == 10 { 'a' }
    else if n == 11 { 'b' }
    else if n == 12 { 'c' }
    else if n == 13 { 'd' }
    else if n == 14 { 'e' }
    else { 'f' }
}

/// How one character appears inside a JSON string literal: quote and
/// backslash are escaped, control characters take the `\u00XX` form, and
/// everything else stands as itself.
pub open spec fn json_escape_char(c: char) -> Seq<char> {
    if c == '"' {
        seq!['\\', '"']
    } else if c == '\\' {
        seq!['\\', '\\']
    } else if (c as u32) < 32 {
        seq!['\\', 'u', '0', '0', hex_digit((c as u32) as int / 16), hex_digit((c as u32) as int % 16)]
    } else {
        seq![c]
    }
}

/// A whole string's characters, each escaped for a JSON string literal.
pub open spec fn json_escaped(s: Seq<char>) -> Seq<char>
    decreases s.len(),
{
    if s.len() == 0 {
        Seq::empty()
    } else {
        json_escape_char(s[0]) + json_escaped(s.drop_first())
    }
}

/// Escaping one more character appends that character's escape.
proof fn lemma_json_escaped_push(s: Seq<char>, c: char)
    ensures
        json_escaped(s.push(c)) == json_escaped(s) + json_escape_char(c),
    decreases s.len(),
{
    if s.len() == 0 {
        assert(s.push(c)[0] == c);
        assert(s.push(c).drop_first() =~= Seq::<char>::empty());
        assert(json_escape_char(c) + Seq::<char>::empty() =~= json_escape_char(c));
        assert(json_escaped(s) + json_escape_char(c) =~= json_escape_char(c));
        assert(json_escaped(s.push(c)) == json_escape_char(s.push(c)[0]) + json_escaped(
            s.push(c).drop_first(),
        ));
        assert(json_escaped(s.push(c).drop_first()) == json_escaped(Seq::<char>::empty()));
        assert(json_escaped(s.push(c)) =~= json_escaped(s) + json_escape_char(c));
    } else {
        assert(s.push(c).drop_first() =~= s.drop_first().push(c));
        lemma_json_escaped_push(s.drop_first(), c);
        assert(json_escaped(s.push(c)) =~= json_escaped(s) + json_escape_char(c));
    }
}

fn hex_digit_char(n: u32) -> (r: char)
    requires
        n < 16,
    ensures
        r == hex_digit(n as int),
{
    if n == 0 { '0' }
    else if n == 1 { '1' }
    else if n == 2 { '2' }
    else if n == 3 { '3' }
    else if n == 4 { '4' }
    else if n == 5 { '5' }
    else if n == 6 { '6' }
    else if n == 7 { '7' }
    else if n == 8 { '8' }
    else if n == 9 { '9' }
    else if n == 10 { 'a' }
    else if n == 11 { 'b' }
    else if n == 12 { 'c' }
    else if n == 13 { 'd' }
    else if n == 14 { 'e' }
    else { 'f' }
}

fn escaped_chars(cs: &Vec<char>) -> (r: Vec<char>)
    ensures
        r@ == json_escaped(cs@),
{
    let mut out: Vec<char> = Vec::new();
    let mut i: usize = 0;
    while i < cs.len()
        invariant
            i <= cs@.len(),
            out@ == json_escaped(cs@.subrange(0, i as int)),
        decreases cs@.len() - i,
    {
        let c = cs[i];
        if c == '"' {
            out.push('\\');
            out.push('"');
        } else if c == '\\' {
            out.push('\\');
            out.push('\\');
        } else {
            let n = c as u32;
            if n < 32 {
                out.push('\\');
                out.push('u');
                out.push('0');
                out.push('0');
                out.push(hex_digit_char(n / 16));
                out.push(hex_digit_char(n % 16));
            } else {
                out.push(c);
            }
        }
        proof {
            lemma_json_escaped_push(cs@.subrange(0, i as int), c);
            assert(cs@.subrange(0, i + 1) =~= cs@.subrange(0, i as int).push(c));
            assert(out@ =~= json_escaped(cs@.subrange(0, i as int)) + json_escape_char(c));
        }
        i += 1;
    }
    proof {
        assert(cs@.subrange(0, cs@.len() as int) =~= cs@);
    }
    out
}

/// The wire body of one request: the single string argument, escaped,
/// wrapped as `{"params": [...]}`.
pub fn request_body(param: &str) -> (r: String)
    ensures
        r@ == "{\"params\":[\""@ + json_escaped(param@) + "\"]}"@,
{
    let cs = str_chars(param);
    let esc = escaped_chars(&cs);
    let mid = string_from_chars(&esc);
    String::from_str("{\"params\":[\"").concat(mid.as_str()).concat("\"]}")
}

/// The payload a well-formed reply body holds: the body must parse as a
/// JSON object with a `response` field; for double-enveloped methods the
/// payload sits one level further down, under `result`. `None` on any other
/// shape.
pub open spec fn envelope_of(body: Seq<char>, unwrap_result: bool) -> Option<Jv> {
    match json_of(body) {
        Some(j) => match j {
            Jv::Obj(m) => if m.dom().contains("response"@) {
                if unwrap_result {
                    match m["response"@] {
                        Jv::Obj(m2) => if m2.dom().contains("result"@) {
                            Some(m2["result"@])
                        } else {
                            None
                        },
                        _ => None,
                    }
                } else {
                    Some(m["response"@])
                }
            } else {
                None
            },
            _ => None,
        },
        None => None,
    }
}

/// The transaction id a broadcast reply carries: the string under
/// `response`, `None` on any other shape.
pub open spec fn broadcast_of(body: Seq<char>) -> Option<Seq<char>> {
    match envelope_of(body, false) {
        Some(Jv::Str(t)) => Some(t),
        _ => None,
    }
}

/// A reply element has the wire shape of one unspent output: the four
/// recognised fields with the right kinds, `vout` within u32 range. Other
/// fields are ignored.
pub open spec fn unspent_shape_ok(j: Jv) -> bool {
    &&& j matches Jv::Obj(m)
    &&& m.dom().contains("txid"@)
    &&& m["txid"@] matches Jv::Str(_)
    &&& m.dom().contains("vout"@)
    &&& m["vout"@] matches Jv::Num(Some(n))
    &&& n <= u32::MAX
    &&& m.dom().contains("value"@)
    &&& m["value"@] matches Jv::Num(Some(_))
    &&& m.dom().contains("atomicals"@)
    &&& m["atomicals"@] matches Jv::Arr(_)
}

/// `u` reads the element's recognised fields: txid and value verbatim, vout
/// narrowed to u32, one atomical id per array element, string ids verbatim.
pub open spec fn unspent_matches(j: Jv, u: Unspent) -> bool {
    &&& j matches Jv::Obj(m)
    &&& m.dom().contains("txid"@)
    &&& m["txid"@] matches Jv::Str(t)
    &&& u.txid@ == t
    &&& m.dom().contains("vout"@)
    &&& m["vout"@] matches Jv::Num(Some(n))
    &&& n == u.vout as u64
    &&& m.dom().contains("value"@)
    &&& m["value"@] matches Jv::Num(Some(w))
    &&& u.value == w
    &&& m.dom().contains("atomicals"@)
    &&& m["atomicals"@] matches Jv::Arr(ids)
    &&& u.atomicals@.len() == ids.len()
    &&& forall|k: int|
        0 <= k < ids.len() ==> (#[trigger] ids[k] matches Jv::Str(t2) ==> u.atomicals@[k]@ == t2)
}

/// Unwraps a response body down to its payload, per `envelope_of`. Any miss
/// is one decode failure — which the engine treats as retryable.
pub fn envelope_payload(body: &str, unwrap_result: bool) -> (r: Result<
    serde_json::Value,
    RpcError,
>)
    ensures
        r matches Err(e) ==> e == RpcError::DecodeFailure,
        r is Ok <==> envelope_of(body@, unwrap_result) is Some,
        r matches Ok(p) ==> Some(model_of(p)) == envelope_of(body@, unwrap_result),
{
    let parsed = match json_parse(body) {
        Ok(v) => v,
        Err(_) => {
            return Err(RpcError::DecodeFailure);
        },
    };
    let resp = match json_get(&parsed, "response") {
        Some(v) => v,
        None => {
            return Err(RpcError::DecodeFailure);
        },
    };
    if unwrap_result {
        match json_get(resp, "result") {
            Some(v) => Ok(json_clone(v)),
            None => Err(RpcError::DecodeFailure),
        }
    } else {
        Ok(json_clone(resp))
    }
}

/// The broadcast reply: the payload under `response` must be one JSON
/// string, the transaction id, which is returned verbatim.
pub fn decode_broadcast(body: &str) -> (r: Result<String, RpcError>)
    ensures
        r matches Err(e) ==> e == RpcError::DecodeFailure,
        r is Ok <==> broadcast_of(body@) is Some,
        r matches Ok(s) ==> Some(s@) == broadcast_of(body@),
{
    let payload = match envelope_payload(body, false) {
        Ok(v) => v,
        Err(e) => {
            return Err(e);
        },
    };
    match json_as_str(&payload) {
        Some(s) => Ok(s.to_owned()),
        None => Err(RpcError::DecodeFailure),
    }
}

/// One element of a `listunspent` reply, read into the wire shape. `None`
/// exactly when a recognised field is missing or of the wrong kind. An
/// atomical identifier that is not a plain string is kept as its JSON
/// rendering.
fn unspent_from_value(v: &serde_json::Value) -> (r: Option<Unspent>)
    ensures
        r is Some <==> unspent_shape_ok(model_of(*v)),
        r matches Some(u) ==> unspent_matches(model_of(*v), u),
{
    let txid = match json_get(v, "txid") {
        Some(t) => match json_as_str(t) {
            Some(s) => s.to_owned(),
            None => {
                return None;
            },
        },
        None => {
            return None;
        },
    };
    let vout64 = match json_get(v, "vout") {
        Some(t) => match json_as_u64(t) {
            Some(n) => n,
            None => {
                return None;
            },
        },
        None => {
            return None;
        },
    };
    if vout64 > u32::MAX as u64 {
        return None;
    }
    let vout = vout64 as u32;
    let value = match json_get(v, "value") {
        Some(t) => match json_as_u64(t) {
            Some(n) => n,
            None => {
                return None;
            },
        },
        None => {
            return None;
        },
    };
    let arr = match json_get(v, "atomicals") {
        Some(t) => match json_as_array(t) {
            Some(a) => a,
            None => {
                return None;
            },
        },
        None => {
            return None;
        },
    };
    let ghost ids = arr@.map_values(|x: serde_json::Value| model_of(x));
    let mut atomicals: Vec<String> = Vec::new();
    let mut i: usize = 0;
    while i < arr.len()
        invariant
            ids == arr@.map_values(|x: serde_json::Value| model_of(x)),
            i <= arr@.len(),
            atomicals@.len() == i,
            forall|k: int|
                0 <= k < i ==> (#[trigger] ids[k] matches Jv::Str(t2) ==> atomicals@[k]@ == t2),
        decreases arr@.len() - i,
    {
        proof {
            assert(ids[i as int] == model_of(arr@[i as int]));
        }
        let id = match json_as_str(&arr[i]) {
            Some(s) => s.to_owned(),
            None => match json_render(&arr[i]) {
                Ok(s) => s,
                Err(_) => {
                    return None;
                },
            },
        };
        atomicals.push(id);
        i += 1;
    }
    Some(Unspent { txid, vout, value, atomicals })
}

/// The `listunspent` reply: the payload under `response` must be an array
/// whose every element has the wire shape of one unspent output; they are
/// returned in upstream order, field for field.
pub fn decode_unspent_list(body: &str) -> (r: Result<Vec<Unspent>, RpcError>)
    ensures
        r matches Err(e) ==> e == RpcError::DecodeFailure,
        r is Ok <==> (envelope_of(body@, false) matches Some(Jv::Arr(elems)) && (forall|k: int|
            0 <= k < elems.len() ==> unspent_shape_ok(#[trigger] elems[k]))),
        r matches Ok(us) ==> (envelope_of(body@, false) matches Some(Jv::Arr(elems)) && us@.len()
            == elems.len() && (forall|k: int|
            0 <= k < elems.len() ==> unspent_matches(#[trigger] elems[k], us@[k]))),
{
    let payload = match envelope_payload(body, false) {
        Ok(v) => v,
        Err(e) => {
            return Err(e);
        },
    };
    let arr = match json_as_array(&payload) {
        Some(a) => a,
        None => {
            return Err(RpcError::DecodeFailure);
        },
    };
    let ghost elems = arr@.map_values(|x: serde_json::Value| model_of(x));
    let mut out: Vec<Unspent> = Vec::new();
    let mut i: usize = 0;
    while i < arr.len()
        invariant
            envelope_of(body@, false) == Some(Jv::Arr(elems)),
            elems == arr@.map_values(|x: serde_json::Value| model_of(x)),
            i <= arr@.len(),
            out@.len() == i,
            forall|k: int| 0 <= k < i ==> unspent_shape_ok(#[trigger] elems[k]),
            forall|k: int| 0 <= k < i ==> unspent_matches(#[trigger] elems[k], out@[k]),
        decreases arr@.len() - i,
    {
        proof {
            assert(elems[i as int] == model_of(arr@[i as int]));
        }
        match unspent_from_value(&arr[i]) {
            Some(u) => out.push(u),
            None => {
                proof {
                    assert(!unspent_shape_ok(elems[i as int]));
                    // the postcondition's pattern binds the same elements
                    assert(envelope_of(body@, false) matches Some(Jv::Arr(es)) ==> es == elems);
                }
                return Err(RpcError::DecodeFailure);
            },
        }
        i += 1;
    }
    Ok(out)
}

} // verus!
