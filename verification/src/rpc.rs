use vstd::prelude::*;
use vstd::string::StringExecFns;

use crate::text::append_decimal;
use crate::text::append_quoted;
use crate::text::spec_decimal;
use crate::text::spec_quoted;

verus! {

/// Configuration of the remote RPC endpoint: where to post, the login secret,
/// the two method names, and the field of the fetch response that holds the
/// item collection to monitor (the update key).
pub struct ApiConfig {
    pub url: String,
    pub password: String,
    pub update_key: String,
    pub login_method: String,
    pub update_method: String,
}

/// One parameter of an RPC call. The calls this client makes only ever carry
/// a string, an array of strings, or an empty object.
pub enum RpcParam {
    Str(String),
    StrList(Vec<String>),
    EmptyObject,
}

/// One call envelope; on the wire it reads
/// `{"method": ..., "params": [...], "id": ...}`.
pub struct RpcRequest {
    pub method: String,
    pub params: Vec<RpcParam>,
    pub id: i32,
}

/// The string-array parameter's inner text: the strings as JSON literals,
/// joined by commas.
pub open spec fn spec_string_list(v: Seq<String>) -> Seq<char>
    decreases v.len(),
{
    if v.len() == 0 {
        Seq::empty()
    } else if v.len() == 1 {
        spec_quoted(v[0]@)
    } else {
        spec_string_list(v.drop_last()) + ","@ + spec_quoted(v.last()@)
    }
}

/// The JSON text of one parameter.
pub open spec fn spec_param_text(p: RpcParam) -> Seq<char> {
    match p {
        RpcParam::Str(s) => spec_quoted(s@),
        RpcParam::StrList(v) => "["@ + spec_string_list(v@) + "]"@,
        RpcParam::EmptyObject => "{}"@,
    }
}

/// The parameters' JSON texts, joined by commas.
pub open spec fn spec_params_text(ps: Seq<RpcParam>) -> Seq<char>
    decreases ps.len(),
{
    if ps.len() == 0 {
        Seq::empty()
    } else if ps.len() == 1 {
        spec_param_text(ps[0])
    } else {
        spec_params_text(ps.drop_last()) + ","@ + spec_param_text(ps.last())
    }
}

/// The decimal text of a signed number.
pub open spec fn spec_signed_decimal(i: int) -> Seq<char> {
    if i < 0 {
        "-"@ + spec_decimal((-i) as nat)
    } else {
        spec_decimal(i as nat)
    }
}

/// The exact JSON body of a request.
pub open spec fn spec_request_text(r: RpcRequest) -> Seq<char> {
    "{\"method\":"@ + spec_quoted(r.method@) + ",\"params\":["@ + spec_params_text(r.params@)
        + "],\"id\":"@ + spec_signed_decimal(r.id as int) + "}"@
}

/// Render a request as the JSON body to post to the endpoint.
pub fn encode_request(r: &RpcRequest) -> (body: String)
    ensures
        body@ == spec_request_text(*r),
{
    let mut out = String::new();
    out.append("{\"method\":");
    append_quoted(&mut out, r.method.as_str());
    out.append(",\"params\":[");
    let ghost head = out@;
    proof {
        assert(r.params@.take(0) =~= Seq::<RpcParam>::empty());
        assert(out@ + spec_params_text(r.params@.take(0)) =~= out@);
    }
    let mut i: usize = 0;
    while i < r.params.len()
        invariant
            i <= r.params.len(),
            out@ == head + spec_params_text(r.params@.take(i as int)),
        decreases r.params.len() - i,
    {
        if i > 0 {
            out.append(",");
        }
        match &r.params[i] {
            RpcParam::Str(s) => {
                append_quoted(&mut out, s.as_str());
            },
            RpcParam::StrList(v) => {
                out.append("[");
                let ghost inner_head = out@;
                proof {
                    assert(v@.take(0) =~= Seq::<String>::empty());
                    assert(out@ + spec_string_list(v@.take(0)) =~= out@);
                }
                let mut j: usize = 0;
                while j < v.len()
                    invariant
                        j <= v.len(),
                        out@ == inner_head + spec_string_list(v@.take(j as int)),
                    decreases v.len() - j,
                {
                    if j > 0 {
                        out.append(",");
                    }
                    append_quoted(&mut out, v[j].as_str());
                    proof {
                        let t = v@.take(j + 1);
                        assert(t.drop_last() =~= v@.take(j as int));
                        assert(t.last() == v@[j as int]);
                        if j == 0 {
                            assert(t.len() == 1 && t[0] == v@[0]);
                        }
                        assert(out@ =~= inner_head + spec_string_list(t));
                    }
                    j += 1;
                }
                proof {
                    assert(v@.take(v@.len() as int) =~= v@);
                }
                out.append("]");
            },
            RpcParam::EmptyObject => {
                out.append("{}");
            },
        }
        proof {
            let t = r.params@.take(i + 1);
            assert(t.drop_last() =~= r.params@.take(i as int));
            assert(t.last() == r.params@[i as int]);
            if i == 0 {
                assert(t.len() == 1 && t[0] == r.params@[0]);
            }
            assert(out@ =~= head + spec_params_text(t));
        }
        i += 1;
    }
    proof {
        assert(r.params@.take(r.params@.len() as int) =~= r.params@);
    }
    out.append("],\"id\":");
    if r.id < 0 {
        out.append("-");
        let mag: u64 = (-(r.id as i64)) as u64;
        proof {
            assert(mag as nat == (-(r.id as int)) as nat);
        }
        append_decimal(&mut out, mag);
    } else {
        append_decimal(&mut out, r.id as u64);
    }
    out.append("}");
    proof {
        assert(out@ =~= spec_request_text(*r));
    }
    out
}

/// The login call: the configured login method, carrying the secret as its
/// one parameter.
pub fn build_login_request(cfg: &ApiConfig) -> (r: RpcRequest)
    ensures
        r.method@ == cfg.login_method@,
        r.id == 1,
        r.params@.len() == 1,
        r.params@[0] matches RpcParam::Str(s) && s@ == cfg.password@,
{
    let mut params: Vec<RpcParam> = Vec::new();
    params.push(RpcParam::Str(cfg.password.clone()));
    RpcRequest { method: cfg.login_method.clone(), params, id: 1 }
}

/// The fetch call: the configured update method, asking for each item's
/// `name` and `progress` fields with an empty filter.
pub fn build_update_request(cfg: &ApiConfig) -> (r: RpcRequest)
    ensures
        r.method@ == cfg.update_method@,
        r.id == 1,
        r.params@.len() == 2,
        r.params@[0] matches RpcParam::StrList(v) && v@.len() == 2 && v@[0]@ == "name"@
            && v@[1]@ == "progress"@,
        r.params@[1] is EmptyObject,
{
    let mut fields: Vec<String> = Vec::new();
    fields.push("name".to_owned());
    fields.push("progress".to_owned());
    let mut params: Vec<RpcParam> = Vec::new();
    params.push(RpcParam::StrList(fields));
    params.push(RpcParam::EmptyObject);
    RpcRequest { method: cfg.update_method.clone(), params, id: 1 }
}

} // verus!
