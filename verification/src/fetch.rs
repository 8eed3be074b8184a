use vstd::prelude::*;
use vstd::string::StringExecFns;

use crate::json::Json;
use crate::json::json_of;
use crate::json::json_view;
use crate::json::parse_json;
use crate::json::value_as_bool;
use crate::json::value_as_str;
use crate::json::value_get;
use crate::json::value_is_null;
use crate::json::value_number_bits;
use crate::json::value_object_entries;
use crate::state::CurrentState;
use crate::state::distinct_names;
use crate::state::lemma_queue_map_contains;
use crate::state::lemma_queue_map_value;

verus! {

/// A failure of the login step.
#[derive(Debug, PartialEq, Eq)]
pub enum AuthError {
    /// The login call's response did not say yes: no object, a present
    /// non-null error, or a result other than boolean `true`.
    LoginFailed,
    /// The login succeeded but the response carried no session cookie.
    MissingSessionToken,
}

/// Why fetching the current snapshot failed. Every such failure ends the
/// cycle; no snapshot is produced.
#[derive(Debug, PartialEq, Eq)]
pub enum FetchError {
    /// The network-level call itself failed; the text describes the failure.
    Transport(String),
    /// The login step failed.
    Auth(AuthError),
    /// The fetch response was not of the required shape; carries the raw
    /// response text for diagnosis.
    Malformed(String),
}

/// The text that describes a login failure.
pub open spec fn spec_auth_error_text(e: AuthError) -> Seq<char> {
    match e {
        AuthError::LoginFailed => "Login failed!"@,
        AuthError::MissingSessionToken => "set-cookie header not set!"@,
    }
}

/// The text that describes a fetch failure.
pub open spec fn spec_fetch_error_text(e: FetchError) -> Seq<char> {
    match e {
        FetchError::Transport(d) => "transport failure: "@ + d@,
        FetchError::Auth(a) => spec_auth_error_text(a),
        FetchError::Malformed(p) => "malformed response, received: "@ + p@,
    }
}

impl FetchError {
    /// The failure as text, for logs and notifications.
    pub fn describe(&self) -> (m: String)
        ensures
            m@ == spec_fetch_error_text(*self),
    {
        match self {
            FetchError::Transport(d) => {
                let mut m = "transport failure: ".to_owned();
                m.append(d.as_str());
                m
            },
            FetchError::Auth(a) => match a {
                AuthError::LoginFailed => "Login failed!".to_owned(),
                AuthError::MissingSessionToken => "set-cookie header not set!".to_owned(),
            },
            FetchError::Malformed(p) => {
                let mut m = "malformed response, received: ".to_owned();
                m.append(p.as_str());
                m
            },
        }
    }
}

/// Login success: the response is a JSON object whose `result` is boolean
/// `true` and which carries no error (no `error` member at all, or a null
/// one).
pub open spec fn login_success(doc: Option<Json>) -> bool {
    match doc {
        Some(Json::Obj(m)) => m.contains_key("result"@) && m["result"@] == Json::Bool(true) && (
        !m.contains_key("error"@) || m["error"@] is Null),
        _ => false,
    }
}

/// Decide the login step's outcome from the response body and the session
/// cookie that came beside it, if any: the cookie is the token exactly when
/// the response says yes, and a yes without a cookie is a hard failure.
pub fn login_outcome(body: &str, session_cookie: Option<String>) -> (r: Result<String, AuthError>)
    ensures
        match r {
            Ok(tok) => login_success(json_of(body@)) && (session_cookie matches Some(t) && tok
                == t),
            Err(AuthError::LoginFailed) => !login_success(json_of(body@)),
            Err(AuthError::MissingSessionToken) => login_success(json_of(body@))
                && session_cookie is None,
        },
{
    let parsed = parse_json(body);
    let ok: bool = match &parsed {
        Some(v) => {
            let result_ok: bool = match value_get(v, "result") {
                Some(rv) => match value_as_bool(rv) {
                    Some(b) => b,
                    None => false,
                },
                None => false,
            };
            let error_ok: bool = match value_get(v, "error") {
                Some(ev) => value_is_null(ev),
                None => true,
            };
            result_ok && error_ok
        },
        None => false,
    };
    if !ok {
        return Err(AuthError::LoginFailed);
    }
    match session_cookie {
        Some(t) => Ok(t),
        None => Err(AuthError::MissingSessionToken),
    }
}

/// An item's fields: its name and progress, where the item is a JSON object
/// carrying a string under `name` and a number under `progress`; nothing
/// otherwise.
pub open spec fn item_fields(j: Json) -> Option<(Seq<char>, u64)> {
    match j {
        Json::Obj(d) => if d.contains_key("name"@) && d.contains_key("progress"@) {
            match (d["name"@], d["progress"@]) {
                (Json::Str(n), Json::Num(p)) => Some((n, p)),
                _ => None,
            }
        } else {
            None
        },
        _ => None,
    }
}

/// The name an item carries, where it carries one.
pub open spec fn item_name(j: Json) -> Seq<char> {
    match item_fields(j) {
        Some(f) => f.0,
        None => Seq::empty(),
    }
}

/// The fetch response has the required shape: one JSON object whose `result`
/// is an object carrying a `stats` object with a string `external_ip`, and an
/// object under the update key.
pub open spec fn response_shape_ok(doc: Json, update_key: Seq<char>) -> bool {
    &&& doc is Obj
    &&& doc->Obj_0.contains_key("result"@)
    &&& doc->Obj_0["result"@] is Obj
    &&& response_result(doc).contains_key("stats"@)
    &&& response_result(doc)["stats"@] is Obj
    &&& response_result(doc)["stats"@]->Obj_0.contains_key("external_ip"@)
    &&& response_result(doc)["stats"@]->Obj_0["external_ip"@] is Str
    &&& response_result(doc).contains_key(update_key)
    &&& response_result(doc)[update_key] is Obj
}

/// The `result` object of the response.
pub open spec fn response_result(doc: Json) -> Map<Seq<char>, Json> {
    doc->Obj_0["result"@]->Obj_0
}

/// The external IP the response reports.
pub open spec fn response_ip(doc: Json) -> Seq<char> {
    response_result(doc)["stats"@]->Obj_0["external_ip"@]->Str_0
}

/// The item objects under the update key, keyed by the service's item
/// identifiers.
pub open spec fn response_items(doc: Json, update_key: Seq<char>) -> Map<Seq<char>, Json> {
    response_result(doc)[update_key]->Obj_0
}

/// Every item under the update key carries a string name and a numeric
/// progress, and no two items carry the same name.
pub open spec fn items_wf(items: Map<Seq<char>, Json>) -> bool {
    &&& forall|t: Seq<char>| #[trigger] items.contains_key(t) ==> item_fields(items[t]) is Some
    &&& forall|t1: Seq<char>, t2: Seq<char>|
        items.contains_key(t1) && items.contains_key(t2) && t1 != t2 ==> item_name(items[t1])
            != item_name(items[t2])
}

/// The whole response is acceptable: right shape, well-formed items.
pub open spec fn response_ok(doc: Json, update_key: Seq<char>) -> bool {
    response_shape_ok(doc, update_key) && items_wf(response_items(doc, update_key))
}

/// The queue is exactly what the items denote: it holds each item's name with
/// that item's progress, and nothing else.
pub open spec fn queue_matches_items(
    items: Map<Seq<char>, Json>,
    q: Map<Seq<char>, u64>,
) -> bool {
    &&& forall|n: Seq<char>| #[trigger]
        q.contains_key(n) ==> exists|t: Seq<char>|
            #[trigger] items.contains_key(t) && item_fields(items[t]) == Some((n, q[n]))
    &&& forall|t: Seq<char>| #[trigger]
        items.contains_key(t) ==> (item_fields(items[t]) matches Some(f) && q.contains_key(f.0)
            && q[f.0] == f.1)
}

/// Parse and validate the fetch response: the snapshot it reports, or one
/// malformed-response failure carrying the raw text. Never a partial
/// snapshot: any deviation from the required shape — a non-object result, a
/// missing or mistyped field, an item without its name or progress, or two
/// items sharing a name — rejects the whole response.
#[verifier::loop_isolation(false)]
pub fn parse_state_body(body: &str, update_key: &str) -> (r: Result<CurrentState, FetchError>)
    ensures
        match r {
            Ok(s) => {
                &&& json_of(body@) matches Some(doc) && response_ok(doc, update_key@) && s@.ip
                    == response_ip(doc) && queue_matches_items(
                    response_items(doc, update_key@),
                    s@.queue,
                )
                &&& s.wf()
            },
            Err(e) => {
                &&& !(json_of(body@) matches Some(doc) && response_ok(doc, update_key@))
                &&& e matches FetchError::Malformed(p) && p@ == body@
            },
        },
{
    let parsed = match parse_json(body) {
        Some(v) => v,
        None => {
            return Err(FetchError::Malformed(body.to_owned()));
        },
    };
    let ghost doc = json_view(parsed);
    let result_v = match value_get(&parsed, "result") {
        Some(v) => v,
        None => {
            return Err(FetchError::Malformed(body.to_owned()));
        },
    };
    let stats_v = match value_get(result_v, "stats") {
        Some(v) => v,
        None => {
            return Err(FetchError::Malformed(body.to_owned()));
        },
    };
    let ip_v = match value_get(stats_v, "external_ip") {
        Some(v) => v,
        None => {
            return Err(FetchError::Malformed(body.to_owned()));
        },
    };
    let ip: String = match value_as_str(ip_v) {
        Some(s) => s.to_owned(),
        None => {
            return Err(FetchError::Malformed(body.to_owned()));
        },
    };
    let items_v = match value_get(result_v, update_key) {
        Some(v) => v,
        None => {
            return Err(FetchError::Malformed(body.to_owned()));
        },
    };
    let entries = match value_object_entries(items_v) {
        Some(es) => es,
        None => {
            return Err(FetchError::Malformed(body.to_owned()));
        },
    };
    proof {
        assert(response_shape_ok(doc, update_key@));
    }
    let ghost items = response_items(doc, update_key@);
    let mut queue: Vec<(String, u64)> = Vec::new();
    let mut idx: usize = 0;
    while idx < entries.len()
        invariant
            idx <= entries.len(),
            queue@.len() == idx,
            json_view(*items_v) == Json::Obj(items),
            forall|i: int| #![auto]
                0 <= i < entries@.len() ==> items.contains_key(entries@[i].0@) && json_view(
                    entries@[i].1,
                ) == items[entries@[i].0@],
            forall|k: Seq<char>| #[trigger]
                items.contains_key(k) ==> exists|i: int|
                    0 <= i < entries@.len() && entries@[i].0@ == k,
            forall|i: int, j: int| #![auto]
                0 <= i < j < entries@.len() ==> entries@[i].0@ != entries@[j].0@,
            forall|j: int| #![auto]
                0 <= j < idx ==> item_fields(items[entries@[j].0@]) == Some(
                    (queue@[j].0@, queue@[j].1),
                ),
            distinct_names(queue@),
        decreases entries.len() - idx,
    {
        let item_v = &entries[idx].1;
        let ghost t = entries@[idx as int].0@;
        let name_v = match value_get(item_v, "name") {
            Some(v) => v,
            None => {
                proof {
                    assert(items.contains_key(t));
                    assert(item_fields(items[t]) is None);
                    assert(!items_wf(items));
                    assert(!response_ok(doc, update_key@));
                }
                return Err(FetchError::Malformed(body.to_owned()));
            },
        };
        let name: String = match value_as_str(name_v) {
            Some(n) => n.to_owned(),
            None => {
                proof {
                    assert(items.contains_key(t));
                    assert(item_fields(items[t]) is None);
                    assert(!items_wf(items));
                    assert(!response_ok(doc, update_key@));
                }
                return Err(FetchError::Malformed(body.to_owned()));
            },
        };
        let prog_v = match value_get(item_v, "progress") {
            Some(v) => v,
            None => {
                proof {
                    assert(items.contains_key(t));
                    assert(item_fields(items[t]) is None);
                    assert(!items_wf(items));
                    assert(!response_ok(doc, update_key@));
                }
                return Err(FetchError::Malformed(body.to_owned()));
            },
        };
        let prog: u64 = match value_number_bits(prog_v) {
            Some(p) => p,
            None => {
                proof {
                    assert(items.contains_key(t));
                    assert(item_fields(items[t]) is None);
                    assert(!items_wf(items));
                    assert(!response_ok(doc, update_key@));
                }
                return Err(FetchError::Malformed(body.to_owned()));
            },
        };
        proof {
            assert(items.contains_key(t));
            assert(item_fields(items[t]) == Some((name@, prog)));
        }
        let mut j: usize = 0;
        while j < queue.len()
            invariant
                j <= queue.len(),
                queue@.len() == idx < entries@.len(),
                item_fields(items[entries@[idx as int].0@]) == Some((name@, prog)),
                forall|i: int| #![auto]
                    0 <= i < entries@.len() ==> items.contains_key(entries@[i].0@) && json_view(
                        entries@[i].1,
                    ) == items[entries@[i].0@],
                forall|i1: int, i2: int| #![auto]
                    0 <= i1 < i2 < entries@.len() ==> entries@[i1].0@ != entries@[i2].0@,
                forall|p: int| #![auto]
                    0 <= p < idx ==> item_fields(items[entries@[p].0@]) == Some(
                        (queue@[p].0@, queue@[p].1),
                    ),
                forall|p: int| #![auto] 0 <= p < j ==> queue@[p].0@ != name@,
            decreases queue.len() - j,
        {
            if queue[j].0 == name {
                proof {
                    let t1 = entries@[j as int].0@;
                    let t2 = entries@[idx as int].0@;
                    assert(items.contains_key(t1) && items.contains_key(t2));
                    assert(t1 != t2);
                    assert(item_name(items[t1]) == item_name(items[t2]));
                    assert(!items_wf(items));
                }
                return Err(FetchError::Malformed(body.to_owned()));
            }
            j += 1;
        }
        queue.push((name, prog));
        idx += 1;
    }
    let s = CurrentState { queue, ip };
    proof {
        // Every item is well formed and no two share a name.
        assert forall|t: Seq<char>| #[trigger]
            items.contains_key(t) implies item_fields(items[t]) is Some by {
            let i = choose|i: int| 0 <= i < entries@.len() && entries@[i].0@ == t;
            assert(item_fields(items[entries@[i].0@]) == Some((s.queue@[i].0@, s.queue@[i].1)));
        }
        assert forall|t1: Seq<char>, t2: Seq<char>|
            items.contains_key(t1) && items.contains_key(t2) && t1 != t2 implies item_name(
            items[t1],
        ) != item_name(items[t2]) by {
            let i1 = choose|i: int| 0 <= i < entries@.len() && entries@[i].0@ == t1;
            let i2 = choose|i: int| 0 <= i < entries@.len() && entries@[i].0@ == t2;
            assert(items[entries@[i1].0@] == items[t1]);
            assert(items[entries@[i2].0@] == items[t2]);
            assert(i1 != i2);
            assert(s.queue@[i1].0@ != s.queue@[i2].0@);
        }
        assert(items_wf(items));
        // The queue is exactly what the items denote.
        assert forall|n: Seq<char>| #[trigger]
            s@.queue.contains_key(n) implies exists|t: Seq<char>|
            #[trigger] items.contains_key(t) && item_fields(items[t]) == Some(
                (n, s@.queue[n]),
            ) by {
            lemma_queue_map_contains(s.queue@, n);
            let i = choose|i: int| 0 <= i < s.queue@.len() && s.queue@[i].0@ == n;
            lemma_queue_map_value(s.queue@, i);
            let t = entries@[i].0@;
            assert(items.contains_key(t) && item_fields(items[t]) == Some((n, s@.queue[n])));
        }
        assert forall|t: Seq<char>| #[trigger]
            items.contains_key(t) implies (item_fields(items[t]) matches Some(f)
            && s@.queue.contains_key(f.0) && s@.queue[f.0] == f.1) by {
            let i = choose|i: int| 0 <= i < entries@.len() && entries@[i].0@ == t;
            assert(item_fields(items[t]) == Some((s.queue@[i].0@, s.queue@[i].1)));
            lemma_queue_map_value(s.queue@, i);
        }
    }
    Ok(s)
}

} // verus!
