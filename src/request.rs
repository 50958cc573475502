//! Classification of call objects and resolution of request payloads.
//!
//! A call object carries no tag that names its kind: the kind follows from
//! its shape. A notification is tried first, as it is the narrower shape (it
//! must not carry an `id` key); a method call second; anything else is an
//! invalid call. Neither step ever fails: a malformed call is still a value.
use vstd::prelude::*;
use crate::json::{
    find_key, id_of, key_count, params_of, version_of, Id, JsonValue, Params, Version,
};

verus! {

/// A call that expects a reply.
#[derive(Debug, PartialEq)]
pub struct MethodCall {
    /// The protocol version; always "2.0".
    pub jsonrpc: Version,
    /// The name of the method to invoke.
    pub method: String,
    /// The parameters, when the call carries any.
    pub params: Option<Params>,
    /// The identifier that the reply must carry.
    pub id: Id,
}

/// A call that expects no reply: it carries no `id` key at all.
#[derive(Debug, PartialEq)]
pub struct Notification {
    /// The protocol version; always "2.0".
    pub jsonrpc: Version,
    /// The name of the method to invoke.
    pub method: String,
    /// The parameters, when the call carries any.
    pub params: Option<Params>,
}

/// One call of a request.
#[derive(Debug, PartialEq)]
pub enum Call {
    MethodCall(MethodCall),
    Notification(Notification),
    /// A JSON value that has neither call shape.
    Invalid,
}

/// A request payload: one call, or a batch of calls in their order.
#[derive(Debug, PartialEq)]
pub enum Request {
    Single(Call),
    Batch(Vec<Call>),
}

/// The keys that a call object may carry.
pub open spec fn is_call_key(k: Seq<char>) -> bool {
    k == "jsonrpc"@ || k == "method"@ || k == "params"@ || k == "id"@
}

/// Every member's key is one of the call keys.
pub open spec fn only_call_keys(members: Seq<(String, JsonValue)>) -> bool {
    forall|i: int| 0 <= i < members.len() ==> is_call_key(#[trigger] members[i].0@)
}

/// What both call shapes share: the method name and the optional parameters.
///
/// The members must use call keys only, none of them twice; `jsonrpc` must be
/// the string "2.0", `method` a string, and `params`, when present, an array
/// or an object.
pub open spec fn call_head(members: Seq<(String, JsonValue)>) -> Option<(String, Option<Params>)> {
    if only_call_keys(members) && key_count(members, "jsonrpc"@) <= 1 && key_count(
        members,
        "method"@,
    ) <= 1 && key_count(members, "params"@) <= 1 {
        match (find_key(members, "jsonrpc"@), find_key(members, "method"@)) {
            (Some(v), Some(JsonValue::Str(name))) => {
                if version_of(v) is None {
                    None
                } else {
                    match find_key(members, "params"@) {
                        None => Some((name, None)),
                        Some(p) => match params_of(p) {
                            Some(ps) => Some((name, Some(ps))),
                            None => None,
                        },
                    }
                }
            },
            _ => None,
        }
    } else {
        None
    }
}

/// The notification that an object with these members decodes to.
pub open spec fn notification_from(members: Seq<(String, JsonValue)>) -> Option<Notification> {
    match call_head(members) {
        Some((method, params)) => if find_key(members, "id"@) is None {
            Some(Notification { jsonrpc: Version::V2, method, params })
        } else {
            None
        },
        None => None,
    }
}

/// The method call that an object with these members decodes to.
pub open spec fn method_call_from(members: Seq<(String, JsonValue)>) -> Option<MethodCall> {
    match call_head(members) {
        Some((method, params)) => if key_count(members, "id"@) <= 1 {
            match find_key(members, "id"@) {
                Some(i) => match id_of(i) {
                    Some(id) => Some(MethodCall { jsonrpc: Version::V2, method, params, id }),
                    None => None,
                },
                None => None,
            }
        } else {
            None
        },
        None => None,
    }
}

/// The call that an object with these members is: a notification if it
/// has that shape, else a method call if it has that one, else invalid.
pub open spec fn call_from(members: Seq<(String, JsonValue)>) -> Call {
    match notification_from(members) {
        Some(n) => Call::Notification(n),
        None => match method_call_from(members) {
            Some(c) => Call::MethodCall(c),
            None => Call::Invalid,
        },
    }
}

/// The notification that `v` decodes to; only an object can.
pub open spec fn notification_of(v: JsonValue) -> Option<Notification> {
    match v {
        JsonValue::Object(members) => notification_from(members@),
        _ => None,
    }
}

/// The method call that `v` decodes to; only an object can.
pub open spec fn method_call_of(v: JsonValue) -> Option<MethodCall> {
    match v {
        JsonValue::Object(members) => method_call_from(members@),
        _ => None,
    }
}

/// The call that `v` is classified as.
pub open spec fn classified(v: JsonValue) -> Call {
    match v {
        JsonValue::Object(members) => call_from(members@),
        _ => Call::Invalid,
    }
}

/// `calls` classifies `items` one by one, in their order.
pub open spec fn classified_all(items: Seq<JsonValue>, calls: Seq<Call>) -> bool {
    &&& calls.len() == items.len()
    &&& forall|i: int| 0 <= i < items.len() ==> #[trigger] calls[i] == classified(items[i])
}

/// `r` is what `v` resolves to: an array is a batch of its classified
/// elements, anything else a single classified call.
pub open spec fn resolved(v: JsonValue, r: Request) -> bool {
    match v {
        JsonValue::Array(items) => match r {
            Request::Batch(calls) => classified_all(items@, calls@),
            Request::Single(_) => false,
        },
        _ => r == Request::Single(classified(v)),
    }
}

/// The four call keys differ from each other.
pub proof fn lemma_call_keys_distinct()
    ensures
        "jsonrpc"@ != "method"@,
        "jsonrpc"@ != "params"@,
        "jsonrpc"@ != "id"@,
        "method"@ != "params"@,
        "method"@ != "id"@,
        "params"@ != "id"@,
{
    reveal_strlit("jsonrpc");
    reveal_strlit("method");
    reveal_strlit("params");
    reveal_strlit("id");
    assert("jsonrpc"@[0] != "method"@[0]);
    assert("jsonrpc"@[0] != "params"@[0]);
    assert("jsonrpc"@[0] != "id"@[0]);
    assert("method"@[0] != "params"@[0]);
    assert("method"@[0] != "id"@[0]);
    assert("params"@[0] != "id"@[0]);
}

/// What was read under one key while an object's members are scanned: the
/// value of the last member with that key, and whether the key came twice.
struct Slot {
    value: Option<JsonValue>,
    repeated: bool,
}

impl Slot {
    /// The slot for key `k`, after the members of `all` past `rest` were read.
    spec fn tracks(
        self,
        all: Seq<(String, JsonValue)>,
        rest: Seq<(String, JsonValue)>,
        k: Seq<char>,
    ) -> bool {
        &&& find_key(all, k) == (if self.value is Some {
            self.value
        } else {
            find_key(rest, k)
        })
        &&& self.repeated ==> key_count(all, k) >= 2
        &&& !self.repeated ==> key_count(all, k) == key_count(rest, k) + (if self.value is Some {
            1nat
        } else {
            0nat
        })
    }

    /// The slot for key `k` once all of `all` was read.
    spec fn holds(self, all: Seq<(String, JsonValue)>, k: Seq<char>) -> bool {
        &&& self.value == find_key(all, k)
        &&& self.repeated == (key_count(all, k) >= 2)
    }

    fn empty() -> (s: Slot)
        ensures
            s.value is None,
            !s.repeated,
    {
        Slot { value: None, repeated: false }
    }

    /// Records one more member with this slot's key; read from the end, the
    /// first one seen is the last member.
    fn put(&mut self, v: JsonValue)
        ensures
            final(self).value == (if old(self).value is Some {
                old(self).value
            } else {
                Some(v)
            }),
            final(self).repeated == (old(self).repeated || old(self).value is Some),
    {
        if self.value.is_some() {
            self.repeated = true;
        } else {
            self.value = Some(v);
        }
    }
}

/// The members of an object, sorted by call key.
struct Gathered {
    jsonrpc: Slot,
    method: Slot,
    params: Slot,
    id: Slot,
    /// Some member has a key that is not a call key.
    unknown: bool,
}

impl Gathered {
    spec fn describes(self, members: Seq<(String, JsonValue)>) -> bool {
        &&& self.jsonrpc.holds(members, "jsonrpc"@)
        &&& self.method.holds(members, "method"@)
        &&& self.params.holds(members, "params"@)
        &&& self.id.holds(members, "id"@)
        &&& self.unknown == !only_call_keys(members)
    }

    /// Decides the call from the gathered members, and moves their values
    /// into it.
    fn into_call(self, Ghost(members): Ghost<Seq<(String, JsonValue)>>) -> (r: Call)
        requires
            self.describes(members),
        ensures
            r == call_from(members),
    {
        let Gathered { jsonrpc, method, params, id, unknown } = self;
        if unknown || jsonrpc.repeated || method.repeated || params.repeated {
            return Call::Invalid;
        }
        let version = match &jsonrpc.value {
            Some(v) => Version::from_json(v),
            None => None,
        };
        if version.is_none() {
            return Call::Invalid;
        }
        let name = match method.value {
            Some(JsonValue::Str(s)) => s,
            _ => {
                return Call::Invalid;
            },
        };
        let params = match params.value {
            None => None,
            Some(p) => match Params::from_json(p) {
                Some(ps) => Some(ps),
                None => {
                    return Call::Invalid;
                },
            },
        };
        match id.value {
            None => Call::Notification(Notification { jsonrpc: Version::V2, method: name, params }),
            Some(i) => {
                if id.repeated {
                    return Call::Invalid;
                }
                match Id::from_json(i) {
                    Some(idv) => Call::MethodCall(
                        MethodCall { jsonrpc: Version::V2, method: name, params, id: idv },
                    ),
                    None => Call::Invalid,
                }
            },
        }
    }
}

/// Reads the members of an object, from the last to the first.
fn gather(members: Vec<(String, JsonValue)>) -> (g: Gathered)
    ensures
        g.describes(members@),
{
    let ghost all = members@;
    let mut rest = members;
    let mut g = Gathered {
        jsonrpc: Slot::empty(),
        method: Slot::empty(),
        params: Slot::empty(),
        id: Slot::empty(),
        unknown: false,
    };
    let k_jsonrpc = "jsonrpc".to_owned();
    let k_method = "method".to_owned();
    let k_params = "params".to_owned();
    let k_id = "id".to_owned();
    proof {
        lemma_call_keys_distinct();
    }
    while rest.len() > 0
        invariant
            rest@.len() <= all.len(),
            rest@ == all.subrange(0, rest@.len() as int),
            k_jsonrpc@ == "jsonrpc"@,
            k_method@ == "method"@,
            k_params@ == "params"@,
            k_id@ == "id"@,
            g.jsonrpc.tracks(all, rest@, "jsonrpc"@),
            g.method.tracks(all, rest@, "method"@),
            g.params.tracks(all, rest@, "params"@),
            g.id.tracks(all, rest@, "id"@),
            !g.unknown <==> (forall|i: int|
                rest@.len() <= i < all.len() ==> is_call_key(#[trigger] all[i].0@)),
        decreases rest@.len(),
    {
        let ghost before = rest@;
        let (key, value) = rest.pop().unwrap();
        proof {
            assert(before.drop_last() == rest@);
            assert(rest@ == all.subrange(0, rest@.len() as int));
            assert(before.last() == all[rest@.len() as int]);
            lemma_call_keys_distinct();
        }
        if key.eq(&k_jsonrpc) {
            g.jsonrpc.put(value);
        } else if key.eq(&k_method) {
            g.method.put(value);
        } else if key.eq(&k_params) {
            g.params.put(value);
        } else if key.eq(&k_id) {
            g.id.put(value);
        } else {
            g.unknown = true;
        }
    }
    g
}

impl Notification {
    /// Decodes `value` as a notification: it fails on an object that carries
    /// an `id` key, and on anything that is not a well-formed call object.
    pub fn probe(value: JsonValue) -> (r: Option<Notification>)
        ensures
            r == notification_of(value),
    {
        match value {
            JsonValue::Object(members) => {
                let ghost m = members@;
                match gather(members).into_call(Ghost(m)) {
                    Call::Notification(n) => Some(n),
                    _ => None,
                }
            },
            _ => None,
        }
    }
}

impl MethodCall {
    /// Decodes `value` as a method call: it fails on an object without an
    /// `id` key, and on anything that is not a well-formed call object.
    pub fn probe(value: JsonValue) -> (r: Option<MethodCall>)
        ensures
            r == method_call_of(value),
    {
        match value {
            JsonValue::Object(members) => {
                let ghost m = members@;
                match gather(members).into_call(Ghost(m)) {
                    Call::MethodCall(c) => Some(c),
                    _ => None,
                }
            },
            _ => None,
        }
    }
}

impl Call {
    /// Classifies one JSON value as a call; never fails.
    pub fn classify(value: JsonValue) -> (r: Call)
        ensures
            r == classified(value),
    {
        match value {
            JsonValue::Object(members) => {
                let ghost m = members@;
                gather(members).into_call(Ghost(m))
            },
            _ => Call::Invalid,
        }
    }
}

/// Classifies each of `items`, keeping their order.
fn classify_all(items: Vec<JsonValue>) -> (calls: Vec<Call>)
    ensures
        classified_all(items@, calls@),
{
    let ghost all = items@;
    let n = items.len();
    let mut rest = items;
    let mut reversed: Vec<JsonValue> = Vec::new();
    while rest.len() > 0
        invariant
            rest@.len() + reversed@.len() == n,
            n == all.len(),
            rest@ == all.subrange(0, rest@.len() as int),
            forall|j: int| 0 <= j < reversed@.len() ==> #[trigger] reversed@[j] == all[n - 1 - j],
        decreases rest@.len(),
    {
        let item = rest.pop().unwrap();
        reversed.push(item);
    }
    let mut calls: Vec<Call> = Vec::new();
    while reversed.len() > 0
        invariant
            reversed@.len() + calls@.len() == n,
            n == all.len(),
            forall|j: int| 0 <= j < reversed@.len() ==> #[trigger] reversed@[j] == all[n - 1 - j],
            forall|j: int| 0 <= j < calls@.len() ==> #[trigger] calls@[j] == classified(all[j]),
        decreases reversed@.len(),
    {
        let item = reversed.pop().unwrap();
        calls.push(Call::classify(item));
    }
    calls
}

impl Request {
    /// Resolves a request payload: an array is a batch, whose calls are
    /// its elements classified in order (an empty array is an empty batch);
    /// anything else is a single call. Never fails.
    pub fn resolve(value: JsonValue) -> (r: Request)
        ensures
            resolved(value, r),
    {
        match value {
            JsonValue::Array(items) => Request::Batch(classify_all(items)),
            other => Request::Single(Call::classify(other)),
        }
    }
}

} // verus!
