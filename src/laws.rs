//! Laws of call classification, proved from the definitions in
//! [`crate::request`].
use vstd::prelude::*;
use crate::json::{find_key, id_of, key_count, lemma_absent_key, params_of, version_of, JsonValue,
    Params};
use crate::request::{
    classified, is_call_key, lemma_call_keys_distinct, notification_of, only_call_keys, Call,
};

verus! {

/// The keys of a notification: `jsonrpc`, `method` and `params`.
pub open spec fn is_notification_key(k: Seq<char>) -> bool {
    k == "jsonrpc"@ || k == "method"@ || k == "params"@
}

/// `jsonrpc` is the string "2.0" and `method` a string; `params`, when
/// present, is an array or an object; none of the three keys is repeated.
pub open spec fn well_formed_head(members: Seq<(String, JsonValue)>) -> bool {
    &&& key_count(members, "jsonrpc"@) <= 1
    &&& key_count(members, "method"@) <= 1
    &&& key_count(members, "params"@) <= 1
    &&& find_key(members, "jsonrpc"@) is Some
    &&& version_of(find_key(members, "jsonrpc"@)->0) is Some
    &&& find_key(members, "method"@) is Some
    &&& find_key(members, "method"@)->0 is Str
    &&& find_key(members, "params"@) is Some ==> params_of(find_key(members, "params"@)->0) is Some
}

/// The parameters that a well-formed call object carries.
pub open spec fn params_in(members: Seq<(String, JsonValue)>) -> Option<Params> {
    match find_key(members, "params"@) {
        Some(p) => params_of(p),
        None => None,
    }
}

/// An object with `jsonrpc` "2.0", a string `method`, no `id` key and no
/// key besides `params` is a notification, with or without `params`; its
/// method and parameters are those of the object.
pub proof fn lemma_notification_without_id(members: Vec<(String, JsonValue)>)
    requires
        forall|i: int| 0 <= i < members@.len() ==> is_notification_key(#[trigger] members@[i].0@),
        well_formed_head(members@),
    ensures
        classified(JsonValue::Object(members)) matches Call::Notification(n) && n.method
            == find_key(members@, "method"@)->0->Str_0 && n.params == params_in(members@),
{
    let m = members@;
    assert(find_key(m, "id"@) is None) by {
        lemma_call_keys_distinct();
        lemma_absent_from(m, "id"@);
    }
}

/// No member of `members` has key `k`, so looking for it finds nothing.
proof fn lemma_absent_from(members: Seq<(String, JsonValue)>, k: Seq<char>)
    requires
        forall|i: int| 0 <= i < members.len() ==> is_notification_key(#[trigger] members[i].0@),
        !is_notification_key(k),
    ensures
        find_key(members, k) is None,
    decreases members.len(),
{
    if members.len() > 0 {
        let rest = members.drop_last();
        assert forall|i: int| 0 <= i < rest.len() implies is_notification_key(#[trigger] rest[i].0@) by {
            assert(rest[i] == members[i]);
        }
        assert(is_notification_key(members[members.len() - 1].0@));
        lemma_absent_from(rest, k);
    }
}

/// An object with `jsonrpc` "2.0", a string `method` and an `id` that is a
/// string, an integer or null, and no key besides `params`, each key once,
/// is a method call; its id is the object's `id`, unchanged.
pub proof fn lemma_method_call_with_id(members: Vec<(String, JsonValue)>)
    requires
        only_call_keys(members@),
        well_formed_head(members@),
        key_count(members@, "id"@) <= 1,
        find_key(members@, "id"@) is Some,
        id_of(find_key(members@, "id"@)->0) is Some,
    ensures
        classified(JsonValue::Object(members)) matches Call::MethodCall(c) && c.method
            == find_key(members@, "method"@)->0->Str_0 && c.params == params_in(members@) && c.id
            == id_of(find_key(members@, "id"@)->0)->0,
{
}

/// Counting and finding a key after one more member is added at the end.
pub proof fn lemma_push_member(members: Seq<(String, JsonValue)>, e: (String, JsonValue), k: Seq<char>)
    ensures
        key_count(members.push(e), k) == key_count(members, k) + (if e.0@ == k {
            1nat
        } else {
            0nat
        }),
        find_key(members.push(e), k) == (if e.0@ == k {
            Some(e.1)
        } else {
            find_key(members, k)
        }),
{
    assert(members.push(e).drop_last() == members);
}

/// Adding an `id` key (a string, an integer or null) to an object that is a
/// notification makes it a method call with the same method and parameters,
/// and that id; it is then neither a notification nor invalid.
pub proof fn lemma_adding_id_makes_method_call(
    members: Vec<(String, JsonValue)>,
    extended: Vec<(String, JsonValue)>,
    key: String,
    id: JsonValue,
)
    requires
        classified(JsonValue::Object(members)) is Notification,
        key@ == "id"@,
        id_of(id) is Some,
        extended@ == members@.push((key, id)),
    ensures
        classified(JsonValue::Object(extended)) matches Call::MethodCall(c) && c.method
            == classified(JsonValue::Object(members))->Notification_0.method && c.params
            == classified(JsonValue::Object(members))->Notification_0.params && c.id == id_of(
            id,
        )->0,
{
    let m = members@;
    let x = extended@;
    let e = (key, id);
    lemma_call_keys_distinct();
    lemma_push_member(m, e, "jsonrpc"@);
    lemma_push_member(m, e, "method"@);
    lemma_push_member(m, e, "params"@);
    lemma_push_member(m, e, "id"@);
    lemma_absent_key(m, "id"@);
    assert forall|i: int| 0 <= i < x.len() implies is_call_key(#[trigger] x[i].0@) by {
        if i < m.len() {
            assert(x[i] == m[i]);
        }
    }
}

/// An object without `method`, or whose `jsonrpc` is absent or not the
/// string "2.0", is an invalid call.
pub proof fn lemma_missing_method_or_version(members: Vec<(String, JsonValue)>)
    requires
        find_key(members@, "method"@) is None || find_key(members@, "jsonrpc"@) is None
            || version_of(find_key(members@, "jsonrpc"@)->0) is None,
    ensures
        classified(JsonValue::Object(members)) == Call::Invalid,
{
}

/// A value that is neither an object nor an array is an invalid call.
pub proof fn lemma_scalar_is_invalid(v: JsonValue)
    requires
        !(v is Object),
        !(v is Array),
    ensures
        classified(v) == Call::Invalid,
{
}

/// An object that carries an `id` key never decodes as a notification.
pub proof fn lemma_id_is_never_notification(members: Vec<(String, JsonValue)>)
    requires
        find_key(members@, "id"@) is Some,
    ensures
        notification_of(JsonValue::Object(members)) is None,
        !(classified(JsonValue::Object(members)) is Notification),
{
}

} // verus!
