use vstd::prelude::*;
use crate::model::{InterfaceModel, Member, MethodSignature};
use crate::generate::{client_of, server_of, ClientPlan, ServerPlan};
use crate::validate::{interface_violations, member_violations};
use crate::dispatch::{
    bind_args_spec, key_index, lemma_key_index, lemma_method_index, method_index, names_of,
    prepare_spec, rpc_args, take_named, DispatchError, Params,
};

verus! {

/// How many members have at least one violation.
pub open spec fn faulty_members(ms: Seq<Member>) -> nat
    decreases ms.len(),
{
    if ms.len() == 0 {
        0
    } else {
        (if member_violations(ms[0]).len() > 0 {
            1nat
        } else {
            0nat
        }) + faulty_members(ms.drop_first())
    }
}

/// The violations of two runs of members, one after the other, are those of
/// the first run followed by those of the second: no member's report depends
/// on another member.
pub proof fn lemma_violations_concat(a: Seq<Member>, b: Seq<Member>)
    ensures
        interface_violations(a + b) == interface_violations(a) + interface_violations(b),
    decreases b.len(),
{
    if b.len() == 0 {
        assert(a + b =~= a);
        assert(interface_violations(a) + Seq::empty() =~= interface_violations(a));
    } else {
        assert((a + b).drop_last() =~= a + b.drop_last());
        assert((a + b).last() == b.last());
        lemma_violations_concat(a, b.drop_last());
        assert(interface_violations(a) + interface_violations(b.drop_last()) + member_violations(b.last())
            =~= interface_violations(a) + (interface_violations(b.drop_last()) + member_violations(b.last())));
    }
}

/// An interface whose every member is an acceptable method has no violation,
/// so validation accepts it with one signature per member, in order.
pub proof fn lemma_valid_members_accepted(ms: Seq<Member>)
    requires
        forall|j: int| 0 <= j < ms.len() ==> (#[trigger] member_violations(ms[j])).len() == 0,
    ensures
        interface_violations(ms).len() == 0,
    decreases ms.len(),
{
    if ms.len() > 0 {
        assert forall|j: int| 0 <= j < ms.drop_last().len() implies (#[trigger] member_violations(
            ms.drop_last()[j],
        )).len() == 0 by {
            assert(ms.drop_last()[j] == ms[j]);
        }
        lemma_valid_members_accepted(ms.drop_last());
        assert(member_violations(ms[ms.len() - 1]).len() == 0);
    }
}

/// Where each member has at most one violation, validation reports exactly as
/// many violations as there are faulty members, whatever their order.
pub proof fn lemma_one_report_per_faulty_member(ms: Seq<Member>)
    requires
        forall|j: int| 0 <= j < ms.len() ==> (#[trigger] member_violations(ms[j])).len() <= 1,
    ensures
        interface_violations(ms).len() == faulty_members(ms),
    decreases ms.len(),
{
    if ms.len() > 0 {
        let first = seq![ms[0]];
        let rest = ms.drop_first();
        assert(first + rest =~= ms);
        lemma_violations_concat(first, rest);
        assert(first.drop_last() =~= Seq::<Member>::empty());
        assert(first.last() == ms[0]);
        assert(interface_violations(first.drop_last()) =~= Seq::<crate::model::Rejection>::empty());
        assert(interface_violations(first) =~= member_violations(ms[0]));
        assert(rest =~= ms.drop_first());
        assert(member_violations(ms[0]).len() <= 1);
        assert forall|j: int| 0 <= j < rest.len() implies (#[trigger] member_violations(rest[j])).len()
            <= 1 by {
            assert(rest[j] == ms[j + 1]);
        }
        lemma_one_report_per_faulty_member(rest);
    }
}

/// A call built for a method carries one serialized value per parameter, so
/// handing those values back to the dispatcher under the method's names gives
/// exactly them, in order; and when each decodes to the value it was made from,
/// binding gives back exactly the arguments the call was built from.
pub proof fn lemma_round_trip<V, T>(sig: MethodSignature, args: Vec<V>, values: Seq<T>)
    requires
        args@.len() == sig.params@.len(),
        values.len() == sig.params@.len(),
    ensures
        rpc_args(Params::Positional(args), names_of(sig)) == Ok::<Seq<V>, crate::dispatch::InvalidArgs>(args@),
        bind_args_spec(names_of(sig), values.map_values(|v: T| Some(v))) == Ok::<Seq<T>, DispatchError>(values),
{
    lemma_bind_all_decoded(names_of(sig), values);
}

proof fn lemma_bind_all_decoded<T>(names: Seq<String>, values: Seq<T>)
    ensures
        bind_args_spec(names, values.map_values(|v: T| Some(v))) == Ok::<Seq<T>, DispatchError>(values),
    decreases values.len(),
{
    let decoded = values.map_values(|v: T| Some(v));
    if values.len() > 0 {
        assert(decoded.drop_last() =~= values.drop_last().map_values(|v: T| Some(v)));
        lemma_bind_all_decoded(names, values.drop_last());
        assert(values.drop_last().push(values.last()) =~= values);
    } else {
        assert(values =~= Seq::<T>::empty());
    }
}

/// A call to a name that no method has fails with `MethodNotFound` before any
/// argument is extracted or any method is reached.
pub proof fn lemma_unknown_method<V>(methods: Seq<MethodSignature>, method: Seq<char>, params: Params<V>)
    requires
        forall|j: int| 0 <= j < methods.len() ==> (#[trigger] methods[j]).name@ != method,
    ensures
        prepare_spec(methods, method, params) == Err::<(int, Seq<V>), DispatchError>(DispatchError::MethodNotFound),
{
    lemma_method_index(methods, method);
}

/// How many values a call's parameters supply.
pub open spec fn supplied_count<V>(params: Params<V>) -> nat {
    match params {
        Params::Positional(vs) => vs@.len(),
        Params::Named(entries) => entries@.len(),
    }
}

proof fn lemma_take_named_len<V>(entries: Seq<(String, V)>, names: Seq<String>)
    requires
        take_named(entries, names) is Ok,
    ensures
        entries.len() == names.len(),
    decreases names.len(),
{
    if names.len() > 0 {
        let k = key_index(entries, names[0]@);
        lemma_key_index(entries, names[0]@);
        lemma_take_named_len(entries.remove(k), names.drop_first());
    }
}

/// A call to a known method whose parameters supply a different number of
/// values than the method has parameters fails with `InvalidParams`, before any
/// argument is decoded or the method is reached.
pub proof fn lemma_wrong_count<V>(methods: Seq<MethodSignature>, method: Seq<char>, k: int, params: Params<V>)
    requires
        0 <= k < methods.len(),
        methods[k].name@ == method,
        forall|j: int| 0 <= j < k ==> (#[trigger] methods[j]).name@ != method,
        supplied_count(params) != methods[k].params@.len(),
    ensures
        prepare_spec(methods, method, params) matches Err(DispatchError::InvalidParams(_)),
{
    lemma_method_index(methods, method);
    let i = method_index(methods, method);
    assert(i == k) by {
        if i < k {
            assert(methods[i].name@ == method);
        }
        if i == -1 {
            assert(methods[k].name@ != method);
        }
    }
    match params {
        Params::Positional(vs) => {},
        Params::Named(entries) => {
            if take_named(entries@, names_of(methods[k])) is Ok {
                lemma_take_named_len(entries@, names_of(methods[k]));
            }
        },
    }
}

proof fn lemma_take_named_keys<V>(entries: Seq<(String, V)>, names: Seq<String>, i: int)
    requires
        take_named(entries, names) is Ok,
        0 <= i < names.len(),
    ensures
        key_index(entries, names[i]@) >= 0,
    decreases names.len(),
{
    let k = key_index(entries, names[0]@);
    lemma_key_index(entries, names[0]@);
    if i > 0 {
        let rest = entries.remove(k);
        lemma_take_named_keys(rest, names.drop_first(), i - 1);
        assert(names.drop_first()[i - 1] == names[i]);
        let j = key_index(rest, names[i]@);
        lemma_key_index(rest, names[i]@);
        lemma_key_index(entries, names[i]@);
        let src = if j < k { j } else { j + 1 };
        assert(entries[src] == rest[j]);
    }
}

/// A call to a known method whose named parameters lack one of the method's
/// parameter names fails with `InvalidParams`, before any argument is decoded
/// or the method is reached.
pub proof fn lemma_missing_name<V>(
    methods: Seq<MethodSignature>,
    method: Seq<char>,
    k: int,
    entries: Vec<(String, V)>,
    p: int,
)
    requires
        0 <= k < methods.len(),
        methods[k].name@ == method,
        forall|j: int| 0 <= j < k ==> (#[trigger] methods[j]).name@ != method,
        0 <= p < methods[k].params@.len(),
        forall|j: int| 0 <= j < entries@.len() ==> (#[trigger] entries@[j]).0@ != methods[k].params@[p].name@,
    ensures
        prepare_spec(methods, method, Params::Named(entries)) matches Err(DispatchError::InvalidParams(_)),
{
    lemma_method_index(methods, method);
    let i = method_index(methods, method);
    assert(i == k) by {
        if i < k {
            assert(methods[i].name@ == method);
        }
        if i == -1 {
            assert(methods[k].name@ != method);
        }
    }
    let names = names_of(methods[k]);
    assert(names[p] == methods[k].params@[p].name);
    if take_named(entries@, names) is Ok {
        lemma_take_named_keys(entries@, names, p);
        lemma_key_index(entries@, names[p]@);
    }
}

/// The dispatcher and the client helpers planned from one model agree: for
/// each method, the handler answers to the very name the request builder sends,
/// and expects as many arguments as the builder serializes, under the same
/// positions.
pub proof fn lemma_plans_agree(model: InterfaceModel, server: ServerPlan, client: ClientPlan)
    requires
        server_of(model, server),
        client_of(model, client),
    ensures
        server.handlers@.len() == client.methods@.len(),
        forall|i: int|
            0 <= i < server.handlers@.len() ==> (#[trigger] server.handlers@[i]).method == client.methods@[i].name
                && server.handlers@[i].args@.len() == client.methods@[i].arg_types@.len(),
{
    assert forall|i: int| 0 <= i < server.handlers@.len() implies (#[trigger] server.handlers@[i]).method
        == client.methods@[i].name && server.handlers@[i].args@.len() == client.methods@[i].arg_types@.len() by {
        assert(crate::generate::handler_of(model.methods@[i], server.handlers@[i]));
        assert(crate::generate::client_method_of(model.methods@[i], client.methods@[i]));
    }
}

} // verus!
