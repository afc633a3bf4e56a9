use vstd::prelude::*;
use crate::model::{InterfaceModel, MethodSignature, TypeDesc};
use crate::generate::return_type_of;

verus! {

/// The parameters of an incoming call, over a generic value type: a positional
/// array or a named object (key, value) list.
#[derive(Debug)]
pub enum Params<V> {
    Positional(Vec<V>),
    Named(Vec<(String, V)>),
}

/// Why the supplied parameters do not fit a method's expected names.
#[derive(Debug, PartialEq, Eq)]
pub enum InvalidArgs {
    WrongNumberOfArgs { expected: usize, actual: usize },
    MissingNamedArgument { name: String },
    ExtraNamedParameter { name: String },
}

/// What a dispatched call returns instead of a result value.
#[derive(Debug, PartialEq, Eq)]
pub enum DispatchError {
    MethodNotFound,
    InvalidParams(InvalidArgs),
    InvalidArgStructure { name: String, index: usize },
    ResultSerializationFailure,
}

/// A client request builder could not serialize one of its arguments.
#[derive(Clone, Copy, Debug, PartialEq, Eq, Structural)]
pub struct ArgSerializeError;

/// An inert, fully serialized call: the method-name literal, the arguments in
/// order, and the tag of the type its response decodes to.
#[derive(Debug)]
pub struct BoundCall<V> {
    pub method: String,
    pub args: Vec<V>,
    pub return_type: TypeDesc,
}

pub open spec fn names_of(sig: MethodSignature) -> Seq<String> {
    sig.params@.map_values(|p: crate::model::Parameter| p.name)
}

/// The position of the first method named `method`, or -1.
pub open spec fn method_index(methods: Seq<MethodSignature>, method: Seq<char>) -> int
    decreases methods.len(),
{
    if methods.len() == 0 {
        -1
    } else if methods[0].name@ == method {
        0
    } else {
        let k = method_index(methods.drop_first(), method);
        if k < 0 {
            -1
        } else {
            k + 1
        }
    }
}

/// The position of the first entry keyed `name`, or -1.
pub open spec fn key_index<V>(entries: Seq<(String, V)>, name: Seq<char>) -> int
    decreases entries.len(),
{
    if entries.len() == 0 {
        -1
    } else if entries[0].0@ == name {
        0
    } else {
        let k = key_index(entries.drop_first(), name);
        if k < 0 {
            -1
        } else {
            k + 1
        }
    }
}

/// Takes the expected names out of a named object one by one, in order; any
/// key left over at the end is an extra parameter.
pub open spec fn take_named<V>(entries: Seq<(String, V)>, names: Seq<String>) -> Result<
    Seq<V>,
    InvalidArgs,
>
    decreases names.len(),
{
    if names.len() == 0 {
        if entries.len() == 0 {
            Ok(seq![])
        } else {
            Err(InvalidArgs::ExtraNamedParameter { name: entries[0].0 })
        }
    } else {
        let k = key_index(entries, names[0]@);
        if k < 0 {
            Err(InvalidArgs::MissingNamedArgument { name: names[0] })
        } else {
            match take_named(entries.remove(k), names.drop_first()) {
                Ok(rest) => Ok(seq![entries[k].1] + rest),
                Err(e) => Err(e),
            }
        }
    }
}

/// The raw values that a call's parameters give for the expected names, in order.
pub open spec fn rpc_args<V>(params: Params<V>, names: Seq<String>) -> Result<Seq<V>, InvalidArgs> {
    match params {
        Params::Positional(vs) => if vs@.len() == names.len() {
            Ok(vs@)
        } else {
            Err(InvalidArgs::WrongNumberOfArgs { expected: names.len() as usize, actual: vs@.len() as usize })
        },
        Params::Named(entries) => take_named(entries@, names),
    }
}

/// The decoded arguments, or the first position whose raw value did not decode.
pub open spec fn bind_args_spec<T>(names: Seq<String>, decoded: Seq<Option<T>>) -> Result<Seq<T>, DispatchError>
    decreases decoded.len(),
{
    if decoded.len() == 0 {
        Ok(seq![])
    } else {
        match bind_args_spec(names, decoded.drop_last()) {
            Err(e) => Err(e),
            Ok(front) => match decoded.last() {
                Some(t) => Ok(front.push(t)),
                None => Err(DispatchError::InvalidArgStructure {
                    name: names[decoded.len() - 1],
                    index: (decoded.len() - 1) as usize,
                }),
            },
        }
    }
}

/// What the dispatcher does before any decoding: find the method, then extract
/// its raw arguments by name.
pub open spec fn prepare_spec<V>(methods: Seq<MethodSignature>, method: Seq<char>, params: Params<V>) -> Result<
    (int, Seq<V>),
    DispatchError,
> {
    let k = method_index(methods, method);
    if k < 0 {
        Err(DispatchError::MethodNotFound)
    } else {
        match rpc_args(params, names_of(methods[k])) {
            Ok(vs) => Ok((k, vs)),
            Err(e) => Err(DispatchError::InvalidParams(e)),
        }
    }
}

pub proof fn lemma_method_index(methods: Seq<MethodSignature>, method: Seq<char>)
    ensures
        -1 <= method_index(methods, method) < methods.len(),
        method_index(methods, method) == -1 <==> forall|j: int|
            0 <= j < methods.len() ==> (#[trigger] methods[j]).name@ != method,
        method_index(methods, method) >= 0 ==> methods[method_index(methods, method)].name@ == method,
        forall|j: int| 0 <= j < method_index(methods, method) ==> (#[trigger] methods[j]).name@ != method,
    decreases methods.len(),
{
    if methods.len() > 0 {
        lemma_method_index(methods.drop_first(), method);
        if methods[0].name@ != method {
            assert forall|j: int| 0 <= j < method_index(methods, method) implies (#[trigger] methods[j]).name@ != method by {
                if j > 0 {
                    assert(methods[j] == methods.drop_first()[j - 1]);
                }
            }
            if method_index(methods, method) == -1 {
                assert forall|j: int| 0 <= j < methods.len() implies (#[trigger] methods[j]).name@ != method by {
                    if j > 0 {
                        assert(methods[j] == methods.drop_first()[j - 1]);
                    }
                }
            } else {
                assert(methods[method_index(methods, method)] == methods.drop_first()[method_index(methods, method) - 1]);
            }
        }
    }
}

pub proof fn lemma_key_index<V>(entries: Seq<(String, V)>, name: Seq<char>)
    ensures
        -1 <= key_index(entries, name) < entries.len(),
        key_index(entries, name) == -1 ==> forall|j: int|
            0 <= j < entries.len() ==> (#[trigger] entries[j]).0@ != name,
        key_index(entries, name) >= 0 ==> entries[key_index(entries, name)].0@ == name,
    decreases entries.len(),
{
    if entries.len() > 0 {
        lemma_key_index(entries.drop_first(), name);
        if entries[0].0@ != name {
            if key_index(entries, name) == -1 {
                assert forall|j: int| 0 <= j < entries.len() implies (#[trigger] entries[j]).0@ != name by {
                    if j > 0 {
                        assert(entries[j] == entries.drop_first()[j - 1]);
                    }
                }
            } else {
                assert(entries[key_index(entries, name)] == entries.drop_first()[key_index(entries, name) - 1]);
            }
        }
    }
}

/// The position of the first accepted method named `method`; `None` exactly when
/// no method has that name.
pub fn find_method(model: &InterfaceModel, method: &String) -> (r: Option<usize>)
    ensures
        r is None <==> method_index(model.methods@, method@) < 0,
        r matches Some(k) ==> k == method_index(model.methods@, method@),
{
    proof {
        lemma_method_index(model.methods@, method@);
    }
    let mut j: usize = 0;
    while j < model.methods.len()
        invariant
            j <= model.methods@.len(),
            forall|i: int| 0 <= i < j ==> (#[trigger] model.methods@[i]).name@ != method@,
        decreases model.methods@.len() - j,
    {
        if model.methods[j].name == *method {
            proof {
                lemma_method_index(model.methods@, method@);
                let k = method_index(model.methods@, method@);
                if k < j {
                    assert(model.methods@[k].name@ == method@);
                }
            }
            return Some(j);
        }
        j = j + 1;
    }
    None
}

pub open spec fn vec_result<V, E>(r: Result<Vec<V>, E>) -> Result<Seq<V>, E> {
    match r {
        Ok(v) => Ok(v@),
        Err(e) => Err(e),
    }
}

pub open spec fn prepend<V, E>(front: Seq<V>, r: Result<Seq<V>, E>) -> Result<Seq<V>, E> {
    match r {
        Ok(rest) => Ok(front + rest),
        Err(e) => Err(e),
    }
}

proof fn lemma_first_key<V>(entries: Seq<(String, V)>, name: Seq<char>, j: int)
    requires
        0 <= j < entries.len(),
        entries[j].0@ == name,
        forall|i: int| 0 <= i < j ==> (#[trigger] entries[i]).0@ != name,
    ensures
        key_index(entries, name) == j,
    decreases entries.len(),
{
    if j > 0 {
        assert forall|i: int| 0 <= i < j - 1 implies (#[trigger] entries.drop_first()[i]).0@ != name by {
            assert(entries.drop_first()[i] == entries[i + 1]);
        }
        lemma_first_key(entries.drop_first(), name, j - 1);
    }
}

/// The position of the first entry keyed `name`.
fn find_key<V>(entries: &Vec<(String, V)>, name: &String) -> (r: Option<usize>)
    ensures
        r is None <==> key_index(entries@, name@) < 0,
        r matches Some(k) ==> k == key_index(entries@, name@),
{
    proof {
        lemma_key_index(entries@, name@);
    }
    let mut j: usize = 0;
    while j < entries.len()
        invariant
            j <= entries@.len(),
            forall|i: int| 0 <= i < j ==> (#[trigger] entries@[i]).0@ != name@,
        decreases entries@.len() - j,
    {
        if entries[j].0 == *name {
            proof {
                lemma_first_key(entries@, name@, j as int);
            }
            return Some(j);
        }
        j = j + 1;
    }
    None
}

/// Extracts the raw values for the expected names, in order. Positional
/// parameters must have exactly one value per name; a named object must hold
/// every name and nothing else.
#[verifier::loop_isolation(false)]
pub fn get_rpc_args<V>(params: Params<V>, names: &Vec<String>) -> (r: Result<Vec<V>, InvalidArgs>)
    ensures
        vec_result(r) == rpc_args(params, names@),
{
    match params {
        Params::Positional(vs) => {
            if vs.len() == names.len() {
                Ok(vs)
            } else {
                Err(InvalidArgs::WrongNumberOfArgs { expected: names.len(), actual: vs.len() })
            }
        },
        Params::Named(entries) => {
            let ghost orig = entries@;
            let mut entries = entries;
            let mut out: Vec<V> = Vec::new();
            let mut i: usize = 0;
            assert(names@.skip(0) =~= names@);
            proof {
                match take_named(orig, names@) {
                    Ok(t) => {
                        assert(Seq::<V>::empty() + t =~= t);
                    },
                    Err(e) => {},
                }
            }
            while i < names.len()
                invariant
                    i <= names@.len(),
                    take_named(orig, names@) == prepend(out@, take_named(entries@, names@.skip(i as int))),
                decreases names@.len() - i,
            {
                let ghost rest = names@.skip(i as int);
                assert(rest[0] == names@[i as int]);
                assert(rest.drop_first() =~= names@.skip(i + 1));
                proof {
                    lemma_key_index(entries@, names@[i as int]@);
                }
                match find_key(&entries, &names[i]) {
                    None => {
                        assert(take_named(entries@, rest) == Err::<Seq<V>, InvalidArgs>(
                            InvalidArgs::MissingNamedArgument { name: names@[i as int] },
                        ));
                        return Err(InvalidArgs::MissingNamedArgument { name: names[i].clone() });
                    },
                    Some(k) => {
                        let ghost before = entries@;
                        let ghost old_out = out@;
                        let (_, v) = entries.remove(k);
                        out.push(v);
                        proof {
                            match take_named(entries@, names@.skip(i + 1)) {
                                Ok(tail) => {
                                    assert(old_out + (seq![before[k as int].1] + tail) =~= out@ + tail);
                                },
                                Err(e) => {},
                            }
                        }
                    },
                }
                i = i + 1;
            }
            assert(names@.skip(i as int) =~= Seq::<String>::empty());
            if entries.len() > 0 {
                let (key, _) = entries.remove(0);
                Err(InvalidArgs::ExtraNamedParameter { name: key })
            } else {
                assert(out@ + Seq::<V>::empty() =~= out@);
                Ok(out)
            }
        },
    }
}

/// The expected parameter names of a method, in declaration order.
pub fn param_names(sig: &MethodSignature) -> (r: Vec<String>)
    ensures
        r@ == names_of(*sig),
{
    let mut out: Vec<String> = Vec::new();
    let mut i: usize = 0;
    while i < sig.params.len()
        invariant
            i <= sig.params@.len(),
            out@ =~= names_of(*sig).take(i as int),
        decreases sig.params@.len() - i,
    {
        out.push(sig.params[i].name.clone());
        i = i + 1;
    }
    assert(names_of(*sig).take(i as int) =~= names_of(*sig));
    out
}

/// Routes an incoming call: finds the method by name, then extracts its raw
/// arguments by the method's parameter names.
pub fn prepare_call<V>(model: &InterfaceModel, method: &String, params: Params<V>) -> (r: Result<
    (usize, Vec<V>),
    DispatchError,
>)
    ensures
        match r {
            Ok((k, vs)) => prepare_spec(model.methods@, method@, params) == Ok::<(int, Seq<V>), DispatchError>((k as int, vs@)),
            Err(e) => prepare_spec(model.methods@, method@, params) == Err::<(int, Seq<V>), DispatchError>(e),
        },
{
    proof {
        lemma_method_index(model.methods@, method@);
    }
    match find_method(model, method) {
        None => Err(DispatchError::MethodNotFound),
        Some(k) => {
            let names = param_names(&model.methods[k]);
            match get_rpc_args(params, &names) {
                Ok(vs) => Ok((k, vs)),
                Err(e) => Err(DispatchError::InvalidParams(e)),
            }
        },
    }
}

proof fn lemma_bind_extends_err<T>(names: Seq<String>, decoded: Seq<Option<T>>, m: int)
    requires
        0 <= m <= decoded.len(),
        bind_args_spec(names, decoded.take(m)) is Err,
    ensures
        bind_args_spec(names, decoded) == bind_args_spec(names, decoded.take(m)),
    decreases decoded.len() - m,
{
    if m < decoded.len() {
        assert(decoded.take(m + 1).drop_last() =~= decoded.take(m));
        lemma_bind_extends_err(names, decoded, m + 1);
    } else {
        assert(decoded.take(m) =~= decoded);
    }
}

/// Binds the decoded arguments of a call, one per parameter in declaration
/// order; the first one that did not decode fails the call with its name and
/// position.
#[verifier::loop_isolation(false)]
pub fn bind_args<T>(names: &Vec<String>, decoded: Vec<Option<T>>) -> (r: Result<Vec<T>, DispatchError>)
    requires
        decoded@.len() == names@.len(),
    ensures
        vec_result(r) == bind_args_spec(names@, decoded@),
{
    let ghost orig = decoded@;
    let mut decoded = decoded;
    let mut out: Vec<T> = Vec::new();
    let mut i: usize = 0;
    while i < names.len()
        invariant
            i <= names@.len(),
            orig.len() == names@.len(),
            decoded@ == orig.skip(i as int),
            bind_args_spec(names@, orig.take(i as int)) == Ok::<Seq<T>, DispatchError>(out@),
        decreases names@.len() - i,
    {
        assert(orig.take(i + 1).drop_last() =~= orig.take(i as int));
        assert(decoded@[0] == orig[i as int]);
        let d = decoded.remove(0);
        assert(decoded@ =~= orig.skip(i + 1));
        match d {
            Some(t) => {
                out.push(t);
            },
            None => {
                let e = DispatchError::InvalidArgStructure { name: names[i].clone(), index: i };
                proof {
                    assert(orig.take(i + 1).last() == orig[i as int]);
                    assert(bind_args_spec(names@, orig.take(i + 1)) == Err::<Seq<T>, DispatchError>(e));
                    lemma_bind_extends_err(names@, orig, i + 1);
                }
                return Err(e);
            },
        }
        i = i + 1;
    }
    assert(orig.take(i as int) =~= orig);
    Ok(out)
}

/// The response of a call whose method returned: its serialized result, or a
/// result-serialization failure.
pub fn finish_call<V>(serialized: Option<V>) -> (r: Result<V, DispatchError>)
    ensures
        serialized matches Some(v) ==> r == Ok::<V, DispatchError>(v),
        serialized is None ==> r == Err::<V, DispatchError>(DispatchError::ResultSerializationFailure),
{
    match serialized {
        Some(v) => Ok(v),
        None => Err(DispatchError::ResultSerializationFailure),
    }
}

pub open spec fn all_serialized<V>(serialized: Seq<Option<V>>) -> bool {
    forall|i: int| 0 <= i < serialized.len() ==> (#[trigger] serialized[i]) is Some
}

/// Builds the inert call of a method from its arguments, each serialized on its
/// own in declaration order; if any failed, no call is built.
#[verifier::loop_isolation(false)]
pub fn build_call<V>(sig: &MethodSignature, serialized: Vec<Option<V>>) -> (r: Result<BoundCall<V>, ArgSerializeError>)
    requires
        serialized@.len() == sig.params@.len(),
    ensures
        r is Ok <==> all_serialized(serialized@),
        r matches Ok(c) ==> c.method == sig.name && c.return_type == return_type_of(*sig)
            && c.args@.len() == serialized@.len() && forall|i: int|
            0 <= i < c.args@.len() ==> Some(#[trigger] c.args@[i]) == serialized@[i],
{
    let ghost orig = serialized@;
    let mut serialized = serialized;
    let mut args: Vec<V> = Vec::new();
    let mut i: usize = 0;
    let n = serialized.len();
    while i < n
        invariant
            i <= n == orig.len(),
            serialized@ == orig.skip(i as int),
            args@.len() == i,
            forall|j: int| 0 <= j < i ==> Some(#[trigger] args@[j]) == orig[j],
        decreases n - i,
    {
        assert(serialized@[0] == orig[i as int]);
        let s = serialized.remove(0);
        assert(serialized@ =~= orig.skip(i + 1));
        match s {
            Some(v) => args.push(v),
            None => {
                assert(orig[i as int] is None);
                return Err(ArgSerializeError);
            },
        }
        i = i + 1;
    }
    assert forall|j: int| 0 <= j < orig.len() implies (#[trigger] orig[j]) is Some by {
        assert(Some(args@[j]) == orig[j]);
    }
    Ok(BoundCall { method: sig.name.clone(), args, return_type: crate::generate::return_type(sig) })
}

} // verus!
