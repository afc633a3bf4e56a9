use vstd::prelude::*;
use vstd::string::*;
use crate::model::{
    InterfaceDecl, Location, Member, MethodDecl, Parameter, ParamDecl, Pattern, Reason, Receiver,
    Rejection, Rejections, TypeDesc, MethodSignature, InterfaceModel,
};

verus! {

/// The method-name prefix that JSON-RPC 2.0 reserves for the protocol itself.
pub open spec fn reserved_prefix() -> Seq<char> {
    seq!['r', 'p', 'c', '.']
}

pub open spec fn has_reserved_prefix(name: Seq<char>) -> bool {
    name.len() >= 4 && name.subrange(0, 4) == reserved_prefix()
}

pub open spec fn one(location: Location, reason: Reason) -> Seq<Rejection> {
    seq![Rejection { location, reason }]
}

pub open spec fn name_violations(m: MethodDecl) -> Seq<Rejection> {
    if has_reserved_prefix(m.name@) {
        one(m.location, Reason::ReservedMethodPrefix)
    } else {
        seq![]
    }
}

pub open spec fn receiver_violations(r: Receiver) -> Seq<Rejection> {
    match r {
        Receiver::SharedSelf => seq![],
        Receiver::ExclusiveSelf(l) => one(l, Reason::ReceiverNotSharedRef),
        Receiver::ValueSelf(l) => one(l, Reason::ReceiverNotSharedRef),
        Receiver::Typed(l) => one(l, Reason::ReceiverNotSharedRef),
        Receiver::Absent(l) => one(l, Reason::ReceiverNotSharedRef),
    }
}

pub open spec fn names_generic(names: Seq<String>, generics: Seq<String>) -> bool {
    exists|i: int, j: int| 0 <= i < names.len() && 0 <= j < generics.len() && (#[trigger] names[i])@ == (#[trigger] generics[j])@
}

/// At most one violation per parameter: a missing type or pattern first, then a
/// type that is not concrete, then a destructuring pattern, then `ref`, then
/// `mut`, then an `@` subpattern.
pub open spec fn param_violations(p: ParamDecl, generics: Seq<String>) -> Seq<Rejection> {
    match p {
        ParamDecl::Untyped(l) => one(l, Reason::ConcreteTypeRequired),
        ParamDecl::Typed { pattern, ty, mentions, type_location } => if names_generic(mentions@, generics) {
            one(type_location, Reason::ConcreteTypeRequired)
        } else {
            match pattern {
            Pattern::Destructured(l) => one(l, Reason::DestructuredParameter),
            Pattern::Ident { name, by_ref, mutability, subpattern } => {
                if by_ref is Some {
                    one(by_ref->0, Reason::ReferenceBoundParameter)
                } else if mutability is Some {
                    one(mutability->0, Reason::MutableBoundParameter)
                } else if subpattern is Some {
                    one(subpattern->0, Reason::DestructuredParameter)
                } else {
                    seq![]
                }
            },
            }
        },
    }
}

pub open spec fn params_violations(ps: Seq<ParamDecl>, generics: Seq<String>) -> Seq<Rejection>
    decreases ps.len(),
{
    if ps.len() == 0 {
        seq![]
    } else {
        params_violations(ps.drop_last(), generics) + param_violations(ps.last(), generics)
    }
}

/// Every violation of one method, in the order the checks meet them: name,
/// receiver, then each parameter in declaration order.
pub open spec fn method_violations(m: MethodDecl) -> Seq<Rejection> {
    name_violations(m) + receiver_violations(m.receiver) + params_violations(m.params@, m.generics@)
}

pub open spec fn member_violations(m: Member) -> Seq<Rejection> {
    match m {
        Member::Method(decl) => method_violations(decl),
        Member::Other(l) => one(l, Reason::NotAMethod),
    }
}

/// Every violation of an interface, member by member, in declaration order.
pub open spec fn interface_violations(ms: Seq<Member>) -> Seq<Rejection>
    decreases ms.len(),
{
    if ms.len() == 0 {
        seq![]
    } else {
        interface_violations(ms.drop_last()) + member_violations(ms.last())
    }
}

/// The accepted form of a parameter whose binding is one identifier.
pub open spec fn param_of(p: ParamDecl) -> Parameter {
    match p {
        ParamDecl::Typed { pattern: Pattern::Ident { name, .. }, ty, .. } => Parameter { name, ty },
        _ => arbitrary(),
    }
}

pub open spec fn params_of(ps: Seq<ParamDecl>, out: Seq<Parameter>) -> bool {
    out.len() == ps.len() && forall|i: int| 0 <= i < ps.len() ==> out[i] == param_of(#[trigger] ps[i])
}

/// `sig` is the accepted form of `m`: same name, same parameters in order, same output.
pub open spec fn signature_of(m: MethodDecl, sig: MethodSignature) -> bool {
    &&& sig.name == m.name
    &&& params_of(m.params@, sig.params@)
    &&& sig.output == m.output
}

pub open spec fn member_accepted_as(m: Member, sig: MethodSignature) -> bool {
    m is Method && signature_of(m->Method_0, sig)
}

/// Whether `name` begins with the reserved `rpc.` prefix.
pub fn starts_with_reserved_prefix(name: &str) -> (r: bool)
    ensures
        r == has_reserved_prefix(name@),
{
    let n = name.unicode_len();
    if n < 4 {
        return false;
    }
    let r = name.get_char(0) == 'r' && name.get_char(1) == 'p' && name.get_char(2) == 'c'
        && name.get_char(3) == '.';
    proof {
        let pre = name@.subrange(0, 4);
        if r {
            assert(pre =~= reserved_prefix());
        } else if pre == reserved_prefix() {
            assert(pre[0] == 'r' && pre[1] == 'p' && pre[2] == 'c' && pre[3] == '.');
        }
    }
    r
}

/// An exact copy of a type description.
pub fn copy_type(t: &TypeDesc) -> (r: TypeDesc)
    ensures
        r == *t,
    decreases t,
{
    match t {
        TypeDesc::Unit => TypeDesc::Unit,
        TypeDesc::Path(p) => TypeDesc::Path(p.clone()),
        TypeDesc::Reference(inner) => TypeDesc::Reference(Box::new(copy_type(inner))),
        TypeDesc::Other => TypeDesc::Other,
    }
}

/// Whether `name` is one of the type parameters `generics`.
pub fn is_generic_name(name: &String, generics: &Vec<String>) -> (r: bool)
    ensures
        r == names_generic(seq![*name], generics@),
{
    let ghost one_name = seq![*name];
    let mut j: usize = 0;
    while j < generics.len()
        invariant
            j <= generics@.len(),
            one_name == seq![*name],
            forall|b: int| 0 <= b < j ==> name@ != (#[trigger] generics@[b])@,
        decreases generics@.len() - j,
    {
        if generics[j] == *name {
            assert(one_name[0]@ == generics@[j as int]@);
            return true;
        }
        j = j + 1;
    }
    assert forall|a: int, b: int| 0 <= a < one_name.len() && 0 <= b < generics@.len() implies (#[trigger] one_name[a])@
        != (#[trigger] generics@[b])@ by {
        assert(one_name[a] == *name);
    }
    false
}

/// Whether one of `names` is one of the type parameters `generics`.
pub fn mentions_generic(names: &Vec<String>, generics: &Vec<String>) -> (r: bool)
    ensures
        r == names_generic(names@, generics@),
{
    let mut i: usize = 0;
    while i < names.len()
        invariant
            i <= names@.len(),
            forall|a: int, b: int| 0 <= a < i && 0 <= b < generics@.len() ==> (#[trigger] names@[a])@
                != (#[trigger] generics@[b])@,
        decreases names@.len() - i,
    {
        if is_generic_name(&names[i], generics) {
            proof {
                let one_name = seq![names@[i as int]];
                let (a, b) = choose|a: int, b: int| 0 <= a < one_name.len() && 0 <= b < generics@.len()
                    && (#[trigger] one_name[a])@ == (#[trigger] generics@[b])@;
                assert(one_name[a] == names@[i as int]);
                assert(names@[i as int]@ == generics@[b]@);
            }
            return true;
        }
        proof {
            assert forall|b: int| 0 <= b < generics@.len() implies names@[i as int]@ != (#[trigger] generics@[b])@ by {
                let one_name = seq![names@[i as int]];
                if names@[i as int]@ == generics@[b]@ {
                    assert(one_name[0]@ == generics@[b]@);
                }
            }
        }
        i = i + 1;
    }
    false
}

pub fn copy_output(t: &Option<TypeDesc>) -> (r: Option<TypeDesc>)
    ensures
        r == *t,
{
    match t {
        Some(t) => Some(copy_type(t)),
        None => None,
    }
}

/// Checks one parameter and, if its binding is acceptable, gives its name and type.
pub fn as_jsonrpc_arg(p: &ParamDecl, generics: &Vec<String>) -> (r: Result<Parameter, Rejection>)
    ensures
        r is Ok <==> param_violations(*p, generics@).len() == 0,
        r matches Ok(x) ==> x == param_of(*p),
        r matches Err(e) ==> seq![e] == param_violations(*p, generics@),
{
    match p {
        ParamDecl::Untyped(l) => Err(Rejection::create(*l, Reason::ConcreteTypeRequired)),
        ParamDecl::Typed { pattern, ty, mentions, type_location } => if mentions_generic(mentions, generics) {
            Err(Rejection::create(*type_location, Reason::ConcreteTypeRequired))
        } else {
            match pattern {
            Pattern::Destructured(l) => Err(Rejection::create(*l, Reason::DestructuredParameter)),
            Pattern::Ident { name, by_ref, mutability, subpattern } => {
                if let Some(l) = by_ref {
                    Err(Rejection::create(*l, Reason::ReferenceBoundParameter))
                } else if let Some(l) = mutability {
                    Err(Rejection::create(*l, Reason::MutableBoundParameter))
                } else if let Some(l) = subpattern {
                    Err(Rejection::create(*l, Reason::DestructuredParameter))
                } else {
                    Ok(Parameter { name: name.clone(), ty: copy_type(ty) })
                }
            },
            }
        },
    }
}

/// Checks the receiver and every parameter of a method, gathering all violations.
pub fn get_args(m: &MethodDecl) -> (r: Result<Vec<Parameter>, Rejections>)
    ensures
        r is Ok <==> receiver_violations(m.receiver).len() == 0 && params_violations(m.params@, m.generics@).len() == 0,
        r matches Ok(ps) ==> params_of(m.params@, ps@),
        r matches Err(e) ==> e@ == receiver_violations(m.receiver) + params_violations(m.params@, m.generics@),
{
    let mut errs: Vec<Rejection> = Vec::new();
    match m.receiver {
        Receiver::SharedSelf => {},
        Receiver::ExclusiveSelf(l) => errs.push(Rejection::create(l, Reason::ReceiverNotSharedRef)),
        Receiver::ValueSelf(l) => errs.push(Rejection::create(l, Reason::ReceiverNotSharedRef)),
        Receiver::Typed(l) => errs.push(Rejection::create(l, Reason::ReceiverNotSharedRef)),
        Receiver::Absent(l) => errs.push(Rejection::create(l, Reason::ReceiverNotSharedRef)),
    }
    assert(errs@ =~= receiver_violations(m.receiver));
    let ghost base = errs@;
    let mut oks: Vec<Parameter> = Vec::new();
    let mut i: usize = 0;
    while i < m.params.len()
        invariant
            i <= m.params@.len(),
            base == receiver_violations(m.receiver),
            errs@ == base + params_violations(m.params@.subrange(0, i as int), m.generics@),
            params_violations(m.params@.subrange(0, i as int), m.generics@).len() == 0 ==> params_of(
                m.params@.subrange(0, i as int),
                oks@,
            ),
        decreases m.params@.len() - i,
    {
        let ghost before = m.params@.subrange(0, i as int);
        assert(m.params@.subrange(0, i + 1).drop_last() =~= before);
        match as_jsonrpc_arg(&m.params[i], &m.generics) {
            Ok(p) => {
                oks.push(p);
                proof {
                    let after = m.params@.subrange(0, i + 1);
                    if params_violations(after, m.generics@).len() == 0 {
                        assert(params_violations(before, m.generics@).len() == 0);
                        assert forall|j: int| 0 <= j < after.len() implies oks@[j] == param_of(
                            #[trigger] after[j],
                        ) by {
                            if j < i {
                                assert(after[j] == before[j]);
                            }
                        }
                    }
                }
            },
            Err(e) => {
                errs.push(e);
            },
        }
        i = i + 1;
    }
    assert(m.params@.subrange(0, m.params@.len() as int) =~= m.params@);
    match Rejections::from_list(&errs) {
        Some(rs) => Err(rs),
        None => Ok(oks),
    }
}

/// Checks one method: its name, then its receiver and parameters.
pub fn check_method(m: &MethodDecl) -> (r: Result<MethodSignature, Rejections>)
    ensures
        r is Ok <==> method_violations(*m).len() == 0,
        r matches Ok(sig) ==> signature_of(*m, sig),
        r matches Err(e) ==> e@ == method_violations(*m),
{
    let mut errs: Vec<Rejection> = Vec::new();
    if starts_with_reserved_prefix(m.name.as_str()) {
        errs.push(Rejection::create(m.location, Reason::ReservedMethodPrefix));
    }
    assert(errs@ =~= name_violations(*m));
    let args = get_args(m);
    match args {
        Ok(params) => {
            assert(method_violations(*m) =~= errs@);
            match Rejections::from_list(&errs) {
                Some(rs) => Err(rs),
                None => Ok(MethodSignature { name: m.name.clone(), params, output: copy_output(&m.output) }),
            }
        },
        Err(e) => {
            e.append_to(&mut errs);
            assert(errs@ =~= method_violations(*m));
            match Rejections::from_list(&errs) {
                Some(rs) => Err(rs),
                None => Err(e),
            }
        },
    }
}

/// Checks every member of an interface, gathering all violations of all members.
/// Either every member is an acceptable method, and each gives its signature in
/// declaration order, or the result holds every violation found.
pub fn trait_methods(ms: &Vec<Member>) -> (r: Result<Vec<MethodSignature>, Rejections>)
    ensures
        r is Ok <==> interface_violations(ms@).len() == 0,
        r matches Err(e) ==> e@ == interface_violations(ms@),
        r matches Ok(sigs) ==> sigs@.len() == ms@.len() && forall|j: int|
            0 <= j < ms@.len() ==> member_accepted_as(#[trigger] ms@[j], sigs@[j]),
{
    let mut errs: Vec<Rejection> = Vec::new();
    let mut oks: Vec<MethodSignature> = Vec::new();
    let mut i: usize = 0;
    while i < ms.len()
        invariant
            i <= ms@.len(),
            errs@ == interface_violations(ms@.subrange(0, i as int)),
            errs@.len() == 0 ==> oks@.len() == i && forall|j: int|
                0 <= j < i ==> member_accepted_as(#[trigger] ms@[j], oks@[j]),
        decreases ms@.len() - i,
    {
        let ghost before = ms@.subrange(0, i as int);
        assert(ms@.subrange(0, i + 1).drop_last() =~= before);
        assert(ms@.subrange(0, i + 1).last() == ms@[i as int]);
        let ghost was_empty = errs@.len() == 0;
        match &ms[i] {
            Member::Method(decl) => {
                match check_method(decl) {
                    Ok(sig) => {
                        oks.push(sig);
                        assert(errs@ =~= interface_violations(ms@.subrange(0, i + 1)));
                        proof {
                            if was_empty {
                                assert forall|j: int| 0 <= j < i + 1 implies member_accepted_as(
                                    #[trigger] ms@[j],
                                    oks@[j],
                                ) by {}
                            }
                        }
                    },
                    Err(e) => {
                        e.append_to(&mut errs);
                    },
                }
            },
            Member::Other(l) => {
                errs.push(Rejection::create(*l, Reason::NotAMethod));
            },
        }
        i = i + 1;
    }
    assert(ms@.subrange(0, ms@.len() as int) =~= ms@);
    match Rejections::from_list(&errs) {
        Some(rs) => Err(rs),
        None => Ok(oks),
    }
}

/// Builds the interface model, or reports every violation of the interface.
pub fn validate(iface: &InterfaceDecl) -> (r: Result<InterfaceModel, Rejections>)
    ensures
        r is Ok <==> interface_violations(iface.members@).len() == 0,
        r matches Err(e) ==> e@ == interface_violations(iface.members@),
        r matches Ok(model) ==> model.name == iface.name && model.methods@.len()
            == iface.members@.len() && forall|j: int|
            0 <= j < iface.members@.len() ==> member_accepted_as(
                #[trigger] iface.members@[j],
                model.methods@[j],
            ),
{
    match trait_methods(&iface.members) {
        Ok(methods) => Ok(InterfaceModel { name: iface.name.clone(), methods }),
        Err(e) => Err(e),
    }
}

} // verus!
