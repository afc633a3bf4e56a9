use vstd::prelude::*;
use vstd::string::*;
use heck::SnakeCase;
use crate::model::{
    InterfaceDecl, InterfaceModel, Location, MethodSignature, Reason, Rejection, Rejections, TypeDesc,
};
use crate::validate::{interface_violations, member_accepted_as, validate};

verus! {

/// How the dispatcher hands one decoded argument to the method.
#[derive(Clone, Copy, Debug, PartialEq, Eq, Structural)]
pub enum ArgPassing {
    /// The decoded value is passed as it is (owned values, and `&str`, which
    /// decodes as a borrow of the raw value).
    Direct,
    /// The parameter is a reference: the decoded owned value is passed by reference.
    Borrowed,
}

/// One argument that a handler extracts: its name, its position and how it is passed.
#[derive(Debug)]
pub struct HandlerArg {
    pub name: String,
    pub index: usize,
    pub passing: ArgPassing,
}

/// The server-side handler of one method: the method-name literal it answers to,
/// and the arguments it requests, in declaration order.
#[derive(Debug)]
pub struct HandlerPlan {
    pub method: String,
    pub args: Vec<HandlerArg>,
}

/// The dispatcher of an interface: one handler per accepted method, in order.
#[derive(Debug)]
pub struct ServerPlan {
    pub interface: String,
    pub handlers: Vec<HandlerPlan>,
}

/// The client request builder of one method: its name, the types of its
/// arguments in order, and the return-type tag of the call it builds.
#[derive(Debug)]
pub struct ClientMethodPlan {
    pub name: String,
    pub arg_types: Vec<TypeDesc>,
    pub return_type: TypeDesc,
}

/// The client helpers of an interface: the helper type's name and one request
/// builder per accepted method, in order.
#[derive(Debug)]
pub struct ClientPlan {
    pub helper_name: String,
    pub methods: Vec<ClientMethodPlan>,
}

/// Both bindings of an accepted interface, planned from its one model.
#[derive(Debug)]
pub struct Bindings {
    pub model: InterfaceModel,
    pub server: ServerPlan,
    pub client: ClientPlan,
}

/// One reported violation: its location and its message.
#[derive(Debug)]
pub struct Diagnostic {
    pub location: Location,
    pub message: &'static str,
}

/// What heck's snake-case conversion gives for a text.
pub uninterp spec fn snake_case_of(s: Seq<char>) -> Seq<char>;

/// Relies on heck's `SnakeCase::to_snake_case` for `str`: the result depends on
/// the text alone.
#[verifier::external_body]
fn snake_case(s: &str) -> (r: String)
    ensures
        r@ == snake_case_of(s@),
{
    s.to_snake_case()
}

pub open spec fn str_name() -> Seq<char> {
    seq!['s', 't', 'r']
}

pub open spec fn is_str(ty: TypeDesc) -> bool {
    ty is Path && ty->Path_0@ == str_name()
}

pub open spec fn passing_of(ty: TypeDesc) -> ArgPassing {
    match ty {
        TypeDesc::Reference(inner) => if is_str(*inner) {
            ArgPassing::Direct
        } else {
            ArgPassing::Borrowed
        },
        _ => ArgPassing::Direct,
    }
}

/// The return-type tag of a method: its declared output, or the unit type.
pub open spec fn return_type_of(sig: MethodSignature) -> TypeDesc {
    match sig.output {
        Some(t) => t,
        None => TypeDesc::Unit,
    }
}

pub open spec fn handler_of(sig: MethodSignature, h: HandlerPlan) -> bool {
    &&& h.method == sig.name
    &&& h.args@.len() == sig.params@.len()
    &&& forall|i: int|
        0 <= i < h.args@.len() ==> {
            &&& (#[trigger] h.args@[i]).name == sig.params@[i].name
            &&& h.args@[i].index == i
            &&& h.args@[i].passing == passing_of(sig.params@[i].ty)
        }
}

pub open spec fn client_method_of(sig: MethodSignature, c: ClientMethodPlan) -> bool {
    &&& c.name == sig.name
    &&& c.arg_types@.len() == sig.params@.len()
    &&& forall|i: int| 0 <= i < c.arg_types@.len() ==> #[trigger] c.arg_types@[i] == sig.params@[i].ty
    &&& c.return_type == return_type_of(sig)
}

pub open spec fn reason_message(r: Reason) -> Seq<char> {
    match r {
        Reason::NotAMethod => "Macro 'jsonrpc_server' expects trait definition containing methods only."@,
        Reason::ReceiverNotSharedRef => "First argument to jsonrpc method must be &self."@,
        Reason::ReservedMethodPrefix => "The prefix 'rpc.' is reserved https://www.jsonrpc.org/specification#request_object"@,
        Reason::ConcreteTypeRequired => "Arguments and return values must have concrete types."@,
        Reason::DestructuredParameter => "Pattern matched arguments are not supported in jsonrpc methods."@,
        Reason::ReferenceBoundParameter => "Reference arguments not supported in jsonrpc macro."@,
        Reason::MutableBoundParameter => "Mutable arguments not supported in jsonrpc macro."@,
    }
}

/// Whether a type is the bare path `str`.
pub fn is_type_str(ty: &TypeDesc) -> (r: bool)
    ensures
        r == is_str(*ty),
{
    match ty {
        TypeDesc::Path(p) => {
            let s = p.as_str();
            if s.unicode_len() != 3 {
                return false;
            }
            let r = s.get_char(0) == 's' && s.get_char(1) == 't' && s.get_char(2) == 'r';
            proof {
                if r {
                    assert(s@ =~= str_name());
                } else if s@ == str_name() {
                    assert(s@[0] == 's' && s@[1] == 't' && s@[2] == 'r');
                }
            }
            r
        },
        _ => false,
    }
}

/// How an argument of the given type is handed to the method.
pub fn arg_passing(ty: &TypeDesc) -> (r: ArgPassing)
    ensures
        r == passing_of(*ty),
{
    match ty {
        TypeDesc::Reference(inner) => if is_type_str(inner) {
            ArgPassing::Direct
        } else {
            ArgPassing::Borrowed
        },
        _ => ArgPassing::Direct,
    }
}

/// The return-type tag of a method's request builder.
pub fn return_type(sig: &MethodSignature) -> (r: TypeDesc)
    ensures
        r == return_type_of(*sig),
{
    match &sig.output {
        Some(t) => crate::validate::copy_type(t),
        None => TypeDesc::Unit,
    }
}

/// The handler of one method: it requests the method's parameters by name, in
/// declaration order, and decodes each at its position.
pub fn add_handler(sig: &MethodSignature) -> (r: HandlerPlan)
    ensures
        handler_of(*sig, r),
{
    let mut args: Vec<HandlerArg> = Vec::new();
    let mut i: usize = 0;
    while i < sig.params.len()
        invariant
            i <= sig.params@.len(),
            args@.len() == i,
            forall|j: int|
                0 <= j < i ==> {
                    &&& (#[trigger] args@[j]).name == sig.params@[j].name
                    &&& args@[j].index == j
                    &&& args@[j].passing == passing_of(sig.params@[j].ty)
                },
        decreases sig.params@.len() - i,
    {
        let p = &sig.params[i];
        args.push(HandlerArg { name: p.name.clone(), index: i, passing: arg_passing(&p.ty) });
        i = i + 1;
    }
    HandlerPlan { method: sig.name.clone(), args }
}

/// The dispatcher of a validated interface: one handler per method, in order.
pub fn impl_server(model: &InterfaceModel) -> (r: ServerPlan)
    ensures
        r.interface == model.name,
        r.handlers@.len() == model.methods@.len(),
        forall|i: int|
            0 <= i < r.handlers@.len() ==> handler_of(model.methods@[i], #[trigger] r.handlers@[i]),
{
    let mut handlers: Vec<HandlerPlan> = Vec::new();
    let mut i: usize = 0;
    while i < model.methods.len()
        invariant
            i <= model.methods@.len(),
            handlers@.len() == i,
            forall|j: int| 0 <= j < i ==> handler_of(model.methods@[j], #[trigger] handlers@[j]),
        decreases model.methods@.len() - i,
    {
        handlers.push(add_handler(&model.methods[i]));
        i = i + 1;
    }
    ServerPlan { interface: model.name.clone(), handlers }
}

/// The request builder of one method.
pub fn impl_client_method(sig: &MethodSignature) -> (r: ClientMethodPlan)
    ensures
        client_method_of(*sig, r),
{
    let mut arg_types: Vec<TypeDesc> = Vec::new();
    let mut i: usize = 0;
    while i < sig.params.len()
        invariant
            i <= sig.params@.len(),
            arg_types@.len() == i,
            forall|j: int| 0 <= j < i ==> #[trigger] arg_types@[j] == sig.params@[j].ty,
        decreases sig.params@.len() - i,
    {
        arg_types.push(crate::validate::copy_type(&sig.params[i].ty));
        i = i + 1;
    }
    ClientMethodPlan { name: sig.name.clone(), arg_types, return_type: return_type(sig) }
}

/// The client helpers of a validated interface: a helper type named by the
/// interface's name in snake case, and one request builder per method, in order.
pub fn impl_client(model: &InterfaceModel) -> (r: ClientPlan)
    ensures
        r.helper_name@ == snake_case_of(model.name@),
        r.methods@.len() == model.methods@.len(),
        forall|i: int|
            0 <= i < r.methods@.len() ==> client_method_of(model.methods@[i], #[trigger] r.methods@[i]),
{
    let helper_name = snake_case(model.name.as_str());
    let mut methods: Vec<ClientMethodPlan> = Vec::new();
    let mut i: usize = 0;
    while i < model.methods.len()
        invariant
            i <= model.methods@.len(),
            methods@.len() == i,
            forall|j: int| 0 <= j < i ==> client_method_of(model.methods@[j], #[trigger] methods@[j]),
        decreases model.methods@.len() - i,
    {
        methods.push(impl_client_method(&model.methods[i]));
        i = i + 1;
    }
    ClientPlan { helper_name, methods }
}

pub open spec fn server_of(model: InterfaceModel, s: ServerPlan) -> bool {
    &&& s.interface == model.name
    &&& s.handlers@.len() == model.methods@.len()
    &&& forall|i: int| 0 <= i < s.handlers@.len() ==> handler_of(model.methods@[i], #[trigger] s.handlers@[i])
}

pub open spec fn client_of(model: InterfaceModel, c: ClientPlan) -> bool {
    &&& c.helper_name@ == snake_case_of(model.name@)
    &&& c.methods@.len() == model.methods@.len()
    &&& forall|i: int| 0 <= i < c.methods@.len() ==> client_method_of(model.methods@[i], #[trigger] c.methods@[i])
}

/// Validates an interface and, only if every member is accepted, plans the
/// dispatcher and the client helpers from the one model; otherwise gives every
/// violation and plans nothing.
pub fn bindings(iface: &InterfaceDecl) -> (r: Result<Bindings, Rejections>)
    ensures
        r is Ok <==> interface_violations(iface.members@).len() == 0,
        r matches Err(e) ==> e@ == interface_violations(iface.members@),
        r matches Ok(b) ==> {
            &&& b.model.name == iface.name
            &&& b.model.methods@.len() == iface.members@.len()
            &&& forall|j: int| 0 <= j < iface.members@.len() ==> member_accepted_as(
                #[trigger] iface.members@[j],
                b.model.methods@[j],
            )
            &&& server_of(b.model, b.server)
            &&& client_of(b.model, b.client)
        },
{
    match validate(iface) {
        Ok(model) => {
            let server = impl_server(&model);
            let client = impl_client(&model);
            Ok(Bindings { model, server, client })
        },
        Err(e) => Err(e),
    }
}

impl Rejection {
    /// The fixed message of this violation's kind.
    pub fn message(&self) -> (r: &'static str)
        ensures
            r@ == reason_message(self.reason),
    {
        match self.reason {
            Reason::NotAMethod => "Macro 'jsonrpc_server' expects trait definition containing methods only.",
            Reason::ReceiverNotSharedRef => "First argument to jsonrpc method must be &self.",
            Reason::ReservedMethodPrefix => "The prefix 'rpc.' is reserved https://www.jsonrpc.org/specification#request_object",
            Reason::ConcreteTypeRequired => "Arguments and return values must have concrete types.",
            Reason::DestructuredParameter => "Pattern matched arguments are not supported in jsonrpc methods.",
            Reason::ReferenceBoundParameter => "Reference arguments not supported in jsonrpc macro.",
            Reason::MutableBoundParameter => "Mutable arguments not supported in jsonrpc macro.",
        }
    }

    /// This violation as a diagnostic at its location.
    pub fn raise(&self) -> (r: Diagnostic)
        ensures
            r.location == self.location,
            r.message@ == reason_message(self.reason),
    {
        Diagnostic { location: self.location, message: self.message() }
    }
}

impl Rejections {
    /// One diagnostic per violation, in order: none dropped, none merged.
    pub fn raise(&self) -> (r: Vec<Diagnostic>)
        ensures
            r@.len() == self@.len(),
            forall|i: int|
                0 <= i < r@.len() ==> (#[trigger] r@[i]).location == self@[i].location
                    && r@[i].message@ == reason_message(self@[i].reason),
    {
        let mut out: Vec<Diagnostic> = Vec::new();
        out.push(self.first.raise());
        let mut i: usize = 0;
        while i < self.rest.len()
            invariant
                i <= self.rest@.len(),
                out@.len() == i + 1,
                forall|j: int|
                    0 <= j < i + 1 ==> (#[trigger] out@[j]).location == self@[j].location
                        && out@[j].message@ == reason_message(self@[j].reason),
            decreases self.rest@.len() - i,
        {
            out.push(self.rest[i].raise());
            i = i + 1;
        }
        out
    }
}

} // verus!
