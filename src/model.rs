use vstd::prelude::*;

verus! {

/// A place in the interface's source text that a diagnostic points at.
#[derive(Clone, Copy, Debug, PartialEq, Eq, Structural)]
pub struct Location {
    pub line: u32,
    pub column: u32,
}

/// The shape of a type as far as binding generation reads it.
#[derive(Debug)]
pub enum TypeDesc {
    /// The unit type `()`.
    Unit,
    /// A path made of one bare identifier, such as `str` or `u64`.
    Path(String),
    /// A shared or exclusive reference to the inner type.
    Reference(Box<TypeDesc>),
    /// Any other type (qualified or generic paths, tuples, slices, ...).
    Other,
}

/// How a method's first input is written.
#[derive(Clone, Copy, Debug)]
pub enum Receiver {
    /// `&self`.
    SharedSelf,
    /// `&mut self`.
    ExclusiveSelf(Location),
    /// `self` or `mut self`.
    ValueSelf(Location),
    /// A first input that is not a receiver at all.
    Typed(Location),
    /// The method has no inputs.
    Absent(Location),
}

/// The binding side of a typed parameter.
#[derive(Debug)]
pub enum Pattern {
    /// A single identifier, with the locations of any `ref`, `mut` or `@ subpattern` parts.
    Ident {
        name: String,
        by_ref: Option<Location>,
        mutability: Option<Location>,
        subpattern: Option<Location>,
    },
    /// A tuple, struct, slice or wildcard pattern.
    Destructured(Location),
}

/// One input of a method after the receiver.
#[derive(Debug)]
pub enum ParamDecl {
    /// `pattern: type`, with every identifier that the type's text mentions and
    /// the location of the type.
    Typed { pattern: Pattern, ty: TypeDesc, mentions: Vec<String>, type_location: Location },
    /// An input with no pattern or no written type.
    Untyped(Location),
}

/// One method declaration as written in the interface.
#[derive(Debug)]
pub struct MethodDecl {
    pub name: String,
    pub location: Location,
    /// The names of the type parameters in scope: the interface's and the method's own.
    pub generics: Vec<String>,
    pub receiver: Receiver,
    pub params: Vec<ParamDecl>,
    pub output: Option<TypeDesc>,
}

/// One member of the raw interface description.
#[derive(Debug)]
pub enum Member {
    Method(MethodDecl),
    /// A constant, associated type, macro or any other non-method member.
    Other(Location),
}

/// A raw service interface: its name and its members in declaration order.
#[derive(Debug)]
pub struct InterfaceDecl {
    pub name: String,
    pub members: Vec<Member>,
}

/// An accepted parameter: its binding name and its type.
#[derive(Debug)]
pub struct Parameter {
    pub name: String,
    pub ty: TypeDesc,
}

/// An accepted method: its name, its parameters after the receiver, and its
/// declared output (`None` for the unit type).
#[derive(Debug)]
pub struct MethodSignature {
    pub name: String,
    pub params: Vec<Parameter>,
    pub output: Option<TypeDesc>,
}

/// A validated interface: every member is an accepted method.
#[derive(Debug)]
pub struct InterfaceModel {
    pub name: String,
    pub methods: Vec<MethodSignature>,
}

/// Why an interface cannot become an RPC binding.
#[derive(Clone, Copy, Debug, PartialEq, Eq, Structural)]
pub enum Reason {
    NotAMethod,
    ReceiverNotSharedRef,
    ReservedMethodPrefix,
    ConcreteTypeRequired,
    DestructuredParameter,
    ReferenceBoundParameter,
    MutableBoundParameter,
}

/// One violation: what is wrong, and where.
#[derive(Clone, Copy, Debug, PartialEq, Eq, Structural)]
pub struct Rejection {
    pub location: Location,
    pub reason: Reason,
}

impl Rejection {
    pub fn create(location: Location, reason: Reason) -> (r: Rejection)
        ensures
            r == (Rejection { location, reason }),
    {
        Rejection { location, reason }
    }
}

/// A non-empty, ordered set of violations: a first one and the rest.
#[derive(Debug)]
pub struct Rejections {
    pub first: Rejection,
    pub rest: Vec<Rejection>,
}

impl View for Rejections {
    type V = Seq<Rejection>;

    open spec fn view(&self) -> Seq<Rejection> {
        seq![self.first] + self.rest@
    }
}

impl Rejections {
    /// A set holding one violation.
    pub fn single(first: Rejection) -> (r: Rejections)
        ensures
            r@ == seq![first],
    {
        let r = Rejections { first, rest: Vec::new() };
        assert(r@ =~= seq![first]);
        r
    }

    /// Gathers a list of violations; `None` exactly when the list is empty.
    pub fn from_list(list: &Vec<Rejection>) -> (r: Option<Rejections>)
        ensures
            list@.len() == 0 <==> r is None,
            r matches Some(rs) ==> rs@ == list@,
    {
        if list.len() == 0 {
            return None;
        }
        let mut rest: Vec<Rejection> = Vec::new();
        let mut i: usize = 1;
        while i < list.len()
            invariant
                1 <= i <= list@.len(),
                rest@ == list@.subrange(1, i as int),
            decreases list@.len() - i,
        {
            rest.push(list[i]);
            i = i + 1;
        }
        let rs = Rejections { first: list[0], rest };
        assert(rs@ =~= list@);
        Some(rs)
    }

    /// Appends every violation of `self`, in order, to `list`.
    pub fn append_to(&self, list: &mut Vec<Rejection>)
        ensures
            final(list)@ == old(list)@ + self@,
    {
        list.push(self.first);
        let mut i: usize = 0;
        while i < self.rest.len()
            invariant
                i <= self.rest@.len(),
                list@ == old(list)@ + seq![self.first] + self.rest@.subrange(0, i as int),
            decreases self.rest@.len() - i,
        {
            list.push(self.rest[i]);
            i = i + 1;
        }
        assert(self.rest@.subrange(0, self.rest@.len() as int) =~= self.rest@);
        assert(old(list)@ + seq![self.first] + self.rest@ =~= old(list)@ + self@);
    }
}

} // verus!
