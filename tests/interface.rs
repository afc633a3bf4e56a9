use easy_jsonrpc_proc_macro::generate::{
    add_handler, bindings, impl_client, impl_server, is_type_str, return_type, ArgPassing,
};
use easy_jsonrpc_proc_macro::model::{
    InterfaceDecl, Location, Member, MethodDecl, ParamDecl, Pattern, Reason, Receiver, Rejection,
    TypeDesc,
};
use easy_jsonrpc_proc_macro::validate::{
    as_jsonrpc_arg, check_method, get_args, starts_with_reserved_prefix, trait_methods, validate,
};

fn at(line: u32) -> Location {
    Location { line, column: 1 }
}

fn path(name: &str) -> TypeDesc {
    TypeDesc::Path(name.to_string())
}

fn typed(pattern: Pattern, ty: TypeDesc) -> ParamDecl {
    let mut mentions = Vec::new();
    let mut t = &ty;
    while let TypeDesc::Reference(inner) = t {
        t = inner;
    }
    if let TypeDesc::Path(p) = t {
        mentions.push(p.clone());
    }
    ParamDecl::Typed { pattern, ty, mentions, type_location: at(99) }
}

fn plain(name: &str, ty: TypeDesc) -> ParamDecl {
    typed(Pattern::Ident { name: name.to_string(), by_ref: None, mutability: None, subpattern: None }, ty)
}

fn method(name: &str, line: u32, params: Vec<ParamDecl>, output: Option<TypeDesc>) -> MethodDecl {
    MethodDecl {
        name: name.to_string(),
        location: at(line),
        generics: vec![],
        receiver: Receiver::SharedSelf,
        params,
        output,
    }
}

fn calculator() -> InterfaceDecl {
    InterfaceDecl {
        name: "Calculator".to_string(),
        members: vec![
            Member::Method(method(
                "add",
                2,
                vec![plain("a", path("i64")), plain("b", path("i64"))],
                Some(path("i64")),
            )),
            Member::Method(method("rpc.reset", 3, vec![], None)),
        ],
    }
}

#[test]
fn calculator_reports_only_the_reserved_name() {
    let iface = calculator();
    let err = validate(&iface).unwrap_err();
    assert!(err.rest.is_empty());
    assert_eq!(err.first, Rejection { location: at(3), reason: Reason::ReservedMethodPrefix });
    match &iface.members[0] {
        Member::Method(add) => {
            let sig = check_method(add).unwrap();
            assert_eq!(sig.name, "add");
            assert_eq!(sig.params.len(), 2);
            assert_eq!(sig.params[0].name, "a");
            assert_eq!(sig.params[1].name, "b");
        }
        Member::Other(_) => panic!("add is a method"),
    }
}

#[test]
fn valid_interface_gives_one_signature_per_member_in_order() {
    let iface = InterfaceDecl {
        name: "MyApi".to_string(),
        members: vec![
            Member::Method(method("my_method", 1, vec![plain("a", path("usize"))], None)),
            Member::Method(method("my_other_method", 2, vec![], Some(path("bool")))),
            Member::Method(method(
                "third",
                3,
                vec![plain("s", TypeDesc::Reference(Box::new(path("str"))))],
                Some(TypeDesc::Other),
            )),
        ],
    };
    let model = validate(&iface).unwrap();
    assert_eq!(model.name, "MyApi");
    let names: Vec<&str> = model.methods.iter().map(|m| m.name.as_str()).collect();
    assert_eq!(names, vec!["my_method", "my_other_method", "third"]);
    assert!(model.methods[0].output.is_none());
    assert!(matches!(model.methods[1].output, Some(TypeDesc::Path(ref p)) if p == "bool"));
    assert_eq!(model.methods[2].params[0].name, "s");
}

#[test]
fn empty_interface_is_accepted() {
    let iface = InterfaceDecl { name: "Nothing".to_string(), members: vec![] };
    let model = validate(&iface).unwrap();
    assert!(model.methods.is_empty());
}

#[test]
fn every_violation_is_gathered_in_declaration_order() {
    let members = vec![
        Member::Other(at(1)),
        Member::Method(MethodDecl {
            name: "rpc.bad".to_string(),
            location: at(2),
            generics: vec![],
            receiver: Receiver::ExclusiveSelf(at(20)),
            params: vec![
                ParamDecl::Untyped(at(21)),
                plain("fine", path("u8")),
                typed(Pattern::Destructured(at(22)), TypeDesc::Other),
            ],
            output: None,
        }),
        Member::Method(method("ok", 3, vec![plain("x", path("u8"))], None)),
        Member::Method(MethodDecl {
            name: "by_value".to_string(),
            location: at(4),
            generics: vec![],
            receiver: Receiver::ValueSelf(at(40)),
            params: vec![typed(
                Pattern::Ident { name: "m".to_string(), by_ref: None, mutability: Some(at(41)), subpattern: None },
                path("u8"),
            )],
            output: None,
        }),
    ];
    let err = trait_methods(&members).unwrap_err();
    let mut all = vec![err.first];
    all.extend(err.rest.iter().copied());
    let expected = vec![
        Rejection { location: at(1), reason: Reason::NotAMethod },
        Rejection { location: at(2), reason: Reason::ReservedMethodPrefix },
        Rejection { location: at(20), reason: Reason::ReceiverNotSharedRef },
        Rejection { location: at(21), reason: Reason::ConcreteTypeRequired },
        Rejection { location: at(22), reason: Reason::DestructuredParameter },
        Rejection { location: at(40), reason: Reason::ReceiverNotSharedRef },
        Rejection { location: at(41), reason: Reason::MutableBoundParameter },
    ];
    assert_eq!(all, expected);
}

#[test]
fn one_violation_per_faulty_member_counts_exactly() {
    let members = vec![
        Member::Method(method("a", 1, vec![], None)),
        Member::Other(at(2)),
        Member::Method(MethodDecl {
            name: "b".to_string(),
            location: at(3),
            generics: vec![],
            receiver: Receiver::Absent(at(30)),
            params: vec![],
            output: None,
        }),
        Member::Method(method("rpc.c", 4, vec![], None)),
    ];
    let err = trait_methods(&members).unwrap_err();
    assert_eq!(err.rest.len() + 1, 3);
}

#[test]
fn receiver_kinds() {
    for (receiver, ok) in [
        (Receiver::SharedSelf, true),
        (Receiver::ExclusiveSelf(at(5)), false),
        (Receiver::ValueSelf(at(5)), false),
        (Receiver::Typed(at(5)), false),
        (Receiver::Absent(at(5)), false),
    ] {
        let m = MethodDecl {
            name: "f".to_string(),
            location: at(1),
            generics: vec![],
            receiver,
            params: vec![],
            output: None,
        };
        match get_args(&m) {
            Ok(ps) => {
                assert!(ok);
                assert!(ps.is_empty());
            }
            Err(e) => {
                assert!(!ok);
                assert_eq!(e.first, Rejection { location: at(5), reason: Reason::ReceiverNotSharedRef });
                assert!(e.rest.is_empty());
            }
        }
    }
}

#[test]
fn parameter_binding_checks() {
    let ident = |by_ref: Option<Location>, mutability: Option<Location>, subpattern: Option<Location>| {
        typed(
            Pattern::Ident { name: "x".to_string(), by_ref, mutability, subpattern },
            TypeDesc::Reference(Box::new(path("u32"))),
        )
    };
    let none: Vec<String> = vec![];
    let p = as_jsonrpc_arg(&ident(None, None, None), &none).unwrap();
    assert_eq!(p.name, "x");
    assert!(matches!(p.ty, TypeDesc::Reference(_)));
    assert_eq!(
        as_jsonrpc_arg(&ident(Some(at(7)), Some(at(8)), None), &none).unwrap_err(),
        Rejection { location: at(7), reason: Reason::ReferenceBoundParameter }
    );
    assert_eq!(
        as_jsonrpc_arg(&ident(None, Some(at(8)), None), &none).unwrap_err(),
        Rejection { location: at(8), reason: Reason::MutableBoundParameter }
    );
    assert_eq!(
        as_jsonrpc_arg(&ident(None, None, Some(at(9))), &none).unwrap_err(),
        Rejection { location: at(9), reason: Reason::DestructuredParameter }
    );
    assert_eq!(
        as_jsonrpc_arg(&ParamDecl::Untyped(at(6)), &none).unwrap_err(),
        Rejection { location: at(6), reason: Reason::ConcreteTypeRequired }
    );
}

#[test]
fn reserved_prefix_detection() {
    assert!(starts_with_reserved_prefix("rpc.reset"));
    assert!(starts_with_reserved_prefix("rpc."));
    assert!(!starts_with_reserved_prefix("rpc"));
    assert!(!starts_with_reserved_prefix("rpc_reset"));
    assert!(!starts_with_reserved_prefix("xrpc.reset"));
    assert!(!starts_with_reserved_prefix(""));
}

#[test]
fn diagnostics_keep_every_violation() {
    let members = vec![Member::Other(at(1)), Member::Method(method("rpc.x", 2, vec![], None))];
    let err = trait_methods(&members).unwrap_err();
    let diags = err.raise();
    assert_eq!(diags.len(), 2);
    assert_eq!(diags[0].location, at(1));
    assert_eq!(diags[0].message, "Macro 'jsonrpc_server' expects trait definition containing methods only.");
    assert_eq!(diags[1].location, at(2));
    assert_eq!(
        diags[1].message,
        "The prefix 'rpc.' is reserved https://www.jsonrpc.org/specification#request_object"
    );
    assert_eq!(
        Rejection { location: at(3), reason: Reason::MutableBoundParameter }.message(),
        "Mutable arguments not supported in jsonrpc macro."
    );
}

#[test]
fn handlers_and_client_builders_follow_the_model() {
    let iface = InterfaceDecl {
        name: "MyApi".to_string(),
        members: vec![
            Member::Method(method(
                "greet",
                1,
                vec![
                    plain("who", TypeDesc::Reference(Box::new(path("str")))),
                    plain("list", TypeDesc::Reference(Box::new(path("Vec")))),
                    plain("n", path("u64")),
                ],
                Some(path("String")),
            )),
            Member::Method(method("ping", 2, vec![], None)),
        ],
    };
    let model = validate(&iface).unwrap();
    let server = impl_server(&model);
    assert_eq!(server.interface, "MyApi");
    assert_eq!(server.handlers.len(), 2);
    let h = &server.handlers[0];
    assert_eq!(h.method, "greet");
    let args: Vec<(&str, usize, ArgPassing)> = h.args.iter().map(|a| (a.name.as_str(), a.index, a.passing)).collect();
    assert_eq!(
        args,
        vec![("who", 0, ArgPassing::Direct), ("list", 1, ArgPassing::Borrowed), ("n", 2, ArgPassing::Direct)]
    );
    assert!(server.handlers[1].args.is_empty());
    assert_eq!(add_handler(&model.methods[1]).method, "ping");

    let client = impl_client(&model);
    assert_eq!(client.helper_name, "my_api");
    assert_eq!(client.methods.len(), 2);
    assert_eq!(client.methods[0].name, "greet");
    assert_eq!(client.methods[0].arg_types.len(), 3);
    assert!(matches!(client.methods[0].return_type, TypeDesc::Path(ref p) if p == "String"));
    assert!(matches!(client.methods[1].return_type, TypeDesc::Unit));
    assert!(matches!(return_type(&model.methods[1]), TypeDesc::Unit));
}

#[test]
fn str_type_detection() {
    assert!(is_type_str(&path("str")));
    assert!(!is_type_str(&path("String")));
    assert!(!is_type_str(&path("st")));
    assert!(!is_type_str(&TypeDesc::Reference(Box::new(path("str")))));
    assert!(!is_type_str(&TypeDesc::Other));
}

#[test]
fn helper_name_is_snake_case() {
    let model = validate(&InterfaceDecl { name: "HTTPServiceApi".to_string(), members: vec![] }).unwrap();
    assert_eq!(impl_client(&model).helper_name, "http_service_api");
}

#[test]
fn generic_parameter_types_are_not_concrete() {
    let generics = vec!["T".to_string(), "U".to_string()];
    let direct = plain("a", path("T"));
    assert_eq!(
        as_jsonrpc_arg(&direct, &generics).unwrap_err(),
        Rejection { location: at(99), reason: Reason::ConcreteTypeRequired }
    );
    let nested = ParamDecl::Typed {
        pattern: Pattern::Ident { name: "b".to_string(), by_ref: None, mutability: Some(at(5)), subpattern: None },
        ty: TypeDesc::Other,
        mentions: vec!["Vec".to_string(), "U".to_string()],
        type_location: at(12),
    };
    assert_eq!(
        as_jsonrpc_arg(&nested, &generics).unwrap_err(),
        Rejection { location: at(12), reason: Reason::ConcreteTypeRequired }
    );
    let concrete = plain("c", path("Tee"));
    assert_eq!(as_jsonrpc_arg(&concrete, &generics).unwrap().name, "c");
    let m = MethodDecl {
        name: "g".to_string(),
        location: at(1),
        generics,
        receiver: Receiver::SharedSelf,
        params: vec![direct, concrete, nested],
        output: None,
    };
    let err = get_args(&m).unwrap_err();
    assert_eq!(err.first.reason, Reason::ConcreteTypeRequired);
    assert_eq!(err.rest.len(), 1);
    assert_eq!(err.rest[0].location, at(12));
}

#[test]
fn bindings_plan_both_sides_or_nothing() {
    let err = bindings(&calculator()).unwrap_err();
    assert_eq!(err.first.reason, Reason::ReservedMethodPrefix);
    let iface = InterfaceDecl {
        name: "Calc".to_string(),
        members: vec![Member::Method(method("add", 1, vec![plain("a", path("i64"))], Some(path("i64"))))],
    };
    let b = bindings(&iface).unwrap();
    assert_eq!(b.model.methods.len(), 1);
    assert_eq!(b.server.handlers[0].method, "add");
    assert_eq!(b.server.handlers[0].args[0].name, "a");
    assert_eq!(b.client.helper_name, "calc");
    assert_eq!(b.client.methods[0].name, "add");
}

#[test]
fn every_kind_has_its_fixed_message() {
    let table = [
        (Reason::NotAMethod, "Macro 'jsonrpc_server' expects trait definition containing methods only."),
        (Reason::ReceiverNotSharedRef, "First argument to jsonrpc method must be &self."),
        (
            Reason::ReservedMethodPrefix,
            "The prefix 'rpc.' is reserved https://www.jsonrpc.org/specification#request_object",
        ),
        (Reason::ConcreteTypeRequired, "Arguments and return values must have concrete types."),
        (Reason::DestructuredParameter, "Pattern matched arguments are not supported in jsonrpc methods."),
        (Reason::ReferenceBoundParameter, "Reference arguments not supported in jsonrpc macro."),
        (Reason::MutableBoundParameter, "Mutable arguments not supported in jsonrpc macro."),
    ];
    for (reason, text) in table {
        let r = Rejection { location: at(1), reason };
        assert_eq!(r.message(), text);
        let d = r.raise();
        assert_eq!(d.message, text);
        assert_eq!(d.location, at(1));
    }
}
