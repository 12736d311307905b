use znap_core::handle_post::{wrap_transaction, ActionTransaction};
use znap_core::ir::{
    ActionAttributes, ActionDescriptor, ActionFunctionBinding, ActionLink, ActionParameter,
    ActionParameterOption, CollectionModule,
};
use znap_core::router::{build_router, CollectionError, Dispatch, HttpMethod, RouteHandler};

fn binding(action: &str, path: &str) -> ActionFunctionBinding {
    ActionFunctionBinding {
        action_ident: action.to_string(),
        fn_ident: action.to_lowercase(),
        handle_get_ident: format!("handle_get_{}", action.to_lowercase()),
        handle_post_ident: format!("handle_post_{}", action.to_lowercase()),
        route_path: path.to_string(),
    }
}

fn bare(name: &str) -> ActionDescriptor {
    ActionDescriptor { name: name.to_string(), attributes: None }
}

#[test]
fn router_has_get_and_post_per_binding() {
    let collection = CollectionModule {
        actions: vec![bare("A"), bare("B"), bare("C")],
        action_fns: vec![binding("A", "/api/a"), binding("B", "/api/b"), binding("C", "/api/c")],
    };
    let table = build_router(&collection).ok().expect("all actions resolve");
    assert_eq!(table.routes.len(), 6);
    let gets = table.routes.iter().filter(|r| r.method == HttpMethod::Get).count();
    let posts = table.routes.iter().filter(|r| r.method == HttpMethod::Post).count();
    assert_eq!(gets, 3);
    assert_eq!(posts, 3);

    let listing = table.list_routes();
    assert_eq!(listing.len(), 6);
    let expected = [
        (HttpMethod::Get, "/api/a"),
        (HttpMethod::Post, "/api/a"),
        (HttpMethod::Get, "/api/b"),
        (HttpMethod::Post, "/api/b"),
        (HttpMethod::Get, "/api/c"),
        (HttpMethod::Post, "/api/c"),
    ];
    for (l, (m, p)) in listing.iter().zip(expected.iter()) {
        assert_eq!(l.method, *m);
        assert_eq!(l.path, *p);
    }
    match &table.routes[3].handler {
        RouteHandler::Transaction { ident, action_fn } => {
            assert_eq!(ident, "handle_post_b");
            assert_eq!(action_fn, "b");
        }
        RouteHandler::Metadata { .. } => panic!("POST route serves a transaction"),
    }
}

#[test]
fn empty_collection_has_no_routes() {
    let collection = CollectionModule { actions: vec![], action_fns: vec![] };
    let table = build_router(&collection).ok().expect("nothing to resolve");
    assert!(table.routes.is_empty());
    assert!(table.list_routes().is_empty());
    assert_eq!(table.dispatch(HttpMethod::Options, "/anything"), Dispatch::Preflight);
    assert_eq!(table.dispatch(HttpMethod::Get, "/anything"), Dispatch::NotFound);
}

#[test]
fn unknown_action_aborts() {
    let collection = CollectionModule {
        actions: vec![bare("A")],
        action_fns: vec![binding("A", "/api/a"), binding("Missing", "/api/m"), binding("Gone", "/api/g")],
    };
    match build_router(&collection) {
        Err(CollectionError::UnknownAction(name)) => assert_eq!(name, "Missing"),
        Ok(_) => panic!("an unresolved binding must abort"),
    }
}

#[test]
fn duplicate_route_last_registered_wins() {
    let collection = CollectionModule {
        actions: vec![bare("A"), bare("B")],
        action_fns: vec![binding("A", "/api/same"), binding("B", "/api/same")],
    };
    let table = build_router(&collection).ok().unwrap();
    assert_eq!(table.dispatch(HttpMethod::Get, "/api/same"), Dispatch::Route(2));
    assert_eq!(table.dispatch(HttpMethod::Post, "/api/same"), Dispatch::Route(3));
    assert_eq!(table.dispatch(HttpMethod::Options, "/api/same"), Dispatch::Preflight);
    assert_eq!(table.dispatch(HttpMethod::Get, "/api/other"), Dispatch::NotFound);
}

#[test]
fn transaction_is_base64_encoded() {
    let ok: Result<ActionTransaction, String> = Ok(ActionTransaction {
        transaction: b"hello".to_vec(),
        message: Some("done".to_string()),
    });
    let w = wrap_transaction(ok).ok().unwrap();
    assert_eq!(w.transaction, "aGVsbG8=");
    assert_eq!(w.message.as_deref(), Some("done"));

    let empty: Result<ActionTransaction, String> =
        Ok(ActionTransaction { transaction: vec![], message: None });
    let w = wrap_transaction(empty).ok().unwrap();
    assert_eq!(w.transaction, "");
    assert!(w.message.is_none());
}

#[test]
fn business_failure_passes_through() {
    let failed: Result<ActionTransaction, String> = Err("insufficient funds".to_string());
    match wrap_transaction(failed) {
        Err(e) => assert_eq!(e, "insufficient funds"),
        Ok(_) => panic!("failure must be forwarded"),
    }
}

fn p(label: &str, name: &str, ty: &str, options: &[(&str, &str)]) -> ActionParameter {
    ActionParameter {
        label: label.to_string(),
        name: name.to_string(),
        required: false,
        param_type: ty.to_string(),
        options: options
            .iter()
            .map(|(l, v)| ActionParameterOption { label: l.to_string(), value: v.to_string() })
            .collect(),
    }
}

#[test]
fn advanced_input_types_end_to_end() {
    let parameters = vec![
        p("Text", "text", "text", &[]),
        p("Email", "email", "email", &[]),
        p("Url", "url", "url", &[]),
        p("Number", "number", "number", &[]),
        p("Date", "date", "date", &[]),
        p("Datetime local", "datetime-local", "datetime-local", &[]),
        p("Checkbox", "checkbox", "checkbox", &[]),
        p("Radio", "radio", "radio", &[("Radio 1", "radio-1"), ("Radio 2", "radio-2")]),
        p("Radio empty", "radio-empty", "radio", &[]),
        p("Textarea", "textarea", "textarea", &[]),
        p("Select", "select", "select", &[("Select 1", "select-1"), ("Select 2", "select-2")]),
        p("Select empty", "select-empty", "select", &[]),
    ];
    let action = ActionDescriptor {
        name: "TypesAction".to_string(),
        attributes: Some(ActionAttributes {
            title: "Advanced Input Types".to_string(),
            description: "An action with advanced input types.".to_string(),
            label: "Send".to_string(),
            icon: "https://media.discordapp.net/icon.png".to_string(),
            links: vec![ActionLink { label: "Send".to_string(), href: "/api/types".to_string(), parameters }],
        }),
    };
    let collection = CollectionModule {
        actions: vec![action],
        action_fns: vec![ActionFunctionBinding {
            action_ident: "TypesAction".to_string(),
            fn_ident: "types".to_string(),
            handle_get_ident: "handle_get_types".to_string(),
            handle_post_ident: "handle_post_types".to_string(),
            route_path: "/api/types".to_string(),
        }],
    };
    let table = build_router(&collection).ok().unwrap();

    let get = match table.dispatch(HttpMethod::Get, "/api/types") {
        Dispatch::Route(i) => i,
        other => panic!("GET not routed: {:?}", other),
    };
    let document = match &table.routes[get].handler {
        RouteHandler::Metadata { document, .. } => document,
        RouteHandler::Transaction { .. } => panic!("GET serves metadata"),
    };
    assert_eq!(document.title, "Advanced Input Types");
    let links = &document.links.as_ref().unwrap().actions;
    assert_eq!(links.len(), 1);
    assert_eq!(links[0].href, "/api/types");
    let params = &links[0].parameters;
    assert_eq!(params.len(), 12);
    let types: Vec<&str> = params.iter().map(|q| q.param_type.as_str()).collect();
    assert_eq!(
        types,
        vec![
            "text", "email", "url", "number", "date", "datetime-local", "checkbox", "radio",
            "radio", "textarea", "select", "select"
        ]
    );
    let option_counts: Vec<usize> = params.iter().map(|q| q.options.len()).collect();
    assert_eq!(option_counts, vec![0, 0, 0, 0, 0, 0, 0, 2, 0, 0, 2, 0]);
    assert_eq!(params[7].options[1].value, "radio-2");
    assert_eq!(params[10].options[0].label, "Select 1");

    let post = match table.dispatch(HttpMethod::Post, "/api/types") {
        Dispatch::Route(i) => i,
        other => panic!("POST not routed: {:?}", other),
    };
    match &table.routes[post].handler {
        RouteHandler::Transaction { action_fn, .. } => assert_eq!(action_fn, "types"),
        RouteHandler::Metadata { .. } => panic!("POST serves a transaction"),
    }
    // An unsigned transaction with an empty message, serialized: no
    // signatures, a zero header, no keys, a zero blockhash, no instructions.
    let mut serialized = vec![0u8, 0, 0, 0, 0];
    serialized.extend_from_slice(&[0u8; 32]);
    serialized.push(0);
    let result: Result<ActionTransaction, String> = Ok(ActionTransaction {
        transaction: serialized,
        message: Some("Restake successfully made!".to_string()),
    });
    let envelope = wrap_transaction(result).ok().unwrap();
    assert!(!envelope.transaction.is_empty());
    assert_eq!(envelope.transaction.len(), 52);
    assert_eq!(envelope.message.as_deref(), Some("Restake successfully made!"));
}
