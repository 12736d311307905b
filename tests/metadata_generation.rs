use znap_core::ir::{
    ActionAttributes, ActionDescriptor, ActionLink, ActionParameter, ActionParameterOption,
};
use znap_core::metadata::{generate, generate_links, generate_parameter_options};

fn option(label: &str, value: &str) -> ActionParameterOption {
    ActionParameterOption { label: label.to_string(), value: value.to_string() }
}

fn parameter(label: &str, name: &str, ty: &str, options: Vec<ActionParameterOption>) -> ActionParameter {
    ActionParameter {
        label: label.to_string(),
        name: name.to_string(),
        required: false,
        param_type: ty.to_string(),
        options,
    }
}

fn link(label: &str, href: &str, parameters: Vec<ActionParameter>) -> ActionLink {
    ActionLink { label: label.to_string(), href: href.to_string(), parameters }
}

fn attributes(links: Vec<ActionLink>) -> ActionAttributes {
    ActionAttributes {
        title: "Title".to_string(),
        description: "Description".to_string(),
        label: "Label".to_string(),
        icon: "https://example.com/icon.png".to_string(),
        links,
    }
}

#[test]
fn absent_attributes_give_empty_container() {
    let action = ActionDescriptor { name: "bare".to_string(), attributes: None };
    let m = generate(&action, "/api/bare");
    assert_eq!(m.icon, "");
    assert_eq!(m.title, "");
    assert_eq!(m.description, "");
    assert_eq!(m.label, "");
    let links = m.links.expect("container is present");
    assert!(links.actions.is_empty());
    assert!(!m.disabled);
    assert!(m.error.is_none());
}

#[test]
fn declared_without_links_gives_no_container() {
    let action = ActionDescriptor { name: "plain".to_string(), attributes: Some(attributes(vec![])) };
    let m = generate(&action, "/api/plain");
    assert!(m.links.is_none());
    assert_eq!(m.title, "Title");
    assert_eq!(m.description, "Description");
    assert_eq!(m.label, "Label");
    assert_eq!(m.icon, "https://example.com/icon.png");
    assert!(!m.disabled);
    assert!(m.error.is_none());
}

#[test]
fn links_keep_declared_order() {
    let links = vec![
        link("L1", "/one", vec![]),
        link("L2", "?two", vec![]),
        link("L1", "/one", vec![]),
    ];
    let out = generate_links(&links, "/api/:id").expect("links declared").actions;
    let labels: Vec<&str> = out.iter().map(|l| l.label.as_str()).collect();
    assert_eq!(labels, vec!["L1", "L2", "L1"]);
    assert_eq!(out[0].href, "/one");
    assert_eq!(out[1].href, "/api/{{params.id}}?two");
    assert_eq!(out[2].href, "/one");
}

#[test]
fn select_options_round_trip() {
    let options = vec![option("Select 1", "select-1"), option("Select 2", "select-2")];
    let out = generate_parameter_options(&options);
    assert_eq!(out.len(), 2);
    assert_eq!(out[0].label, "Select 1");
    assert_eq!(out[0].value, "select-1");
    assert_eq!(out[1].label, "Select 2");
    assert_eq!(out[1].value, "select-2");

    let action = ActionDescriptor {
        name: "pick".to_string(),
        attributes: Some(attributes(vec![link(
            "Send",
            "/api/pick",
            vec![parameter("Select", "select", "select", options)],
        )])),
    };
    let m = generate(&action, "/api/pick");
    let p = &m.links.unwrap().actions[0].parameters[0];
    assert_eq!(p.param_type, "select");
    assert_eq!(p.options.len(), 2);
    assert_eq!(p.options[0].label, "Select 1");
    assert_eq!(p.options[1].value, "select-2");
}

#[test]
fn unknown_parameter_type_passes_through() {
    let mut p = parameter("Odd", "odd", "colour-wheel", vec![]);
    p.required = true;
    let action = ActionDescriptor {
        name: "odd".to_string(),
        attributes: Some(attributes(vec![link("Go", "/go", vec![p])])),
    };
    let m = generate(&action, "/api/odd");
    let q = &m.links.unwrap().actions[0].parameters[0];
    assert_eq!(q.param_type, "colour-wheel");
    assert!(q.required);
    assert_eq!(q.label, "Odd");
    assert_eq!(q.name, "odd");
}
