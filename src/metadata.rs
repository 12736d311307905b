//! The metadata document served for an action, and its generation from the
//! action's declaration.

use vstd::prelude::*;
use crate::href::{resolve, resolved_href};
use crate::ir::{
    ActionDescriptor, ActionLink, ActionParameter, ActionParameterOption, DescriptorModel,
    LinkModel, OptionModel, ParameterModel,
};

verus! {

/// A choice of an enumerated input, as served.
pub struct LinkedActionLinkParameterTypeOption {
    pub label: String,
    pub value: String,
}

/// An input field of a linked action, as served.
pub struct LinkedActionParameter {
    pub label: String,
    pub name: String,
    pub required: bool,
    pub param_type: String,
    pub options: Vec<LinkedActionLinkParameterTypeOption>,
}

/// A follow-up link with its resolved href, as served.
pub struct LinkedAction {
    pub label: String,
    pub href: String,
    pub parameters: Vec<LinkedActionParameter>,
}

/// The container of an action's follow-up links.
pub struct ActionLinks {
    pub actions: Vec<LinkedAction>,
}

/// The document answered to a metadata request. `disabled` and `error` are
/// left for the hosting runtime to set.
pub struct ActionMetadata {
    pub icon: String,
    pub title: String,
    pub description: String,
    pub label: String,
    pub links: Option<ActionLinks>,
    pub disabled: bool,
    pub error: Option<String>,
}

pub struct MetadataModel {
    pub icon: Seq<char>,
    pub title: Seq<char>,
    pub description: Seq<char>,
    pub label: Seq<char>,
    pub links: Option<Seq<LinkModel>>,
    pub disabled: bool,
    pub error: Option<Seq<char>>,
}

impl View for LinkedActionLinkParameterTypeOption {
    type V = OptionModel;

    open spec fn view(&self) -> OptionModel {
        OptionModel { label: self.label@, value: self.value@ }
    }
}

impl View for LinkedActionParameter {
    type V = ParameterModel;

    open spec fn view(&self) -> ParameterModel {
        ParameterModel {
            label: self.label@,
            name: self.name@,
            required: self.required,
            param_type: self.param_type@,
            options: self.options@.map_values(|o: LinkedActionLinkParameterTypeOption| o@),
        }
    }
}

impl View for LinkedAction {
    type V = LinkModel;

    open spec fn view(&self) -> LinkModel {
        LinkModel {
            label: self.label@,
            href: self.href@,
            parameters: self.parameters@.map_values(|p: LinkedActionParameter| p@),
        }
    }
}

impl View for ActionLinks {
    type V = Seq<LinkModel>;

    open spec fn view(&self) -> Seq<LinkModel> {
        self.actions@.map_values(|l: LinkedAction| l@)
    }
}

impl View for ActionMetadata {
    type V = MetadataModel;

    open spec fn view(&self) -> MetadataModel {
        MetadataModel {
            icon: self.icon@,
            title: self.title@,
            description: self.description@,
            label: self.label@,
            links: match self.links {
                Some(l) => Some(l@),
                None => None,
            },
            disabled: self.disabled,
            error: match self.error {
                Some(e) => Some(e@),
                None => None,
            },
        }
    }
}

/// A declared link as served under `route`: its href resolved, all else kept.
pub open spec fn resolved_link(l: LinkModel, route: Seq<char>) -> LinkModel {
    LinkModel { href: resolved_href(l.href, route), ..l }
}

/// No container when nothing is declared; otherwise every link, in order,
/// resolved.
pub open spec fn links_of(links: Seq<LinkModel>, route: Seq<char>) -> Option<Seq<LinkModel>> {
    if links.len() == 0 {
        None
    } else {
        Some(links.map_values(|l: LinkModel| resolved_link(l, route)))
    }
}

/// The metadata document of an action mounted on `route`. Without attributes
/// every text is empty and the link container is present but empty.
pub open spec fn metadata_of(d: DescriptorModel, route: Seq<char>) -> MetadataModel {
    match d.attributes {
        Some(a) => MetadataModel {
            icon: a.icon,
            title: a.title,
            description: a.description,
            label: a.label,
            links: links_of(a.links, route),
            disabled: false,
            error: None,
        },
        None => MetadataModel {
            icon: Seq::empty(),
            title: Seq::empty(),
            description: Seq::empty(),
            label: Seq::empty(),
            links: Some(Seq::empty()),
            disabled: false,
            error: None,
        },
    }
}

/// Copies the options of a parameter, in order.
pub fn generate_parameter_options(options: &Vec<ActionParameterOption>) -> (r: Vec<
    LinkedActionLinkParameterTypeOption,
>)
    ensures
        r@.map_values(|o: LinkedActionLinkParameterTypeOption| o@) == options@.map_values(
            |o: ActionParameterOption| o@,
        ),
{
    let mut out: Vec<LinkedActionLinkParameterTypeOption> = Vec::new();
    let mut i: usize = 0;
    while i < options.len()
        invariant
            i <= options@.len(),
            out@.len() == i,
            forall|j: int| 0 <= j < i ==> #[trigger] out@[j]@ == options@[j]@,
        decreases options@.len() - i,
    {
        let o = &options[i];
        out.push(
            LinkedActionLinkParameterTypeOption { label: o.label.clone(), value: o.value.clone() },
        );
        i += 1;
    }
    assert(out@.map_values(|o: LinkedActionLinkParameterTypeOption| o@) =~= options@.map_values(
        |o: ActionParameterOption| o@,
    ));
    out
}

/// Copies the parameters of a link, in order, with their options.
pub fn generate_parameter(parameters: &Vec<ActionParameter>) -> (r: Vec<LinkedActionParameter>)
    ensures
        r@.map_values(|p: LinkedActionParameter| p@) == parameters@.map_values(
            |p: ActionParameter| p@,
        ),
{
    let mut out: Vec<LinkedActionParameter> = Vec::new();
    let mut i: usize = 0;
    while i < parameters.len()
        invariant
            i <= parameters@.len(),
            out@.len() == i,
            forall|j: int| 0 <= j < i ==> #[trigger] out@[j]@ == parameters@[j]@,
        decreases parameters@.len() - i,
    {
        let p = &parameters[i];
        let options = generate_parameter_options(&p.options);
        out.push(
            LinkedActionParameter {
                label: p.label.clone(),
                name: p.name.clone(),
                required: p.required,
                param_type: p.param_type.clone(),
                options,
            },
        );
        i += 1;
    }
    assert(out@.map_values(|p: LinkedActionParameter| p@) =~= parameters@.map_values(
        |p: ActionParameter| p@,
    ));
    out
}

/// Resolves each declared link under `route`, keeping their order; `None`
/// when no link is declared.
pub fn generate_links(links: &Vec<ActionLink>, route: &str) -> (r: Option<ActionLinks>)
    ensures
        match r {
            Some(c) => links_of(links@.map_values(|l: ActionLink| l@), route@) == Some(c@),
            None => links_of(links@.map_values(|l: ActionLink| l@), route@) is None,
        },
{
    let ghost declared = links@.map_values(|l: ActionLink| l@);
    if links.len() == 0 {
        return None;
    }
    let mut out: Vec<LinkedAction> = Vec::new();
    let mut i: usize = 0;
    while i < links.len()
        invariant
            i <= links@.len(),
            out@.len() == i,
            declared == links@.map_values(|l: ActionLink| l@),
            forall|j: int| 0 <= j < i ==> #[trigger] out@[j]@ == resolved_link(declared[j], route@),
        decreases links@.len() - i,
    {
        let l = &links[i];
        let href = resolve(l.href.as_str(), route);
        let parameters = generate_parameter(&l.parameters);
        out.push(LinkedAction { label: l.label.clone(), href, parameters });
        i += 1;
    }
    let c = ActionLinks { actions: out };
    assert(c@ =~= declared.map_values(|l: LinkModel| resolved_link(l, route@)));
    Some(c)
}

/// The metadata document of `action` mounted on `route`.
pub fn generate(action: &ActionDescriptor, route: &str) -> (r: ActionMetadata)
    ensures
        r@ == metadata_of(action@, route@),
{
    match &action.attributes {
        Some(a) => {
            let links = generate_links(&a.links, route);
            ActionMetadata {
                icon: a.icon.clone(),
                title: a.title.clone(),
                description: a.description.clone(),
                label: a.label.clone(),
                links,
                disabled: false,
                error: None,
            }
        },
        None => {
            let r = ActionMetadata {
                icon: String::new(),
                title: String::new(),
                description: String::new(),
                label: String::new(),
                links: Some(ActionLinks { actions: Vec::new() }),
                disabled: false,
                error: None,
            };
            assert(r@.links->0 =~= Seq::<LinkModel>::empty());
            r
        },
    }
}

/// An action declared without attributes gets a link container that is
/// present and empty; one declared with attributes but no links gets no
/// container. The two documents never coincide.
pub proof fn lemma_presence_asymmetry(
    bare: DescriptorModel,
    declared: DescriptorModel,
    route: Seq<char>,
)
    requires
        bare.attributes is None,
        declared.attributes matches Some(a) && a.links.len() == 0,
    ensures
        metadata_of(bare, route).links == Some(Seq::<LinkModel>::empty()),
        metadata_of(declared, route).links is None,
        metadata_of(bare, route) != metadata_of(declared, route),
{
}

/// The document lists the declared links in their declared order, none
/// dropped, merged or moved: the link at each position keeps its label and
/// parameters, and only its href is resolved.
pub proof fn lemma_link_order(action: DescriptorModel, route: Seq<char>)
    requires
        action.attributes matches Some(a) && a.links.len() > 0,
    ensures
        ({
            let links = action.attributes->0.links;
            metadata_of(action, route).links matches Some(s) && s.len() == links.len() && forall|
                i: int,
            |
                0 <= i < s.len() ==> #[trigger] s[i].label == links[i].label && s[i].parameters
                    == links[i].parameters && s[i].href == resolved_href(links[i].href, route)
        }),
{
}

/// Each parameter of each link is served as declared: its label, name,
/// requirement, type and options, the options in their declared order.
pub proof fn lemma_parameter_kept(action: DescriptorModel, route: Seq<char>, i: int, k: int)
    requires
        action.attributes matches Some(a) && 0 <= i < a.links.len() && 0 <= k
            < a.links[i].parameters.len(),
    ensures
        ({
            let p = action.attributes->0.links[i].parameters[k];
            metadata_of(action, route).links matches Some(s) && s[i].parameters[k] == p
                && s[i].parameters[k].options == p.options
        }),
{
}

} // verus!
