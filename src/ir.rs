//! The intermediate representation of actions and of a collection, with the
//! mathematical models that contracts speak of.

use vstd::prelude::*;

verus! {

/// One choice of an enumerated input.
pub struct OptionModel {
    pub label: Seq<char>,
    pub value: Seq<char>,
}

/// One typed input field of a link.
pub struct ParameterModel {
    pub label: Seq<char>,
    pub name: Seq<char>,
    pub required: bool,
    pub param_type: Seq<char>,
    pub options: Seq<OptionModel>,
}

/// A follow-up link with its target and its parameters.
pub struct LinkModel {
    pub label: Seq<char>,
    pub href: Seq<char>,
    pub parameters: Seq<ParameterModel>,
}

pub struct AttributesModel {
    pub title: Seq<char>,
    pub description: Seq<char>,
    pub label: Seq<char>,
    pub icon: Seq<char>,
    pub links: Seq<LinkModel>,
}

pub struct DescriptorModel {
    pub name: Seq<char>,
    pub attributes: Option<AttributesModel>,
}

pub struct BindingModel {
    pub action_ident: Seq<char>,
    pub fn_ident: Seq<char>,
    pub handle_get_ident: Seq<char>,
    pub handle_post_ident: Seq<char>,
    pub route_path: Seq<char>,
}

pub struct CollectionModel {
    pub actions: Seq<DescriptorModel>,
    pub action_fns: Seq<BindingModel>,
}

/// One selectable choice for an enumerated input.
pub struct ActionParameterOption {
    pub label: String,
    pub value: String,
}

/// One input field of a link. `param_type` is passed through unchecked.
pub struct ActionParameter {
    pub label: String,
    pub name: String,
    pub required: bool,
    pub param_type: String,
    pub options: Vec<ActionParameterOption>,
}

/// A follow-up link as authored.
pub struct ActionLink {
    pub label: String,
    pub href: String,
    pub parameters: Vec<ActionParameter>,
}

/// The presentation of an action and its follow-up links, in order.
pub struct ActionAttributes {
    pub title: String,
    pub description: String,
    pub label: String,
    pub icon: String,
    pub links: Vec<ActionLink>,
}

/// One declared action; its attributes may be absent.
pub struct ActionDescriptor {
    pub name: String,
    pub attributes: Option<ActionAttributes>,
}

/// Joins an action's identifier with the business function that builds its
/// transaction, the identifiers of its two handlers, and the path it is
/// served on.
pub struct ActionFunctionBinding {
    pub action_ident: String,
    pub fn_ident: String,
    pub handle_get_ident: String,
    pub handle_post_ident: String,
    pub route_path: String,
}

/// The actions of one collection and their bindings, in declaration order.
pub struct CollectionModule {
    pub actions: Vec<ActionDescriptor>,
    pub action_fns: Vec<ActionFunctionBinding>,
}

impl View for ActionParameterOption {
    type V = OptionModel;

    open spec fn view(&self) -> OptionModel {
        OptionModel { label: self.label@, value: self.value@ }
    }
}

impl View for ActionParameter {
    type V = ParameterModel;

    open spec fn view(&self) -> ParameterModel {
        ParameterModel {
            label: self.label@,
            name: self.name@,
            required: self.required,
            param_type: self.param_type@,
            options: self.options@.map_values(|o: ActionParameterOption| o@),
        }
    }
}

impl View for ActionLink {
    type V = LinkModel;

    open spec fn view(&self) -> LinkModel {
        LinkModel {
            label: self.label@,
            href: self.href@,
            parameters: self.parameters@.map_values(|p: ActionParameter| p@),
        }
    }
}

impl View for ActionAttributes {
    type V = AttributesModel;

    open spec fn view(&self) -> AttributesModel {
        AttributesModel {
            title: self.title@,
            description: self.description@,
            label: self.label@,
            icon: self.icon@,
            links: self.links@.map_values(|l: ActionLink| l@),
        }
    }
}

impl View for ActionDescriptor {
    type V = DescriptorModel;

    open spec fn view(&self) -> DescriptorModel {
        DescriptorModel {
            name: self.name@,
            attributes: match self.attributes {
                Some(a) => Some(a@),
                None => None,
            },
        }
    }
}

impl View for ActionFunctionBinding {
    type V = BindingModel;

    open spec fn view(&self) -> BindingModel {
        BindingModel {
            action_ident: self.action_ident@,
            fn_ident: self.fn_ident@,
            handle_get_ident: self.handle_get_ident@,
            handle_post_ident: self.handle_post_ident@,
            route_path: self.route_path@,
        }
    }
}

impl View for CollectionModule {
    type V = CollectionModel;

    open spec fn view(&self) -> CollectionModel {
        CollectionModel {
            actions: self.actions@.map_values(|a: ActionDescriptor| a@),
            action_fns: self.action_fns@.map_values(|b: ActionFunctionBinding| b@),
        }
    }
}

} // verus!
