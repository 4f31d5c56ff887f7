//! Components/sub-modules of a project.

use vstd::prelude::*;

verus! {

/// The mathematical model of a [`Component`].
#[verifier::ext_equal]
pub ghost struct ComponentView {
    /// The component's display name.
    pub name: Seq<char>,
    /// The component's path relative to the project root, if known.
    pub maybe_path: Option<Seq<char>>,
}

/// A single component of a project, as the component resolver describes
/// it.
#[derive(Debug, Clone)]
pub struct Component {
    /// The name of the component.
    pub name: String,
    /// Optional path of the component relative to the project path.
    pub maybe_path: Option<String>,
}

impl View for Component {
    type V = ComponentView;

    open spec fn view(&self) -> ComponentView {
        ComponentView { name: self.name@, maybe_path: self.maybe_path.deep_view() }
    }
}

impl DeepView for Component {
    type V = ComponentView;

    open spec fn deep_view(&self) -> ComponentView {
        self.view()
    }
}

} // verus!
