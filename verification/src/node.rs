use vstd::prelude::*;

use crate::component::Component;
use crate::component::ErasedProps;

verus! {

/// A runtime view node: the tree the emitted construction code builds when
/// it runs.  Built fresh on every invocation; a fragment yields a bare
/// `List` of its children, never a tagged element.
pub enum ReactNode {
    Text(String),
    Element(ReactElement),
    List(Vec<ReactNode>),
}

/// One constructed element: its type, its owned type-erased properties and
/// its children in source order.
pub struct ReactElement {
    pub ty: ReactElementType,
    pub props: ErasedProps,
    pub children: Vec<ReactNode>,
}

/// The type of a constructed element: a host tag by name, or a user
/// component by identity.  A tree owns no render capability of its own:
/// construction pairs a component's identity with a properties value of its
/// declared type, and dispatch re-pairs the identity with the `Component`
/// it names, so the erasure and downcast boundary stays outside the tree.
pub enum ReactElementType {
    TagName(String),
    Component(u64),
}

/// Dispatches one constructed element through the erased path: renders
/// `component` with the element's own erased properties, or refuses with
/// `None` exactly when the properties' erased type is not the component's
/// declared properties type.  A match hands back exactly what the
/// component renders from the recovered value.
pub fn render_element<C: Component>(component: &C, element: &ReactElement) -> (r: Option<
    ReactNode,
>)
    ensures
        (r is Some) == component.accepts(element.props),
        r matches Some(node) ==> component.renders_erased(element.props, node),
{
    crate::component::try_render_untyped(component, &element.props)
}

} // verus!
