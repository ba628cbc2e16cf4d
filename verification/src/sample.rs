use vstd::prelude::*;
use vstd::string::StringExecFns;

use crate::component::ComponentType;
use crate::component::ErasedProps;
use crate::component::PropsPayload;
use crate::component::PropsType;
use crate::component::empty_props;
use crate::node::ReactElement;
use crate::node::ReactElementType;
use crate::node::ReactNode;

verus! {

/// The properties of the sample `Main` component: empty, like the
/// placeholder properties every emitted element carries.
#[derive(Debug)]
pub struct MainProps {}

impl PropsType for MainProps {
    open spec fn type_tag() -> u64 {
        2
    }

    open spec fn as_payload(&self) -> PropsPayload {
        PropsPayload::Empty
    }

    open spec fn accepts_payload(p: PropsPayload) -> bool {
        p is Empty
    }

    fn tag() -> u64 {
        2
    }

    fn erase(self) -> ErasedProps {
        ErasedProps { tag: 2, payload: PropsPayload::Empty }
    }

    fn downcast(e: &ErasedProps) -> Option<MainProps> {
        if e.tag == 2 {
            match &e.payload {
                PropsPayload::Empty => Some(MainProps {  }),
                _ => None,
            }
        } else {
            None
        }
    }
}

/// A sample render function: what the construction code compiled from
/// `<span>Test {a} [a] (a)</span>` evaluates to — one `span` element
/// carrying the placeholder empty properties and the single merged text
/// child `Test {a} [a] (a)`.
#[allow(non_snake_case)]
pub fn Main(props: MainProps) -> (r: ReactElement)
    ensures
        r.ty matches ReactElementType::TagName(n) && n@ == "span"@,
        r.props.tag == <crate::component::EmptyProps as PropsType>::type_tag(),
        r.props.payload is Empty,
        r.children@.len() == 1,
        r.children@[0] matches ReactNode::Text(t) && t@ == "Test {a} [a] (a)"@,
{
    ReactElement {
        ty: ReactElementType::TagName(String::from_str("span")),
        props: empty_props(),
        children: vec![ReactNode::Text(String::from_str("Test {a} [a] (a)"))],
    }
}

/// `Main` as a typed component, so that it is usable through the erased
/// dispatch path like any other component.
#[derive(Debug)]
pub struct MainComponent;

impl ComponentType for MainComponent {
    type Props = MainProps;

    open spec fn component_tag(&self) -> u64 {
        3
    }

    /// `Main` renders the `span` element with the placeholder properties
    /// and the single merged text child, whatever the properties value.
    open spec fn renders(&self, props: MainProps, node: ReactNode) -> bool {
        node matches ReactNode::Element(e) && (e.ty matches ReactElementType::TagName(n) && n@
            == "span"@) && e.props.payload is Empty && e.children@.len() == 1 && (
        e.children@[0] matches ReactNode::Text(t) && t@ == "Test {a} [a] (a)"@)
    }

    fn component_id(&self) -> u64 {
        3
    }

    fn render(&self, props: &MainProps) -> ReactNode {
        ReactNode::Element(Main(MainProps {  }))
    }
}

} // verus!
