use vstd::prelude::*;

use crate::node::ReactNode;

verus! {

/// The payload shapes a properties value can erase to.
#[derive(Debug)]
pub enum PropsPayload {
    /// The empty placeholder properties every parsed element carries today.
    Empty,
    /// A textual properties value.
    Text(String),
    /// An integral properties value.
    Int(i64),
}

/// A properties value stored without its concrete type: a tagged
/// existential value pairing the tag of the concrete type with its data,
/// recovered by a downcast at dispatch time.
#[derive(Debug)]
pub struct ErasedProps {
    pub tag: u64,
    pub payload: PropsPayload,
}

/// A concrete properties type: one that can be erased into an
/// `ErasedProps` and recovered from it by a downcast.
pub trait PropsType: Sized {
    /// The tag naming this concrete type among all erasable types.
    spec fn type_tag() -> u64;

    /// The payload this value erases to.
    spec fn as_payload(&self) -> PropsPayload;

    /// True when an erased payload holds a value of this type.
    spec fn accepts_payload(p: PropsPayload) -> bool;

    /// The tag of this type.
    fn tag() -> (t: u64)
        ensures
            t == Self::type_tag(),
    ;

    /// Erases this value behind its type's tag.
    fn erase(self) -> (e: ErasedProps)
        ensures
            e.tag == Self::type_tag(),
            e.payload == self.as_payload(),
            Self::accepts_payload(e.payload),
    ;

    /// Recovers a value of this type: `Some` exactly when the tag names
    /// this type and the payload holds one of its values — a value of any
    /// other erased type is refused, never substituted or coerced.  The
    /// recovered value is the one value of this type with that payload.
    fn downcast(e: &ErasedProps) -> (r: Option<Self>)
        ensures
            (r is Some) == (e.tag == Self::type_tag() && Self::accepts_payload(e.payload)),
            r matches Some(p) ==> p.as_payload() == e.payload,
            r matches Some(p) ==> forall|q: Self| q.as_payload() == e.payload ==> q == p,
    ;
}

/// The erased component capability: every component is usable through this
/// one dispatch path, whatever its concrete properties type.
pub trait Component {
    /// The identity of this component, for diagnostics only.
    spec fn component_tag(&self) -> u64;

    /// True when this component accepts the erased value.
    spec fn accepts(&self, e: ErasedProps) -> bool;

    /// What holds of the node this component renders from an accepted
    /// erased value.
    spec fn renders_erased(&self, e: ErasedProps, node: ReactNode) -> bool;

    /// True when this component accepts the erased value.
    fn accepts_props(&self, e: &ErasedProps) -> (r: bool)
        ensures
            r == self.accepts(*e),
    ;

    /// Renders with an erased properties value of the accepted type.
    fn render_untyped(&self, untyped_props: &ErasedProps) -> (r: ReactNode)
        requires
            self.accepts(*untyped_props),
        ensures
            self.renders_erased(*untyped_props, r),
    ;

    /// An identity for diagnostics only.
    fn type_id(&self) -> (t: u64)
        ensures
            t == self.component_tag(),
    ;
}

/// The typed component capability: a render function over a concrete
/// properties type.
pub trait ComponentType {
    type Props: PropsType;

    /// The identity of this component, for diagnostics only.
    spec fn component_tag(&self) -> u64;

    /// What holds of the node this component renders from the given
    /// properties.
    spec fn renders(&self, props: Self::Props, node: ReactNode) -> bool;

    /// The identity of this component.
    fn component_id(&self) -> (t: u64)
        ensures
            t == self.component_tag(),
    ;

    /// Renders with a typed properties value.
    fn render(&self, props: &Self::Props) -> (r: ReactNode)
        ensures
            self.renders(*props, r),
    ;
}

/// The bridge: any typed component is usable as an erased component by
/// downcasting the erased argument back to its concrete properties type
/// immediately before delegating to the typed render, whose result is
/// passed through unchanged.
impl<C: ComponentType> Component for C {
    open spec fn component_tag(&self) -> u64 {
        <C as ComponentType>::component_tag(self)
    }

    open spec fn accepts(&self, e: ErasedProps) -> bool {
        e.tag == <C::Props as PropsType>::type_tag() && <C::Props as PropsType>::accepts_payload(
            e.payload,
        )
    }

    open spec fn renders_erased(&self, e: ErasedProps, node: ReactNode) -> bool {
        exists|p: C::Props| #[trigger] p.as_payload() == e.payload && self.renders(p, node)
    }

    fn accepts_props(&self, e: &ErasedProps) -> (r: bool) {
        match <C::Props as PropsType>::downcast(e) {
            Some(_) => true,
            None => false,
        }
    }

    fn render_untyped(&self, untyped_props: &ErasedProps) -> (r: ReactNode) {
        match <C::Props as PropsType>::downcast(untyped_props) {
            Some(props) => {
                let node = self.render(&props);
                proof {
                    assert(props.as_payload() == untyped_props.payload && self.renders(
                        props,
                        node,
                    ));
                }
                node
            },
            None => {
                proof {
                    assert(false);
                }
                ReactNode::Text(String::new())
            },
        }
    }

    fn type_id(&self) -> u64 {
        self.component_id()
    }
}

/// Renders a component with an erased properties value, or refuses it:
/// `None` exactly when the value's erased type is not the component's
/// declared properties type.  A mismatch is never substituted, truncated
/// or coerced into a rendering; a match hands back exactly what the
/// component renders from the recovered value.
pub fn try_render_untyped<C: Component>(component: &C, props: &ErasedProps) -> (r: Option<
    ReactNode,
>)
    ensures
        (r is Some) == component.accepts(*props),
        r matches Some(node) ==> component.renders_erased(*props, node),
{
    if component.accepts_props(props) {
        Some(component.render_untyped(props))
    } else {
        None
    }
}

/// The empty placeholder properties: the value the emitted construction
/// code pairs with every element today.
#[derive(Debug)]
pub struct EmptyProps;

impl PropsType for EmptyProps {
    open spec fn type_tag() -> u64 {
        0
    }

    open spec fn as_payload(&self) -> PropsPayload {
        PropsPayload::Empty
    }

    open spec fn accepts_payload(p: PropsPayload) -> bool {
        p is Empty
    }

    fn tag() -> u64 {
        0
    }

    fn erase(self) -> ErasedProps {
        ErasedProps { tag: 0, payload: PropsPayload::Empty }
    }

    fn downcast(e: &ErasedProps) -> Option<EmptyProps> {
        if e.tag == 0 {
            match &e.payload {
                PropsPayload::Empty => Some(EmptyProps),
                _ => None,
            }
        } else {
            None
        }
    }
}

/// Textual properties: a second erasable type, so that heterogeneous
/// components share the one dispatch path.
#[derive(Debug)]
pub struct TextProps {
    pub value: String,
}

impl PropsType for TextProps {
    open spec fn type_tag() -> u64 {
        1
    }

    open spec fn as_payload(&self) -> PropsPayload {
        PropsPayload::Text(self.value)
    }

    open spec fn accepts_payload(p: PropsPayload) -> bool {
        p is Text
    }

    fn tag() -> u64 {
        1
    }

    fn erase(self) -> ErasedProps {
        ErasedProps { tag: 1, payload: PropsPayload::Text(self.value) }
    }

    fn downcast(e: &ErasedProps) -> Option<TextProps> {
        if e.tag == 1 {
            match &e.payload {
                PropsPayload::Text(s) => Some(TextProps { value: s.clone() }),
                _ => None,
            }
        } else {
            None
        }
    }
}

/// The erased form of the placeholder empty properties, as the emitted
/// construction code builds it.
pub fn empty_props() -> (e: ErasedProps)
    ensures
        e.tag == <EmptyProps as PropsType>::type_tag(),
        e.payload is Empty,
{
    ErasedProps { tag: 0, payload: PropsPayload::Empty }
}

} // verus!
