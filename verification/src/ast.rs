use vstd::prelude::*;
use vstd::string::StringExecFns;

verus! {

/// Classification of a tag: a tag-less fragment, a host tag name, or a user
/// component referenced by its path.
#[derive(Debug)]
pub enum ElementType {
    /// The bare `<>`: a grouping construct with no element of its own.
    Fragment,
    /// A host tag, a single identifier of lowercase characters only.
    TagName(String),
    /// A user component, by the canonical text of its path.
    Component(String),
}

/// The mathematical shape of an `ElementType`.
pub enum TyView {
    Fragment,
    TagName(Seq<char>),
    Component(Seq<char>),
}

impl View for ElementType {
    type V = TyView;

    open spec fn view(&self) -> TyView {
        match self {
            ElementType::Fragment => TyView::Fragment,
            ElementType::TagName(s) => TyView::TagName(s@),
            ElementType::Component(s) => TyView::Component(s@),
        }
    }
}

/// The canonical textual rendering of an element type, used in diagnostics.
pub open spec fn ty_text(t: TyView) -> Seq<char> {
    match t {
        TyView::Fragment => "Fragment"@,
        TyView::TagName(s) => s,
        TyView::Component(s) => s,
    }
}

impl ElementType {
    /// An owned copy with the same shape.
    pub fn duplicate(&self) -> (r: ElementType)
        ensures
            r@ == self@,
    {
        match self {
            ElementType::Fragment => ElementType::Fragment,
            ElementType::TagName(s) => ElementType::TagName(s.clone()),
            ElementType::Component(s) => ElementType::Component(s.clone()),
        }
    }

    /// The canonical textual rendering of this type, used in diagnostics.
    pub fn canonical(&self) -> (r: String)
        ensures
            r@ == ty_text(self@),
    {
        match self {
            ElementType::Fragment => String::from_str("Fragment"),
            ElementType::TagName(s) => s.clone(),
            ElementType::Component(s) => s.clone(),
        }
    }
}

impl PartialEq for ElementType {
    /// Structural equality: same variant, same text.
    fn eq(&self, other: &ElementType) -> (r: bool) {
        match (self, other) {
            (ElementType::Fragment, ElementType::Fragment) => true,
            (ElementType::TagName(a), ElementType::TagName(b)) => a.eq(b),
            (ElementType::Component(a), ElementType::Component(b)) => a.eq(b),
            _ => false,
        }
    }
}

impl vstd::std_specs::cmp::PartialEqSpecImpl for ElementType {
    open spec fn obeys_eq_spec() -> bool {
        true
    }

    open spec fn eq_spec(&self, other: &ElementType) -> bool {
        self@ == other@
    }
}

/// A property value on an element.  The grammar is recognised here but has
/// no consumer yet: parsed elements always carry an empty property list.
#[derive(Debug)]
pub enum Prop {
    Active,
    Text(String),
    Expr(String),
}

/// The mathematical shape of a `Prop`.
pub enum PropView {
    Active,
    Text(Seq<char>),
    Expr(Seq<char>),
}

impl View for Prop {
    type V = PropView;

    open spec fn view(&self) -> PropView {
        match self {
            Prop::Active => PropView::Active,
            Prop::Text(s) => PropView::Text(s@),
            Prop::Expr(s) => PropView::Expr(s@),
        }
    }
}

/// A parse-time node: free text, a nested element, or a raw host expression.
#[derive(Debug)]
pub enum Node {
    Text(String),
    Element(ElementNode),
    Expr(String),
}

/// A parsed element: its resolved type, its properties (always the empty
/// placeholder today) and its children in source order.
#[derive(Debug)]
pub struct ElementNode {
    pub ty: ElementType,
    pub props: Vec<(String, Prop)>,
    pub children: Vec<Node>,
}

/// The mathematical shape of a `Node`.
pub enum NodeView {
    Text(Seq<char>),
    Element(ElemView),
    Expr(Seq<char>),
}

/// The mathematical shape of an `ElementNode`.
pub struct ElemView {
    pub ty: TyView,
    pub props: Seq<(Seq<char>, PropView)>,
    pub children: Seq<NodeView>,
}

pub open spec fn node_view(n: Node) -> NodeView
    decreases n,
{
    match n {
        Node::Text(s) => NodeView::Text(s@),
        Node::Expr(s) => NodeView::Expr(s@),
        Node::Element(e) => NodeView::Element(elem_view(e)),
    }
}

pub open spec fn elem_view(e: ElementNode) -> ElemView
    decreases e,
{
    ElemView {
        ty: e.ty@,
        props: e.props@.map(|i: int, p: (String, Prop)| (p.0@, p.1@)),
        children: children_view(e.children@),
    }
}

pub open spec fn children_view(cs: Seq<Node>) -> Seq<NodeView>
    decreases cs,
{
    if cs.len() == 0 {
        Seq::empty()
    } else {
        children_view(cs.drop_last()).push(node_view(cs.last()))
    }
}

impl View for Node {
    type V = NodeView;

    open spec fn view(&self) -> NodeView {
        node_view(*self)
    }
}

impl View for ElementNode {
    type V = ElemView;

    open spec fn view(&self) -> ElemView {
        elem_view(*self)
    }
}

/// `children_view` maps each child to its view, in order.
pub proof fn lemma_children_view(cs: Seq<Node>)
    ensures
        children_view(cs).len() == cs.len(),
        forall|i: int| 0 <= i < cs.len() ==> children_view(cs)[i] == node_view(cs[i]),
    decreases cs.len(),
{
    if cs.len() > 0 {
        lemma_children_view(cs.drop_last());
        assert forall|i: int| 0 <= i < cs.len() implies children_view(cs)[i] == node_view(
            cs[i],
        ) by {
            if i < cs.len() - 1 {
                assert(children_view(cs)[i] == children_view(cs.drop_last())[i]);
                assert(cs.drop_last()[i] == cs[i]);
            }
        }
    }
}

/// Appending one child appends its view.
pub proof fn lemma_children_view_push(cs: Seq<Node>, n: Node)
    ensures
        children_view(cs.push(n)) == children_view(cs).push(node_view(n)),
{
    assert(cs.push(n).drop_last() =~= cs);
    assert(cs.push(n).last() == n);
}

/// A well-formed parse-time node: no empty text node, the placeholder empty
/// property list on every element, and no two neighbouring text nodes.
pub open spec fn node_wf(n: NodeView) -> bool
    decreases n,
{
    match n {
        NodeView::Text(s) => s.len() > 0,
        NodeView::Expr(_) => true,
        NodeView::Element(e) => elem_wf(e),
    }
}

/// A well-formed parsed element: see `node_wf`.
pub open spec fn elem_wf(e: ElemView) -> bool
    decreases e,
{
    e.props.len() == 0 && children_wf(e.children)
}

/// A well-formed child list: every child well-formed, and free text merged,
/// so that no two neighbouring children are both text nodes.
pub open spec fn children_wf(cs: Seq<NodeView>) -> bool
    decreases cs,
{
    &&& forall|i: int| 0 <= i < cs.len() ==> node_wf(#[trigger] cs[i])
    &&& forall|i: int|
        0 <= i && i + 1 < cs.len() ==> !((#[trigger] cs[i]) is Text && cs[i + 1] is Text)
}

} // verus!
