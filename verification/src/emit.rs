use vstd::prelude::*;
use vstd::string::StrSliceExecFns;
use vstd::string::StringExecFns;

use crate::ast::ElemView;
use crate::ast::ElementNode;
use crate::ast::ElementType;
use crate::ast::Node;
use crate::ast::NodeView;
use crate::ast::TyView;
use crate::ast::lemma_children_view;
use crate::ast::node_view;
use crate::error::TemplateError;
use crate::parse::Cursor;
use crate::parse::parse_element;
use crate::token::Token;

verus! {

/// Relies on String::push: appends exactly the given character.
#[verifier::external_body]
fn push_char(s: &mut String, c: char)
    ensures
        final(s)@ == old(s)@.push(c),
{
    s.push(c);
}

/// One character of a string literal in emitted code: a quote or a
/// backslash is preceded by a backslash, and a line break or tab becomes
/// its named escape, so the literal stays legal source text.
pub open spec fn escape_char(c: char) -> Seq<char> {
    if c == '"' || c == '\\' {
        seq!['\\', c]
    } else if c == '\n' {
        seq!['\\', 'n']
    } else if c == '\r' {
        seq!['\\', 'r']
    } else if c == '\t' {
        seq!['\\', 't']
    } else {
        seq![c]
    }
}

/// The text of a string literal in emitted code.
pub open spec fn escape_text(s: Seq<char>) -> Seq<char>
    decreases s.len(),
{
    if s.len() == 0 {
        Seq::empty()
    } else {
        escape_text(s.drop_last()) + escape_char(s.last())
    }
}

/// Appends `s` as the body of a string literal, escaped.
fn append_escaped(acc: &mut String, s: &String)
    ensures
        final(acc)@ == old(acc)@ + escape_text(s@),
{
    let n = s.as_str().unicode_len();
    let mut i: usize = 0;
    while i < n
        invariant
            i <= n,
            n == s@.len(),
            acc@ == old(acc)@ + escape_text(s@.subrange(0, i as int)),
        decreases n - i,
    {
        let c = s.as_str().get_char(i);
        if c == '"' || c == '\\' {
            push_char(acc, '\\');
            push_char(acc, c);
        } else if c == '\n' {
            push_char(acc, '\\');
            push_char(acc, 'n');
        } else if c == '\r' {
            push_char(acc, '\\');
            push_char(acc, 'r');
        } else if c == '\t' {
            push_char(acc, '\\');
            push_char(acc, 't');
        } else {
            push_char(acc, c);
        }
        proof {
            let full = s@.subrange(0, i + 1);
            assert(full.drop_last() =~= s@.subrange(0, i as int));
            assert(full.last() == s@[i as int]);
            assert(acc@ =~= old(acc)@ + escape_text(full));
        }
        i = i + 1;
    }
    proof {
        assert(s@.subrange(0, n as int) =~= s@);
        assert(s@.subrange(0, 0) =~= Seq::<char>::empty());
    }
}

/// The construction code emitted for one node, one node kind at a time,
/// one-to-one with the tree: a text node constructs the `Text` variant from
/// its literal; an expression is re-emitted as it stands; an element
/// constructs as `elem_code` says.
pub open spec fn node_code(n: NodeView) -> Seq<char>
    decreases n,
{
    match n {
        NodeView::Text(s) => "::rust_react::ReactNode::Text(\""@ + escape_text(s)
            + "\".to_string())"@,
        NodeView::Expr(s) => s,
        NodeView::Element(e) => elem_code(e),
    }
}

/// The construction code emitted for one element: a fragment constructs a
/// bare `List` of its children and never a tagged element; a host tag and a
/// component construct an `Element` with the placeholder empty properties
/// and their children in order.
pub open spec fn elem_code(e: ElemView) -> Seq<char>
    decreases e,
{
    match e.ty {
        TyView::Fragment => "::rust_react::ReactNode::List(vec!["@ + children_code(e.children)
            + "])"@,
        TyView::TagName(name) => "::rust_react::ReactNode::Element(::rust_react::ReactElement { ty: ::rust_react::ReactElementType::TagName(\""@
            + escape_text(name)
            + "\".to_string()), props: ::rust_react::empty_props(), children: vec!["@
            + children_code(e.children) + "] })"@,
        TyView::Component(path) => "::rust_react::ReactNode::Element(::rust_react::ReactElement { ty: ::rust_react::ReactElementType::Component("@
            + path + "), props: ::rust_react::empty_props(), children: vec!["@ + children_code(
            e.children,
        ) + "] })"@,
    }
}

/// The construction code emitted for a child list, in order, separated by
/// commas.
pub open spec fn children_code(cs: Seq<NodeView>) -> Seq<char>
    decreases cs,
{
    if cs.len() == 0 {
        Seq::empty()
    } else if cs.len() == 1 {
        node_code(cs[0])
    } else {
        children_code(cs.drop_last()) + ", "@ + node_code(cs.last())
    }
}

/// A fragment element always emits a bare `List` wrapping exactly its
/// emitted children, never a tagged element.
pub proof fn lemma_fragment_emits_list(e: ElemView)
    requires
        e.ty is Fragment,
    ensures
        elem_code(e) == "::rust_react::ReactNode::List(vec!["@ + children_code(e.children)
            + "])"@,
{
}

/// Emits the construction code of one node, exactly as `node_code` says.
pub fn emit_node(n: &Node) -> (r: String)
    ensures
        r@ == node_code(node_view(*n)),
    decreases *n,
{
    match n {
        Node::Text(s) => {
            let mut acc = String::from_str("::rust_react::ReactNode::Text(\"");
            append_escaped(&mut acc, s);
            acc.append("\".to_string())");
            proof {
                assert(acc@ =~= node_code(node_view(*n)));
            }
            acc
        },
        Node::Expr(s) => s.clone(),
        Node::Element(e) => emit_element(e),
    }
}

/// Emits the construction code of one element, exactly as `elem_code` says.
pub fn emit_element(e: &ElementNode) -> (r: String)
    ensures
        r@ == elem_code(crate::ast::elem_view(*e)),
    decreases *e,
{
    let ghost ev = crate::ast::elem_view(*e);
    let mut kids = String::new();
    let mut i: usize = 0;
    proof {
        lemma_children_view(e.children@);
        assert(ev.children.subrange(0, 0) =~= Seq::<NodeView>::empty());
    }
    while i < e.children.len()
        invariant
            i <= e.children@.len(),
            ev == crate::ast::elem_view(*e),
            ev.children.len() == e.children@.len(),
            forall|j: int|
                0 <= j < e.children@.len() ==> ev.children[j] == node_view(e.children@[j]),
            kids@ == children_code(ev.children.subrange(0, i as int)),
        decreases e.children@.len() - i,
    {
        if i > 0 {
            kids.append(", ");
        }
        let piece = emit_node(&e.children[i]);
        kids.append(piece.as_str());
        proof {
            let full = ev.children.subrange(0, i + 1);
            assert(full.drop_last() =~= ev.children.subrange(0, i as int));
            assert(full.last() == ev.children[i as int]);
            assert(kids@ =~= children_code(full));
        }
        i = i + 1;
    }
    proof {
        assert(ev.children.subrange(0, e.children@.len() as int) =~= ev.children);
    }
    let mut acc: String;
    match &e.ty {
        ElementType::Fragment => {
            acc = String::from_str("::rust_react::ReactNode::List(vec![");
            acc.append(kids.as_str());
            acc.append("])");
        },
        ElementType::TagName(name) => {
            acc = String::from_str(
                "::rust_react::ReactNode::Element(::rust_react::ReactElement { ty: ::rust_react::ReactElementType::TagName(\"",
            );
            append_escaped(&mut acc, name);
            acc.append("\".to_string()), props: ::rust_react::empty_props(), children: vec![");
            acc.append(kids.as_str());
            acc.append("] })");
        },
        ElementType::Component(path) => {
            acc = String::from_str(
                "::rust_react::ReactNode::Element(::rust_react::ReactElement { ty: ::rust_react::ReactElementType::Component(",
            );
            acc.append(path.as_str());
            acc.append("), props: ::rust_react::empty_props(), children: vec![");
            acc.append(kids.as_str());
            acc.append("] })");
        },
    }
    proof {
        assert(acc@ =~= elem_code(ev));
    }
    acc
}

/// Compiles one DSL invocation: parses the token stream as a single element
/// and emits the equivalent tree-construction code.  The stream must begin
/// a template node with `<`; the errors owed on an empty stream and on any
/// other first token are pinned exactly, and every emitted string is the
/// construction code of a well-formed element node.
pub fn template(tokens: Vec<Token>) -> (r: Result<String, TemplateError>)
    ensures
        match crate::parse::spec_element(tokens@, 0) {
            Result::Ok((nv, k)) => r matches Ok(code) && code@ == node_code(nv)
                && crate::ast::node_wf(nv) && nv is Element,
            Result::Err(e) => r matches Err(err) && err@ == e,
        },
{
    let mut cursor = Cursor::new(tokens);
    let node = match parse_element(&mut cursor) {
        Result::Ok(n) => n,
        Result::Err(e) => {
            return Result::Err(e);
        },
    };
    let code = emit_node(&node);
    Result::Ok(code)
}

} // verus!
