//! The expression tree that the parser builds and the code generator walks.

use vstd::prelude::*;
use vstd::string::StringExecFns;
use crate::decimal::{decimal_text, push_decimal};

verus! {

/// What a node is: a number, or one of the four operations on two subtrees.
/// In each operation the first subtree is the left operand.
#[derive(Debug)]
pub enum NodeType {
    Number(i32),
    Add(Box<Node>, Box<Node>),
    Sub(Box<Node>, Box<Node>),
    Mul(Box<Node>, Box<Node>),
    Div(Box<Node>, Box<Node>),
}

/// A node of an expression tree. It owns its subtrees.
#[derive(Debug)]
pub struct Node {
    pub ty: NodeType,
}

impl PartialEq for NodeType {
    /// Two node types are equal when they are the same variant and hold equal
    /// numbers or equal subtrees.
    fn eq(&self, other: &NodeType) -> (r: bool)
        decreases self,
    {
        match self {
            NodeType::Number(n) => match other {
                NodeType::Number(o) => *n == *o,
                _ => false,
            },
            NodeType::Add(l, r) => match other {
                NodeType::Add(ol, or) => **l == **ol && **r == **or,
                _ => false,
            },
            NodeType::Sub(l, r) => match other {
                NodeType::Sub(ol, or) => **l == **ol && **r == **or,
                _ => false,
            },
            NodeType::Mul(l, r) => match other {
                NodeType::Mul(ol, or) => **l == **ol && **r == **or,
                _ => false,
            },
            NodeType::Div(l, r) => match other {
                NodeType::Div(ol, or) => **l == **ol && **r == **or,
                _ => false,
            },
        }
    }
}

impl vstd::std_specs::cmp::PartialEqSpecImpl for NodeType {
    open spec fn obeys_eq_spec() -> bool {
        true
    }

    open spec fn eq_spec(&self, other: &NodeType) -> bool {
        *self == *other
    }
}

impl PartialEq for Node {
    /// Two nodes are equal when their types are.
    fn eq(&self, other: &Node) -> (r: bool)
        decreases self,
    {
        self.ty == other.ty
    }
}

impl vstd::std_specs::cmp::PartialEqSpecImpl for Node {
    open spec fn obeys_eq_spec() -> bool {
        true
    }

    open spec fn eq_spec(&self, other: &Node) -> bool {
        *self == *other
    }
}

impl NodeType {
    /// How the node type is shown: the name of the variant, then the number,
    /// or the two operands with the sign of the operation between them.
    pub open spec fn display(self) -> Seq<char>
        decreases self,
    {
        match self {
            NodeType::Number(n) => "Number "@ + decimal_text(n as int),
            NodeType::Add(l, r) => "Add "@ + l.display() + " + "@ + r.display(),
            NodeType::Sub(l, r) => "Sub "@ + l.display() + " - "@ + r.display(),
            NodeType::Mul(l, r) => "Mul "@ + l.display() + " * "@ + r.display(),
            NodeType::Div(l, r) => "Div "@ + l.display() + " / "@ + r.display(),
        }
    }

    /// Shows the node type as text.
    pub fn to_text(&self) -> (s: String)
        ensures
            s@ == self.display(),
        decreases self,
    {
        match self {
            NodeType::Number(n) => {
                let mut s = String::from_str("Number ");
                push_decimal(&mut s, *n);
                s
            },
            NodeType::Add(l, r) => {
                let mut s = String::from_str("Add ");
                s.append(l.to_text().as_str());
                s.append(" + ");
                s.append(r.to_text().as_str());
                s
            },
            NodeType::Sub(l, r) => {
                let mut s = String::from_str("Sub ");
                s.append(l.to_text().as_str());
                s.append(" - ");
                s.append(r.to_text().as_str());
                s
            },
            NodeType::Mul(l, r) => {
                let mut s = String::from_str("Mul ");
                s.append(l.to_text().as_str());
                s.append(" * ");
                s.append(r.to_text().as_str());
                s
            },
            NodeType::Div(l, r) => {
                let mut s = String::from_str("Div ");
                s.append(l.to_text().as_str());
                s.append(" / ");
                s.append(r.to_text().as_str());
                s
            },
        }
    }
}

impl Node {
    /// How the node is shown: its type, in parentheses.
    pub open spec fn display(self) -> Seq<char>
        decreases self,
    {
        "(type = "@ + self.ty.display() + ")"@
    }

    /// Shows the node as text.
    pub fn to_text(&self) -> (s: String)
        ensures
            s@ == self.display(),
        decreases self,
    {
        let mut s = String::from_str("(type = ");
        s.append(self.ty.to_text().as_str());
        s.append(")");
        s
    }

    /// The leaf that holds `n`.
    pub open spec fn number(n: i32) -> Node {
        Node { ty: NodeType::Number(n) }
    }

    /// The sum of two subtrees.
    pub open spec fn sum(l: Node, r: Node) -> Node {
        Node { ty: NodeType::Add(Box::new(l), Box::new(r)) }
    }

    /// The difference of two subtrees: `l` less `r`.
    pub open spec fn difference(l: Node, r: Node) -> Node {
        Node { ty: NodeType::Sub(Box::new(l), Box::new(r)) }
    }

    /// The product of two subtrees.
    pub open spec fn product(l: Node, r: Node) -> Node {
        Node { ty: NodeType::Mul(Box::new(l), Box::new(r)) }
    }

    /// The quotient of two subtrees: `l` divided by `r`.
    pub open spec fn quotient(l: Node, r: Node) -> Node {
        Node { ty: NodeType::Div(Box::new(l), Box::new(r)) }
    }
}

} // verus!
