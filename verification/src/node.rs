//! Synthetic statement trees in the shape the build engine executes.

use vstd::prelude::*;
use crate::token::equal_token;
use crate::token::identifier_token;
use crate::token::boolean_token;
use crate::token::left_brace_token;
use crate::token::right_brace_token;
use crate::token::string_token;
use crate::token::Token;
use crate::token::TokenModel;

verus! {

/// One fragment of the engine's statement tree, built by program rather than parsed.
#[derive(Debug, PartialEq, Eq)]
pub enum SyntheticNode {
    /// A name, as on the left of an assignment.
    Identifier(Token),
    /// A boolean or string literal.
    Literal(Token),
    /// A list of items, in order.
    List(Vec<SyntheticNode>),
    /// `left op right`, where `op` is the assignment operator.
    BinaryAssign { op: Token, left: Box<SyntheticNode>, right: Box<SyntheticNode> },
    /// The closing delimiter of a block.
    End(Token),
    /// A delimited sequence of statements whose results are discarded.
    Block { begin: Token, statements: Vec<SyntheticNode>, end: Box<SyntheticNode> },
    /// A call of `function` on `args`, with an optional body.
    FunctionCall { function: Token, args: Box<SyntheticNode>, block: Option<Box<SyntheticNode>> },
}

/// The mathematical value of a [`SyntheticNode`].
pub enum NodeModel {
    Identifier(TokenModel),
    Literal(TokenModel),
    List(Seq<NodeModel>),
    BinaryAssign { op: TokenModel, left: Box<NodeModel>, right: Box<NodeModel> },
    End(TokenModel),
    Block { begin: TokenModel, statements: Seq<NodeModel>, end: Box<NodeModel> },
    FunctionCall { function: TokenModel, args: Box<NodeModel>, block: Option<Box<NodeModel>> },
}

impl SyntheticNode {
    /// The mathematical value of this tree: tokens by their views, children in order.
    pub open spec fn model(self) -> NodeModel
        decreases self,
    {
        match self {
            SyntheticNode::Identifier(token) => NodeModel::Identifier(token@),
            SyntheticNode::Literal(token) => NodeModel::Literal(token@),
            SyntheticNode::List(items) => NodeModel::List(
                Seq::new(
                    items.len() as nat,
                    |i: int|
                        if 0 <= i < items.len() {
                            items[i].model()
                        } else {
                            arbitrary()
                        },
                ),
            ),
            SyntheticNode::BinaryAssign { op, left, right } => NodeModel::BinaryAssign {
                op: op@,
                left: Box::new((*left).model()),
                right: Box::new((*right).model()),
            },
            SyntheticNode::End(token) => NodeModel::End(token@),
            SyntheticNode::Block { begin, statements, end } => NodeModel::Block {
                begin: begin@,
                statements: Seq::new(
                    statements.len() as nat,
                    |i: int|
                        if 0 <= i < statements.len() {
                            statements[i].model()
                        } else {
                            arbitrary()
                        },
                ),
                end: Box::new((*end).model()),
            },
            SyntheticNode::FunctionCall { function, args, block } => NodeModel::FunctionCall {
                function: function@,
                args: Box::new((*args).model()),
                block: match block {
                    Some(body) => Some(Box::new((*body).model())),
                    None => None,
                },
            },
        }
    }
}

impl View for SyntheticNode {
    type V = NodeModel;

    open spec fn view(&self) -> NodeModel {
        self.model()
    }
}

/// The values of the trees of `nodes`, in order.
pub open spec fn models(nodes: Seq<SyntheticNode>) -> Seq<NodeModel> {
    nodes.map_values(|node: SyntheticNode| node@)
}

/// The identifier node that spells `name`.
pub open spec fn identifier_node(name: Seq<char>) -> NodeModel {
    NodeModel::Identifier(identifier_token(name))
}

/// The literal node for the string `content`, re-quoted and not escaped.
pub open spec fn string_node(content: Seq<char>) -> NodeModel {
    NodeModel::Literal(string_token(content))
}

/// The literal node for a boolean.
pub open spec fn boolean_node(value: bool) -> NodeModel {
    NodeModel::Literal(boolean_token(value))
}

/// The list node whose children are the string literals of `items`, in order.
pub open spec fn string_list_node(items: Seq<Seq<char>>) -> NodeModel {
    NodeModel::List(items.map_values(|content: Seq<char>| string_node(content)))
}

/// The statement `key = value`.
pub open spec fn assignment_node(key: Seq<char>, value: NodeModel) -> NodeModel {
    NodeModel::BinaryAssign {
        op: equal_token(),
        left: Box::new(identifier_node(key)),
        right: Box::new(value),
    }
}

/// The statements between an opening and a closing brace.
pub open spec fn block_node(statements: Seq<NodeModel>) -> NodeModel {
    NodeModel::Block {
        begin: left_brace_token(),
        statements,
        end: Box::new(NodeModel::End(right_brace_token())),
    }
}

/// The call `function_name("argument")`, with `block` as its body where there is one.
pub open spec fn call_node(
    function_name: Seq<char>,
    argument: Seq<char>,
    block: Option<NodeModel>,
) -> NodeModel {
    NodeModel::FunctionCall {
        function: identifier_token(function_name),
        args: Box::new(NodeModel::List(seq![string_node(argument)])),
        block: match block {
            Some(body) => Some(Box::new(body)),
            None => None,
        },
    }
}

impl SyntheticNode {
    /// Makes the identifier node that spells `name`.
    pub fn identifier(name: &str) -> (node: SyntheticNode)
        ensures
            node@ == identifier_node(name@),
    {
        SyntheticNode::Identifier(Token::identifier(name))
    }

    /// Makes the literal node for the string `content`.
    pub fn string_literal(content: &str) -> (node: SyntheticNode)
        ensures
            node@ == string_node(content@),
    {
        SyntheticNode::Literal(Token::string_literal(content))
    }

    /// Makes the literal node for a boolean.
    pub fn boolean(value: bool) -> (node: SyntheticNode)
        ensures
            node@ == boolean_node(value),
    {
        SyntheticNode::Literal(Token::boolean(value))
    }

    /// Makes the list node with the given children.
    pub fn list(items: Vec<SyntheticNode>) -> (node: SyntheticNode)
        ensures
            node@ == NodeModel::List(models(items@)),
    {
        let node = SyntheticNode::List(items);
        assert(node@->List_0 =~= models(items@));
        node
    }

    /// Makes the statement `key = value`.
    pub fn assignment(key: &str, value: SyntheticNode) -> (node: SyntheticNode)
        ensures
            node@ == assignment_node(key@, value@),
    {
        SyntheticNode::BinaryAssign {
            op: Token::equal(),
            left: Box::new(SyntheticNode::identifier(key)),
            right: Box::new(value),
        }
    }

    /// Wraps `statements` between an opening and a closing brace.
    pub fn block(statements: Vec<SyntheticNode>) -> (node: SyntheticNode)
        ensures
            node@ == block_node(models(statements@)),
    {
        let ghost given = statements@;
        let end = SyntheticNode::End(Token::right_brace());
        assert(end@ == NodeModel::End(right_brace_token()));
        let node = SyntheticNode::Block { begin: Token::left_brace(), statements, end: Box::new(end) };
        assert(node@->Block_statements =~= models(given));
        node
    }

    /// Makes the call `function_name("argument")`, with `block` as its body where there is one.
    pub fn call(function_name: &str, argument: &str, block: Option<SyntheticNode>) -> (node:
        SyntheticNode)
        ensures
            node@ == call_node(
                function_name@,
                argument@,
                match block {
                    Some(body) => Some(body@),
                    None => None,
                },
            ),
    {
        let mut items: Vec<SyntheticNode> = Vec::new();
        items.push(SyntheticNode::string_literal(argument));
        assert(models(items@) =~= seq![string_node(argument@)]);
        let args = SyntheticNode::list(items);
        let body = match block {
            Some(body) => Some(Box::new(body)),
            None => None,
        };
        SyntheticNode::FunctionCall {
            function: Token::identifier(function_name),
            args: Box::new(args),
            block: body,
        }
    }
}

} // verus!
