use vstd::prelude::*;

verus! {

/// The declared type of a variable.
#[derive(Debug, Clone, Copy, PartialEq, Eq, Structural)]
pub enum VarType {
    Int,
    String,
    Char { size: usize },
    Float,
}

/// An expression: a literal, a variable, or a condition.
#[derive(Debug)]
pub enum Expression {
    Literal(String),
    Identifier(String),
    BinaryOp { left: Box<Expression>, operator: ComparisonOperator, right: Box<Expression> },
    LogicalOp { left: Box<Expression>, operator: LogicalOperator, right: Box<Expression> },
}

/// Comparison operators of conditions.
#[derive(Debug, Clone, Copy, PartialEq, Eq, Structural)]
pub enum ComparisonOperator {
    Equal,
    NotEqual,
    LessThan,
    LessThanEqual,
    GreaterThan,
    GreaterThanEqual,
}

/// Logical connectives of conditions.
#[derive(Debug, Clone, Copy, PartialEq, Eq, Structural)]
pub enum LogicalOperator {
    And,
    Or,
}

/// The arithmetic of a math statement.
#[derive(Debug, Clone, Copy, PartialEq, Eq, Structural)]
pub enum MathOperator {
    Add,
    Subtract,
    Multiply,
    Divide,
}

/// A statement.
#[derive(Debug)]
pub enum ASTNode {
    /// `@ name type [value]`, or `@ @ name ...` for a mutable variable.
    VarDeclaration { mutable: bool, name: String, var_type: VarType, value: Option<Expression> },
    /// `.. name` or `> name`.
    Input { name: String },
    /// `>> text` (standard output) or `>>> text` (standard error).
    Print { to_stderr: bool, expr: Option<Expression> },
    /// `* name op operand`.
    MathOp { name: String, operator: MathOperator, operand: Expression },
    /// `? (condition) { body }`.
    If { condition: Expression, body: Vec<ASTNode> },
}

/// A whole program.
#[derive(Debug)]
pub enum AST {
    Program(Vec<ASTNode>),
}

impl AST {
    pub open spec fn nodes(&self) -> Seq<ASTNode> {
        match self {
            AST::Program(v) => v@,
        }
    }
}

/// A copy of `e`.
pub fn copy_expr(e: &Expression) -> (r: Expression)
    ensures
        r == *e,
    decreases e,
{
    match e {
        Expression::Literal(s) => Expression::Literal(s.clone()),
        Expression::Identifier(s) => Expression::Identifier(s.clone()),
        Expression::BinaryOp { left, operator, right } => Expression::BinaryOp {
            left: Box::new(copy_expr(left)),
            operator: *operator,
            right: Box::new(copy_expr(right)),
        },
        Expression::LogicalOp { left, operator, right } => Expression::LogicalOp {
            left: Box::new(copy_expr(left)),
            operator: *operator,
            right: Box::new(copy_expr(right)),
        },
    }
}

/// A copy of `e`.
pub fn copy_opt_expr(e: &Option<Expression>) -> (r: Option<Expression>)
    ensures
        r == *e,
{
    match e {
        Some(x) => Some(copy_expr(x)),
        None => None,
    }
}

/// A copy of `n`.
pub fn copy_node(n: &ASTNode) -> (r: ASTNode)
    ensures
        node_view(r) == node_view(*n),
    decreases n,
{
    match n {
        ASTNode::VarDeclaration { mutable, name, var_type, value } => {
            ASTNode::VarDeclaration {
                mutable: *mutable,
                name: name.clone(),
                var_type: *var_type,
                value: copy_opt_expr(value),
            }
        },
        ASTNode::Input { name } => ASTNode::Input { name: name.clone() },
        ASTNode::Print { to_stderr, expr } => ASTNode::Print {
            to_stderr: *to_stderr,
            expr: copy_opt_expr(expr),
        },
        ASTNode::MathOp { name, operator, operand } => ASTNode::MathOp {
            name: name.clone(),
            operator: *operator,
            operand: copy_expr(operand),
        },
        ASTNode::If { condition, body } => {
            let mut out: Vec<ASTNode> = Vec::new();
            let mut i: usize = 0;
            assert(decreases_to!(*n => *body));
            while i < body.len()
                invariant
                    decreases_to!(*n => *body),
                    i <= body@.len(),
                    out@.len() == i,
                    forall|j: int| 0 <= j < i ==> node_view(#[trigger] out@[j]) == node_view(body@[j]),
                decreases body@.len() - i,
            {
                proof {
                    assert(decreases_to!(*body => body[i as int]));
                }
                out.push(copy_node(&body[i]));
                i += 1;
            }
            let r = ASTNode::If { condition: copy_expr(condition), body: out };
            proof {
                if let NodeV::If { body: b1, .. } = node_view(r) {
                    if let NodeV::If { body: b2, .. } = node_view(*n) {
                        assert(b1 =~= b2);
                    }
                }
            }
            r
        },
    }
}

impl Clone for Expression {
    fn clone(&self) -> (r: Self)
        ensures
            r == *self,
    {
        copy_expr(self)
    }
}

impl Clone for ASTNode {
    fn clone(&self) -> (r: Self)
        ensures
            node_view(r) == node_view(*self),
    {
        copy_node(self)
    }
}

} // verus!

verus! {

/// The mathematical value of an expression.
pub enum ExprV {
    Literal(Seq<char>),
    Identifier(Seq<char>),
    BinaryOp { left: Box<ExprV>, operator: ComparisonOperator, right: Box<ExprV> },
    LogicalOp { left: Box<ExprV>, operator: LogicalOperator, right: Box<ExprV> },
}

/// The mathematical value of a statement.
pub enum NodeV {
    VarDeclaration { mutable: bool, name: Seq<char>, var_type: VarType, value: Option<ExprV> },
    Input { name: Seq<char> },
    Print { to_stderr: bool, expr: Option<ExprV> },
    MathOp { name: Seq<char>, operator: MathOperator, operand: ExprV },
    If { condition: ExprV, body: Seq<NodeV> },
}

pub open spec fn expr_view(e: Expression) -> ExprV
    decreases e,
{
    match e {
        Expression::Literal(s) => ExprV::Literal(s@),
        Expression::Identifier(s) => ExprV::Identifier(s@),
        Expression::BinaryOp { left, operator, right } => ExprV::BinaryOp {
            left: Box::new(expr_view(*left)),
            operator,
            right: Box::new(expr_view(*right)),
        },
        Expression::LogicalOp { left, operator, right } => ExprV::LogicalOp {
            left: Box::new(expr_view(*left)),
            operator,
            right: Box::new(expr_view(*right)),
        },
    }
}

pub open spec fn opt_view(e: Option<Expression>) -> Option<ExprV> {
    match e {
        Some(e) => Some(expr_view(e)),
        None => None,
    }
}

pub open spec fn node_view(n: ASTNode) -> NodeV
    decreases n,
    via node_view_decreases
{
    match n {
        ASTNode::VarDeclaration { mutable, name, var_type, value } => NodeV::VarDeclaration {
            mutable,
            name: name@,
            var_type,
            value: match value {
                Some(e) => Some(expr_view(e)),
                None => None,
            },
        },
        ASTNode::Input { name } => NodeV::Input { name: name@ },
        ASTNode::Print { to_stderr, expr } => NodeV::Print {
            to_stderr,
            expr: match expr {
                Some(e) => Some(expr_view(e)),
                None => None,
            },
        },
        ASTNode::MathOp { name, operator, operand } => NodeV::MathOp {
            name: name@,
            operator,
            operand: expr_view(operand),
        },
        ASTNode::If { condition, body } => NodeV::If {
            condition: expr_view(condition),
            body: Seq::new(
                body@.len(),
                |i: int|
                    if 0 <= i < body@.len() {
                        node_view(body@[i])
                    } else {
                        NodeV::Input { name: Seq::empty() }
                    },
            ),
        },
    }
}

#[via_fn]
proof fn node_view_decreases(n: ASTNode) {
    match n {
        ASTNode::If { condition, body } => {
            assert forall|i: int| 0 <= i < body@.len() implies decreases_to!(n => body@[i]) by {
                assert(decreases_to!(body => body@));
            }
        },
        _ => {},
    }
}

} // verus!
