//! The syntax tree of a formula.
use vstd::prelude::*;
use crate::number::Number;

verus! {

/// The operators with two operands.
#[derive(Clone, Copy, Debug, PartialEq, Eq, Structural)]
pub enum BinaryOp {
    /// Bitwise and, of integers.
    And,
    /// Bitwise or, of integers.
    Or,
    /// The left operand with its bits moved up by the right operand.
    LeftShift,
    /// The left operand with its bits moved down by the right operand.
    RightShift,
    Add,
    Subtract,
    Multiply,
    Divide,
    Modulo,
    Atan2,
    /// `Root(n, x)` is the `n`-th root of `x`.
    Root,
    Pow,
    /// `Log(x, b)` is the logarithm of `x` to the base `b`.
    Log,
    ILog,
}

/// The operators with one operand.
#[derive(Clone, Copy, Debug, PartialEq, Eq, Structural)]
pub enum UnaryOp {
    Negative,
    Factorial,
    Abs,
    Floor,
    Ceil,
    Round,
    Sin,
    Cos,
    Tan,
    Sinh,
    Cosh,
    Tanh,
    Arsinh,
    Arcosh,
    Artanh,
    Asin,
    Acos,
    Atan,
    Sqrt,
    Ln,
    Lb,
    Exp,
    Exp2,
    Truncate,
    Sign,
    LambertW,
}

/// The reducers over a list of operands.
#[derive(Clone, Copy, Debug, PartialEq, Eq, Structural)]
pub enum VariadicOp {
    Min,
    Max,
    Avg,
    Med,
    /// The greatest common divisor, of integers.
    Gcd,
    /// The least common multiple, of integers.
    Lcm,
}

/// A formula as a tree. A parent owns its children; nothing is shared and
/// nothing changes after construction.
#[derive(Debug, PartialEq)]
pub enum Node {
    Binary(BinaryOp, Box<Node>, Box<Node>),
    Unary(UnaryOp, Box<Node>),
    Variadic(VariadicOp, Vec<Node>),
    /// A number: an integer literal, a named constant or the placeholder.
    Num(Number),
    /// A decimal literal as it was written.
    Decimal(String),
}

/// The mathematical value of a `Node`.
pub enum Expr {
    Binary(BinaryOp, Box<Expr>, Box<Expr>),
    Unary(UnaryOp, Box<Expr>),
    Variadic(VariadicOp, Seq<Expr>),
    Num(Number),
    Decimal(Seq<char>),
}

impl Node {
    /// The tree that this node is the root of.
    pub open spec fn expr(&self) -> Expr
        decreases self,
    {
        match self {
            Node::Binary(op, left, right) => Expr::Binary(
                *op,
                Box::new(left.expr()),
                Box::new(right.expr()),
            ),
            Node::Unary(op, operand) => Expr::Unary(*op, Box::new(operand.expr())),
            Node::Variadic(op, args) => Expr::Variadic(
                *op,
                Seq::new(
                    args.len() as nat,
                    |i: int|
                        if 0 <= i < args.len() {
                            args[i].expr()
                        } else {
                            Expr::Num(Number::Integer(0))
                        },
                ),
            ),
            Node::Num(n) => Expr::Num(*n),
            Node::Decimal(text) => Expr::Decimal(text@),
        }
    }

    /// A copy of the whole tree.
    pub fn duplicate(&self) -> (copy: Node)
        ensures
            copy.expr() == self.expr(),
        decreases self,
    {
        match self {
            Node::Binary(op, left, right) => Node::Binary(
                *op,
                Box::new(left.duplicate()),
                Box::new(right.duplicate()),
            ),
            Node::Unary(op, operand) => Node::Unary(*op, Box::new(operand.duplicate())),
            Node::Variadic(op, args) => {
                let mut copies: Vec<Node> = Vec::new();
                let mut i: usize = 0;
                while i < args.len()
                    invariant
                        i <= args.len(),
                        copies.len() == i,
                        forall|k: int| 0 <= k < i ==> (#[trigger] copies[k]).expr() == args[k].expr(),
                        self is Variadic,
                        self->Variadic_1 == *args,
                    decreases args.len() - i,
                {
                    let arg = &args[i];
                    proof {
                        assert(decreases_to!(self => args[i as int]));
                    }
                    copies.push(arg.duplicate());
                    i = i + 1;
                }
                let copy = Node::Variadic(*op, copies);
                proof {
                    lemma_variadic_expr(*op, copies);
                    lemma_variadic_expr(*op, *args);
                    assert(copy.expr()->Variadic_1 =~= self.expr()->Variadic_1);
                }
                copy
            },
            Node::Num(n) => Node::Num(*n),
            Node::Decimal(text) => Node::Decimal(text.clone()),
        }
    }
}

impl Clone for Node {
    fn clone(&self) -> (copy: Self)
        ensures
            copy@ == self@,
    {
        self.duplicate()
    }
}

impl View for Node {
    type V = Expr;

    open spec fn view(&self) -> Expr {
        self.expr()
    }
}

/// The tree of a reducer holds the trees of its operands, in their order.
pub proof fn lemma_variadic_expr(op: VariadicOp, args: Vec<Node>)
    ensures
        Node::Variadic(op, args).expr() is Variadic,
        Node::Variadic(op, args).expr()->Variadic_0 == op,
        Node::Variadic(op, args).expr()->Variadic_1 == exprs(args@),
{
    assert(Node::Variadic(op, args).expr()->Variadic_1 =~= exprs(args@));
}

/// The trees of a list of nodes.
pub open spec fn exprs(nodes: Seq<Node>) -> Seq<Expr> {
    Seq::new(
        nodes.len(),
        |i: int|
            if 0 <= i < nodes.len() {
                nodes[i].expr()
            } else {
                Expr::Num(Number::Integer(0))
            },
    )
}

} // verus!
