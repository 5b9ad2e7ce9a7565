//! One vertex of the computation graph: the value of a tracked tensor, the
//! gradient accumulated for it, and how the value came about.

use vstd::prelude::*;
use crate::numeric::Numeric;
use crate::shape::Shape;

verus! {

/// Identifies a node within its graph. Identifiers are handed out in creation
/// order and never used twice.
pub type NodeId = usize;

/// The values of a sequence of tensors.
pub open spec fn models<T: Numeric>(s: Seq<T>) -> Seq<T::Model> {
    s.map_values(|t: T| t.model())
}

/// How the adjoint of a one-operand operation's result becomes the partial
/// adjoint of its operand.
#[derive(Clone, Copy, Debug)]
pub enum UnaryRule {
    /// The result is the negated operand.
    Neg,
    /// The result is the operand under another shape; the rule holds the
    /// operand's shape.
    Reshape(Shape),
    /// The result is the sum of the operand's elements. Captures a tensor of
    /// ones in the operand's shape.
    Sum,
    /// The result follows the operand where a captured mask is one and is
    /// constant where the mask is zero.
    Gate,
}

/// How the adjoint of a two-operand operation's result becomes the partial
/// adjoints of its operands.
#[derive(Clone, Copy, Debug)]
pub enum BinaryRule {
    /// Elementwise sum.
    Add,
    /// Elementwise difference.
    Sub,
    /// Elementwise product. Captures both operands.
    Mul,
    /// Matrix product. Captures both operands.
    MatMul,
}

impl UnaryRule {
    /// Whether the rule can be applied to an adjoint of shape `df` with the
    /// captured `args`.
    pub open spec fn defined<T: Numeric>(self, df: Shape, args: Seq<T::Model>) -> bool {
        match self {
            UnaryRule::Neg => true,
            UnaryRule::Reshape(shape) => shape.numel() == df.numel(),
            UnaryRule::Sum => args.len() == 1 && df == Shape::scalar(),
            UnaryRule::Gate => args.len() == 1 && T::shape_of(args[0]) == df,
        }
    }

    /// The partial adjoint of the operand.
    pub open spec fn partial<T: Numeric>(self, df: T::Model, args: Seq<T::Model>) -> T::Model {
        match self {
            UnaryRule::Neg => T::neg_model(df),
            UnaryRule::Reshape(shape) => T::reshape_model(df, shape),
            UnaryRule::Sum => T::scale_model(args[0], df),
            UnaryRule::Gate => T::mul_model(df, args[0]),
        }
    }

    /// The shape of the partial adjoint, which is the operand's shape.
    pub open spec fn partial_shape<T: Numeric>(self, df: Shape, args: Seq<T::Model>) -> Shape {
        match self {
            UnaryRule::Neg => df,
            UnaryRule::Reshape(shape) => shape,
            UnaryRule::Sum => T::shape_of(args[0]),
            UnaryRule::Gate => df,
        }
    }
}

impl BinaryRule {
    /// Whether the rule can be applied to an adjoint of shape `df` with the
    /// captured `args`.
    pub open spec fn defined<T: Numeric>(self, df: Shape, args: Seq<T::Model>) -> bool {
        match self {
            BinaryRule::Add => true,
            BinaryRule::Sub => true,
            BinaryRule::Mul => {
                &&& args.len() == 2
                &&& T::shape_of(args[0]) == df
                &&& T::shape_of(args[1]) == df
            },
            BinaryRule::MatMul => {
                &&& args.len() == 2
                &&& df.matmul_ok(T::shape_of(args[1]), false, true)
                &&& T::shape_of(args[0]).matmul_ok(df, true, false)
            },
        }
    }

    /// The partial adjoints of the first and of the second operand.
    pub open spec fn partials<T: Numeric>(self, df: T::Model, args: Seq<T::Model>) -> (
        T::Model,
        T::Model,
    ) {
        match self {
            BinaryRule::Add => (df, df),
            BinaryRule::Sub => (df, T::neg_model(df)),
            BinaryRule::Mul => (T::mul_model(df, args[1]), T::mul_model(df, args[0])),
            BinaryRule::MatMul => (
                T::matmul_model(df, args[1], false, true),
                T::matmul_model(args[0], df, true, false),
            ),
        }
    }

    /// The shapes of the two partial adjoints, which are the operands' shapes.
    pub open spec fn partial_shapes<T: Numeric>(self, df: Shape, args: Seq<T::Model>) -> (
        Shape,
        Shape,
    ) {
        match self {
            BinaryRule::Add => (df, df),
            BinaryRule::Sub => (df, df),
            BinaryRule::Mul => (df, df),
            BinaryRule::MatMul => (
                df.matmul_shape(T::shape_of(args[1]), false, true),
                T::shape_of(args[0]).matmul_shape(df, true, false),
            ),
        }
    }
}

/// Which operands of a two-operand operation are tracked.
#[derive(Clone, Copy, Debug)]
pub enum BinaryParams {
    /// Both operands are tracked.
    VarVar(NodeId, NodeId),
    /// Only the first operand is tracked.
    VarConst(NodeId),
    /// Only the second operand is tracked.
    ConstVar(NodeId),
}

impl BinaryParams {
    /// Whether the node is one of the tracked operands.
    pub open spec fn names(self, a: NodeId) -> bool {
        match self {
            BinaryParams::VarVar(x, y) => a == x || a == y,
            BinaryParams::VarConst(x) => a == x,
            BinaryParams::ConstVar(y) => a == y,
        }
    }
}

/// A one-operand operation as recorded in the graph.
#[derive(Debug)]
pub struct UnaryOp<T> {
    ancestor: NodeId,
    rule: UnaryRule,
    args: Vec<T>,
}

/// A two-operand operation as recorded in the graph.
#[derive(Debug)]
pub struct BinaryOp<T> {
    ancestors: BinaryParams,
    rule: BinaryRule,
    args: Vec<T>,
}

/// How a node came about.
#[derive(Debug)]
pub enum Origin<T> {
    /// A fresh tracked tensor that depends on nothing.
    Declaration,
    /// The result of a one-operand operation.
    Unary(UnaryOp<T>),
    /// The result of a two-operand operation with at least one tracked operand.
    Binary(BinaryOp<T>),
}

/// The mathematical content of an [`Origin`].
#[allow(inconsistent_fields)]
pub enum OriginModel<M> {
    Declaration,
    Unary { ancestor: NodeId, rule: UnaryRule, args: Seq<M> },
    Binary { ancestors: BinaryParams, rule: BinaryRule, args: Seq<M> },
}

impl<M> OriginModel<M> {
    /// Whether the node `a` is an operand of the operation.
    pub open spec fn names(self, a: NodeId) -> bool {
        match self {
            OriginModel::Declaration => false,
            OriginModel::Unary { ancestor, .. } => a == ancestor,
            OriginModel::Binary { ancestors, .. } => ancestors.names(a),
        }
    }
}

/// The mathematical content of a [`Node`].
pub struct NodeModel<M> {
    pub id: NodeId,
    pub data: M,
    pub grad: M,
    pub origin: OriginModel<M>,
}

/// What one node hands to its operands during the backward pass.
pub enum Partials<M> {
    /// The node is a declaration and has no operands.
    Nothing,
    /// One tracked operand and its partial adjoint.
    One(NodeId, M),
    /// Two tracked operands and their partial adjoints, first operand first.
    Two(NodeId, M, NodeId, M),
}

impl<M> NodeModel<M> {
    /// Whether the node can take part in a backward pass: its gradient has the
    /// shape of its value, and its reverse rule applies to an adjoint of that
    /// shape.
    pub open spec fn sound<T: Numeric<Model = M>>(self) -> bool {
        &&& T::shape_of(self.grad) == T::shape_of(self.data)
        &&& match self.origin {
            OriginModel::Declaration => true,
            OriginModel::Unary { ancestor, rule, args } => rule.defined::<T>(
                T::shape_of(self.data),
                args,
            ),
            OriginModel::Binary { ancestors, rule, args } => rule.defined::<T>(
                T::shape_of(self.data),
                args,
            ),
        }
    }

    /// The partial adjoints that the node's reverse rule yields from the node's
    /// current gradient, each with the operand it belongs to.
    pub open spec fn reverse<T: Numeric<Model = M>>(self) -> Partials<M> {
        match self.origin {
            OriginModel::Declaration => Partials::Nothing,
            OriginModel::Unary { ancestor, rule, args } => Partials::One(
                ancestor,
                rule.partial::<T>(self.grad, args),
            ),
            OriginModel::Binary { ancestors, rule, args } => {
                let p = rule.partials::<T>(self.grad, args);
                match ancestors {
                    BinaryParams::VarVar(a, b) => Partials::Two(a, p.0, b, p.1),
                    BinaryParams::VarConst(a) => Partials::One(a, p.0),
                    BinaryParams::ConstVar(b) => Partials::One(b, p.1),
                }
            },
        }
    }

    /// The shapes of the partial adjoints of [`NodeModel::reverse`].
    pub open spec fn reverse_shapes<T: Numeric<Model = M>>(self) -> Partials<Shape> {
        match self.origin {
            OriginModel::Declaration => Partials::Nothing,
            OriginModel::Unary { ancestor, rule, args } => Partials::One(
                ancestor,
                rule.partial_shape::<T>(T::shape_of(self.data), args),
            ),
            OriginModel::Binary { ancestors, rule, args } => {
                let p = rule.partial_shapes::<T>(T::shape_of(self.data), args);
                match ancestors {
                    BinaryParams::VarVar(a, b) => Partials::Two(a, p.0, b, p.1),
                    BinaryParams::VarConst(a) => Partials::One(a, p.0),
                    BinaryParams::ConstVar(b) => Partials::One(b, p.1),
                }
            },
        }
    }
}

/// The values of the partial adjoints.
pub open spec fn partials_model<T: Numeric>(p: Partials<T>) -> Partials<T::Model> {
    match p {
        Partials::Nothing => Partials::Nothing,
        Partials::One(a, x) => Partials::One(a, x.model()),
        Partials::Two(a, x, b, y) => Partials::Two(a, x.model(), b, y.model()),
    }
}

/// The shapes of the partial adjoints.
pub open spec fn partials_shapes<T: Numeric>(p: Partials<T>) -> Partials<Shape> {
    match p {
        Partials::Nothing => Partials::Nothing,
        Partials::One(a, x) => Partials::One(a, T::shape_of(x.model())),
        Partials::Two(a, x, b, y) => Partials::Two(
            a,
            T::shape_of(x.model()),
            b,
            T::shape_of(y.model()),
        ),
    }
}

impl<T: Numeric> UnaryOp<T> {
    /// Computes the partial adjoint of the operand from the adjoint `df` of the
    /// result.
    fn reverse(&self, df: &T) -> (r: T)
        requires
            self.rule.defined::<T>(T::shape_of(df.model()), models(self.args@)),
        ensures
            r.model() == self.rule.partial::<T>(df.model(), models(self.args@)),
            T::shape_of(r.model()) == self.rule.partial_shape::<T>(
                T::shape_of(df.model()),
                models(self.args@),
            ),
    {
        match self.rule {
            UnaryRule::Neg => df.neg(),
            UnaryRule::Reshape(shape) => df.reshape(shape),
            UnaryRule::Sum => self.args[0].scale(df),
            UnaryRule::Gate => df.mul(&self.args[0]),
        }
    }
}

impl<T: Numeric> BinaryOp<T> {
    /// Computes the partial adjoints of both operands from the adjoint `df` of
    /// the result.
    fn reverse(&self, df: &T) -> (r: (T, T))
        requires
            self.rule.defined::<T>(T::shape_of(df.model()), models(self.args@)),
        ensures
            (r.0.model(), r.1.model()) == self.rule.partials::<T>(df.model(), models(self.args@)),
            (T::shape_of(r.0.model()), T::shape_of(r.1.model())) == self.rule.partial_shapes::<T>(
                T::shape_of(df.model()),
                models(self.args@),
            ),
    {
        match self.rule {
            BinaryRule::Add => (df.duplicate(), df.duplicate()),
            BinaryRule::Sub => (df.duplicate(), df.neg()),
            BinaryRule::Mul => (df.mul(&self.args[1]), df.mul(&self.args[0])),
            BinaryRule::MatMul => (
                df.matmul(&self.args[1], false, true),
                self.args[0].matmul(df, true, false),
            ),
        }
    }
}

impl<T: Numeric> View for Origin<T> {
    type V = OriginModel<T::Model>;

    closed spec fn view(&self) -> OriginModel<T::Model> {
        match self {
            Origin::Declaration => OriginModel::Declaration,
            Origin::Unary(op) => OriginModel::Unary {
                ancestor: op.ancestor,
                rule: op.rule,
                args: models(op.args@),
            },
            Origin::Binary(op) => OriginModel::Binary {
                ancestors: op.ancestors,
                rule: op.rule,
                args: models(op.args@),
            },
        }
    }
}

/// A node of the computation graph.
#[derive(Debug)]
pub struct Node<T> {
    id: NodeId,
    data: T,
    grad: T,
    origin: Origin<T>,
}

impl<T: Numeric> View for Node<T> {
    type V = NodeModel<T::Model>;

    closed spec fn view(&self) -> NodeModel<T::Model> {
        NodeModel {
            id: self.id,
            data: self.data.model(),
            grad: self.grad.model(),
            origin: self.origin@,
        }
    }
}

impl<T: Numeric> Node<T> {
    /// Creates a node with the given value and origin. Its gradient is zero.
    fn new(id: NodeId, data: T, origin: Origin<T>) -> (r: Self)
        ensures
            r@ == (NodeModel {
                id,
                data: data.model(),
                grad: T::zeros_model(T::shape_of(data.model())),
                origin: origin@,
            }),
            T::shape_of(r@.grad) == T::shape_of(r@.data),
    {
        let grad = data.zeros_like();
        Node { id, data, grad, origin }
    }

    /// Creates the node of a fresh tracked tensor.
    pub fn declaration(id: NodeId, data: T) -> (r: Self)
        ensures
            r@ == (NodeModel {
                id,
                data: data.model(),
                grad: T::zeros_model(T::shape_of(data.model())),
                origin: OriginModel::Declaration,
            }),
            T::shape_of(r@.grad) == T::shape_of(r@.data),
    {
        Self::new(id, data, Origin::Declaration)
    }

    /// Creates the node of the result of a one-operand operation.
    pub fn unary(id: NodeId, data: T, ancestor: NodeId, rule: UnaryRule, args: Vec<T>) -> (r: Self)
        ensures
            r@ == (NodeModel {
                id,
                data: data.model(),
                grad: T::zeros_model(T::shape_of(data.model())),
                origin: OriginModel::Unary { ancestor, rule, args: models(args@) },
            }),
            T::shape_of(r@.grad) == T::shape_of(r@.data),
    {
        Self::new(id, data, Origin::Unary(UnaryOp { ancestor, rule, args }))
    }

    /// Creates the node of the result of a two-operand operation whose operands
    /// are both tracked.
    pub fn binary_varvar(
        id: NodeId,
        data: T,
        ancestors: (NodeId, NodeId),
        rule: BinaryRule,
        args: Vec<T>,
    ) -> (r: Self)
        ensures
            r@ == (NodeModel {
                id,
                data: data.model(),
                grad: T::zeros_model(T::shape_of(data.model())),
                origin: OriginModel::Binary {
                    ancestors: BinaryParams::VarVar(ancestors.0, ancestors.1),
                    rule,
                    args: models(args@),
                },
            }),
            T::shape_of(r@.grad) == T::shape_of(r@.data),
    {
        Self::new(
            id,
            data,
            Origin::Binary(
                BinaryOp { ancestors: BinaryParams::VarVar(ancestors.0, ancestors.1), rule, args },
            ),
        )
    }

    /// Creates the node of the result of a two-operand operation of which only
    /// the first operand is tracked.
    pub fn binary_varconst(
        id: NodeId,
        data: T,
        ancestor: NodeId,
        rule: BinaryRule,
        args: Vec<T>,
    ) -> (r: Self)
        ensures
            r@ == (NodeModel {
                id,
                data: data.model(),
                grad: T::zeros_model(T::shape_of(data.model())),
                origin: OriginModel::Binary {
                    ancestors: BinaryParams::VarConst(ancestor),
                    rule,
                    args: models(args@),
                },
            }),
            T::shape_of(r@.grad) == T::shape_of(r@.data),
    {
        Self::new(
            id,
            data,
            Origin::Binary(BinaryOp { ancestors: BinaryParams::VarConst(ancestor), rule, args }),
        )
    }

    /// Creates the node of the result of a two-operand operation of which only
    /// the second operand is tracked.
    pub fn binary_constvar(
        id: NodeId,
        data: T,
        ancestor: NodeId,
        rule: BinaryRule,
        args: Vec<T>,
    ) -> (r: Self)
        ensures
            r@ == (NodeModel {
                id,
                data: data.model(),
                grad: T::zeros_model(T::shape_of(data.model())),
                origin: OriginModel::Binary {
                    ancestors: BinaryParams::ConstVar(ancestor),
                    rule,
                    args: models(args@),
                },
            }),
            T::shape_of(r@.grad) == T::shape_of(r@.data),
    {
        Self::new(
            id,
            data,
            Origin::Binary(BinaryOp { ancestors: BinaryParams::ConstVar(ancestor), rule, args }),
        )
    }

    /// The value of the tensor.
    pub fn data(&self) -> (r: &T)
        ensures
            r.model() == self@.data,
    {
        &self.data
    }

    /// The gradient accumulated so far.
    pub fn grad(&self) -> (r: &T)
        ensures
            r.model() == self@.grad,
    {
        &self.grad
    }

    /// The node's identifier.
    pub fn id(&self) -> (r: NodeId)
        ensures
            r == self@.id,
    {
        self.id
    }

    /// Whether the node is a declaration.
    pub fn is_declaration(&self) -> (r: bool)
        ensures
            r == (self@.origin is Declaration),
    {
        match self.origin {
            Origin::Declaration => true,
            _ => false,
        }
    }

    /// The tracked operands of the operation that the node records: none for a
    /// declaration, else one or two.
    pub fn ancestors(&self) -> (r: (Option<NodeId>, Option<NodeId>))
        ensures
            forall|a: NodeId| self@.origin.names(a) <==> (r.0 == Some(a) || r.1 == Some(a)),
    {
        match &self.origin {
            Origin::Declaration => (None, None),
            Origin::Unary(op) => (Some(op.ancestor), None),
            Origin::Binary(op) => match op.ancestors {
                BinaryParams::VarVar(a, b) => (Some(a), Some(b)),
                BinaryParams::VarConst(a) => (Some(a), None),
                BinaryParams::ConstVar(b) => (None, Some(b)),
            },
        }
    }

    /// Sets every element of the gradient to one.
    pub fn ones_grad(&mut self)
        ensures
            final(self)@ == (NodeModel {
                grad: T::ones_model(T::shape_of(old(self)@.grad)),
                ..old(self)@
            }),
            T::shape_of(final(self)@.grad) == T::shape_of(old(self)@.grad),
    {
        let g = self.grad.ones_like();
        self.grad = g;
    }

    /// Sets every element of the gradient to zero.
    pub fn zero_grad(&mut self)
        ensures
            final(self)@ == (NodeModel {
                grad: T::zeros_model(T::shape_of(old(self)@.grad)),
                ..old(self)@
            }),
            T::shape_of(final(self)@.grad) == T::shape_of(old(self)@.grad),
    {
        let g = self.grad.zeros_like();
        self.grad = g;
    }

    /// Adds a partial adjoint to the gradient.
    pub fn accumulate(&mut self, partial: &T)
        requires
            T::shape_of(partial.model()) == T::shape_of(old(self)@.grad),
        ensures
            final(self)@ == (NodeModel {
                grad: T::add_model(old(self)@.grad, partial.model()),
                ..old(self)@
            }),
            T::shape_of(final(self)@.grad) == T::shape_of(old(self)@.grad),
    {
        let g = self.grad.add(partial);
        self.grad = g;
    }

    /// Applies the node's reverse rule to the node's gradient and returns the
    /// partial adjoints for the node's tracked operands.
    pub fn reverse(&self) -> (r: Partials<T>)
        requires
            self@.sound::<T>(),
        ensures
            partials_model(r) == self@.reverse::<T>(),
            partials_shapes(r) == self@.reverse_shapes::<T>(),
    {
        match &self.origin {
            Origin::Declaration => Partials::Nothing,
            Origin::Unary(op) => Partials::One(op.ancestor, op.reverse(&self.grad)),
            Origin::Binary(op) => {
                let (pa, pb) = op.reverse(&self.grad);
                match op.ancestors {
                    BinaryParams::VarVar(a, b) => Partials::Two(a, pa, b, pb),
                    BinaryParams::VarConst(a) => Partials::One(a, pa),
                    BinaryParams::ConstVar(b) => Partials::One(b, pb),
                }
            },
        }
    }
}

} // verus!
