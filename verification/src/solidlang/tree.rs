//! The syntax trees as mathematical values: each node with sequences in
//! place of vectors.

use crate::globals::Symbol;
use crate::solidlang::ast::{
    ASTExpression, ASTExpressionKind, ASTItem, ASTItemKind, ASTModule, ASTNameAndType, ASTOperator,
    ASTStatement, ASTStatementBlock, ASTStatementKind, ASTType, ASTTypeKind,
};
use crate::solidlang::span::Span;
use vstd::prelude::*;

verus! {

pub enum TypeKindTree {
    Path { symbols: Seq<Symbol>, generic_args: Seq<TypeTree> },
    PointerTo(Box<TypeTree>),
}

pub struct TypeTree {
    pub kind: TypeKindTree,
    pub span: Span,
}

pub struct NameAndTypeTree {
    pub name: Symbol,
    pub ast_type: TypeTree,
    pub span: Span,
}

pub enum ExpressionKindTree {
    Ident(Symbol),
    IntegerLiteral(u64),
    Boolean(bool),
    UnaryOperation(ASTOperator, Box<ExpressionTree>),
    BinaryOperation(ASTOperator, Box<ExpressionTree>, Box<ExpressionTree>),
    If(Box<ExpressionTree>, BlockTree, Option<BlockTree>),
    While(Box<ExpressionTree>, BlockTree),
    Loop(BlockTree),
    For(Symbol, Box<ExpressionTree>, BlockTree),
    Block(BlockTree),
    TemplateApplication(Box<ExpressionTree>, Seq<TypeTree>),
    Call(Box<ExpressionTree>, Seq<ExpressionTree>),
    Index(Box<ExpressionTree>, Box<ExpressionTree>),
    MemberAccess(Box<ExpressionTree>, Symbol),
    StaticAccess(Box<ExpressionTree>, Symbol),
}

pub struct ExpressionTree {
    pub kind: ExpressionKindTree,
    pub span: Span,
}

pub enum StatementKindTree {
    LocalBinding(Symbol, Option<TypeTree>, Option<ExpressionTree>),
    Expression(ExpressionTree),
    Return(ExpressionTree),
    Break,
    Continue,
    Item(ItemTree),
    Semicolon,
}

pub struct StatementTree {
    pub kind: StatementKindTree,
    pub span: Span,
}

pub struct BlockTree {
    pub statements: Seq<StatementTree>,
    pub span: Span,
}

pub struct FunctionDefTree {
    pub name: Symbol,
    pub return_type: Option<TypeTree>,
    pub params: Seq<NameAndTypeTree>,
    pub statement_block: BlockTree,
    pub span: Span,
}

pub struct StructDefTree {
    pub name: Symbol,
    pub fields: Seq<NameAndTypeTree>,
    pub span: Span,
}

pub struct TemplateTree {
    pub params: Seq<Symbol>,
    pub items: Seq<ItemTree>,
    pub span: Span,
}

pub enum ItemTree {
    FunctionDef(FunctionDefTree),
    StructDef(StructDefTree),
    Template(TemplateTree),
}

pub struct ModuleTree {
    pub items: Seq<ItemTree>,
    pub span: Span,
}

impl ASTType {
    pub open spec fn tree(&self) -> TypeTree
        decreases self,
    {
        TypeTree {
            kind: match self.kind {
                ASTTypeKind::Path { symbols, generic_args } => TypeKindTree::Path {
                    symbols: symbols@,
                    generic_args: Seq::new(
                        generic_args@.len(),
                        |i: int|
                            if 0 <= i < generic_args@.len() {
                                generic_args@[i].tree()
                            } else {
                                arbitrary()
                            },
                    ),
                },
                ASTTypeKind::PointerTo(inner) => TypeKindTree::PointerTo(Box::new(inner.tree())),
            },
            span: self.span,
        }
    }
}

impl ASTNameAndType {
    pub open spec fn tree(&self) -> NameAndTypeTree {
        NameAndTypeTree { name: self.name, ast_type: self.ast_type.tree(), span: self.span }
    }
}

/// The trees of the types.
pub open spec fn type_trees(types: Seq<ASTType>) -> Seq<TypeTree> {
    Seq::new(types.len(), |i: int| types[i].tree())
}

/// The trees of the names with their types.
pub open spec fn name_and_type_trees(pairs: Seq<ASTNameAndType>) -> Seq<NameAndTypeTree> {
    Seq::new(pairs.len(), |i: int| pairs[i].tree())
}

impl ASTExpression {
    pub open spec fn tree(&self) -> ExpressionTree
        decreases self, 0nat,
    {
        ExpressionTree {
            kind: match self.kind {
                ASTExpressionKind::Ident(symbol) => ExpressionKindTree::Ident(symbol),
                ASTExpressionKind::IntegerLiteral(n) => ExpressionKindTree::IntegerLiteral(n),
                ASTExpressionKind::Boolean(b) => ExpressionKindTree::Boolean(b),
                ASTExpressionKind::UnaryOperation(operator, operand) => {
                    ExpressionKindTree::UnaryOperation(operator, Box::new(operand.tree()))
                },
                ASTExpressionKind::BinaryOperation(operator, left, right) => {
                    ExpressionKindTree::BinaryOperation(
                        operator,
                        Box::new(left.tree()),
                        Box::new(right.tree()),
                    )
                },
                ASTExpressionKind::If(condition, block, else_block) => ExpressionKindTree::If(
                    Box::new(condition.tree()),
                    block.tree(),
                    match else_block {
                        Some(else_block) => Some(else_block.tree()),
                        None => None,
                    },
                ),
                ASTExpressionKind::While(condition, block) => ExpressionKindTree::While(
                    Box::new(condition.tree()),
                    block.tree(),
                ),
                ASTExpressionKind::Loop(block) => ExpressionKindTree::Loop(block.tree()),
                ASTExpressionKind::For(variable, iterated, block) => ExpressionKindTree::For(
                    variable,
                    Box::new(iterated.tree()),
                    block.tree(),
                ),
                ASTExpressionKind::Block(block) => ExpressionKindTree::Block(block.tree()),
                ASTExpressionKind::TemplateApplication(applied, args) => {
                    ExpressionKindTree::TemplateApplication(
                        Box::new(applied.tree()),
                        type_trees(args@),
                    )
                },
                ASTExpressionKind::Call(called, args) => ExpressionKindTree::Call(
                    Box::new(called.tree()),
                    Seq::new(
                        args@.len(),
                        |i: int|
                            if 0 <= i < args@.len() {
                                args@[i].tree()
                            } else {
                                arbitrary()
                            },
                    ),
                ),
                ASTExpressionKind::Index(indexed, index) => ExpressionKindTree::Index(
                    Box::new(indexed.tree()),
                    Box::new(index.tree()),
                ),
                ASTExpressionKind::MemberAccess(accessed, member) => {
                    ExpressionKindTree::MemberAccess(Box::new(accessed.tree()), member)
                },
                ASTExpressionKind::StaticAccess(accessed, member) => {
                    ExpressionKindTree::StaticAccess(Box::new(accessed.tree()), member)
                },
            },
            span: self.span,
        }
    }
}

impl ASTStatementBlock {
    pub open spec fn tree(&self) -> BlockTree
        decreases self, 0nat,
    {
        BlockTree {
            statements: Seq::new(
                self.statements@.len(),
                |i: int|
                    if 0 <= i < self.statements@.len() {
                        self.statements@[i].tree()
                    } else {
                        arbitrary()
                    },
            ),
            span: self.span,
        }
    }
}

impl ASTStatement {
    pub open spec fn tree(&self) -> StatementTree
        decreases self, 0nat,
    {
        StatementTree {
            kind: match self.kind {
                ASTStatementKind::LocalBinding(name, type_hint, expression) => {
                    StatementKindTree::LocalBinding(
                        name,
                        match type_hint {
                            Some(type_hint) => Some(type_hint.tree()),
                            None => None,
                        },
                        match expression {
                            Some(expression) => Some(expression.tree()),
                            None => None,
                        },
                    )
                },
                ASTStatementKind::Expression(expression) => StatementKindTree::Expression(
                    expression.tree(),
                ),
                ASTStatementKind::Return(expression) => StatementKindTree::Return(
                    expression.tree(),
                ),
                ASTStatementKind::Break => StatementKindTree::Break,
                ASTStatementKind::Continue => StatementKindTree::Continue,
                ASTStatementKind::Item(item) => StatementKindTree::Item(item.tree()),
                ASTStatementKind::Semicolon => StatementKindTree::Semicolon,
            },
            span: self.span,
        }
    }
}

impl ASTItem {
    pub open spec fn tree(&self) -> ItemTree
        decreases self, 0nat,
    {
        match self.kind {
            ASTItemKind::FunctionDef(function) => ItemTree::FunctionDef(
                FunctionDefTree {
                    name: function.name,
                    return_type: match function.return_type {
                        Some(return_type) => Some(return_type.tree()),
                        None => None,
                    },
                    params: name_and_type_trees(function.params@),
                    statement_block: function.statement_block.tree(),
                    span: function.span,
                },
            ),
            ASTItemKind::StructDef(definition) => ItemTree::StructDef(
                StructDefTree {
                    name: definition.name,
                    fields: name_and_type_trees(definition.fields@),
                    span: definition.span,
                },
            ),
            ASTItemKind::Template(template) => ItemTree::Template(
                TemplateTree {
                    params: template.params@,
                    items: Seq::new(
                        template.items@.len(),
                        |i: int|
                            if 0 <= i < template.items@.len() {
                                template.items@[i].tree()
                            } else {
                                arbitrary()
                            },
                    ),
                    span: template.span,
                },
            ),
        }
    }
}

/// The trees of the expressions.
pub open spec fn expression_trees(expressions: Seq<ASTExpression>) -> Seq<ExpressionTree> {
    Seq::new(expressions.len(), |i: int| expressions[i].tree())
}

/// The trees of the statements.
pub open spec fn statement_trees(statements: Seq<ASTStatement>) -> Seq<StatementTree> {
    Seq::new(statements.len(), |i: int| statements[i].tree())
}

/// The trees of the items.
pub open spec fn item_trees(items: Seq<ASTItem>) -> Seq<ItemTree> {
    Seq::new(items.len(), |i: int| items[i].tree())
}

impl ASTModule {
    pub open spec fn tree(&self) -> ModuleTree {
        ModuleTree { items: item_trees(self.items@), span: self.span }
    }
}

/// The tree of a type is made of the trees of its arguments.
pub proof fn lemma_type_tree(ast_type: &ASTType)
    ensures
        ast_type.kind matches ASTTypeKind::Path { symbols, generic_args } ==> ast_type.tree()
            == (TypeTree {
            kind: TypeKindTree::Path {
                symbols: symbols@,
                generic_args: type_trees(generic_args@),
            },
            span: ast_type.span,
        }),
{
    match ast_type.kind {
        ASTTypeKind::Path { symbols, generic_args } => {
            assert(ast_type.tree().kind->Path_generic_args =~= type_trees(generic_args@));
        },
        _ => {},
    }
}

/// The tree of a call is made of the trees of its arguments.
pub proof fn lemma_call_tree(expression: &ASTExpression)
    ensures
        expression.kind matches ASTExpressionKind::Call(called, args) ==> expression.tree() == (
        ExpressionTree {
            kind: ExpressionKindTree::Call(Box::new(called.tree()), expression_trees(args@)),
            span: expression.span,
        }),
{
    match expression.kind {
        ASTExpressionKind::Call(called, args) => {
            assert(expression.tree().kind->Call_1 =~= expression_trees(args@));
        },
        _ => {},
    }
}

/// The tree of a block is made of the trees of its statements.
pub proof fn lemma_block_tree(block: &ASTStatementBlock)
    ensures
        block.tree() == (BlockTree {
            statements: statement_trees(block.statements@),
            span: block.span,
        }),
{
    assert(block.tree().statements =~= statement_trees(block.statements@));
}

/// The tree of a template is made of the trees of its items.
pub proof fn lemma_template_tree(item: &ASTItem)
    ensures
        item.kind matches ASTItemKind::Template(template) ==> item.tree() == ItemTree::Template(
            TemplateTree {
                params: template.params@,
                items: item_trees(template.items@),
                span: template.span,
            },
        ),
{
    match item.kind {
        ASTItemKind::Template(template) => {
            assert(item.tree()->Template_0.items =~= item_trees(template.items@));
        },
        _ => {},
    }
}

} // verus!
