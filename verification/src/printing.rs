//! Spelling and printing: the ways in which an expression can be written
//! down in tokens, and the one way in which a tree is printed, with no more
//! parentheses than precedence and left associativity ask for.
//!
//! The laws of this module tie the parser to the grammar of infix
//! expressions: however an expression is spelled, the parser reads the tree
//! that the spelling means; and parsing undoes printing.

use vstd::prelude::*;
use crate::ast::{ExpressionView, FunctionView, ProgramView, StatementView};
use crate::grammar::{
    apply_operator, close_group, compound_statement_at, drain, expression_at, function_at,
    functions_at, place_at, program_at, return_statement_at, scan, scan_more, yield_to,
    StackItem, Stacks,
};
use crate::parse_error::{InvalidReason, ParseErrorView};
use crate::token::{Keyword, Operator, Precedence, Separator, TokenKindView, TokenView};

verus! {

/// A way of writing an expression down: the expression's tree together
/// with the parentheses that stand around its parts.
pub enum Spelling {
    /// An integer literal.
    Literal(u32),
    /// A name followed by `(` and `)`.
    Call(Seq<char>),
    /// Two spellings with an operator between them.
    Operation { left: Box<Spelling>, op: Operator, right: Box<Spelling> },
    /// A spelling in parentheses.
    Group(Box<Spelling>),
}

/// The expression that a spelling means: the same tree without the
/// parentheses.
pub open spec fn meaning(s: Spelling) -> ExpressionView
    decreases s,
{
    match s {
        Spelling::Literal(n) => ExpressionView::IntLit(n),
        Spelling::Call(name) => ExpressionView::FunctionCall { name },
        Spelling::Operation { left, op, right } => ExpressionView::Binary {
            left: Box::new(meaning(*left)),
            op,
            right: Box::new(meaning(*right)),
        },
        Spelling::Group(inner) => meaning(*inner),
    }
}

/// The tokens of a spelling, in order.
pub open spec fn spelled(s: Spelling) -> Seq<TokenKindView>
    decreases s,
{
    match s {
        Spelling::Literal(n) => seq![TokenKindView::IntLit(n)],
        Spelling::Call(name) => seq![
            TokenKindView::Identifier(name),
            TokenKindView::Separator(Separator::LParen),
            TokenKindView::Separator(Separator::RParen),
        ],
        Spelling::Operation { left, op, right } => spelled(*left)
            + seq![TokenKindView::Operator(op)] + spelled(*right),
        Spelling::Group(inner) => seq![TokenKindView::Separator(Separator::LParen)]
            + spelled(*inner) + seq![TokenKindView::Separator(Separator::RParen)],
    }
}

/// Whether a spelling may stand where an operand of an operator of
/// precedence `min` is wanted, by the grammar of infix expressions: an
/// operation stands there bare only if its operator binds at least that
/// tightly. Its left operand must bind at least as tightly as the operator
/// itself and its right operand strictly tighter, which makes operators of
/// equal precedence associate to the left. Inside parentheses any
/// expression may stand.
pub open spec fn well_grouped(s: Spelling, min: int) -> bool
    decreases s,
{
    match s {
        Spelling::Literal(_) => true,
        Spelling::Call(_) => true,
        Spelling::Operation { left, op, right } => {
            &&& op.precedence_level() >= min
            &&& well_grouped(*left, op.precedence_level() as int)
            &&& well_grouped(*right, op.precedence_level() + 1)
        },
        Spelling::Group(inner) => well_grouped(*inner, 0),
    }
}

/// A precedence above that of every operator: where it is wanted, only a
/// literal, a call or a group may stand.
pub open spec fn operand_level() -> int {
    3
}

/// The operands that the tokens of a spelling leave on the operand stack:
/// of an operation, the left operand and what the right one leaves; of
/// anything else, the one value that it means.
pub open spec fn pending_operands(s: Spelling) -> Seq<ExpressionView>
    decreases s,
{
    match s {
        Spelling::Operation { left, op, right } => seq![meaning(*left)] + pending_operands(
            *right,
        ),
        _ => seq![meaning(s)],
    }
}

/// The operators that the tokens of a spelling leave on the operator
/// stack: those of the operations along its right edge.
pub open spec fn pending_operators(s: Spelling) -> Seq<StackItem>
    decreases s,
{
    match s {
        Spelling::Operation { left, op, right } => seq![StackItem::Op(op)] + pending_operators(
            *right,
        ),
        _ => Seq::empty(),
    }
}

/// Whether an operator of precedence `min` or more may be pushed on the
/// stack without popping anything: the stack is empty, or its top is a
/// marker or an operator that binds less tightly.
pub open spec fn admits(operators: Seq<StackItem>, min: int) -> bool {
    operators.len() == 0 || match operators.last() {
        StackItem::Marker => true,
        StackItem::Op(top) => top.precedence_level() < min,
    }
}

/// Applying `op` to a stack that ends in `left` and `right` replaces the
/// two by their combination.
proof fn lemma_apply_top(
    operands: Seq<ExpressionView>,
    left: ExpressionView,
    op: Operator,
    right: ExpressionView,
)
    ensures
        apply_operator(operands.push(left).push(right), op) == Ok::<
            Seq<ExpressionView>,
            ParseErrorView,
        >(
            operands.push(
                ExpressionView::Binary { left: Box::new(left), op, right: Box::new(right) },
            ),
        ),
{
    let full = operands.push(left).push(right);
    assert(full.take(full.len() - 2) =~= operands);
}

/// The stacks with what an operation has left pending are the stacks with
/// its left operand and its operator, and on them what its right operand
/// has left pending.
proof fn lemma_pending_unfolds(
    s: Spelling,
    operands: Seq<ExpressionView>,
    operators: Seq<StackItem>,
)
    requires
        s is Operation,
    ensures
        operands + pending_operands(s) == operands.push(meaning(*s->left)) + pending_operands(
            *s->right,
        ),
        operators + pending_operators(s) == operators.push(StackItem::Op(s->op))
            + pending_operators(*s->right),
{
    assert(operands + pending_operands(s) =~= operands.push(meaning(*s->left))
        + pending_operands(*s->right));
    assert(operators + pending_operators(s) =~= operators.push(StackItem::Op(s->op))
        + pending_operators(*s->right));
}

/// The stacks with what a literal, a call or a group has left pending are
/// the stacks with its value pushed.
proof fn lemma_pending_closed(
    s: Spelling,
    operands: Seq<ExpressionView>,
    operators: Seq<StackItem>,
)
    requires
        !(s is Operation),
    ensures
        operands + pending_operands(s) == operands.push(meaning(s)),
        operators + pending_operators(s) == operators,
{
    assert(operands + pending_operands(s) =~= operands.push(meaning(s)));
    assert(operators + pending_operators(s) =~= operators);
}

/// What a spelling has left pending is popped by an operator that binds no
/// tighter than `min`, and then the stacks are as if the spelling had been
/// one operand.
proof fn lemma_yield_collapses(
    s: Spelling,
    min: int,
    operands: Seq<ExpressionView>,
    operators: Seq<StackItem>,
    next: Operator,
)
    requires
        well_grouped(s, min),
        next.precedence_level() <= min,
    ensures
        yield_to(operands + pending_operands(s), operators + pending_operators(s), next)
            == yield_to(operands.push(meaning(s)), operators, next),
    decreases s,
{
    match s {
        Spelling::Operation { left, op, right } => {
            let inner_operands = operands.push(meaning(*left));
            let inner_operators = operators.push(StackItem::Op(op));
            lemma_yield_collapses(
                *right,
                op.precedence_level() + 1,
                inner_operands,
                inner_operators,
                next,
            );
            lemma_pending_unfolds(s, operands, operators);
            lemma_apply_top(operands, meaning(*left), op, meaning(*right));
            assert(inner_operators.drop_last() =~= operators);
        },
        _ => {
            lemma_pending_closed(s, operands, operators);
        },
    }
}

/// What a spelling has left pending is popped by a closing parenthesis,
/// and then the stacks are as if the spelling had been one operand.
proof fn lemma_close_collapses(
    s: Spelling,
    operands: Seq<ExpressionView>,
    operators: Seq<StackItem>,
)
    ensures
        close_group(operands + pending_operands(s), operators + pending_operators(s))
            == close_group(operands.push(meaning(s)), operators),
    decreases s,
{
    match s {
        Spelling::Operation { left, op, right } => {
            let inner_operands = operands.push(meaning(*left));
            let inner_operators = operators.push(StackItem::Op(op));
            lemma_close_collapses(*right, inner_operands, inner_operators);
            lemma_pending_unfolds(s, operands, operators);
            lemma_apply_top(operands, meaning(*left), op, meaning(*right));
            assert(inner_operators.drop_last() =~= operators);
        },
        _ => {
            lemma_pending_closed(s, operands, operators);
        },
    }
}

/// What a spelling has left pending is popped at the end of the
/// expression, and then the stacks are as if the spelling had been one
/// operand.
proof fn lemma_drain_collapses(
    s: Spelling,
    operands: Seq<ExpressionView>,
    operators: Seq<StackItem>,
)
    ensures
        drain(operands + pending_operands(s), operators + pending_operators(s)) == drain(
            operands.push(meaning(s)),
            operators,
        ),
    decreases s,
{
    match s {
        Spelling::Operation { left, op, right } => {
            let inner_operands = operands.push(meaning(*left));
            let inner_operators = operators.push(StackItem::Op(op));
            lemma_drain_collapses(*right, inner_operands, inner_operators);
            lemma_pending_unfolds(s, operands, operators);
            lemma_apply_top(operands, meaning(*left), op, meaning(*right));
            assert(inner_operators.drop_last() =~= operators);
        },
        _ => {
            lemma_pending_closed(s, operands, operators);
        },
    }
}

/// The tokens from place `pos` on are of the kinds `kinds`, in order.
pub open spec fn spells(tokens: Seq<TokenView>, pos: int, kinds: Seq<TokenKindView>) -> bool {
    &&& 0 <= pos
    &&& pos + kinds.len() <= tokens.len()
    &&& forall|k: int| 0 <= k < kinds.len() ==> tokens[pos + k].kind == #[trigger] kinds[k]
}

/// Tokens that spell two runs of kinds, one after the other, spell each of
/// them at its place.
proof fn lemma_spells_split(
    tokens: Seq<TokenView>,
    pos: int,
    first: Seq<TokenKindView>,
    second: Seq<TokenKindView>,
)
    requires
        spells(tokens, pos, first + second),
    ensures
        spells(tokens, pos, first),
        spells(tokens, pos + first.len(), second),
{
    let both = first + second;
    assert forall|k: int| 0 <= k < first.len() implies tokens[pos + k].kind
        == #[trigger] first[k] by {
        assert(both[k] == first[k]);
    }
    assert forall|k: int| 0 <= k < second.len() implies tokens[pos + first.len() + k].kind
        == #[trigger] second[k] by {
        assert(both[first.len() + k] == second[k]);
    }
}

/// Reading the tokens of a spelling moves the reader past them and leaves
/// on the stacks what the spelling leaves pending, whatever was on the
/// stacks before, as long as the operator stack admits its operators.
proof fn lemma_scan_reads(
    s: Spelling,
    min: int,
    tokens: Seq<TokenView>,
    pos: int,
    operands: Seq<ExpressionView>,
    operators: Seq<StackItem>,
)
    requires
        well_grouped(s, min),
        spells(tokens, pos, spelled(s)),
        admits(operators, min),
    ensures
        scan(tokens, pos, operands, operators) == scan_more(
            scan(
                tokens,
                pos + spelled(s).len(),
                operands + pending_operands(s),
                operators + pending_operators(s),
            ),
            spelled(s).len(),
        ),
    decreases s,
{
    let kinds = spelled(s);
    match s {
        Spelling::Literal(n) => {
            assert(tokens[pos + 0].kind == kinds[0]);
            lemma_pending_closed(s, operands, operators);
        },
        Spelling::Call(name) => {
            assert(tokens[pos + 0].kind == kinds[0]);
            assert(tokens[pos + 1].kind == kinds[1]);
            assert(tokens[pos + 2].kind == kinds[2]);
            lemma_pending_closed(s, operands, operators);
        },
        Spelling::Operation { left, op, right } => {
            let p = op.precedence_level() as int;
            let left_kinds = spelled(*left);
            let op_kinds = seq![TokenKindView::Operator(op)];
            lemma_spells_split(tokens, pos, left_kinds + op_kinds, spelled(*right));
            lemma_spells_split(tokens, pos, left_kinds, op_kinds);
            let at_op = pos + left_kinds.len();
            assert(tokens[at_op + 0].kind == op_kinds[0]);
            // the left operand
            lemma_scan_reads(*left, p, tokens, pos, operands, operators);
            // the operator pops what the left operand left pending, and no more
            lemma_yield_collapses(*left, p, operands, operators, op);
            let pushed = operands.push(meaning(*left));
            assert(yield_to(pushed, operators, op) == Ok::<Stacks, ParseErrorView>(
                Stacks { operands: pushed, operators },
            ));
            // the right operand
            let waiting = operators.push(StackItem::Op(op));
            lemma_scan_reads(*right, p + 1, tokens, at_op + 1, pushed, waiting);
            lemma_pending_unfolds(s, operands, operators);
        },
        Spelling::Group(inner) => {
            let open = seq![TokenKindView::Separator(Separator::LParen)];
            let close = seq![TokenKindView::Separator(Separator::RParen)];
            let inner_kinds = spelled(*inner);
            lemma_spells_split(tokens, pos, open + inner_kinds, close);
            lemma_spells_split(tokens, pos, open, inner_kinds);
            assert(tokens[pos + 0].kind == open[0]);
            let at_close = pos + 1 + inner_kinds.len();
            assert(tokens[at_close + 0].kind == close[0]);
            let marked = operators.push(StackItem::Marker);
            lemma_scan_reads(*inner, 0, tokens, pos + 1, operands, marked);
            lemma_close_collapses(*inner, operands, marked);
            assert(marked.drop_last() =~= operators);
            assert((marked + pending_operators(*inner)).len() > 0);
            lemma_pending_closed(s, operands, operators);
        },
    }
}

/// Whether the token at place `pos` cannot belong to an expression, or the
/// tokens end there.
pub open spec fn ends_expression(tokens: Seq<TokenView>, pos: int) -> bool {
    !(0 <= pos < tokens.len()) || match tokens[pos].kind {
        TokenKindView::IntLit(_) => false,
        TokenKindView::Identifier(_) => false,
        TokenKindView::Operator(_) => false,
        TokenKindView::Separator(Separator::LParen) => false,
        TokenKindView::Separator(Separator::RParen) => false,
        _ => true,
    }
}

/// The parser reads what a spelling means: from tokens that spell an
/// expression by the grammar of infix expressions, with whatever
/// parentheses, up to a token that cannot belong to an expression, the
/// parser reads the tree that the spelling means, and reads all its tokens.
/// So `*` and `/` bind tighter than `+` and `-`, operators of equal
/// precedence associate to the left, and parentheses override both.
pub proof fn law_parser_reads_spelling(s: Spelling, tokens: Seq<TokenView>, pos: int)
    requires
        well_grouped(s, 0),
        spells(tokens, pos, spelled(s)),
        ends_expression(tokens, pos + spelled(s).len()),
    ensures
        expression_at(tokens, pos) == Ok::<(Option<ExpressionView>, nat), ParseErrorView>(
            (Some(meaning(s)), spelled(s).len()),
        ),
{
    let none = Seq::<ExpressionView>::empty();
    let nothing = Seq::<StackItem>::empty();
    lemma_scan_reads(s, 0, tokens, pos, none, nothing);
    lemma_drain_collapses(s, none, nothing);
    assert(drain(none.push(meaning(s)), nothing) == Ok::<Seq<ExpressionView>, ParseErrorView>(
        none.push(meaning(s)),
    ));
}

/// A closing parenthesis where an expression starts has nothing to close:
/// the expression is refused for its parentheses at the place of that
/// parenthesis, whatever follows.
pub proof fn law_stray_close_is_mismatched(tokens: Seq<TokenView>, pos: int)
    requires
        0 <= pos < tokens.len(),
        tokens[pos].kind == TokenKindView::Separator(Separator::RParen),
    ensures
        expression_at(tokens, pos) == Err::<(Option<ExpressionView>, nat), ParseErrorView>(
            ParseErrorView::MismatchedParentheses { at: Some(tokens[pos].pos) },
        ),
{
}

/// An opening parenthesis in front of an expression that ends without the
/// closing one is refused for its parentheses, at the place where the
/// expression ends.
pub proof fn law_unclosed_open_is_mismatched(s: Spelling, tokens: Seq<TokenView>, pos: int)
    requires
        well_grouped(s, 0),
        spells(tokens, pos, seq![TokenKindView::Separator(Separator::LParen)] + spelled(s)),
        ends_expression(tokens, pos + 1 + spelled(s).len()),
    ensures
        expression_at(tokens, pos) == Err::<(Option<ExpressionView>, nat), ParseErrorView>(
            ParseErrorView::MismatchedParentheses {
                at: place_at(tokens, pos + 1 + spelled(s).len()),
            },
        ),
{
    let open = seq![TokenKindView::Separator(Separator::LParen)];
    lemma_spells_split(tokens, pos, open, spelled(s));
    assert(tokens[pos + 0].kind == open[0]);
    let none = Seq::<ExpressionView>::empty();
    let marked = Seq::<StackItem>::empty().push(StackItem::Marker);
    lemma_scan_reads(s, 0, tokens, pos + 1, none, marked);
    lemma_drain_collapses(s, none, marked);
}

/// Two expressions side by side, with no operator between them, leave two
/// values: too many operands, noticed where the second one ends. The first
/// is a literal, a call or a group.
pub proof fn law_two_operands_are_too_many(
    first: Spelling,
    second: Spelling,
    tokens: Seq<TokenView>,
    pos: int,
)
    requires
        well_grouped(first, operand_level()),
        well_grouped(second, 0),
        spells(tokens, pos, spelled(first) + spelled(second)),
        ends_expression(tokens, pos + spelled(first).len() + spelled(second).len()),
    ensures
        expression_at(tokens, pos) == Err::<(Option<ExpressionView>, nat), ParseErrorView>(
            ParseErrorView::InvalidExpression {
                reason: InvalidReason::TooManyOperands,
                at: place_at(tokens, pos + spelled(first).len() + spelled(second).len()),
            },
        ),
{
    let none = Seq::<ExpressionView>::empty();
    let nothing = Seq::<StackItem>::empty();
    let one = none.push(meaning(first));
    lemma_spells_split(tokens, pos, spelled(first), spelled(second));
    lemma_scan_reads(first, operand_level(), tokens, pos, none, nothing);
    lemma_pending_closed(first, none, nothing);
    lemma_scan_reads(second, 0, tokens, pos + spelled(first).len(), one, nothing);
    lemma_drain_collapses(second, one, nothing);
    assert(drain(one.push(meaning(second)), nothing) == Ok::<
        Seq<ExpressionView>,
        ParseErrorView,
    >(one.push(meaning(second))));
}

/// An operator after an expression, with no right operand to follow, finds
/// not enough operands, which is noticed where the expression ends.
pub proof fn law_trailing_operator_lacks_operand(
    s: Spelling,
    op: Operator,
    tokens: Seq<TokenView>,
    pos: int,
)
    requires
        well_grouped(s, op.precedence_level() as int),
        spells(tokens, pos, spelled(s) + seq![TokenKindView::Operator(op)]),
        ends_expression(tokens, pos + spelled(s).len() + 1),
    ensures
        expression_at(tokens, pos) == Err::<(Option<ExpressionView>, nat), ParseErrorView>(
            ParseErrorView::InvalidExpression {
                reason: InvalidReason::NotEnoughOperands,
                at: place_at(tokens, pos + spelled(s).len() + 1),
            },
        ),
{
    let none = Seq::<ExpressionView>::empty();
    let nothing = Seq::<StackItem>::empty();
    let p = op.precedence_level() as int;
    let last = seq![TokenKindView::Operator(op)];
    lemma_spells_split(tokens, pos, spelled(s), last);
    assert(tokens[pos + spelled(s).len() + 0].kind == last[0]);
    lemma_scan_reads(s, p, tokens, pos, none, nothing);
    lemma_yield_collapses(s, p, none, nothing, op);
    let one = none.push(meaning(s));
    let waiting = nothing.push(StackItem::Op(op));
    assert(waiting.drop_last() =~= nothing);
    assert(scan(tokens, pos + spelled(s).len() + 1, one, waiting) == Ok::<
        (Stacks, nat),
        ParseErrorView,
    >((Stacks { operands: one, operators: waiting }, 0)));
}

/// An operator in front of an expression, with no left operand before it,
/// finds not enough operands, which is noticed where the expression ends.
pub proof fn law_leading_operator_lacks_operand(
    op: Operator,
    s: Spelling,
    tokens: Seq<TokenView>,
    pos: int,
)
    requires
        well_grouped(s, op.precedence_level() + 1),
        spells(tokens, pos, seq![TokenKindView::Operator(op)] + spelled(s)),
        ends_expression(tokens, pos + 1 + spelled(s).len()),
    ensures
        expression_at(tokens, pos) == Err::<(Option<ExpressionView>, nat), ParseErrorView>(
            ParseErrorView::InvalidExpression {
                reason: InvalidReason::NotEnoughOperands,
                at: place_at(tokens, pos + 1 + spelled(s).len()),
            },
        ),
{
    let none = Seq::<ExpressionView>::empty();
    let nothing = Seq::<StackItem>::empty();
    let p = op.precedence_level() as int;
    let first = seq![TokenKindView::Operator(op)];
    lemma_spells_split(tokens, pos, first, spelled(s));
    assert(tokens[pos + 0].kind == first[0]);
    let waiting = nothing.push(StackItem::Op(op));
    lemma_scan_reads(s, p + 1, tokens, pos + 1, none, waiting);
    lemma_drain_collapses(s, none, waiting);
    assert(waiting.drop_last() =~= nothing);
}

/// The spelling in which the expression `e` is printed where an operand of
/// an operator of precedence `min` is wanted: an operation stands in
/// parentheses only if its operator binds less tightly than that.
pub open spec fn printed(e: ExpressionView, min: int) -> Spelling
    decreases e,
{
    match e {
        ExpressionView::IntLit(n) => Spelling::Literal(n),
        ExpressionView::FunctionCall { name } => Spelling::Call(name),
        ExpressionView::Binary { left, op, right } => {
            let bare = Spelling::Operation {
                left: Box::new(printed(*left, op.precedence_level() as int)),
                op,
                right: Box::new(printed(*right, op.precedence_level() + 1)),
            };
            if op.precedence_level() < min {
                Spelling::Group(Box::new(bare))
            } else {
                bare
            }
        },
    }
}

/// What is printed follows the grammar and means what was printed.
pub proof fn law_printed_means_the_same(e: ExpressionView, min: int)
    ensures
        well_grouped(printed(e, min), min),
        meaning(printed(e, min)) == e,
    decreases e,
{
    reveal_with_fuel(well_grouped, 2);
    reveal_with_fuel(meaning, 2);
    match e {
        ExpressionView::Binary { left, op, right } => {
            law_printed_means_the_same(*left, op.precedence_level() as int);
            law_printed_means_the_same(*right, op.precedence_level() + 1);
        },
        _ => {},
    }
}

/// The tokens that spell a statement.
pub open spec fn statement_tokens(statement: StatementView) -> Seq<TokenKindView> {
    match statement {
        StatementView::Return(None) => seq![
            TokenKindView::Keyword(Keyword::Return),
            TokenKindView::Separator(Separator::Semi),
        ],
        StatementView::Return(Some(e)) => seq![TokenKindView::Keyword(Keyword::Return)]
            + spelled(printed(e, 0)) + seq![TokenKindView::Separator(Separator::Semi)],
    }
}

/// The tokens that spell the statements of `body` from place `from` on.
pub open spec fn body_tokens(body: Seq<StatementView>, from: int) -> Seq<TokenKindView>
    decreases body.len() - from,
{
    if !(0 <= from < body.len()) {
        Seq::empty()
    } else {
        statement_tokens(body[from]) + body_tokens(body, from + 1)
    }
}

/// The tokens that open a function: its type, its name, `(`, `)` and `{`.
pub open spec fn header_tokens(function: FunctionView) -> Seq<TokenKindView> {
    seq![
        TokenKindView::Type(function.return_type),
        TokenKindView::Identifier(function.name),
        TokenKindView::Separator(Separator::LParen),
        TokenKindView::Separator(Separator::RParen),
        TokenKindView::Separator(Separator::LBrace),
    ]
}

/// The tokens that spell a function.
pub open spec fn function_tokens(function: FunctionView) -> Seq<TokenKindView> {
    header_tokens(function) + body_tokens(function.body, 0)
        + seq![TokenKindView::Separator(Separator::RBrace)]
}

/// The tokens that spell the functions from place `from` on.
pub open spec fn functions_tokens(functions: Seq<FunctionView>, from: int) -> Seq<TokenKindView>
    decreases functions.len() - from,
{
    if !(0 <= from < functions.len()) {
        Seq::empty()
    } else {
        function_tokens(functions[from]) + functions_tokens(functions, from + 1)
    }
}

/// The tokens that spell a program.
pub open spec fn program_tokens(program: ProgramView) -> Seq<TokenKindView> {
    functions_tokens(program.functions, 0)
}

/// Parsing undoes printing, for statements.
pub proof fn law_statement_read_back(
    statement: StatementView,
    tokens: Seq<TokenView>,
    pos: int,
)
    requires
        spells(tokens, pos, statement_tokens(statement)),
    ensures
        return_statement_at(tokens, pos) == Ok::<(StatementView, nat), ParseErrorView>(
            (statement, statement_tokens(statement).len()),
        ),
{
    let kinds = statement_tokens(statement);
    match statement {
        StatementView::Return(None) => {
            assert(tokens[pos + 0].kind == kinds[0]);
            assert(tokens[pos + 1].kind == kinds[1]);
            let none = Seq::<ExpressionView>::empty();
            let nothing = Seq::<StackItem>::empty();
            assert(scan(tokens, pos + 1, none, nothing) == Ok::<(Stacks, nat), ParseErrorView>(
                (Stacks { operands: none, operators: nothing }, 0),
            ));
        },
        StatementView::Return(Some(e)) => {
            let first = seq![TokenKindView::Keyword(Keyword::Return)];
            let middle = spelled(printed(e, 0));
            let last = seq![TokenKindView::Separator(Separator::Semi)];
            lemma_spells_split(tokens, pos, first + middle, last);
            lemma_spells_split(tokens, pos, first, middle);
            assert(tokens[pos + 0].kind == first[0]);
            assert(tokens[pos + 1 + middle.len() + 0].kind == last[0]);
            law_printed_means_the_same(e, 0);
            law_parser_reads_spelling(printed(e, 0), tokens, pos + 1);
        },
    }
}

/// Parsing undoes printing, for the statements of a body up to the brace
/// that closes it.
pub proof fn law_body_read_back(
    body: Seq<StatementView>,
    from: int,
    tokens: Seq<TokenView>,
    pos: int,
)
    requires
        0 <= from <= body.len(),
        spells(tokens, pos, body_tokens(body, from)),
        pos + body_tokens(body, from).len() < tokens.len(),
        tokens[pos + body_tokens(body, from).len()].kind == TokenKindView::Separator(
            Separator::RBrace,
        ),
    ensures
        compound_statement_at(tokens, pos) == Ok::<(Seq<StatementView>, nat), ParseErrorView>(
            (body.subrange(from, body.len() as int), body_tokens(body, from).len()),
        ),
    decreases body.len() - from,
{
    if from < body.len() {
        let first = statement_tokens(body[from]);
        let rest = body_tokens(body, from + 1);
        lemma_spells_split(tokens, pos, first, rest);
        law_statement_read_back(body[from], tokens, pos);
        law_body_read_back(body, from + 1, tokens, pos + first.len());
        assert(tokens[pos + 0].kind == first[0]);
        assert(seq![body[from]] + body.subrange(from + 1, body.len() as int) =~= body.subrange(
            from,
            body.len() as int,
        ));
    } else {
        assert(body.subrange(from, body.len() as int) =~= Seq::empty());
    }
}

/// Parsing undoes printing, for functions.
pub proof fn law_function_read_back(function: FunctionView, tokens: Seq<TokenView>, pos: int)
    requires
        spells(tokens, pos, function_tokens(function)),
    ensures
        function_at(tokens, pos) == Ok::<(FunctionView, nat), ParseErrorView>(
            (function, function_tokens(function).len()),
        ),
{
    let head = header_tokens(function);
    let body = body_tokens(function.body, 0);
    let close = seq![TokenKindView::Separator(Separator::RBrace)];
    lemma_spells_split(tokens, pos, head + body, close);
    lemma_spells_split(tokens, pos, head, body);
    assert(tokens[pos + 0].kind == head[0]);
    assert(tokens[pos + 1].kind == head[1]);
    assert(tokens[pos + 2].kind == head[2]);
    assert(tokens[pos + 3].kind == head[3]);
    assert(tokens[pos + 4].kind == head[4]);
    assert(tokens[pos + 5 + body.len() + 0].kind == close[0]);
    law_body_read_back(function.body, 0, tokens, pos + 5);
    assert(function.body.subrange(0, function.body.len() as int) =~= function.body);
}

/// Parsing undoes printing, for the functions from place `from` on, when
/// the tokens end with them.
pub proof fn law_functions_read_back(
    functions: Seq<FunctionView>,
    from: int,
    tokens: Seq<TokenView>,
    pos: int,
)
    requires
        0 <= from <= functions.len(),
        spells(tokens, pos, functions_tokens(functions, from)),
        pos + functions_tokens(functions, from).len() == tokens.len(),
    ensures
        functions_at(tokens, pos) == Ok::<Seq<FunctionView>, ParseErrorView>(
            functions.subrange(from, functions.len() as int),
        ),
    decreases functions.len() - from,
{
    if from < functions.len() {
        let first = function_tokens(functions[from]);
        let rest = functions_tokens(functions, from + 1);
        lemma_spells_split(tokens, pos, first, rest);
        law_function_read_back(functions[from], tokens, pos);
        law_functions_read_back(functions, from + 1, tokens, pos + first.len());
        assert(seq![functions[from]] + functions.subrange(from + 1, functions.len() as int)
            =~= functions.subrange(from, functions.len() as int));
    } else {
        assert(functions.subrange(from, functions.len() as int) =~= Seq::empty());
    }
}

/// Parsing undoes printing: from tokens that spell the program `program`,
/// whatever their places in the source, the parser reads `program` back.
pub proof fn law_parse_undoes_print(program: ProgramView, tokens: Seq<TokenView>)
    requires
        spells(tokens, 0, program_tokens(program)),
        tokens.len() == program_tokens(program).len(),
    ensures
        program_at(tokens, 0) == Ok::<ProgramView, ParseErrorView>(program),
{
    law_functions_read_back(program.functions, 0, tokens, 0);
    assert(program.functions.subrange(0, program.functions.len() as int)
        =~= program.functions);
}

} // verus!
