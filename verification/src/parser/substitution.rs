//! Names bound inside blocks and what stands for them.
use crate::expression::{
    Expr, ExprId, ExprKind, ExpressionError, ExpressionErrorKind, Form, LAST_LEVEL,
    MAX_ARRAY_ELEMENTS, MAX_CALL_ARGUMENTS, Node, form_known, id_known, nodes_closed,
    refuses_level, room,
};
use crate::grammar::{
    Binding, Parsing, annotated, assigned_form, assignment_operator, binding_place,
    broken_tree, expect_kind, form_of, next_is, next_reads, parsed_annotation, parsed_mut,
    push_from, substituted, substituted_all, take, with_bindings,
};
use crate::integer::{
    BinaryOperator, ScalarType,
};
use crate::text::same_text;
use crate::token::{
    Span, Token, TokenKind,
};
use crate::parser::state::{
    Reader, keeps, parses, reaches, sound, stands_inside,
};
use vstd::prelude::*;

verus! {

/// A name bound inside a block, with what stands for it.
#[derive(Clone, Copy)]
pub struct InlineConstBinding<'source> {
    pub name: &'source str,
    pub kind: ExprKind<'source>,
    pub mutable: bool,
    pub annotation: Option<ScalarType>,
}

impl<'source> InlineConstBinding<'source> {
    pub open spec fn model(&self) -> Binding {
        Binding {
            name: self.name@,
            form: self.kind@,
            mutable: self.mutable,
            annotation: self.annotation,
        }
    }
}

pub open spec fn binding_models(bindings: Seq<InlineConstBinding>) -> Seq<Binding> {
    bindings.map_values(|binding: InlineConstBinding| binding.model())
}

/// The operator of a compound assignment.
pub fn compound_operator(text: &str) -> (result: Option<BinaryOperator>)
    ensures
        result == assignment_operator(text@),
{
    if same_text(text, "+=") {
        Some(BinaryOperator::Add)
    } else if same_text(text, "-=") {
        Some(BinaryOperator::Subtract)
    } else if same_text(text, "*=") {
        Some(BinaryOperator::Multiply)
    } else if same_text(text, "/=") {
        Some(BinaryOperator::Divide)
    } else if same_text(text, "%=") {
        Some(BinaryOperator::Remainder)
    } else if same_text(text, "&=") {
        Some(BinaryOperator::BitAnd)
    } else if same_text(text, "|=") {
        Some(BinaryOperator::BitOr)
    } else if same_text(text, "^=") {
        Some(BinaryOperator::BitXor)
    } else if same_text(text, "<<=") {
        Some(BinaryOperator::ShiftLeft)
    } else if same_text(text, ">>=") {
        Some(BinaryOperator::ShiftRight)
    } else {
        None
    }
}

/// Whether what names are bound to speaks of the first `count` nodes only.
pub open spec fn bindings_known(bindings: Seq<Binding>, count: int) -> bool {
    forall|i: int| #![trigger bindings[i]]
        0 <= i < bindings.len() ==> form_known(bindings[i].form, count)
}

impl<'source, const MAX_NODES: usize> Reader<'source, MAX_NODES> {
    pub(crate) fn substitute_identifier(
        &mut self,
        id: ExprId,
        name: &str,
        replacement: ExprKind<'source>,
        depth: usize,
    ) -> (result: Result<(), ExpressionError>)
        requires
            stands_inside(old(self)@),
            form_known(replacement@, old(self)@.nodes.len() as int),
        ensures
            match result {
                Ok(()) => substituted(
                    old(self)@.length,
                    old(self)@.nodes,
                    id,
                    name@,
                    replacement@,
                    depth as int,
                ) == Ok::<Seq<Option<Node>>, ExpressionError>(final(self)@.nodes) && final(self)@
                    == (Parsing { nodes: final(self)@.nodes, ..old(self)@ }),
                Err(error) => substituted(
                    old(self)@.length,
                    old(self)@.nodes,
                    id,
                    name@,
                    replacement@,
                    depth as int,
                ) == Err::<Seq<Option<Node>>, ExpressionError>(error),
            },
            result is Ok ==> keeps(old(self)@, final(self)@),
            result is Ok ==> final(self)@.nodes.len() == old(self)@.nodes.len(),
        decreases room(depth as int), 0int,
    {
        proof {
            reveal(Reader::state);
            reveal(nodes_closed);
        }
        let expression = match self.expression_at(id) {
            Some(expression) => expression,
            None => return Err(self.broken_tree()),
        };
        if refuses_level(depth) {
            return Err(
                ExpressionError {
                    kind: ExpressionErrorKind::NestingLimitExceeded,
                    span: expression.span,
                },
            );
        }
        match expression.kind {
            ExprKind::Identifier(identifier) => {
                if same_text(identifier, name) {
                    self.nodes.set(id.0, Some(Expr { kind: replacement, span: expression.span }));
                    proof {
                        assert(self@.nodes =~= old(self)@.nodes.update(
                            id.0 as int,
                            Some(Node { form: replacement@, span: expression.span }),
                        ));
                    }
                }
                Ok(())
            },
            ExprKind::Call { arguments, argument_count, .. } => {
                if argument_count > MAX_CALL_ARGUMENTS {
                    return Err(self.broken_tree());
                }
                self.substitute_all(
                    arguments.as_slice(),
                    argument_count,
                    name,
                    replacement,
                    depth + 1,
                )
            },
            ExprKind::Array { elements, element_count } => {
                if element_count > MAX_ARRAY_ELEMENTS {
                    return Err(self.broken_tree());
                }
                self.substitute_all(
                    elements.as_slice(),
                    element_count,
                    name,
                    replacement,
                    depth + 1,
                )
            },
            ExprKind::Cast { operand, .. }
            | ExprKind::Ascribe { operand, .. }
            | ExprKind::Unary { operand, .. }
            | ExprKind::Return { operand }
            | ExprKind::LoopBreak { operand } => {
                self.substitute_identifier(operand, name, replacement, depth + 1)
            },
            ExprKind::ArrayRepeat { element, .. } => {
                self.substitute_identifier(element, name, replacement, depth + 1)
            },
            ExprKind::SliceLen { base }
            | ExprKind::SliceIsEmpty { base }
            | ExprKind::StrAsBytes { base }
            | ExprKind::ReferenceAsPointer { base, .. } => {
                self.substitute_identifier(base, name, replacement, depth + 1)
            },
            ExprKind::Binary { left: first, right: second, .. }
            | ExprKind::Sequence { first, then: second }
            | ExprKind::Index { base: first, index: second }
            | ExprKind::StrIsCharBoundary { base: first, index: second } => {
                let ids = [Some(first), Some(second)];
                proof {
                    assert(ids@ =~= seq![Some(first), Some(second)]);
                }
                self.substitute_all(ids.as_slice(), 2, name, replacement, depth + 1)
            },
            ExprKind::RangeIndex { base, start, end, .. } => {
                let ids = [Some(base), start, end];
                proof {
                    assert(ids@ =~= seq![Some(base), start, end]);
                }
                self.substitute_all(ids.as_slice(), 3, name, replacement, depth + 1)
            },
            ExprKind::If { condition, then_branch, else_branch }
            | ExprKind::LoopBreakIf { condition, then_branch, else_branch } => {
                let ids = [Some(condition), Some(then_branch), Some(else_branch)];
                proof {
                    assert(ids@ =~= seq![Some(condition), Some(then_branch), Some(else_branch)]);
                }
                self.substitute_all(ids.as_slice(), 3, name, replacement, depth + 1)
            },
            _ => Ok(()),
        }
    }

    pub(crate) fn substitute_all(
        &mut self,
        ids: &[Option<ExprId>],
        count: usize,
        name: &str,
        replacement: ExprKind<'source>,
        depth: usize,
    ) -> (result: Result<(), ExpressionError>)
        requires
            stands_inside(old(self)@),
            count <= ids@.len(),
            depth <= LAST_LEVEL,
            form_known(replacement@, old(self)@.nodes.len() as int),
        ensures
            match result {
                Ok(()) => substituted_all(
                    old(self)@.length,
                    old(self)@.nodes,
                    ids@,
                    count as int,
                    name@,
                    replacement@,
                    depth as int,
                ) == Ok::<Seq<Option<Node>>, ExpressionError>(final(self)@.nodes) && final(self)@
                    == (Parsing { nodes: final(self)@.nodes, ..old(self)@ }),
                Err(error) => substituted_all(
                    old(self)@.length,
                    old(self)@.nodes,
                    ids@,
                    count as int,
                    name@,
                    replacement@,
                    depth as int,
                ) == Err::<Seq<Option<Node>>, ExpressionError>(error),
            },
            result is Ok ==> keeps(old(self)@, final(self)@),
            result is Ok ==> final(self)@.nodes.len() == old(self)@.nodes.len(),
        decreases room(depth as int), 1 + count,
    {
        if count == 0 {
            return Ok(());
        }
        self.substitute_all(ids, count - 1, name, replacement, depth)?;
        match ids[count - 1] {
            Some(id) => self.substitute_identifier(id, name, replacement, depth),
            None => Ok(()),
        }
    }

    /// Replaces the names that the first `count` bindings bind, the last first.
    pub(crate) fn apply_bindings(
        &mut self,
        id: ExprId,
        bindings: &Vec<InlineConstBinding<'source>>,
        count: usize,
        depth: usize,
    ) -> (result: Result<(), ExpressionError>)
        requires
            stands_inside(old(self)@),
            count <= bindings@.len(),
            bindings_known(binding_models(bindings@), old(self)@.nodes.len() as int),
        ensures
            reaches(
                final(self)@,
                result,
                with_bindings(
                    old(self)@,
                    id,
                    binding_models(bindings@),
                    count as int,
                    depth as int,
                ),
            ),
            result is Ok ==> keeps(old(self)@, final(self)@),
            result is Ok ==> final(self)@.nodes.len() == old(self)@.nodes.len(),
        decreases count,
    {
        proof {
            reveal(with_bindings);
        }
        if count == 0 {
            return Ok(());
        }
        let binding = bindings[count - 1];
        assert(binding_models(bindings@)[count - 1] == binding.model());
        self.substitute_identifier(id, binding.name, binding.kind, depth)?;
        self.apply_bindings(id, bindings, count - 1, depth)
    }

    /// The last of the first `count` bindings with a name.
    pub(crate) fn binding_index(
        bindings: &Vec<InlineConstBinding<'source>>,
        name: &str,
        count: usize,
    ) -> (result: Option<usize>)
        requires
            count <= bindings@.len(),
        ensures
            match result {
                Some(place) => binding_place(
                    binding_models(bindings@),
                    name@,
                    count as int,
                ) == Some(place as int) && place < count,
                None => binding_place(binding_models(bindings@), name@, count as int) is None,
            },
        decreases count,
    {
        if count == 0 {
            return None;
        }
        if same_text(bindings[count - 1].name, name) {
            Some(count - 1)
        } else {
            Self::binding_index(bindings, name, count - 1)
        }
    }

    pub(crate) fn kind_of_node(&self, id: ExprId, span: Span) -> (result: Result<
        ExprKind<'source>,
        ExpressionError,
    >)
        ensures
            match result {
                Ok(kind) => form_of(self@, id, span) == Ok::<Form, ExpressionError>(kind@),
                Err(error) => form_of(self@, id, span) == Err::<Form, ExpressionError>(error),
            },
            result matches Ok(kind) ==> sound(self@) ==> form_known(kind@, self@.nodes.len() as int),
    {
        proof {
            reveal(nodes_closed);
        }
        match self.expression_at(id) {
            Some(expression) => Ok(expression.kind),
            None => Err(
                ExpressionError { kind: ExpressionErrorKind::InvalidExpressionTree, span },
            ),
        }
    }

    /// What stands for a name that is bound to `kind`, with its annotation.
    pub(crate) fn annotate(
        &mut self,
        kind: ExprKind<'source>,
        annotation: Option<ScalarType>,
        name: Token<'source>,
        value: ExprId,
    ) -> (result: Result<ExprKind<'source>, ExpressionError>)
        requires
            stands_inside(old(self)@),
            form_known(kind@, old(self)@.nodes.len() as int),
        ensures
            match result {
                Ok(found) => annotated(old(self)@, kind@, annotation, name@, value) == Ok::<
                    (Parsing, Form),
                    ExpressionError,
                >((final(self)@, found@)),
                Err(error) => annotated(old(self)@, kind@, annotation, name@, value) == Err::<
                    (Parsing, Form),
                    ExpressionError,
                >(error),
            },
            result is Ok ==> keeps(old(self)@, final(self)@),
            result matches Ok(found) ==> form_known(found@, final(self)@.nodes.len() as int),
    {
        proof {
            reveal(annotated);
        }
        match annotation {
            None => Ok(kind),
            Some(target) => {
                let span: Span = self.node_span(value)?;
                let operand = self.push(kind, span)?;
                let ascription = ExprKind::Ascribe { operand, target };
                self.push_from(ascription, name.span.start, value)?;
                Ok(ascription)
            },
        }
    }

    pub(crate) fn annotation(&mut self) -> (result: Result<Option<ScalarType>, ExpressionError>)
        requires
            stands_inside(old(self)@),
        ensures
            parses(final(self)@, result, parsed_annotation(old(self)@)),
            result is Ok ==> keeps(old(self)@, final(self)@),
    {
        proof {
            reveal(parsed_annotation);
        }
        if !self.next_is(TokenKind::Colon)? {
            return Ok(None);
        }
        self.take()?;
        let ty = self.expect_kind(
            TokenKind::Identifier,
            ExpressionErrorKind::ExpectedInlineConstType,
        )?;
        match ScalarType::from_name(ty.text) {
            Some(scalar) => Ok(Some(scalar)),
            None => Err(
                ExpressionError {
                    kind: ExpressionErrorKind::UnsupportedInlineConstType,
                    span: ty.span,
                },
            ),
        }
    }

    pub(crate) fn mut_keyword(&mut self) -> (result: Result<bool, ExpressionError>)
        requires
            stands_inside(old(self)@),
        ensures
            parses(final(self)@, result, parsed_mut(old(self)@)),
            result is Ok ==> keeps(old(self)@, final(self)@),
    {
        if self.next_reads("mut")? {
            self.take()?;
            Ok(true)
        } else {
            Ok(false)
        }
    }

    /// What a name stands for after an assignment of `value` to it.
    pub(crate) fn assigned_kind(
        &mut self,
        binding: InlineConstBinding<'source>,
        operator: Token<'source>,
        name: Token<'source>,
        value: ExprId,
    ) -> (result: Result<ExprKind<'source>, ExpressionError>)
        requires
            stands_inside(old(self)@),
            form_known(binding.kind@, old(self)@.nodes.len() as int),
            id_known(value, old(self)@.nodes.len() as int),
        ensures
            match result {
                Ok(kind) => assigned_form(
                    old(self)@,
                    binding.model(),
                    operator@,
                    name@,
                    value,
                ) == Ok::<(Parsing, Form), ExpressionError>((final(self)@, kind@)),
                Err(error) => assigned_form(
                    old(self)@,
                    binding.model(),
                    operator@,
                    name@,
                    value,
                ) == Err::<(Parsing, Form), ExpressionError>(error),
            },
            result is Ok ==> keeps(old(self)@, final(self)@),
            result matches Ok(found) ==> form_known(found@, final(self)@.nodes.len() as int),
    {
        proof {
            reveal(assigned_form);
        }
        let kind = self.kind_of_node(value, name.span)?;
        match compound_operator(operator.text) {
            None => self.annotate(kind, binding.annotation, name, value),
            Some(binary) => {
                let previous = self.push(binding.kind, name.span)?;
                let updated = ExprKind::Binary { operator: binary, left: previous, right: value };
                self.push_from(updated, name.span.start, value)?;
                self.annotate(updated, binding.annotation, name, value)
            },
        }
    }
}

} // verus!
