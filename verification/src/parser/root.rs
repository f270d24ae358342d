//! The root of a text.
use crate::expression::{
    ExprId, ExprKind, ExpressionError, ExpressionErrorKind, ExpressionTree, Tree, id_known,
};
use crate::grammar::{
    Parsing, broken_tree, first_state, next_is, next_reads, parsed_root, parsed_tree, take,
};
use crate::token::{
    Span, TokenKind,
};
use crate::parser::state::{
    Reader, keeps, parses, sound, stands_inside,
};
use vstd::prelude::*;

verus! {

impl<'source, const MAX_NODES: usize> Reader<'source, MAX_NODES> {
    pub(crate) fn root(&mut self) -> (result: Result<ExprId, ExpressionError>)
        requires
            stands_inside(old(self)@),
        ensures
            parses(final(self)@, result, parsed_root(old(self)@, 0)),
            result is Ok ==> keeps(old(self)@, final(self)@),
            result matches Ok(id) ==> id_known(id, final(self)@.nodes.len() as int),
    {
        if !self.next_reads("return")? {
            return self.expression(0, 0);
        }
        let keyword = match self.take()? {
            Some(keyword) => keyword,
            None => return Err(self.broken_tree()),
        };
        let operand = self.expression(0, 1)?;
        let end: usize = self.node_span(operand)?.end;
        if self.next_is(TokenKind::Semicolon)? {
            self.take()?;
        }
        self.push(ExprKind::Return { operand }, Span { start: keyword.span.start, end })
    }
}

/// A parser of expressions of at most `MAX_NODES` nodes.
pub struct ExpressionParser<'source, const MAX_NODES: usize> {
    reader: Reader<'source, MAX_NODES>,
}

impl<'source, const MAX_NODES: usize> View for ExpressionParser<'source, MAX_NODES> {
    type V = Parsing;

    closed spec fn view(&self) -> Parsing {
        self.reader@
    }
}

impl<'source, const MAX_NODES: usize> ExpressionParser<'source, MAX_NODES> {
    /// The parser stands inside its text and its nodes are sound.
    #[verifier::type_invariant]
    spec fn stands(self) -> bool {
        stands_inside(self.reader@)
    }

    pub fn new(source: &'source str) -> (result: Self)
        ensures
            result@ == first_state(source@, MAX_NODES as int),
    {
        ExpressionParser { reader: Reader::new(source) }
    }

    /// Parses the whole text.
    pub fn parse(self) -> (result: Result<ExpressionTree<'source, MAX_NODES>, ExpressionError>)
        ensures
            match result {
                Ok(tree) => parsed_tree(self@, 0) == Ok::<Tree, ExpressionError>(tree@),
                Err(error) => parsed_tree(self@, 0) == Err::<Tree, ExpressionError>(error),
            },
            result matches Ok(tree) ==> tree@.sound(MAX_NODES as int),
    {
        proof {
            use_type_invariant(&self);
            reveal(Reader::state);
        }
        let mut reader = self.reader;
        let root = reader.root()?;
        if let Some(token) = reader.take()? {
            return Err(reader.error(ExpressionErrorKind::TrailingToken, Some(token)));
        }
        Ok(
            ExpressionTree {
                nodes: reader.nodes,
                range_validations: reader.range_validations,
                root,
            },
        )
    }
}

} // verus!
