//! Blocks that must be constant.
use crate::expression::{
    ExprId, ExprKind, ExpressionError, ExpressionErrorKind, LAST_LEVEL, id_known, room,
};
use crate::grammar::{
    expect_kind, parsed_const, push_from,
};
use crate::rules::parsed_const_rule;
use crate::token::{
    Token, TokenKind,
};
use crate::parser::state::{
    Reader, keeps, parses, stands_inside,
};
use vstd::prelude::*;

verus! {

impl<'source, const MAX_NODES: usize> Reader<'source, MAX_NODES> {
    pub(crate) fn const_block_expression(
        &mut self,
        const_token: Token<'source>,
        depth: usize,
    ) -> (result: Result<
        ExprId,
        ExpressionError,
    >)
        requires
            stands_inside(old(self)@),
            depth <= LAST_LEVEL + 1,
        ensures
            parses(final(self)@, result, parsed_const(old(self)@, const_token@, depth as int)),
            result is Ok ==> keeps(old(self)@, final(self)@),
            result matches Ok(id) ==> id_known(id, final(self)@.nodes.len() as int),
        decreases room(depth as int), 60int,
    {
        proof {
            parsed_const_rule(self@, const_token@, depth as int);
        }
        self.expect_kind(TokenKind::OpenBrace, ExpressionErrorKind::ExpectedOpenBrace)?;
        let (operand, _) = self.scalar_branch_block(depth)?;
        self.push_from(ExprKind::InlineConst { operand }, const_token.span.start, operand)
    }
}

} // verus!
