//! The mathematical model of bracket nesting.
//!
//! Everything here is ghost code: what it means for the brackets of an
//! instruction sequence to be balanced and well nested, which close bracket
//! belongs to which open bracket, and what a resolved program is.

use vstd::prelude::*;
use crate::instruction::Instruction;

verus! {

/// Number of unresolved open brackets in `s`.
pub open spec fn open_count(s: Seq<Instruction>) -> nat {
    s.filter(|i: Instruction| i == Instruction::EmptyOpenBracket).len()
}

/// Number of unresolved close brackets in `s`.
pub open spec fn close_count(s: Seq<Instruction>) -> nat {
    s.filter(|i: Instruction| i == Instruction::EmptyCloseBracket).len()
}

/// There are as many open brackets as close brackets.
pub open spec fn balanced(s: Seq<Instruction>) -> bool {
    open_count(s) == close_count(s)
}

/// Nesting depth in front of position `n`: open brackets minus close
/// brackets among the first `n` instructions.
pub open spec fn depth(s: Seq<Instruction>, n: int) -> int {
    open_count(s.take(n)) - close_count(s.take(n))
}

/// What one instruction adds to the nesting depth.
pub open spec fn depth_change(i: Instruction) -> int {
    match i {
        Instruction::EmptyOpenBracket => 1,
        Instruction::EmptyCloseBracket => -1,
        _ => 0,
    }
}

/// Some close bracket stands where no open bracket is waiting for it.
pub open spec fn has_unmatched_close(s: Seq<Instruction>) -> bool {
    exists|n: int|
        0 <= n < s.len() && s[n] == Instruction::EmptyCloseBracket && #[trigger] depth(s, n) <= 0
}

/// The brackets of `s` are balanced and properly nested.
pub open spec fn well_nested(s: Seq<Instruction>) -> bool {
    balanced(s) && !has_unmatched_close(s)
}

/// The open bracket at `open` is still waiting for its partner in front of
/// position `upto`: the depth has stayed above the open bracket's own level
/// ever since.
pub open spec fn pending(s: Seq<Instruction>, open: int, upto: int) -> bool {
    &&& 0 <= open < upto <= s.len()
    &&& s[open] == Instruction::EmptyOpenBracket
    &&& forall|k: int| open < k <= upto ==> #[trigger] depth(s, k) > depth(s, open)
}

/// The close bracket at `close` is the partner of the open bracket at
/// `open`: it is the first position after `open` behind which the depth is
/// back at the level in front of `open`.
pub open spec fn matched(s: Seq<Instruction>, open: int, close: int) -> bool {
    &&& close < s.len()
    &&& pending(s, open, close)
    &&& s[close] == Instruction::EmptyCloseBracket
    &&& depth(s, close + 1) == depth(s, open)
}

/// `s` holds no bracket that already carries a partner, as is the case for
/// everything the lexer produces.
pub open spec fn unresolved(s: Seq<Instruction>) -> bool {
    forall|i: int|
        0 <= i < s.len() ==> !((#[trigger] s[i]) is OpenBracket) && !(s[i] is CloseBracket)
}

/// `r` is `s` with every placeholder bracket replaced by the bracket that
/// carries the position of its partner, and everything else unchanged.
pub open spec fn resolves(s: Seq<Instruction>, r: Seq<Instruction>) -> bool {
    &&& r.len() == s.len()
    &&& forall|i: int| 0 <= i < s.len() ==> resolved_at(s, #[trigger] r[i], i)
}

/// What `resolves` asks of the single position `i`, where `instruction` is
/// the resolved instruction at that position.
pub open spec fn resolved_at(s: Seq<Instruction>, instruction: Instruction, i: int) -> bool {
    match s[i] {
        Instruction::EmptyOpenBracket => {
            &&& instruction is OpenBracket
            &&& matched(s, i, instruction->OpenBracket_jump_location as int)
        },
        Instruction::EmptyCloseBracket => {
            &&& instruction is CloseBracket
            &&& matched(s, instruction->CloseBracket_jump_location as int, i)
        },
        other => instruction == other,
    }
}

/// `p` is a resolved program: no placeholder is left, every open bracket
/// points forward at a close bracket that points back at it, and every close
/// bracket points backward at an open bracket that points forward at it.
pub open spec fn is_program(p: Seq<Instruction>) -> bool {
    forall|i: int|
        0 <= i < p.len() ==> match #[trigger] p[i] {
            Instruction::EmptyOpenBracket => false,
            Instruction::EmptyCloseBracket => false,
            Instruction::OpenBracket { jump_location } => {
                &&& i < jump_location < p.len()
                &&& p[jump_location as int] is CloseBracket
                &&& p[jump_location as int]->CloseBracket_jump_location == i
            },
            Instruction::CloseBracket { jump_location } => {
                &&& jump_location < i
                &&& p[jump_location as int] is OpenBracket
                &&& p[jump_location as int]->OpenBracket_jump_location == i
            },
            _ => true,
        }
}

/// The position that the bracket at `i` points at; `i` itself where no
/// resolved bracket stands.
pub open spec fn partner(p: Seq<Instruction>, i: int) -> int {
    match p[i] {
        Instruction::OpenBracket { jump_location } => jump_location as int,
        Instruction::CloseBracket { jump_location } => jump_location as int,
        _ => i,
    }
}

/// Taking one more instruction into a prefix adds one to the count that the
/// instruction belongs to, and nothing to the other.
pub proof fn lemma_count_step(s: Seq<Instruction>, n: int)
    requires
        0 <= n < s.len(),
    ensures
        open_count(s.take(n + 1)) == open_count(s.take(n)) + if s[n]
            == Instruction::EmptyOpenBracket {
            1nat
        } else {
            0nat
        },
        close_count(s.take(n + 1)) == close_count(s.take(n)) + if s[n]
            == Instruction::EmptyCloseBracket {
            1nat
        } else {
            0nat
        },
        open_count(s.take(n)) <= n,
        close_count(s.take(n)) <= n,
{
    reveal(Seq::filter);
    let longer = s.take(n + 1);
    assert(longer.drop_last() =~= s.take(n));
    s.take(n).lemma_filter_len(|i: Instruction| i == Instruction::EmptyOpenBracket);
    s.take(n).lemma_filter_len(|i: Instruction| i == Instruction::EmptyCloseBracket);
}

/// The depth in front of the first instruction is zero, and each instruction
/// changes it by its own contribution.
pub proof fn lemma_depth_step(s: Seq<Instruction>, n: int)
    requires
        0 <= n < s.len(),
    ensures
        depth(s, 0) == 0,
        depth(s, n + 1) == depth(s, n) + depth_change(s[n]),
{
    lemma_count_step(s, n);
    lemma_depth_total(s);
}

/// The depth behind the last instruction is the difference of the two
/// counts.
pub proof fn lemma_depth_total(s: Seq<Instruction>)
    ensures
        depth(s, s.len() as int) == open_count(s) - close_count(s),
        depth(s, 0) == 0,
{
    reveal(Seq::filter);
    assert(s.take(s.len() as int) =~= s);
}

/// Where no close bracket is unmatched, the depth never falls below zero.
pub proof fn well_nested_depth_is_nonnegative(s: Seq<Instruction>, n: int)
    requires
        !has_unmatched_close(s),
        0 <= n <= s.len(),
    ensures
        depth(s, n) >= 0,
    decreases n,
{
    if n == 0 {
        lemma_depth_total(s);
    } else {
        well_nested_depth_is_nonnegative(s, n - 1);
        lemma_depth_step(s, n - 1);
    }
}

/// Where the depth never falls below zero, no close bracket is unmatched.
pub proof fn lemma_nonnegative_depth_matches_closes(s: Seq<Instruction>)
    requires
        forall|n: int| 0 <= n <= s.len() ==> #[trigger] depth(s, n) >= 0,
    ensures
        !has_unmatched_close(s),
{
    assert forall|n: int|
        0 <= n < s.len() && s[n] == Instruction::EmptyCloseBracket implies #[trigger] depth(s, n)
        > 0 by {
        lemma_depth_step(s, n);
    }
}

/// An open bracket has at most one partner.
pub proof fn lemma_matched_close_unique(s: Seq<Instruction>, open: int, first: int, second: int)
    requires
        matched(s, open, first),
        matched(s, open, second),
    ensures
        first == second,
{
    if first < second {
        assert(depth(s, first + 1) > depth(s, open));
    } else if second < first {
        assert(depth(s, second + 1) > depth(s, open));
    }
}

/// A close bracket has at most one partner.
pub proof fn lemma_matched_open_unique(s: Seq<Instruction>, first: int, second: int, close: int)
    requires
        matched(s, first, close),
        matched(s, second, close),
    ensures
        first == second,
{
    if first < second {
        assert(depth(s, second) > depth(s, first));
    } else if second < first {
        assert(depth(s, first) > depth(s, second));
    }
}

/// A sequence has at most one resolution.
pub proof fn resolution_is_unique(s: Seq<Instruction>, r1: Seq<Instruction>, r2: Seq<Instruction>)
    requires
        resolves(s, r1),
        resolves(s, r2),
    ensures
        r1 == r2,
{
    assert forall|i: int| 0 <= i < s.len() implies r1[i] == r2[i] by {
        match s[i] {
            Instruction::EmptyOpenBracket => {
                lemma_matched_close_unique(
                    s,
                    i,
                    r1[i]->OpenBracket_jump_location as int,
                    r2[i]->OpenBracket_jump_location as int,
                );
            },
            Instruction::EmptyCloseBracket => {
                lemma_matched_open_unique(
                    s,
                    r1[i]->CloseBracket_jump_location as int,
                    r2[i]->CloseBracket_jump_location as int,
                    i,
                );
            },
            _ => {},
        }
    }
}

/// Resolving a sequence that holds placeholders only gives a resolved
/// program.
pub proof fn lemma_resolution_is_program(s: Seq<Instruction>, r: Seq<Instruction>)
    requires
        unresolved(s),
        resolves(s, r),
    ensures
        is_program(r),
{
    assert forall|i: int| 0 <= i < r.len() implies match #[trigger] r[i] {
        Instruction::EmptyOpenBracket => false,
        Instruction::EmptyCloseBracket => false,
        Instruction::OpenBracket { jump_location } => {
            &&& i < jump_location < r.len()
            &&& r[jump_location as int] is CloseBracket
            &&& r[jump_location as int]->CloseBracket_jump_location == i
        },
        Instruction::CloseBracket { jump_location } => {
            &&& jump_location < i
            &&& r[jump_location as int] is OpenBracket
            &&& r[jump_location as int]->OpenBracket_jump_location == i
        },
        _ => true,
    } by {
        match r[i] {
            Instruction::OpenBracket { jump_location } => {
                let close = jump_location as int;
                lemma_matched_open_unique(
                    s,
                    i,
                    r[close]->CloseBracket_jump_location as int,
                    close,
                );
            },
            Instruction::CloseBracket { jump_location } => {
                let open = jump_location as int;
                lemma_matched_close_unique(
                    s,
                    open,
                    i,
                    r[open]->OpenBracket_jump_location as int,
                );
            },
            _ => {},
        }
    }
}

/// Following a bracket of a resolved program to its partner and the partner
/// to its own leads back to the bracket: open and close brackets point at
/// each other.
pub proof fn partner_round_trip(p: Seq<Instruction>, i: int)
    requires
        is_program(p),
        0 <= i < p.len(),
    ensures
        0 <= partner(p, i) < p.len(),
        partner(p, partner(p, i)) == i,
        p[i] is OpenBracket ==> i < partner(p, i) && p[partner(p, i)] is CloseBracket,
        p[i] is CloseBracket ==> partner(p, i) < i && p[partner(p, i)] is OpenBracket,
{
}

} // verus!
