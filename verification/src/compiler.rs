//! The compiler: lexing, the balance check and bracket resolution.

use vstd::prelude::*;
use crate::error::CompileError;
use crate::instruction::{lex_char, parse_character, Bytecode, Instruction};
use crate::nesting::{
    balanced, close_count, depth, has_unmatched_close, is_program, lemma_count_step,
    lemma_depth_step, lemma_depth_total, lemma_nonnegative_depth_matches_closes,
    lemma_resolution_is_program, matched, open_count, pending, resolved_at, resolves, unresolved,
    well_nested,
};

verus! {

/// The instructions that a source text stands for: one for each command
/// character, in order; every other character is dropped.
pub open spec fn lex(source: Seq<char>) -> Seq<Instruction> {
    source.filter_map(|character: char| lex_char(character))
}

/// Number of command characters in a source text.
pub open spec fn command_count(source: Seq<char>) -> nat {
    source.filter(|character: char| lex_char(character) is Some).len()
}

/// The error that says what is wrong with brackets that are not well nested:
/// unequal counts come first, and with equal counts some close bracket is
/// unmatched.
pub open spec fn nesting_error(s: Seq<Instruction>) -> CompileError {
    if balanced(s) {
        CompileError::UnmatchedCloseBracket
    } else {
        CompileError::UnbalancedBrackets
    }
}

/// What bracket resolution owes on the sequence `s`: success exactly when the
/// brackets are well nested, then the resolved sequence, and otherwise the
/// error that says what is wrong with them.
pub open spec fn resolution(s: Seq<Instruction>, result: Result<Bytecode, CompileError>) -> bool {
    &&& result is Ok <==> well_nested(s)
    &&& result matches Ok(resolved) ==> resolves(s, resolved@)
    &&& result matches Err(error) ==> error == nesting_error(s)
}

/// Tells whether `bytecode` holds as many placeholder open brackets as
/// placeholder close brackets.
///
/// Equal counts are necessary for well-nested brackets, not sufficient: a
/// close bracket may still come before its open bracket.
pub fn brackets_are_balanced(bytecode: &Bytecode) -> (answer: bool)
    ensures
        answer == balanced(bytecode@),
{
    let n: usize = bytecode.len();
    let mut open: usize = 0;
    let mut close: usize = 0;
    let mut i: usize = 0;
    while i < n
        invariant
            n == bytecode@.len(),
            i <= n,
            open <= i,
            close <= i,
            open == open_count(bytecode@.take(i as int)),
            close == close_count(bytecode@.take(i as int)),
        decreases n - i,
    {
        proof {
            lemma_count_step(bytecode@, i as int);
        }
        match bytecode[i] {
            Instruction::EmptyOpenBracket => {
                open += 1;
            },
            Instruction::EmptyCloseBracket => {
                close += 1;
            },
            _ => {},
        }
        i += 1;
    }
    proof {
        assert(bytecode@.take(n as int) =~= bytecode@);
    }
    open == close
}

/// What the resolved instruction at position `j` has to be once the scan
/// stands in front of position `upto`: an open bracket that is still pending
/// is untouched, everything else is in its final form.
spec fn settled(s: Seq<Instruction>, instruction: Instruction, j: int, upto: int) -> bool {
    if pending(s, j, upto) {
        instruction == s[j]
    } else {
        resolved_at(s, instruction, j)
    }
}

/// The state of the resolving scan in front of position `i`: `stack` holds
/// exactly the pending open brackets, innermost last, and `r` holds the
/// first `i` instructions, settled.
spec fn scanned(s: Seq<Instruction>, stack: Seq<usize>, r: Seq<Instruction>, i: int) -> bool {
    &&& 0 <= i <= s.len()
    &&& r.len() == i
    &&& stack.len() == depth(s, i)
    &&& forall|k: int| 0 <= k <= i ==> #[trigger] depth(s, k) >= 0
    &&& forall|t: int|
        0 <= t < stack.len() ==> pending(s, #[trigger] stack[t] as int, i) && depth(
            s,
            stack[t] as int,
        ) == t
    &&& forall|j: int| #[trigger]
        pending(s, j, i) ==> 0 <= depth(s, j) < stack.len() && stack[depth(s, j)] == j
    &&& forall|j: int| 0 <= j < i ==> settled(s, #[trigger] r[j], j, i)
}

/// A pending open bracket was already pending one position earlier.
proof fn lemma_pending_before(s: Seq<Instruction>, j: int, i: int)
    requires
        pending(s, j, i + 1),
        j < i,
    ensures
        pending(s, j, i),
{
    assert forall|k: int| j < k <= i implies #[trigger] depth(s, k) > depth(s, j) by {}
}

/// A pending open bracket stays pending while the depth stays above its
/// level.
proof fn lemma_pending_after(s: Seq<Instruction>, j: int, i: int)
    requires
        pending(s, j, i),
        i < s.len(),
        depth(s, i + 1) > depth(s, j),
    ensures
        pending(s, j, i + 1),
{
    assert forall|k: int| j < k <= i + 1 implies #[trigger] depth(s, k) > depth(s, j) by {}
}

/// The scan may start with nothing on the stack and nothing resolved.
proof fn lemma_scan_start(s: Seq<Instruction>)
    ensures
        scanned(s, Seq::empty(), Seq::empty(), 0),
{
    lemma_depth_total(s);
}

/// Passing an instruction that is no placeholder bracket.
proof fn lemma_scan_plain(s: Seq<Instruction>, stack: Seq<usize>, r: Seq<Instruction>, i: int)
    requires
        scanned(s, stack, r, i),
        i < s.len(),
        s[i] != Instruction::EmptyOpenBracket,
        s[i] != Instruction::EmptyCloseBracket,
    ensures
        scanned(s, stack, r.push(s[i]), i + 1),
{
    let r2 = r.push(s[i]);
    lemma_depth_step(s, i);
    assert forall|t: int| 0 <= t < stack.len() implies pending(s, #[trigger] stack[t] as int, i + 1)
        && depth(s, stack[t] as int) == t by {
        lemma_pending_after(s, stack[t] as int, i);
    }
    assert forall|j: int| #[trigger] pending(s, j, i + 1) implies 0 <= depth(s, j) < stack.len()
        && stack[depth(s, j)] == j by {
        lemma_pending_before(s, j, i);
    }
    assert forall|j: int| 0 <= j < i + 1 implies settled(s, #[trigger] r2[j], j, i + 1) by {
        if j < i {
            if pending(s, j, i + 1) {
                lemma_pending_before(s, j, i);
            } else if pending(s, j, i) {
                lemma_pending_after(s, j, i);
            }
        }
    }
}

/// Passing an open bracket: it is pushed and stays as it is for now.
proof fn lemma_scan_open(s: Seq<Instruction>, stack: Seq<usize>, r: Seq<Instruction>, i: int)
    requires
        scanned(s, stack, r, i),
        i < s.len(),
        i <= usize::MAX,
        s[i] == Instruction::EmptyOpenBracket,
    ensures
        scanned(s, stack.push(i as usize), r.push(s[i]), i + 1),
{
    let stack2 = stack.push(i as usize);
    let r2 = r.push(s[i]);
    lemma_depth_step(s, i);
    assert forall|t: int| 0 <= t < stack2.len() implies pending(
        s,
        #[trigger] stack2[t] as int,
        i + 1,
    ) && depth(s, stack2[t] as int) == t by {
        if t < stack.len() {
            lemma_pending_after(s, stack[t] as int, i);
        }
    }
    assert forall|j: int| #[trigger] pending(s, j, i + 1) implies 0 <= depth(s, j) < stack2.len()
        && stack2[depth(s, j)] == j by {
        if j < i {
            lemma_pending_before(s, j, i);
        }
    }
    assert forall|j: int| 0 <= j < i + 1 implies settled(s, #[trigger] r2[j], j, i + 1) by {
        if j < i {
            if pending(s, j, i + 1) {
                lemma_pending_before(s, j, i);
            } else if pending(s, j, i) {
                lemma_pending_after(s, j, i);
            }
        }
    }
}

/// Passing a close bracket while an open bracket is pending: the innermost
/// pending open bracket is its partner, and both are resolved.
proof fn lemma_scan_close(s: Seq<Instruction>, stack: Seq<usize>, r: Seq<Instruction>, i: int)
    requires
        scanned(s, stack, r, i),
        i < s.len(),
        i <= usize::MAX,
        s[i] == Instruction::EmptyCloseBracket,
        stack.len() > 0,
    ensures
        stack.last() < i,
        matched(s, stack.last() as int, i),
        scanned(
            s,
            stack.drop_last(),
            r.update(
                stack.last() as int,
                Instruction::OpenBracket { jump_location: i as usize },
            ).push(Instruction::CloseBracket { jump_location: stack.last() }),
            i + 1,
        ),
{
    let top = stack.len() - 1;
    let open = stack[top] as int;
    let stack2 = stack.drop_last();
    let r2 = r.update(open, Instruction::OpenBracket { jump_location: i as usize }).push(
        Instruction::CloseBracket { jump_location: stack.last() },
    );
    lemma_depth_step(s, i);
    assert(matched(s, open, i));
    assert(!pending(s, open, i + 1)) by {
        if pending(s, open, i + 1) {
            assert(depth(s, i + 1) > depth(s, open));
        }
    }
    assert forall|t: int| 0 <= t < stack2.len() implies pending(
        s,
        #[trigger] stack2[t] as int,
        i + 1,
    ) && depth(s, stack2[t] as int) == t by {
        lemma_pending_after(s, stack[t] as int, i);
    }
    assert forall|j: int| #[trigger] pending(s, j, i + 1) implies 0 <= depth(s, j) < stack2.len()
        && stack2[depth(s, j)] == j by {
        lemma_pending_before(s, j, i);
    }
    assert forall|j: int| 0 <= j < i + 1 implies settled(s, #[trigger] r2[j], j, i + 1) by {
        if j != i && j != open {
            if pending(s, j, i + 1) {
                lemma_pending_before(s, j, i);
            } else if pending(s, j, i) {
                lemma_pending_after(s, j, i);
            }
        }
    }
}

/// A close bracket met while nothing is pending is unmatched.
proof fn lemma_scan_unmatched(s: Seq<Instruction>, stack: Seq<usize>, r: Seq<Instruction>, i: int)
    requires
        scanned(s, stack, r, i),
        i < s.len(),
        s[i] == Instruction::EmptyCloseBracket,
        stack.len() == 0,
    ensures
        has_unmatched_close(s),
{
}

/// At the end of a scan over balanced brackets nothing is pending, so
/// everything is resolved.
proof fn lemma_scan_end(s: Seq<Instruction>, stack: Seq<usize>, r: Seq<Instruction>)
    requires
        scanned(s, stack, r, s.len() as int),
        balanced(s),
    ensures
        well_nested(s),
        resolves(s, r),
{
    let n = s.len() as int;
    lemma_depth_total(s);
    lemma_nonnegative_depth_matches_closes(s);
    assert forall|i: int| 0 <= i < n implies resolved_at(s, #[trigger] r[i], i) by {
        if pending(s, i, n) {
            assert(depth(s, i) < stack.len());
        }
    }
}

/// Resolves every placeholder bracket of `bytecode` to the bracket that
/// carries the position of its partner, and leaves every other instruction
/// as it is.
///
/// Succeeds exactly when the brackets are balanced and well nested. Unequal
/// counts are reported as `UnbalancedBrackets`; equal counts with a close
/// bracket that has no open bracket before it as `UnmatchedCloseBracket`.
/// Where the input holds placeholders only, the result is a resolved
/// program.
pub fn match_brackets(bytecode: &Bytecode) -> (result: Result<Bytecode, CompileError>)
    ensures
        resolution(bytecode@, result),
        unresolved(bytecode@) ==> (result matches Ok(program) ==> is_program(program@)),
{
    if !brackets_are_balanced(bytecode) {
        return Err(CompileError::UnbalancedBrackets);
    }
    let n: usize = bytecode.len();
    let mut result: Vec<Instruction> = Vec::new();
    let mut open_locations: Vec<usize> = Vec::new();
    let mut i: usize = 0;
    proof {
        lemma_scan_start(bytecode@);
    }
    while i < n
        invariant
            n == bytecode@.len(),
            i <= n,
            balanced(bytecode@),
            scanned(bytecode@, open_locations@, result@, i as int),
        decreases n - i,
    {
        let instruction = bytecode[i];
        match instruction {
            Instruction::EmptyOpenBracket => {
                proof {
                    lemma_scan_open(bytecode@, open_locations@, result@, i as int);
                }
                open_locations.push(i);
                result.push(instruction);
            },
            Instruction::EmptyCloseBracket => {
                let ghost stack = open_locations@;
                match open_locations.pop() {
                    None => {
                        proof {
                            lemma_scan_unmatched(bytecode@, stack, result@, i as int);
                        }
                        return Err(CompileError::UnmatchedCloseBracket);
                    },
                    Some(open_location) => {
                        proof {
                            lemma_scan_close(bytecode@, stack, result@, i as int);
                        }
                        result.set(open_location, Instruction::OpenBracket { jump_location: i });
                        result.push(Instruction::CloseBracket { jump_location: open_location });
                    },
                }
            },
            _ => {
                proof {
                    lemma_scan_plain(bytecode@, open_locations@, result@, i as int);
                }
                result.push(instruction);
            },
        }
        i += 1;
    }
    proof {
        lemma_scan_end(bytecode@, open_locations@, result@);
        if unresolved(bytecode@) {
            lemma_resolution_is_program(bytecode@, result@);
        }
    }
    Ok(result)
}

/// Taking one more character into a source prefix appends its instruction,
/// if it has one.
pub proof fn lemma_lex_step(source: Seq<char>, n: int)
    requires
        0 <= n < source.len(),
    ensures
        lex(source.take(0)) == Seq::<Instruction>::empty(),
        lex(source.take(n + 1)) == match lex_char(source[n]) {
            Some(instruction) => lex(source.take(n)).push(instruction),
            None => lex(source.take(n)),
        },
{
    let longer = source.take(n + 1);
    assert(longer.drop_last() =~= source.take(n));
    match lex_char(source[n]) {
        Some(instruction) => {
            assert(lex(source.take(n)) + seq![instruction] =~= lex(source.take(n)).push(
                instruction,
            ));
        },
        None => {},
    }
}

/// The lexer produces placeholder brackets only.
pub proof fn lemma_lex_unresolved(source: Seq<char>)
    ensures
        unresolved(lex(source)),
    decreases source.len(),
{
    if source.len() > 0 {
        lemma_lex_unresolved(source.drop_last());
        lemma_lex_step(source, source.len() - 1);
    }
}

/// The lexer gives one instruction for each command character.
pub proof fn lemma_lex_len(source: Seq<char>)
    ensures
        lex(source).len() == command_count(source),
    decreases source.len(),
{
    reveal(Seq::filter);
    if source.len() > 0 {
        lemma_lex_len(source.drop_last());
    }
}

/// Lexing goes character by character: the instructions of a text in two
/// parts are those of the first part followed by those of the second.
pub proof fn lex_distributes_over_concatenation(first: Seq<char>, second: Seq<char>)
    ensures
        lex(first + second) == lex(first) + lex(second),
    decreases second.len(),
{
    if second.len() > 0 {
        assert((first + second).drop_last() =~= first + second.drop_last());
        lex_distributes_over_concatenation(first, second.drop_last());
    }
}

/// A text without command characters stands for no instruction at all.
pub proof fn lemma_comments_lex_to_nothing(source: Seq<char>)
    requires
        forall|i: int| 0 <= i < source.len() ==> lex_char(#[trigger] source[i]) is None,
    ensures
        lex(source) == Seq::<Instruction>::empty(),
    decreases source.len(),
{
    if source.len() > 0 {
        lemma_comments_lex_to_nothing(source.drop_last());
    }
}

/// Characters that are no commands are ignored: a source text made of such
/// characters alone compiles, and it compiles to the empty program.
pub proof fn comments_compile_to_nothing(source: Seq<char>, result: Result<Bytecode, CompileError>)
    requires
        forall|i: int| 0 <= i < source.len() ==> lex_char(#[trigger] source[i]) is None,
        resolution(lex(source), result),
    ensures
        result matches Ok(program) && program@ == Seq::<Instruction>::empty(),
{
    lemma_comments_lex_to_nothing(source);
    lemma_depth_total(lex(source));
}

/// Turns source text into a resolved program.
///
/// Every character other than the eight command symbols is ignored. The
/// result has one instruction for each command character, in order, with
/// every bracket resolved to its partner. Compilation succeeds exactly when
/// the brackets of the source are balanced and well nested.
pub fn compile(source_code: String) -> (result: Result<Bytecode, CompileError>)
    ensures
        resolution(lex(source_code@), result),
        result matches Ok(program) ==> is_program(program@) && program@.len() == command_count(
            source_code@,
        ),
{
    let source: &str = source_code.as_str();
    let mut bytecode: Vec<Instruction> = Vec::new();
    for character in iter: source.chars()
        invariant
            iter.seq() == source@,
            bytecode@ == lex(source@.take(iter.index())),
    {
        proof {
            lemma_lex_step(source@, iter.index());
        }
        match parse_character(character) {
            Some(instruction) => {
                bytecode.push(instruction);
            },
            None => {},
        }
    }
    proof {
        assert(source@.take(source@.len() as int) =~= source@);
        lemma_lex_unresolved(source@);
        lemma_lex_len(source@);
    }
    match_brackets(&bytecode)
}

} // verus!
