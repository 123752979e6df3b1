//! How loop brackets nest: the depth of nesting along a command sequence,
//! which sequences are well bracketed, and which two brackets enclose one
//! loop.

use vstd::prelude::*;
use crate::command::Command;

verus! {

/// By how much a command changes the depth of nesting.
pub open spec fn depth_change(command: Command) -> int {
    match command {
        Command::BeginLoop => 1,
        Command::EndLoop => -1,
        _ => 0,
    }
}

/// The depth of nesting after the first `n` commands: the number of loops
/// opened among them less the number of loops closed.
pub open spec fn depth(commands: Seq<Command>, n: int) -> int
    decreases n,
{
    if n <= 0 {
        0
    } else {
        depth(commands, n - 1) + depth_change(commands[n - 1])
    }
}

/// Some loop end has no loop begin before it left to close.
pub open spec fn has_unmatched_end(commands: Seq<Command>) -> bool {
    exists|n: int| 0 <= n <= commands.len() && depth(commands, n) < 0
}

/// Every loop end closes a loop, and some loop begin is never closed.
pub open spec fn has_unmatched_begin(commands: Seq<Command>) -> bool {
    !has_unmatched_end(commands) && depth(commands, commands.len() as int) > 0
}

/// Every loop end closes a loop begun before it, and every loop begun is closed.
pub open spec fn well_bracketed(commands: Seq<Command>) -> bool {
    !has_unmatched_end(commands) && depth(commands, commands.len() as int) == 0
}

/// The loop begun at `begin` is the one ended at `end`: the depth is back
/// at `end` to what it was before `begin`, for the first time.
pub open spec fn encloses(commands: Seq<Command>, begin: int, end: int) -> bool {
    &&& 0 <= begin < end < commands.len()
    &&& commands[begin] == Command::BeginLoop
    &&& commands[end] == Command::EndLoop
    &&& depth(commands, end + 1) == depth(commands, begin)
    &&& forall|k: int| begin < k <= end ==> #[trigger] depth(commands, k) > depth(commands, begin)
}

/// `p` and `q` are the two brackets of one loop, in either order.
pub open spec fn paired(commands: Seq<Command>, p: int, q: int) -> bool {
    encloses(commands, p, q) || encloses(commands, q, p)
}

/// The bracket that belongs to the bracket at `p`. In a well-bracketed
/// sequence every bracket has exactly one (`lemma_bracket_has_partner`,
/// `lemma_partner_unique`).
pub open spec fn partner(commands: Seq<Command>, p: int) -> int {
    choose|q: int| paired(commands, p, q)
}

/// A bracket has at most one partner.
pub proof fn lemma_partner_unique(commands: Seq<Command>, p: int, q1: int, q2: int)
    requires
        paired(commands, p, q1),
        paired(commands, p, q2),
    ensures
        q1 == q2,
{
    if encloses(commands, p, q1) {
        // p begins a loop, so both q1 and q2 end it
        if q1 < q2 {
            assert(depth(commands, q1 + 1) > depth(commands, p));
        } else if q2 < q1 {
            assert(depth(commands, q2 + 1) > depth(commands, p));
        }
    } else {
        // p ends a loop, so both q1 and q2 begin it
        if q1 < q2 {
            assert(depth(commands, q2) > depth(commands, q1));
        } else if q2 < q1 {
            assert(depth(commands, q1) > depth(commands, q2));
        }
    }
}

/// In a sequence that closes every loop it begins, each loop begin has a
/// loop end that belongs to it.
pub proof fn lemma_begin_has_end(commands: Seq<Command>, begin: int) -> (end: int)
    requires
        0 <= begin < commands.len(),
        commands[begin] == Command::BeginLoop,
        depth(commands, commands.len() as int) <= depth(commands, begin),
    ensures
        encloses(commands, begin, end),
{
    search_end(commands, begin, begin + 1)
}

proof fn search_end(commands: Seq<Command>, begin: int, k: int) -> (end: int)
    requires
        0 <= begin < k <= commands.len(),
        commands[begin] == Command::BeginLoop,
        depth(commands, commands.len() as int) <= depth(commands, begin),
        forall|m: int| begin < m <= k ==> #[trigger] depth(commands, m) > depth(commands, begin),
    ensures
        encloses(commands, begin, end),
    decreases commands.len() - k,
{
    assert(depth(commands, k) > depth(commands, begin));
    if depth(commands, k + 1) == depth(commands, begin) {
        k
    } else {
        search_end(commands, begin, k + 1)
    }
}

/// In a sequence where no loop end lacks a loop begin, each loop end has
/// a loop begin that belongs to it.
pub proof fn lemma_end_has_begin(commands: Seq<Command>, end: int) -> (begin: int)
    requires
        0 <= end < commands.len(),
        commands[end] == Command::EndLoop,
        !has_unmatched_end(commands),
    ensures
        encloses(commands, begin, end),
{
    search_begin(commands, end, end)
}

proof fn search_begin(commands: Seq<Command>, end: int, k: int) -> (begin: int)
    requires
        0 <= k <= end < commands.len(),
        commands[end] == Command::EndLoop,
        !has_unmatched_end(commands),
        forall|m: int| k < m <= end ==> #[trigger] depth(commands, m) > depth(commands, end + 1),
    ensures
        encloses(commands, begin, end),
    decreases k,
{
    assert(depth(commands, end + 1) >= 0);
    assert(depth(commands, k + 1) == depth(commands, k) + depth_change(commands[k]));
    if depth(commands, k) == depth(commands, end + 1) {
        k
    } else {
        search_begin(commands, end, k - 1)
    }
}

/// In a well-bracketed sequence every bracket has its partner.
pub proof fn lemma_bracket_has_partner(commands: Seq<Command>, p: int)
    requires
        well_bracketed(commands),
        0 <= p < commands.len(),
        commands[p].is_bracket(),
    ensures
        paired(commands, p, partner(commands, p)),
        0 <= partner(commands, p) < commands.len(),
        commands[partner(commands, p)].is_bracket(),
        commands[partner(commands, p)] != commands[p],
{
    if commands[p] == Command::BeginLoop {
        assert(depth(commands, p) >= 0);
        let q = lemma_begin_has_end(commands, p);
        assert(paired(commands, p, q));
    } else {
        let q = lemma_end_has_begin(commands, p);
        assert(paired(commands, p, q));
    }
}

/// The partner of a bracket's partner is the bracket itself.
pub proof fn lemma_partner_symmetric(commands: Seq<Command>, p: int)
    requires
        well_bracketed(commands),
        0 <= p < commands.len(),
        commands[p].is_bracket(),
    ensures
        partner(commands, partner(commands, p)) == p,
{
    lemma_bracket_has_partner(commands, p);
    let q = partner(commands, p);
    lemma_bracket_has_partner(commands, q);
    assert(paired(commands, q, p));
    lemma_partner_unique(commands, q, partner(commands, q), p);
}

} // verus!
