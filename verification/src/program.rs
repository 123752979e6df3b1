//! Parsing source bytes into a program: the commands in order, and the table
//! that takes each loop bracket to its partner.

use std::collections::HashMap;
use vstd::prelude::*;
use vstd::std_specs::convert::TryFromSpecImpl;
use crate::command::Command;
use crate::nesting::{
    depth, has_unmatched_begin, has_unmatched_end, lemma_bracket_has_partner,
    lemma_partner_symmetric, lemma_partner_unique, paired, partner, well_bracketed,
};

verus! {

/// The commands that a source text holds, in order. Bytes that stand for
/// no command are left out and take up no position.
pub open spec fn commands_of(source: Seq<u8>) -> Seq<Command>
    decreases source.len(),
{
    if source.len() == 0 {
        Seq::empty()
    } else {
        let before = commands_of(source.drop_last());
        match Command::of_byte(source.last()) {
            Some(command) => before.push(command),
            None => before,
        }
    }
}

/// The jump table of a command sequence: it holds the positions of the loop
/// brackets and takes each of them to the position of its partner.
pub open spec fn jump_table(commands: Seq<Command>) -> Map<usize, usize> {
    Map::new(
        |p: usize| p < commands.len() && commands[p as int].is_bracket(),
        |p: usize| partner(commands, p as int) as usize,
    )
}

/// The commands of two source texts put together are the commands of the
/// first followed by those of the second.
pub proof fn lemma_commands_of_concat(first: Seq<u8>, second: Seq<u8>)
    ensures
        commands_of(first + second) == commands_of(first) + commands_of(second),
    decreases second.len(),
{
    if second.len() == 0 {
        assert(first + second =~= first);
        assert(commands_of(first) + commands_of(second) =~= commands_of(first));
    } else {
        lemma_commands_of_concat(first, second.drop_last());
        assert((first + second).drop_last() =~= first + second.drop_last());
        assert(commands_of(first + second) =~= commands_of(first) + commands_of(second));
    }
}

/// A byte that stands for no command is dropped: with it or without it, a
/// source text holds the same commands at the same positions.
pub proof fn lemma_non_command_byte_is_dropped(before: Seq<u8>, byte: u8, after: Seq<u8>)
    requires
        Command::of_byte(byte) is None,
    ensures
        commands_of(before + seq![byte] + after) == commands_of(before + after),
{
    lemma_commands_of_concat(before, seq![byte]);
    lemma_commands_of_concat(before + seq![byte], after);
    lemma_commands_of_concat(before, after);
    assert(commands_of(seq![byte]) =~= Seq::<Command>::empty()) by {
        reveal_with_fuel(commands_of, 2);
    }
    assert(commands_of(before) + Seq::<Command>::empty() =~= commands_of(before));
}

/// A table is symmetric where it takes `q` back to `p` whenever it takes `p`
/// to `q`.
pub open spec fn symmetric(table: Map<usize, usize>) -> bool {
    forall|p: usize| #[trigger]
        table.contains_key(p) ==> table.contains_key(table[p]) && table[table[p]] == p
}

/// The jump table of a well-bracketed sequence is symmetric.
pub proof fn lemma_jump_table_symmetric(commands: Seq<Command>)
    requires
        well_bracketed(commands),
        commands.len() <= usize::MAX,
    ensures
        symmetric(jump_table(commands)),
{
    let table = jump_table(commands);
    assert forall|p: usize| #[trigger] table.contains_key(p) implies table.contains_key(table[p])
        && table[table[p]] == p by {
        lemma_bracket_has_partner(commands, p as int);
        lemma_partner_symmetric(commands, p as int);
    }
}

/// What a program is: its commands and its jump table.
pub struct ProgramView {
    pub commands: Seq<Command>,
    pub loop_map: Map<usize, usize>,
}

/// A list of bytes parsed into a Brainfuck program
///
/// To simplify looping logic in the interpreter we are caching the positions
/// of all BeginLoop and EndLoop pairs.
#[derive(Debug)]
pub struct Program {
    commands: Vec<Command>,
    loop_map: HashMap<usize, usize>,
}

impl View for Program {
    type V = ProgramView;

    closed spec fn view(&self) -> ProgramView {
        ProgramView { commands: self.commands@, loop_map: self.loop_map@ }
    }
}

impl Program {
    /// Every program is well bracketed and carries the jump table of its
    /// commands.
    #[verifier::type_invariant]
    spec fn valid(&self) -> bool {
        &&& well_bracketed(self.commands@)
        &&& self.loop_map@ == jump_table(self.commands@)
    }

    /// The commands of the program, in order.
    pub fn commands(&self) -> (commands: &Vec<Command>)
        ensures
            commands@ == self@.commands,
            well_bracketed(commands@),
    {
        proof {
            use_type_invariant(self);
        }
        &self.commands
    }

    /// Whether the command at `command_pointer` is a `ReadInput`.
    pub fn reads_input(&self, command_pointer: usize) -> (reads: bool)
        ensures
            reads <==> command_pointer < self@.commands.len()
                && self@.commands[command_pointer as int] == Command::ReadInput,
    {
        command_pointer < self.commands.len()
            && self.commands[command_pointer] == Command::ReadInput
    }

    /// The jump table of the program.
    pub fn loop_map(&self) -> (loop_map: &HashMap<usize, usize>)
        ensures
            loop_map@ == self@.loop_map,
            loop_map@ == jump_table(self@.commands),
    {
        proof {
            use_type_invariant(self);
        }
        &self.loop_map
    }
}

/// The loop begun at `start` is the `level`-th of those still open after the
/// first `index` commands, counted from the outermost.
spec fn open_at(commands: Seq<Command>, index: int, level: int, start: int) -> bool {
    &&& 0 <= start < index
    &&& commands[start] == Command::BeginLoop
    &&& depth(commands, start) == level
    &&& forall|k: int| start < k <= index ==> #[trigger] depth(commands, k) > level
}

/// Classifies each byte of the source and keeps the commands.
fn parse_commands(source: &[u8]) -> (commands: Vec<Command>)
    ensures
        commands@ == commands_of(source@),
{
    let mut commands: Vec<Command> = Vec::new();
    let mut i: usize = 0;
    while i < source.len()
        invariant
            i <= source.len(),
            commands@ == commands_of(source@.take(i as int)),
        decreases source.len() - i,
    {
        assert(source@.take(i + 1).drop_last() =~= source@.take(i as int));
        if let Ok(command) = Command::try_from(source[i]) {
            commands.push(command);
        }
        i += 1;
    }
    assert(source@.take(i as int) =~= source@);
    commands
}

/// Pairs the loop brackets of a command sequence with a stack of the loops
/// that are still open.
fn match_loops(commands: &Vec<Command>) -> (result: Result<HashMap<usize, usize>, &'static str>)
    ensures
        match result {
            Ok(loop_map) => well_bracketed(commands@) && loop_map@ == jump_table(commands@),
            Err(message) => if has_unmatched_end(commands@) {
                message@ == "Unmatched ]"@
            } else {
                has_unmatched_begin(commands@) && message@ == "Unmatched ["@
            },
        },
{
    let mut loop_map: HashMap<usize, usize> = HashMap::new();
    let mut stack: Vec<usize> = Vec::new();
    let mut index: usize = 0;
    while index < commands.len()
        invariant
            index <= commands.len(),
            forall|n: int| 0 <= n <= index ==> depth(commands@, n) >= 0,
            stack.len() == depth(commands@, index as int),
            forall|j: int|
                0 <= j < stack.len() ==> open_at(
                    commands@,
                    index as int,
                    j,
                    #[trigger] stack@[j] as int,
                ),
            forall|p: usize| #[trigger]
                loop_map@.contains_key(p) <==> p < index && commands@[p as int].is_bracket()
                    && !stack@.contains(p),
            forall|p: usize| #[trigger]
                loop_map@.contains_key(p) ==> paired(commands@, p as int, loop_map@[p] as int),
        decreases commands.len() - index,
    {
        let ghost open = stack@;
        match commands[index] {
            Command::BeginLoop => {
                stack.push(index);
                assert forall|p: usize| stack@.contains(p) <==> open.contains(p) || p == index by {
                    if open.contains(p) {
                        let j = choose|j: int| 0 <= j < open.len() && open[j] == p;
                        assert(stack@[j] == p);
                    }
                    if p == index {
                        assert(stack@[open.len() as int] == p);
                    }
                }
            },
            Command::EndLoop => {
                match stack.pop() {
                    None => {
                        assert(depth(commands@, index + 1) < 0);
                        return Err("Unmatched ]");
                    },
                    Some(start) => {
                        loop_map.insert(start, index);
                        loop_map.insert(index, start);
                        assert forall|p: usize|
                            open.contains(p) <==> stack@.contains(p) || p == start by {
                            if stack@.contains(p) {
                                let j = choose|j: int| 0 <= j < stack@.len() && stack@[j] == p;
                                assert(open[j] == p);
                            }
                            if p == start {
                                assert(open[open.len() - 1] == p);
                            }
                            if open.contains(p) && p != start {
                                let j = choose|j: int| 0 <= j < open.len() && open[j] == p;
                                assert(stack@[j] == p);
                            }
                        }
                        assert(!stack@.contains(start)) by {
                            if stack@.contains(start) {
                                let j = choose|j: int| 0 <= j < stack@.len() && stack@[j] == start;
                                let top = open.len() - 1;
                                assert(open_at(commands@, index as int, j, open[j] as int));
                                assert(open_at(commands@, index as int, top, open[top] as int));
                            }
                        }
                        assert(!open.contains(index)) by {
                            if open.contains(index) {
                                let j = choose|j: int| 0 <= j < open.len() && open[j] == index;
                                assert(open_at(commands@, index as int, j, open[j] as int));
                            }
                        }
                    },
                }
            },
            _ => {},
        }
        index += 1;
    }
    if stack.is_empty() {
        proof {
            assert(well_bracketed(commands@));
            assert forall|p: usize| loop_map@.contains_key(p) implies loop_map@[p] == partner(
                commands@,
                p as int,
            ) as usize by {
                lemma_bracket_has_partner(commands@, p as int);
                lemma_partner_unique(
                    commands@,
                    p as int,
                    loop_map@[p] as int,
                    partner(commands@, p as int),
                );
            }
        }
        Ok(loop_map)
    } else {
        Err("Unmatched [")
    }
}

impl<'a> TryFrom<&'a [u8]> for Program {
    type Error = &'static str;

    /// Tries to parse all commands and cache loop jump indices for a slice
    /// of bytes
    fn try_from(value: &'a [u8]) -> (result: Result<Self, Self::Error>)
        ensures
            result is Ok <==> well_bracketed(commands_of(value@)),
            match result {
                Ok(program) => {
                    &&& program@.commands == commands_of(value@)
                    &&& program@.loop_map == jump_table(program@.commands)
                    &&& symmetric(program@.loop_map)
                },
                Err(message) => if has_unmatched_end(commands_of(value@)) {
                    message@ == "Unmatched ]"@
                } else {
                    has_unmatched_begin(commands_of(value@)) && message@ == "Unmatched ["@
                },
            },
    {
        let commands = parse_commands(value);
        match match_loops(&commands) {
            Ok(loop_map) => {
                proof {
                    assert(commands@.len() == commands.len());
                    lemma_jump_table_symmetric(commands@);
                }
                Ok(Program { commands, loop_map })
            },
            Err(message) => Err(message),
        }
    }
}

/// Two programs parsed from one source text have the same view but need not
/// be the same value, so no spec function gives the result of `try_from`: it
/// is described by the clauses of `try_from` itself.
impl<'a> TryFromSpecImpl<&'a [u8]> for Program {
    open spec fn obeys_try_from_spec() -> bool {
        false
    }

    open spec fn try_from_spec(v: &'a [u8]) -> Result<Self, Self::Error> {
        arbitrary()
    }
}

} // verus!
