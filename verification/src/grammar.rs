//! A compiled grammar as the decoder consumes it: a deterministic automaton
//! whose transitions are labelled with token ids.

use vstd::prelude::*;

verus! {

/// One transition of the automaton: on `token`, go to state `target`.
#[derive(Clone, Copy, Debug, PartialEq, Eq, Structural)]
pub struct Edge {
    pub token: u32,
    pub target: usize,
}

/// The edges of one state carry strictly increasing tokens, so no token
/// labels two of them.
pub open spec fn row_sorted(row: Seq<Edge>) -> bool {
    forall|i: int, j: int| 0 <= i < j < row.len() ==> (#[trigger] row[i]).token < (#[trigger] row[j]).token
}

/// Some edge of `row` is labelled `token`.
pub open spec fn row_has(row: Seq<Edge>, token: u32) -> bool {
    exists|i: int| 0 <= i < row.len() && (#[trigger] row[i]).token == token
}

/// Target of the edge of `row` labelled `token`.
pub open spec fn row_target(row: Seq<Edge>, token: u32) -> nat {
    let i = choose|i: int| 0 <= i < row.len() && (#[trigger] row[i]).token == token;
    row[i].target as nat
}

/// The transitions of one state as a map from token to next state.
pub open spec fn row_map(row: Seq<Edge>) -> Map<u32, nat> {
    Map::new(|t: u32| row_has(row, t), |t: u32| row_target(row, t))
}

/// The tokens of a row, in the row's order.
pub open spec fn row_tokens(row: Seq<Edge>) -> Seq<u32> {
    Seq::new(row.len(), |i: int| row[i].token)
}

/// A row fits an automaton of `states` states: sorted, and every edge leads
/// to one of the states.
pub open spec fn row_valid(row: Seq<Edge>, states: nat) -> bool {
    &&& row_sorted(row)
    &&& forall|i: int| 0 <= i < row.len() ==> (#[trigger] row[i]).target < states
}

/// A table describes an automaton: it has a start state, and every row fits.
pub open spec fn table_valid(table: Seq<Vec<Edge>>) -> bool {
    &&& table.len() > 0
    &&& forall|s: int| 0 <= s < table.len() ==> row_valid((#[trigger] table[s])@, table.len())
}

/// The automaton that a table describes: for each state, its transitions.
pub open spec fn transitions_of(table: Seq<Vec<Edge>>) -> Seq<Map<u32, nat>> {
    Seq::new(table.len(), |s: int| row_map(table[s]@))
}

/// The legal tokens of a row are exactly the tokens it lists.
pub proof fn lemma_row_tokens(row: Seq<Edge>)
    ensures
        row_tokens(row).to_set() =~= row_map(row).dom(),
{
    let listed = row_tokens(row);
    assert forall|t: u32| listed.to_set().contains(t) <==> row_map(row).dom().contains(t) by {
        if listed.to_set().contains(t) {
            let i = choose|i: int| 0 <= i < listed.len() && listed[i] == t;
            assert(row[i].token == t);
        }
        if row_has(row, t) {
            let i = choose|i: int| 0 <= i < row.len() && (#[trigger] row[i]).token == t;
            assert(listed[i] == t);
        }
    }
}

/// Whether `row` fits an automaton of `states` states.
pub fn check_row(row: &Vec<Edge>, states: usize) -> (ok: bool)
    ensures
        ok == row_valid(row@, states as nat),
{
    let mut i: usize = 0;
    while i < row.len()
        invariant
            i <= row@.len(),
            forall|a: int, b: int| 0 <= a < b < i ==> (#[trigger] row@[a]).token < (#[trigger] row@[b]).token,
            forall|a: int| 0 <= a < i ==> (#[trigger] row@[a]).target < states,
        decreases row@.len() - i,
    {
        if row[i].target >= states {
            return false;
        }
        if i > 0 && row[i - 1].token >= row[i].token {
            assert(!(row@[i - 1].token < row@[i as int].token));
            return false;
        }
        assert forall|a: int, b: int| 0 <= a < b < i + 1 implies (#[trigger] row@[a]).token < (
        #[trigger] row@[b]).token by {
            if b == i && a < i - 1 {
                assert(row@[a].token < row@[i - 1].token);
            }
        }
        i += 1;
    }
    true
}

/// Position of the edge of a sorted row that is labelled `token`.
pub fn find_edge(row: &Vec<Edge>, token: u32) -> (found: Option<usize>)
    requires
        row_sorted(row@),
    ensures
        found matches Some(i) ==> i < row@.len() && row@[i as int].token == token,
        found is Some <==> row_has(row@, token),
{
    let mut lo: usize = 0;
    let mut hi: usize = row.len();
    while lo < hi
        invariant
            lo <= hi <= row@.len(),
            row_sorted(row@),
            forall|i: int| 0 <= i < lo ==> (#[trigger] row@[i]).token < token,
            forall|i: int| hi <= i < row@.len() ==> (#[trigger] row@[i]).token > token,
        decreases hi - lo,
    {
        let mid: usize = lo + (hi - lo) / 2;
        let here: u32 = row[mid].token;
        if here == token {
            return Some(mid);
        } else if here < token {
            assert forall|i: int| 0 <= i < mid + 1 implies (#[trigger] row@[i]).token < token by {
                if i < mid {
                    assert(row@[i].token < row@[mid as int].token);
                }
            }
            lo = mid + 1;
        } else {
            assert forall|i: int| mid <= i < row@.len() implies (#[trigger] row@[i]).token > token by {
                if i > mid {
                    assert(row@[mid as int].token < row@[i].token);
                }
            }
            hi = mid;
        }
    }
    None
}

/// A compiled grammar: a validated transition table. State 0 is the start.
#[derive(Debug)]
pub struct CompiledGrammar {
    table: Vec<Vec<Edge>>,
}

impl View for CompiledGrammar {
    type V = Seq<Map<u32, nat>>;

    closed spec fn view(&self) -> Seq<Map<u32, nat>> {
        transitions_of(self.table@)
    }
}

impl CompiledGrammar {
    /// The table the grammar was built from.
    pub closed spec fn table(&self) -> Seq<Vec<Edge>> {
        self.table@
    }

    /// The table describes an automaton. This holds of every grammar.
    #[verifier::type_invariant]
    pub open spec fn wf(&self) -> bool {
        &&& table_valid(self.table())
        &&& self@ == transitions_of(self.table())
    }

    /// Number of states, as a specification value.
    pub open spec fn states(&self) -> nat {
        self.table().len()
    }

    /// Accepts `table` where it describes an automaton, and refuses it
    /// otherwise.
    pub fn new(table: Vec<Vec<Edge>>) -> (g: Option<CompiledGrammar>)
        ensures
            g is Some <==> table_valid(table@),
            g matches Some(grammar) ==> grammar.wf() && grammar.table() == table@,
    {
        let n = table.len();
        if n == 0 {
            return None;
        }
        let mut s: usize = 0;
        while s < n
            invariant
                n == table@.len(),
                s <= n,
                forall|k: int| 0 <= k < s ==> row_valid((#[trigger] table@[k])@, n as nat),
            decreases n - s,
        {
            if !check_row(&table[s], n) {
                assert(!row_valid(table@[s as int]@, table@.len()));
                return None;
            }
            s += 1;
        }
        Some(CompiledGrammar { table })
    }

    pub fn state_count(&self) -> (n: usize)
        ensures
            n == self.states(),
    {
        self.table.len()
    }

    /// The edges that leave `state`.
    pub fn row(&self, state: usize) -> (row: &Vec<Edge>)
        requires
            state < self.states(),
        ensures
            *row == self.table()[state as int],
    {
        &self.table[state]
    }
}

} // verus!
