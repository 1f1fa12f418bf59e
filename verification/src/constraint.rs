//! The token constraint adapter: which tokens a request may emit next, and
//! how its automaton moves once a token is committed. Everything here reads
//! request-local state only.

use vstd::prelude::*;
use crate::grammar::{find_edge, lemma_row_tokens, row_map, row_tokens, CompiledGrammar, Edge};

verus! {

/// The tokens that may come next.
#[derive(Debug, PartialEq, Eq)]
pub enum TokenMask {
    /// Every token: the request is unconstrained.
    All,
    /// The listed tokens and no others.
    Only(Vec<u32>),
}

impl View for TokenMask {
    type V = Set<u32>;

    open spec fn view(&self) -> Set<u32> {
        match self {
            TokenMask::All => Set::full(),
            TokenMask::Only(tokens) => tokens@.to_set(),
        }
    }
}

impl TokenMask {
    /// Whether `token` is in the mask.
    pub fn allows(&self, token: u32) -> (b: bool)
        ensures
            b == self@.contains(token),
    {
        match self {
            TokenMask::All => true,
            TokenMask::Only(tokens) => {
                let mut i: usize = 0;
                while i < tokens.len()
                    invariant
                        i <= tokens@.len(),
                        self@ == tokens@.to_set(),
                        forall|k: int| 0 <= k < i ==> tokens@[k] != token,
                    decreases tokens@.len() - i,
                {
                    if tokens[i] == token {
                        assert(tokens@[i as int] == token);
                        assert(tokens@.to_set().contains(token));
                        return true;
                    }
                    i += 1;
                }
                assert(!tokens@.to_set().contains(token));
                false
            },
        }
    }

    /// Whether the mask is the universal one.
    pub fn is_all(&self) -> (b: bool)
        ensures
            b == (*self is All),
    {
        match self {
            TokenMask::All => true,
            TokenMask::Only(_) => false,
        }
    }
}

/// The engine proposed a token that the grammar does not allow at the
/// request's position.
#[derive(Clone, Copy, Debug, PartialEq, Eq, Structural)]
pub struct ConstraintViolation {
    pub position: usize,
    pub token: u32,
}

/// Position of one request in its grammar, with the mask that was last
/// computed and the position it was computed for.
#[derive(Debug)]
pub struct GrammarState {
    grammar: Option<CompiledGrammar>,
    position: usize,
    cached_at: Option<usize>,
    cached_tokens: Vec<u32>,
}

impl GrammarState {
    /// The automaton that constrains the request, if any.
    pub closed spec fn automaton(&self) -> Option<Seq<Map<u32, nat>>> {
        match self.grammar {
            Some(g) => Some(g@),
            None => None,
        }
    }

    /// Current state of the automaton; 0 for an unconstrained request.
    pub closed spec fn position(&self) -> nat {
        self.position as nat
    }

    /// Position that the cached mask was computed for, if one is cached.
    pub closed spec fn cached_position(&self) -> Option<nat> {
        match self.cached_at {
            Some(p) => Some(p as nat),
            None => None,
        }
    }

    /// The position lies in the automaton, and a cached mask is the mask of
    /// the position it is keyed by.
    pub closed spec fn wf(&self) -> bool {
        match self.grammar {
            None => self.position == 0 && self.cached_at is None && self.cached_tokens@.len() == 0,
            Some(g) => {
                &&& g.wf()
                &&& self.position < g.states()
                &&& match self.cached_at {
                    None => true,
                    Some(p) => p < g.states() && self.cached_tokens@ == row_tokens(g.table()[p as int]@),
                }
            },
        }
    }

    /// The tokens legal at the current position: every token without a
    /// grammar, else the labels of the transitions that leave the position.
    pub open spec fn legal(&self) -> Set<u32> {
        match self.automaton() {
            None => Set::full(),
            Some(a) => a[self.position() as int].dom(),
        }
    }

    /// Position after `token` is committed; only meaningful where the token
    /// is legal.
    pub open spec fn successor(&self, token: u32) -> nat {
        match self.automaton() {
            None => self.position(),
            Some(a) => a[self.position() as int][token],
        }
    }

    /// `after` and `mask` are what asking `before` for its mask leaves and
    /// yields: the mask holds exactly the legal tokens, the automaton and
    /// the position stay, and without a grammar the mask is the universal
    /// one and nothing at all is touched.
    pub open spec fn masked(before: GrammarState, after: GrammarState, mask: TokenMask) -> bool {
        &&& mask@ == before.legal()
        &&& after.automaton() == before.automaton()
        &&& after.position() == before.position()
        &&& before.automaton() is None ==> mask is All && after == before
        &&& before.automaton() is Some ==> mask is Only && after.cached_position() == Some(
            before.position(),
        )
    }

    /// `after` and `r` are what committing `token` to `before` leaves and
    /// yields: success exactly for a legal token, which moves the automaton
    /// along its transition; a violation otherwise, which changes nothing.
    pub open spec fn advanced(
        before: GrammarState,
        after: GrammarState,
        token: u32,
        r: Result<(), ConstraintViolation>,
    ) -> bool {
        &&& r is Ok <==> before.legal().contains(token)
        &&& r is Ok ==> after.automaton() == before.automaton() && after.position()
            == before.successor(token)
        &&& r matches Err(v) ==> after == before && v.token == token && v.position
            == before.position()
    }

    /// State of a request without a grammar.
    pub fn unconstrained() -> (s: GrammarState)
        ensures
            s.wf(),
            s.automaton() is None,
            s.position() == 0,
            s.cached_position() is None,
    {
        GrammarState { grammar: None, position: 0, cached_at: None, cached_tokens: Vec::new() }
    }

    /// State of a request at the start of `grammar`.
    pub fn start(grammar: CompiledGrammar) -> (s: GrammarState)
        ensures
            s.wf(),
            s.automaton() == Some(grammar@),
            s.position() == 0,
            s.cached_position() is None,
    {
        proof {
            use_type_invariant(&grammar);
        }
        GrammarState { grammar: Some(grammar), position: 0, cached_at: None, cached_tokens: Vec::new() }
    }

    /// Whether a grammar is attached.
    pub fn is_constrained(&self) -> (b: bool)
        ensures
            b == (self.automaton() is Some),
    {
        self.grammar.is_some()
    }

    pub fn current_position(&self) -> (p: usize)
        ensures
            p == self.position(),
    {
        self.position
    }

    /// Whether `token` is legal at the current position.
    pub fn allows(&self, token: u32) -> (b: bool)
        requires
            self.wf(),
        ensures
            b == self.legal().contains(token),
    {
        match &self.grammar {
            None => true,
            Some(g) => find_edge(g.row(self.position), token).is_some(),
        }
    }

    /// The legal tokens at the current position. Without a grammar this is
    /// the universal mask and the state is not touched. With one, a mask
    /// cached for this position is handed out again; otherwise the mask is
    /// read off the automaton and cached.
    pub fn mask_for(&mut self) -> (mask: TokenMask)
        requires
            old(self).wf(),
        ensures
            final(self).wf(),
            Self::masked(*old(self), *final(self), mask),
    {
        match &self.grammar {
            None => TokenMask::All,
            Some(g) => {
                proof {
                    lemma_row_tokens(g.table()[self.position as int]@);
                }
                let fresh = match self.cached_at {
                    Some(p) => p != self.position,
                    None => true,
                };
                if fresh {
                    let row = g.row(self.position);
                    let tokens = tokens_of_row(row);
                    self.cached_tokens = tokens;
                    self.cached_at = Some(self.position);
                }
                TokenMask::Only(self.cached_tokens.clone())
            },
        }
    }

    /// Commits `token`. A legal token moves the automaton along its
    /// transition; any other is a violation and leaves the state as it was.
    pub fn advance(&mut self, token: u32) -> (r: Result<(), ConstraintViolation>)
        requires
            old(self).wf(),
        ensures
            final(self).wf(),
            Self::advanced(*old(self), *final(self), token, r),
    {
        match &self.grammar {
            None => Ok(()),
            Some(g) => {
                let row = g.row(self.position);
                match find_edge(row, token) {
                    Some(i) => {
                        let next = row[i].target;
                        proof {
                            lemma_edge_target(row@, i as int);
                        }
                        self.position = next;
                        Ok(())
                    },
                    None => Err(ConstraintViolation { position: self.position, token }),
                }
            },
        }
    }
}

/// In a sorted row the edge at `i` is the one its token maps to.
pub proof fn lemma_edge_target(row: Seq<Edge>, i: int)
    requires
        crate::grammar::row_sorted(row),
        0 <= i < row.len(),
    ensures
        row_map(row).dom().contains(row[i].token),
        row_map(row)[row[i].token] == row[i].target,
{
    let t = row[i].token;
    let j = choose|j: int| 0 <= j < row.len() && (#[trigger] row[j]).token == t;
    if j < i {
        assert(row[j].token < row[i].token);
    } else if i < j {
        assert(row[i].token < row[j].token);
    }
}

/// The tokens that label the edges of `row`, in the row's order.
pub fn tokens_of_row(row: &Vec<Edge>) -> (tokens: Vec<u32>)
    ensures
        tokens@ == row_tokens(row@),
{
    let mut tokens: Vec<u32> = Vec::new();
    let mut i: usize = 0;
    while i < row.len()
        invariant
            i <= row@.len(),
            tokens@.len() == i,
            forall|k: int| 0 <= k < i ==> tokens@[k] == row@[k].token,
        decreases row@.len() - i,
    {
        tokens.push(row[i].token);
        i += 1;
    }
    assert(tokens@ =~= row_tokens(row@));
    tokens
}

/// The tokens that request state `state` may emit next.
pub fn mask_for(state: &mut GrammarState) -> (mask: TokenMask)
    requires
        old(state).wf(),
    ensures
        final(state).wf(),
        GrammarState::masked(*old(state), *final(state), mask),
{
    state.mask_for()
}

/// Commits `token` to request state `state`, or reports a violation and
/// leaves the state untouched.
pub fn advance(state: &mut GrammarState, token: u32) -> (r: Result<(), ConstraintViolation>)
    requires
        old(state).wf(),
    ensures
        final(state).wf(),
        GrammarState::advanced(*old(state), *final(state), token, r),
{
    state.advance(token)
}

} // verus!
