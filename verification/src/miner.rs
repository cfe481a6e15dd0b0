//! The proof-of-work nonce search.
//!
//! A search starts at a nonce drawn at random below `max_nonce` and advances
//! through the nonce space, wrapping round, until a proof scores at or below
//! the difficulty target or every nonce has been tried once. A lower target
//! is harder to meet.

use crate::error::HeaderError;
use crate::network::Backend;
use crate::random::draw_below;
use rand::rngs::StdRng;
use vstd::prelude::*;

verus! {

/// Where a nonce search stands.
#[derive(Clone, Copy, Debug, PartialEq, Eq, Structural)]
pub enum MinerState {
    /// The search goes on: it started at nonce `start` and has tried `tried`
    /// nonces so far.
    Searching { start: u32, tried: u32 },
    /// The proof generated under `nonce` met the target. Terminal.
    Found { nonce: u32 },
    /// Every nonce was tried and none met the target. Terminal.
    Exhausted,
}

/// The parameters of one mining attempt.
#[derive(Clone, Copy, Debug, PartialEq, Eq, Structural)]
pub struct ProofOfWorkMiner {
    /// The score that a proof must not exceed.
    pub difficulty_target: u64,
    /// The exclusive upper bound of the nonce space.
    pub max_nonce: u32,
}

/// The nonce that a search started at `start` tries after `tried` others.
pub open spec fn candidate_nonce(start: u32, tried: u32, max_nonce: u32) -> int {
    (start + tried) % (max_nonce as int)
}

/// Some proof of the statement `(subroots, nonce)` scores above `target`.
/// A search that has generated such a proof has tried the nonce in vain.
pub open spec fn tried_in_vain<N: Backend>(
    subroots: Seq<[u8; 32]>,
    nonce: u32,
    target: u64,
) -> bool {
    exists|proof: Seq<u8>| #[trigger] N::attests(subroots, nonce, proof) && N::score(proof) > target
}

impl ProofOfWorkMiner {
    /// A search in state `state` is consistent with this attempt's nonce
    /// space.
    pub open spec fn admits(self, state: MinerState) -> bool {
        match state {
            MinerState::Searching { start, tried } => start < self.max_nonce && tried
                < self.max_nonce,
            MinerState::Found { nonce } => nonce < self.max_nonce,
            MinerState::Exhausted => true,
        }
    }

    /// The state in which a search that is to start at `start` begins.
    pub open spec fn initial_state(self, start: u32) -> MinerState {
        if self.max_nonce == 0 {
            MinerState::Exhausted
        } else {
            MinerState::Searching { start: (start % self.max_nonce) as u32, tried: 0 }
        }
    }

    /// The state that follows `state` once the proof for its candidate nonce
    /// has scored `score`. Terminal states stay as they are, and a search
    /// that has no untried nonce left is exhausted whatever the score.
    pub open spec fn next_state(self, state: MinerState, score: u64) -> MinerState {
        match state {
            MinerState::Searching { start, tried } => if tried >= self.max_nonce {
                MinerState::Exhausted
            } else if score <= self.difficulty_target {
                MinerState::Found {
                    nonce: candidate_nonce(start, tried, self.max_nonce) as u32,
                }
            } else if tried + 1 < self.max_nonce {
                MinerState::Searching { start, tried: (tried + 1) as u32 }
            } else {
                MinerState::Exhausted
            },
            _ => state,
        }
    }

    /// The state of a search that started at `start`, once its candidates
    /// have scored `scores`, in the order in which they were tried.
    pub open spec fn state_after(self, start: u32, scores: Seq<u64>) -> MinerState
        decreases scores.len(),
    {
        if scores.len() == 0 {
            self.initial_state(start)
        } else {
            self.next_state(self.state_after(start, scores.drop_last()), scores.last())
        }
    }

    /// The nonce to generate the next proof under: the candidate of a search
    /// that goes on, and none in a terminal state or where no untried nonce
    /// is left.
    pub open spec fn next_candidate(self, state: MinerState) -> Option<u32> {
        match state {
            MinerState::Searching { start, tried } => if tried < self.max_nonce {
                Some(candidate_nonce(start, tried, self.max_nonce) as u32)
            } else {
                None
            },
            _ => None,
        }
    }

    /// The first `tried` nonces of a search that started at `start` have all
    /// been tried in vain.
    pub open spec fn vain_so_far<N: Backend>(
        self,
        subroots: Seq<[u8; 32]>,
        start: u32,
        tried: int,
    ) -> bool {
        forall|k: u32|
            k < tried ==> tried_in_vain::<N>(
                subroots,
                #[trigger] candidate_nonce(start, k, self.max_nonce) as u32,
                self.difficulty_target,
            )
    }

    /// `nonce` is where some search over the nonce space succeeds first: it
    /// is the candidate of a search that has tried every earlier candidate
    /// in vain.
    pub open spec fn first_success<N: Backend>(self, subroots: Seq<[u8; 32]>, nonce: u32) -> bool {
        exists|start: u32, tried: u32|
            {
                &&& start < self.max_nonce
                &&& tried < self.max_nonce
                &&& nonce == #[trigger] candidate_nonce(start, tried, self.max_nonce)
                &&& self.vain_so_far::<N>(subroots, start, tried as int)
            }
    }

    /// A mining attempt against `difficulty_target` over the nonces below
    /// `max_nonce`.
    pub fn new(difficulty_target: u64, max_nonce: u32) -> (miner: Self)
        ensures
            miner == (ProofOfWorkMiner { difficulty_target, max_nonce }),
    {
        ProofOfWorkMiner { difficulty_target, max_nonce }
    }

    /// Begins a search at `start`, reduced into the nonce space. An empty
    /// nonce space is exhausted at once.
    pub fn begin(&self, start: u32) -> (state: MinerState)
        ensures
            state == self.initial_state(start),
            self.admits(state),
    {
        if self.max_nonce == 0 {
            MinerState::Exhausted
        } else {
            MinerState::Searching { start: start % self.max_nonce, tried: 0 }
        }
    }

    /// The nonce to generate the next proof under, while the search goes on.
    pub fn candidate(&self, state: &MinerState) -> (nonce: Option<u32>)
        ensures
            nonce == self.next_candidate(*state),
            nonce is Some ==> nonce->Some_0 < self.max_nonce,
            self.admits(*state) ==> (nonce is Some <==> *state is Searching),
    {
        match *state {
            MinerState::Searching { start, tried } => {
                if tried < self.max_nonce {
                    let sum: u64 = start as u64 + tried as u64;
                    let nonce: u64 = sum % (self.max_nonce as u64);
                    Some(nonce as u32)
                } else {
                    None
                }
            },
            _ => None,
        }
    }

    /// Takes in the score of the proof generated under the candidate nonce
    /// and moves the search on: to `Found` when the score is at or below the
    /// target, to `Exhausted` when that was the last untried nonce, else to
    /// the next nonce.
    pub fn advance(&self, state: MinerState, score: u64) -> (next: MinerState)
        ensures
            next == self.next_state(state, score),
            self.admits(state) ==> self.admits(next),
    {
        match state {
            MinerState::Searching { start, tried } => {
                if tried >= self.max_nonce {
                    MinerState::Exhausted
                } else if score <= self.difficulty_target {
                    let sum: u64 = start as u64 + tried as u64;
                    let nonce: u64 = sum % (self.max_nonce as u64);
                    MinerState::Found { nonce: nonce as u32 }
                } else if tried + 1 < self.max_nonce {
                    MinerState::Searching { start, tried: tried + 1 }
                } else {
                    MinerState::Exhausted
                }
            },
            MinerState::Found { nonce } => MinerState::Found { nonce },
            MinerState::Exhausted => MinerState::Exhausted,
        }
    }

    /// Searches the nonce space for a proof over `subroots` that meets the
    /// difficulty target.
    ///
    /// Returns the nonce and the proof bytes of the first proof whose score
    /// is at or below the target, after every earlier nonce of the search
    /// was tried in vain: a pair that violates the score bound is never
    /// returned. Fails with `MiningExhausted` only after every nonce
    /// below `max_nonce` has been tried in vain, and with
    /// `ProofGenerationFailure` as soon as the backend fails.
    pub fn mine<N: Backend>(&self, subroots: &Vec<[u8; 32]>, rng: &mut StdRng) -> (mined: Result<
        (u32, Vec<u8>),
        HeaderError,
    >)
        ensures
            match mined {
                Ok((nonce, proof)) => {
                    &&& nonce < self.max_nonce
                    &&& N::attests(subroots@, nonce, proof@)
                    &&& N::score(proof@) <= self.difficulty_target
                    &&& self.first_success::<N>(subroots@, nonce)
                },
                Err(e) => match e {
                    HeaderError::MiningExhausted => {
                        &&& self.max_nonce == 0 || self.difficulty_target < u64::MAX
                        &&& forall|nonce: u32|
                            nonce < self.max_nonce ==> tried_in_vain::<N>(
                                subroots@,
                                nonce,
                                self.difficulty_target,
                            )
                    },
                    HeaderError::ProofGenerationFailure(_) => self.max_nonce > 0,
                    _ => false,
                },
            },
            self.max_nonce == 0 ==> mined == Err::<(u32, Vec<u8>), HeaderError>(
                HeaderError::MiningExhausted,
            ),
    {
        if self.max_nonce == 0 {
            return Err(HeaderError::MiningExhausted);
        }
        let start = draw_below(rng, self.max_nonce);
        let mut state = self.begin(start);
        let mut proof: Vec<u8> = Vec::new();
        assert(state == (MinerState::Searching { start, tried: 0 })) by {
            assert(start as int % (self.max_nonce as int) == start) by (nonlinear_arith)
                requires
                    0 <= start < self.max_nonce,
            ;
        }
        loop
            invariant
                self.max_nonce > 0,
                start < self.max_nonce,
                self.admits(state),
                state matches MinerState::Searching { start: from, tried } ==> from == start
                    && self.vain_so_far::<N>(subroots@, start, tried as int),
                state matches MinerState::Found { nonce } ==> N::attests(subroots@, nonce, proof@)
                    && N::score(proof@) <= self.difficulty_target && self.first_success::<N>(
                    subroots@,
                    nonce,
                ),
                state is Exhausted ==> self.difficulty_target < u64::MAX && self.vain_so_far::<N>(
                    subroots@,
                    start,
                    self.max_nonce as int,
                ),
            decreases
                    match state {
                        MinerState::Searching { start, tried } => self.max_nonce - tried,
                        _ => 0,
                    },
        {
            match self.candidate(&state) {
                Some(nonce) => {
                    match N::generate_proof(subroots, nonce, rng) {
                        Ok(bytes) => {
                            let score = N::derive_score(bytes.as_slice());
                            proof {
                                if score > self.difficulty_target {
                                    assert(N::attests(subroots@, nonce, bytes@));
                                    assert(tried_in_vain::<N>(
                                        subroots@,
                                        nonce,
                                        self.difficulty_target,
                                    ));
                                }
                            }
                            state = self.advance(state, score);
                            proof = bytes;
                        },
                        Err(failure) => {
                            return Err(HeaderError::ProofGenerationFailure(failure));
                        },
                    }
                },
                None => {
                    proof {
                        if state is Exhausted {
                            assert forall|nonce: u32|
                                nonce < self.max_nonce implies tried_in_vain::<N>(
                                subroots@,
                                nonce,
                                self.difficulty_target,
                            ) by {
                                lemma_search_covers_nonce_space(start, self.max_nonce, nonce);
                            }
                        }
                    }
                    return match state {
                        MinerState::Found { nonce } => Ok((nonce, proof)),
                        _ => Err(HeaderError::MiningExhausted),
                    };
                },
            }
        }
    }
}

/// What a search comes to. While every score lies above the target and
/// nonces are left, the search goes on. It ends in `Found` at the first
/// score at or below the target, with the nonce that was tried then. It ends
/// in `Exhausted` only after every nonce of the space has scored above the
/// target.
pub proof fn lemma_search_outcome(miner: ProofOfWorkMiner, start: u32, scores: Seq<u64>)
    requires
        miner.max_nonce > 0,
        start < miner.max_nonce,
    ensures
        match miner.state_after(start, scores) {
            MinerState::Searching { start: from, tried } => {
                &&& from == start
                &&& tried == scores.len()
                &&& tried < miner.max_nonce
                &&& forall|i: int| 0 <= i < scores.len() ==> scores[i] > miner.difficulty_target
            },
            MinerState::Found { nonce } => exists|k: int|
                {
                    &&& 0 <= k < scores.len()
                    &&& k < miner.max_nonce
                    &&& #[trigger] scores[k] <= miner.difficulty_target
                    &&& nonce == (start + k) % (miner.max_nonce as int)
                    &&& forall|i: int| 0 <= i < k ==> scores[i] > miner.difficulty_target
                },
            MinerState::Exhausted => {
                &&& scores.len() >= miner.max_nonce
                &&& forall|i: int|
                    0 <= i < miner.max_nonce ==> scores[i] > miner.difficulty_target
            },
        },
    decreases scores.len(),
{
    let space = miner.max_nonce as int;
    if scores.len() == 0 {
        assert(start as int % space == start) by (nonlinear_arith)
            requires
                0 <= start < space,
        ;
    } else {
        let earlier = scores.drop_last();
        lemma_search_outcome(miner, start, earlier);
        match miner.state_after(start, earlier) {
            MinerState::Searching { start: from, tried } => {
                if scores.last() <= miner.difficulty_target {
                    let k = scores.len() - 1;
                    assert(0 <= (start + k) % space < space) by (nonlinear_arith)
                        requires
                            0 <= start + k,
                            space > 0,
                    ;
                    assert(scores[k] <= miner.difficulty_target);
                    assert(forall|i: int| 0 <= i < k ==> scores[i] == earlier[i]);
                } else {
                    assert(forall|i: int|
                        0 <= i < scores.len() - 1 ==> scores[i] == earlier[i]);
                }
            },
            MinerState::Found { nonce } => {
                let k = choose|k: int|
                    {
                        &&& 0 <= k < earlier.len()
                        &&& k < miner.max_nonce
                        &&& #[trigger] earlier[k] <= miner.difficulty_target
                        &&& nonce == (start + k) % (miner.max_nonce as int)
                        &&& forall|i: int| 0 <= i < k ==> earlier[i] > miner.difficulty_target
                    };
                assert(scores[k] == earlier[k]);
                assert(forall|i: int| 0 <= i < k ==> scores[i] == earlier[i]);
            },
            MinerState::Exhausted => {
                assert(forall|i: int| 0 <= i < miner.max_nonce ==> scores[i] == earlier[i]);
            },
        }
    }
}

/// The search order covers the nonce space: a search over a non-empty space
/// comes to every nonce below `max_nonce` after fewer than `max_nonce`
/// tries, wherever it started.
pub proof fn lemma_search_covers_nonce_space(start: u32, max_nonce: u32, nonce: u32)
    requires
        start < max_nonce,
        nonce < max_nonce,
    ensures
        exists|tried: u32|
            tried < max_nonce && #[trigger] candidate_nonce(start, tried, max_nonce) == nonce,
{
    let tried: u32 = if nonce >= start {
        (nonce - start) as u32
    } else {
        (nonce + max_nonce - start) as u32
    };
    assert(candidate_nonce(start, tried, max_nonce) == nonce) by {
        if nonce >= start {
            assert((start + tried) % (max_nonce as int) == nonce) by (nonlinear_arith)
                requires
                    start + tried == nonce,
                    0 <= nonce < max_nonce,
            ;
        } else {
            assert((start + tried) % (max_nonce as int) == nonce) by (nonlinear_arith)
                requires
                    start + tried == nonce + max_nonce,
                    0 <= nonce < max_nonce,
            ;
        }
    }
}

/// The search order repeats no nonce: two different numbers of tries below
/// `max_nonce` lead to different nonces.
pub proof fn lemma_search_repeats_no_nonce(start: u32, max_nonce: u32, first: u32, second: u32)
    requires
        start < max_nonce,
        first < second < max_nonce,
    ensures
        candidate_nonce(start, first, max_nonce) != candidate_nonce(start, second, max_nonce),
        0 <= candidate_nonce(start, first, max_nonce) < max_nonce,
{
    let m = max_nonce as int;
    let a = start + first;
    let b = start + second;
    assert(a % m != b % m && 0 <= a % m < m) by (nonlinear_arith)
        requires
            0 <= a < b,
            b - a < m,
            b < 2 * m,
            m > 0,
    ;
}

} // verus!
