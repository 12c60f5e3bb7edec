//! Tabular Q-learning: a table of values, one per state and discrete action.
//!
//! Wire format of the parameters: a 16-byte header (number of states and
//! number of actions as 32-bit integers, then the learning rate and the
//! discount factor), followed by the table, state by state.

use vstd::prelude::*;
use vstd::slice::slice_subrange;
use crate::action::Action;
use crate::binary32::{
    clamp_to, clamped, first_max_index, index_of_first_max, less, lt, maximum, maximum_of,
    try_zeros, zeros, ONE, ZERO,
};
use crate::error::{invalid_weights, Error, ErrorModel};
use crate::obs::Obs;
use crate::wire::{
    lemma_word_of_bytes, lemma_words_at_words_bytes, push_word, push_words, read_word,
    read_words, word_at, word_bytes, words_at, words_bytes,
};

verus! {

/// Encoding of the learning rate and the exploration rate of a fresh table, `0.1`.
pub const TENTH: u32 = 0x3DCC_CCCD;

/// Encoding of the discount factor of a fresh table, `0.9`.
pub const NINE_TENTHS: u32 = 0x3F66_6666;

/// Length of the header of the wire format.
pub const HEADER_LEN: usize = 16;

/// What a tabular policy holds.
pub struct TabularModel {
    pub num_states: nat,
    pub num_actions: nat,
    /// Learning rate.
    pub alpha: u32,
    /// Discount factor.
    pub gamma: u32,
    /// Exploration rate.
    pub epsilon: u32,
    /// The values, state by state: `num_states` runs of `num_actions`.
    pub table: Seq<u32>,
}

impl TabularModel {
    /// The table has one value for each pair of state and action, and no
    /// more values than memory can hold.
    pub open spec fn wf(self) -> bool {
        &&& self.table.len() == self.num_states * self.num_actions
        &&& self.table.len() <= usize::MAX
    }

    /// The value of `action` in `state`.
    pub open spec fn q(self, state: int, action: int) -> u32 {
        self.table[state * self.num_actions + action]
    }

    /// The values of all actions in `state`.
    pub open spec fn row(self, state: int) -> Seq<u32> {
        self.table.subrange(state * self.num_actions, (state + 1) * self.num_actions)
    }

    /// The state that a raw index stands for: itself, or the last state when
    /// it is past the end.
    pub open spec fn state_index(self, raw: int) -> int {
        if raw >= self.num_states {
            self.num_states - 1
        } else {
            raw
        }
    }

    /// Whether the policy explores on a random value: exactly when the value
    /// is numerically below the exploration rate.
    pub open spec fn explores(self, random_value: u32) -> bool {
        lt(random_value, self.epsilon)
    }

    /// The discrete action taken in `state`: when exploring, the remainder of
    /// the draw by the number of actions; else the first action of largest
    /// value.
    pub open spec fn chosen(self, state: int, draw: u64, random_value: u32) -> int {
        if self.explores(random_value) {
            draw as int % self.num_actions as int
        } else {
            first_max_index(self.row(state))
        }
    }

    /// The bytes of the wire format.
    pub open spec fn encoding(self) -> Seq<u8> {
        word_bytes(self.num_states as u32) + word_bytes(self.num_actions as u32) + word_bytes(
            self.alpha,
        ) + word_bytes(self.gamma) + words_bytes(self.table)
    }
}

/// The number of states that a buffer declares.
pub open spec fn declared_states(bytes: Seq<u8>) -> nat {
    word_at(bytes, 0) as nat
}

/// The number of actions that a buffer declares.
pub open spec fn declared_actions(bytes: Seq<u8>) -> nat {
    word_at(bytes, 4) as nat
}

/// Whether a buffer holds the whole table that its header declares.
pub open spec fn carries_table(bytes: Seq<u8>) -> bool {
    bytes.len() >= HEADER_LEN + 4 * (declared_states(bytes) * declared_actions(bytes))
}

/// The table that a buffer gives: the one it carries, or `fallback`.
pub open spec fn table_from(bytes: Seq<u8>, fallback: Seq<u32>) -> Seq<u32> {
    if carries_table(bytes) {
        words_at(bytes, HEADER_LEN as int, declared_states(bytes) * declared_actions(bytes))
    } else {
        fallback
    }
}

/// The policy that a buffer of at least header length describes. A buffer
/// that stops short of the table gives a table of zeros. The exploration rate
/// is not part of the format and starts at `0.1`.
pub open spec fn parsed(bytes: Seq<u8>) -> TabularModel {
    TabularModel {
        num_states: declared_states(bytes),
        num_actions: declared_actions(bytes),
        alpha: word_at(bytes, 8),
        gamma: word_at(bytes, 12),
        epsilon: TENTH,
        table: table_from(
            bytes,
            Seq::new(declared_states(bytes) * declared_actions(bytes), |i: int| ZERO),
        ),
    }
}

/// The policy after its parameters are replaced from a buffer of at least
/// header length that declares the same dimensions. A buffer that stops short
/// of the table replaces the two rates only.
pub open spec fn reloaded(m: TabularModel, bytes: Seq<u8>) -> TabularModel {
    TabularModel {
        alpha: word_at(bytes, 8),
        gamma: word_at(bytes, 12),
        table: table_from(bytes, m.table),
        ..m
    }
}

/// What building a policy makes of a buffer when the memory for its table can
/// be had: the policy it describes, or the refusal of a buffer without the
/// header.
pub open spec fn from_weights_spec(bytes: Seq<u8>) -> Result<TabularModel, ErrorModel> {
    if bytes.len() < HEADER_LEN {
        Err(ErrorModel::InvalidWeights("Insufficient weights for TabularQLearning"@))
    } else {
        Ok(parsed(bytes))
    }
}

/// Whether building a policy from a buffer has to make a table of its own:
/// the buffer holds the header but not the whole table that the header
/// declares.
pub open spec fn needs_fresh_table(bytes: Seq<u8>) -> bool {
    bytes.len() >= HEADER_LEN && !carries_table(bytes)
}

/// The refusal of a table that memory cannot hold.
pub open spec fn out_of_memory() -> ErrorModel {
    ErrorModel::OutOfMemory("Q-table does not fit in memory"@)
}

/// Whether `outcome` is a result that building a policy from a buffer may
/// have: what `from_weights_spec` says, or, only where a table has to be made
/// that the buffer does not carry, the refusal for want of memory.
pub open spec fn from_weights_allows(
    bytes: Seq<u8>,
    outcome: Result<TabularModel, ErrorModel>,
) -> bool {
    outcome == from_weights_spec(bytes) || (needs_fresh_table(bytes) && outcome == Err::<
        TabularModel,
        ErrorModel,
    >(out_of_memory()))
}

/// What putting a policy together from the values of a header and a table
/// gives. Without a table it is the refusal for want of memory; with a table
/// of another size than the header asks for it is a refusal too.
pub open spec fn with_table_spec(
    num_states: nat,
    num_actions: nat,
    alpha: u32,
    gamma: u32,
    table: Option<Seq<u32>>,
) -> Result<TabularModel, ErrorModel> {
    match table {
        None => Err(out_of_memory()),
        Some(t) => if t.len() == num_states * num_actions {
            Ok(TabularModel { num_states, num_actions, alpha, gamma, epsilon: TENTH, table: t })
        } else {
            Err(ErrorModel::InvalidWeights("Q-table size mismatch"@))
        },
    }
}

/// What replacing the parameters of a policy makes of a buffer: the policy
/// with the new parameters, or the refusal. The buffer must hold the header
/// and declare the dimensions that the policy has.
pub open spec fn load_weights_spec(m: TabularModel, bytes: Seq<u8>) -> Result<
    TabularModel,
    ErrorModel,
> {
    if bytes.len() < HEADER_LEN {
        Err(ErrorModel::InvalidWeights("Insufficient weights for TabularQLearning"@))
    } else if declared_states(bytes) != m.num_states || declared_actions(bytes) != m.num_actions {
        Err(ErrorModel::InvalidWeights("State/action dimensions mismatch"@))
    } else {
        Ok(reloaded(m, bytes))
    }
}

/// What writing a policy gives: the bytes of the wire format, or a refusal
/// when a dimension does not fit in the 32 bits that the header has for it.
pub open spec fn get_weights_spec(m: TabularModel) -> Result<Seq<u8>, ErrorModel> {
    if m.num_states <= u32::MAX && m.num_actions <= u32::MAX {
        Ok(m.encoding())
    } else {
        Err(ErrorModel::Serialization("Q-table dimensions do not fit the header"@))
    }
}

/// What every result of building a policy from a buffer has in common. A
/// policy that is built is the one that the buffer describes. A buffer is
/// refused as invalid exactly when it is shorter than the header. The refusal
/// for want of memory comes only where the header declares a table that the
/// buffer does not carry; a buffer that carries its table always builds.
pub proof fn lemma_from_weights_outcomes(bytes: Seq<u8>, outcome: Result<TabularModel, ErrorModel>)
    requires
        from_weights_allows(bytes, outcome),
    ensures
        outcome is Ok ==> outcome == Ok::<TabularModel, ErrorModel>(parsed(bytes)),
        bytes.len() < HEADER_LEN <==> outcome == Err::<TabularModel, ErrorModel>(
            ErrorModel::InvalidWeights("Insufficient weights for TabularQLearning"@),
        ),
        outcome == Err::<TabularModel, ErrorModel>(out_of_memory()) ==> needs_fresh_table(bytes),
        bytes.len() >= HEADER_LEN && carries_table(bytes) ==> outcome is Ok,
{
    assert(out_of_memory() != ErrorModel::InvalidWeights(
        "Insufficient weights for TabularQLearning"@,
    ));
}

/// A state's row lies inside the table, and the rows follow one another
/// without gaps.
pub proof fn lemma_row_in_table(num_states: int, num_actions: int, state: int)
    requires
        0 <= state < num_states,
        0 <= num_actions,
    ensures
        0 <= state * num_actions,
        (state + 1) * num_actions <= num_states * num_actions,
        (state + 1) * num_actions == state * num_actions + num_actions,
{
    assert(0 <= state * num_actions) by (nonlinear_arith)
        requires
            0 <= state,
            0 <= num_actions,
    ;
    assert((state + 1) * num_actions <= num_states * num_actions) by (nonlinear_arith)
        requires
            state + 1 <= num_states,
            0 <= num_actions,
    ;
    assert((state + 1) * num_actions == state * num_actions + num_actions) by (nonlinear_arith);
}

/// Serialising a policy whose dimensions fit in 32 bits and loading the bytes
/// again gives back the same parameters, bit for bit: into the policy itself,
/// and into a fresh policy up to the exploration rate, which is not stored.
pub proof fn lemma_tabular_round_trip(m: TabularModel)
    requires
        m.wf(),
        get_weights_spec(m) is Ok,
    ensures
        get_weights_spec(m) == Ok::<Seq<u8>, ErrorModel>(m.encoding()),
        m.encoding().len() == HEADER_LEN + 4 * m.table.len(),
        load_weights_spec(m, m.encoding()) == Ok::<TabularModel, ErrorModel>(m),
        from_weights_spec(m.encoding()) == Ok::<TabularModel, ErrorModel>(
            TabularModel { epsilon: TENTH, ..m },
        ),
        !needs_fresh_table(m.encoding()),
{
    let ns = m.num_states as u32;
    let na = m.num_actions as u32;
    let bytes = m.encoding();
    let head = word_bytes(ns) + word_bytes(na) + word_bytes(m.alpha) + word_bytes(m.gamma);
    assert(head.len() == 16);
    lemma_words_at_words_bytes(head, m.table, Seq::<u8>::empty());
    lemma_word_of_bytes(ns);
    lemma_word_of_bytes(na);
    lemma_word_of_bytes(m.alpha);
    lemma_word_of_bytes(m.gamma);
}

/// A tabular Q-learning policy for observations of `OBS_DIM` and actions of
/// `ACTION_DIM` elements.
pub struct TabularQLearning<const OBS_DIM: usize, const ACTION_DIM: usize> {
    q_table: Vec<u32>,
    alpha: u32,
    gamma: u32,
    epsilon: u32,
    num_states: usize,
    num_actions: usize,
}

impl<const OBS_DIM: usize, const ACTION_DIM: usize> View for TabularQLearning<
    OBS_DIM,
    ACTION_DIM,
> {
    type V = TabularModel;

    closed spec fn view(&self) -> TabularModel {
        TabularModel {
            num_states: self.num_states as nat,
            num_actions: self.num_actions as nat,
            alpha: self.alpha,
            gamma: self.gamma,
            epsilon: self.epsilon,
            table: self.q_table@,
        }
    }
}

impl<const OBS_DIM: usize, const ACTION_DIM: usize> TabularQLearning<OBS_DIM, ACTION_DIM> {
    /// The table has one value for each pair of state and action.
    pub open spec fn wf(&self) -> bool {
        self@.wf()
    }

    /// A policy with a table of zeros, learning rate `0.1`, discount factor
    /// `0.9` and exploration rate `0.1`.
    pub fn new(num_states: usize, num_actions: usize) -> (r: Self)
        requires
            num_states * num_actions <= usize::MAX,
        ensures
            r.wf(),
            r@ == (TabularModel {
                num_states: num_states as nat,
                num_actions: num_actions as nat,
                alpha: TENTH,
                gamma: NINE_TENTHS,
                epsilon: TENTH,
                table: Seq::new((num_states * num_actions) as nat, |i: int| ZERO),
            }),
    {
        TabularQLearning {
            q_table: zeros(num_states * num_actions),
            alpha: TENTH,
            gamma: NINE_TENTHS,
            epsilon: TENTH,
            num_states,
            num_actions,
        }
    }

    /// Puts a policy together from the values of a header and a table, with
    /// the exploration rate at `0.1`. Without a table the result is the
    /// refusal for want of memory; a table of another size than the header
    /// asks for is refused as well.
    pub fn with_table(
        num_states: usize,
        num_actions: usize,
        alpha: u32,
        gamma: u32,
        table: Option<Vec<u32>>,
    ) -> (r: Result<Self, Error>)
        ensures
            match r {
                Ok(p) => p.wf() && with_table_spec(
                    num_states as nat,
                    num_actions as nat,
                    alpha,
                    gamma,
                    match table {
                        Some(t) => Some(t@),
                        None => None,
                    },
                ) == Ok::<TabularModel, ErrorModel>(p@),
                Err(e) => with_table_spec(
                    num_states as nat,
                    num_actions as nat,
                    alpha,
                    gamma,
                    match table {
                        Some(t) => Some(t@),
                        None => None,
                    },
                ) == Err::<TabularModel, ErrorModel>(e@),
            },
    {
        match table {
            None => Err(Error::OutOfMemory(String::from_str("Q-table does not fit in memory"))),
            Some(q_table) => {
                let len: usize = q_table.len();
                let fits: bool = match num_states.checked_mul(num_actions) {
                    Some(cells) => len == cells,
                    None => false,
                };
                if fits {
                    Ok(
                        TabularQLearning {
                            q_table,
                            alpha,
                            gamma,
                            epsilon: TENTH,
                            num_states,
                            num_actions,
                        },
                    )
                } else {
                    Err(invalid_weights("Q-table size mismatch"))
                }
            },
        }
    }

    /// Builds a policy from the wire format. The buffer must hold the header.
    /// Where it also holds the whole table that the header declares, the
    /// table is read from it. Where it does not, a table of zeros is made;
    /// the memory for it is asked for first, and a table that cannot be had
    /// is refused.
    pub fn from_weights(weights: &[u8]) -> (r: Result<Self, Error>)
        ensures
            match r {
                Ok(p) => p.wf() && from_weights_allows(
                    weights@,
                    Ok::<TabularModel, ErrorModel>(p@),
                ),
                Err(e) => from_weights_allows(weights@, Err::<TabularModel, ErrorModel>(e@)),
            },
    {
        if weights.len() < HEADER_LEN {
            return Err(invalid_weights("Insufficient weights for TabularQLearning"));
        }
        let num_states: usize = read_word(weights, 0) as usize;
        let num_actions: usize = read_word(weights, 4) as usize;
        let alpha: u32 = read_word(weights, 8);
        let gamma: u32 = read_word(weights, 12);
        let table: Option<Vec<u32>> = match num_states.checked_mul(num_actions) {
            Some(cells) => if cells <= (weights.len() - HEADER_LEN) / 4 {
                Some(read_words(weights, HEADER_LEN, cells))
            } else {
                try_zeros(cells)
            },
            None => None,
        };
        Self::with_table(num_states, num_actions, alpha, gamma, table)
    }

    /// Replaces the parameters from the wire format. The buffer must hold the
    /// header and declare the dimensions that the policy has; a refused buffer
    /// leaves the policy as it was.
    pub fn load_weights(&mut self, weights: &[u8]) -> (r: Result<(), Error>)
        requires
            old(self).wf(),
        ensures
            final(self).wf(),
            match r {
                Ok(_) => load_weights_spec(old(self)@, weights@) == Ok::<
                    TabularModel,
                    ErrorModel,
                >(final(self)@),
                Err(e) => load_weights_spec(old(self)@, weights@) == Err::<
                    TabularModel,
                    ErrorModel,
                >(e@) && final(self)@ == old(self)@,
            },
    {
        if weights.len() < HEADER_LEN {
            return Err(invalid_weights("Insufficient weights for TabularQLearning"));
        }
        let num_states: usize = read_word(weights, 0) as usize;
        let num_actions: usize = read_word(weights, 4) as usize;
        if num_states != self.num_states || num_actions != self.num_actions {
            return Err(invalid_weights("State/action dimensions mismatch"));
        }
        self.alpha = read_word(weights, 8);
        self.gamma = read_word(weights, 12);
        let cells: usize = self.q_table.len();
        if cells <= (weights.len() - HEADER_LEN) / 4 {
            self.q_table = read_words(weights, HEADER_LEN, cells);
        }
        Ok(())
    }

    /// Writes the parameters in the wire format. Dimensions that do not fit in
    /// 32 bits cannot be written.
    pub fn get_weights(&self) -> (r: Result<Vec<u8>, Error>)
        requires
            self.wf(),
        ensures
            match r {
                Ok(bytes) => get_weights_spec(self@) == Ok::<Seq<u8>, ErrorModel>(bytes@),
                Err(e) => get_weights_spec(self@) == Err::<Seq<u8>, ErrorModel>(e@),
            },
    {
        if self.num_states > u32::MAX as usize || self.num_actions > u32::MAX as usize {
            return Err(
                Error::Serialization(
                    String::from_str("Q-table dimensions do not fit the header"),
                ),
            );
        }
        let mut out: Vec<u8> = Vec::new();
        push_word(&mut out, self.num_states as u32);
        push_word(&mut out, self.num_actions as u32);
        push_word(&mut out, self.alpha);
        push_word(&mut out, self.gamma);
        push_words(&mut out, self.q_table.as_slice());
        Ok(out)
    }

    /// The name of the algorithm.
    pub fn algorithm_name(&self) -> (r: &'static str)
        ensures
            r@ == "TabularQLearning"@,
    {
        "TabularQLearning"
    }

    /// The number of states.
    pub fn num_states(&self) -> (r: usize)
        ensures
            r == self@.num_states,
    {
        self.num_states
    }

    /// The number of discrete actions.
    pub fn num_actions(&self) -> (r: usize)
        ensures
            r == self@.num_actions,
    {
        self.num_actions
    }

    /// The learning rate.
    pub fn alpha(&self) -> (r: u32)
        ensures
            r == self@.alpha,
    {
        self.alpha
    }

    /// The discount factor.
    pub fn gamma(&self) -> (r: u32)
        ensures
            r == self@.gamma,
    {
        self.gamma
    }

    /// The exploration rate.
    pub fn epsilon(&self) -> (r: u32)
        ensures
            r == self@.epsilon,
    {
        self.epsilon
    }

    /// Sets the exploration rate, held to the interval from 0 to 1.
    pub fn set_epsilon(&mut self, epsilon: u32)
        ensures
            final(self)@ == (TabularModel { epsilon: clamped(epsilon, ZERO, ONE), ..old(self)@ }),
    {
        self.epsilon = clamp_to(epsilon, ZERO, ONE);
    }

    /// The value of `action` in `state`.
    pub fn get_q_value(&self, state: usize, action: usize) -> (r: u32)
        requires
            self.wf(),
            state < self@.num_states,
            action < self@.num_actions,
        ensures
            r == self@.q(state as int, action as int),
    {
        proof {
            lemma_row_in_table(self.num_states as int, self.num_actions as int, state as int);
        }
        self.q_table[state * self.num_actions + action]
    }

    /// Replaces the value of `action` in `state`.
    pub fn set_q_value(&mut self, state: usize, action: usize, value: u32)
        requires
            old(self).wf(),
            state < old(self)@.num_states,
            action < old(self)@.num_actions,
        ensures
            final(self).wf(),
            final(self)@ == (TabularModel {
                table: old(self)@.table.update(
                    state * old(self)@.num_actions + action,
                    value,
                ),
                ..old(self)@
            }),
    {
        proof {
            lemma_row_in_table(self.num_states as int, self.num_actions as int, state as int);
        }
        let at: usize = state * self.num_actions + action;
        self.q_table[at] = value;
    }

    fn row(&self, state: usize) -> (r: &[u32])
        requires
            self.wf(),
            state < self@.num_states,
        ensures
            r@ == self@.row(state as int),
            r@.len() == self@.num_actions,
    {
        proof {
            lemma_row_in_table(self.num_states as int, self.num_actions as int, state as int);
        }
        let from: usize = state * self.num_actions;
        slice_subrange(self.q_table.as_slice(), from, from + self.num_actions)
    }

    /// One temporal-difference step on the value of `action` in `state`. The
    /// new value is what `td` makes of the old value, the learning rate, the
    /// reward, the discount factor and the largest value of `next_state`, in
    /// this order; `td` stands for
    /// `old + alpha * (reward + gamma * max_next - old)`. Nothing else changes.
    pub fn update_q_value<F: FnOnce(u32, u32, u32, u32, u32) -> u32>(
        &mut self,
        state: usize,
        action: usize,
        reward: u32,
        next_state: usize,
        td: F,
    )
        requires
            old(self).wf(),
            state < old(self)@.num_states,
            action < old(self)@.num_actions,
            next_state < old(self)@.num_states,
            call_requires(
                td,
                (
                    old(self)@.q(state as int, action as int),
                    old(self)@.alpha,
                    reward,
                    old(self)@.gamma,
                    maximum(old(self)@.row(next_state as int)),
                ),
            ),
        ensures
            final(self).wf(),
            final(self)@ == (TabularModel {
                table: old(self)@.table.update(
                    state * old(self)@.num_actions + action,
                    final(self)@.q(state as int, action as int),
                ),
                ..old(self)@
            }),
            call_ensures(
                td,
                (
                    old(self)@.q(state as int, action as int),
                    old(self)@.alpha,
                    reward,
                    old(self)@.gamma,
                    maximum(old(self)@.row(next_state as int)),
                ),
                final(self)@.q(state as int, action as int),
            ),
    {
        let current_q: u32 = self.get_q_value(state, action);
        let max_next_q: u32 = self.max_q_value(next_state);
        let new_q: u32 = td(current_q, self.alpha, reward, self.gamma, max_next_q);
        proof {
            lemma_row_in_table(self.num_states as int, self.num_actions as int, state as int);
        }
        self.set_q_value(state, action, new_q);
    }

    /// The largest value that any action has in `state`, NaNs passed over.
    pub fn max_q_value(&self, state: usize) -> (r: u32)
        requires
            self.wf(),
            state < self@.num_states,
        ensures
            r == maximum(self@.row(state as int)),
    {
        maximum_of(self.row(state))
    }

    /// The first action of largest value in `state`.
    pub fn greedy_action(&self, state: usize) -> (r: usize)
        requires
            self.wf(),
            state < self@.num_states,
        ensures
            r == first_max_index(self@.row(state as int)),
            self@.num_actions > 0 ==> r < self@.num_actions,
    {
        index_of_first_max(self.row(state))
    }

    /// The state that a raw index stands for: an index past the end stands for
    /// the last state.
    pub fn state_index(&self, raw: usize) -> (r: usize)
        requires
            self@.num_states > 0,
        ensures
            r == self@.state_index(raw as int),
            r < self@.num_states,
    {
        if raw >= self.num_states {
            self.num_states - 1
        } else {
            raw
        }
    }

    /// The discrete action to take in `state`, epsilon-greedy. `random_value`
    /// is a number from 0 up to 1 and `draw` an integer, both picked by the
    /// caller. When `random_value` is below the exploration rate the policy
    /// explores and takes the remainder of `draw` by the number of actions;
    /// else it takes the first action of largest value.
    pub fn select_action(&self, state: usize, draw: u64, random_value: u32) -> (r: usize)
        requires
            self.wf(),
            state < self@.num_states,
            self@.explores(random_value) ==> self@.num_actions > 0,
        ensures
            r == self@.chosen(state as int, draw, random_value),
    {
        if less(random_value, self.epsilon) {
            (draw % (self.num_actions as u64)) as usize
        } else {
            self.greedy_action(state)
        }
    }

    /// The action for a raw state index, epsilon-greedy as `select_action`:
    /// 1.0 at the chosen discrete action, `+0.0` elsewhere. A discrete action
    /// beyond the action vector marks nothing.
    pub fn act_on(&self, raw_state: usize, draw: u64, random_value: u32) -> (r: Action<
        ACTION_DIM,
    >)
        requires
            self.wf(),
            self@.num_states > 0,
            self@.explores(random_value) ==> self@.num_actions > 0,
        ensures
            r@ == Action::<ACTION_DIM>::one_hot_spec(
                self@.chosen(self@.state_index(raw_state as int), draw, random_value),
            ),
    {
        let state: usize = self.state_index(raw_state);
        let index: usize = self.select_action(state, draw, random_value);
        Action::one_hot(index)
    }

    /// The action for an observation. `discretize` turns the first element of
    /// the observation and the number of states into a raw state index;
    /// `random` hands over an integer draw and a random value from 0 up to 1.
    /// The rest is `act_on`: the raw index is held to the states, the action is
    /// selected epsilon-greedy, and the result is 1.0 there and `+0.0`
    /// elsewhere.
    pub fn act<D: Fn(u32, usize) -> usize, R: FnOnce() -> (u64, u32)>(
        &self,
        obs: &Obs<OBS_DIM>,
        discretize: D,
        random: R,
    ) -> (r: Action<ACTION_DIM>)
        requires
            self.wf(),
            OBS_DIM > 0,
            self@.num_states > 0,
            call_requires(discretize, (obs@[0], self@.num_states as usize)),
            call_requires(random, ()),
            self@.num_actions > 0 || forall|draw: u64, random_value: u32|
                call_ensures(random, (), (draw, random_value)) ==> !self@.explores(random_value),
        ensures
            exists|raw: usize, draw: u64, random_value: u32|
                call_ensures(discretize, (obs@[0], self@.num_states as usize), raw)
                    && call_ensures(random, (), (draw, random_value)) && r@ == Action::<
                    ACTION_DIM,
                >::one_hot_spec(
                    self@.chosen(self@.state_index(raw as int), draw, random_value),
                ),
    {
        proof {
            obs.lemma_len();
        }
        let first: u32 = obs.as_slice()[0];
        let raw: usize = discretize(first, self.num_states);
        let (draw, random_value) = random();
        self.act_on(raw, draw, random_value)
    }
}

} // verus!
