//! Round-robin rotation over an ordered list of credentials.
//!
//! The rotation starts at the first credential. Each credit check is
//! answered with one call of [`RotationState::on_check`], which says whether
//! the credential is selected, whether to pause and check the next one, or
//! whether every credential has been tried. The caller makes the requests
//! and keeps the pauses.

use crate::api::{account_outcome, unauthorized, ApiError, JsonData, Reply, API};
use crate::config::ConfigError;
use vstd::arithmetic::div_mod::{lemma_mod_self_0, lemma_small_mod};
use vstd::prelude::*;

verus! {

/// The pause after a credential that cannot be used, in milliseconds.
pub const PAUSE_MILLIS: u64 = 200;

/// What to do after a credit check.
#[derive(Debug, Clone, Copy, PartialEq, Eq, Structural)]
pub enum Step {
    /// The credential that was checked has query credits: look up with it.
    Selected,
    /// Pause, then check the credential that is now the current one.
    Retry { pause_millis: u64 },
    /// Pause, then stop without a lookup: every credential has been tried.
    Exhausted { pause_millis: u64 },
}

/// True when a credit check with this outcome found a credential that a
/// lookup can be made with: the check succeeded and the account has query
/// credits left.
pub open spec fn usable(outcome: Result<JsonData, ApiError>) -> bool {
    match outcome {
        Ok(info) => info.usable(),
        Err(_) => false,
    }
}

/// The position that follows `index` in a list of `len` credentials: one
/// further, and back to the start after the last.
pub open spec fn next_index(len: int, index: int) -> int {
    if index + 1 == len {
        0
    } else {
        index + 1
    }
}

/// The rotation as a mathematical value: the credentials in their order, and
/// the position of the current one.
pub struct RotationView {
    pub keys: Seq<Seq<char>>,
    pub index: int,
}

/// One run of the rotation: the positions of the credentials that were
/// checked, in the order of the checks, and the position of the credential
/// that the lookup is made with. No lookup is made where `selected` is `None`.
pub struct Run {
    pub checked: Seq<int>,
    pub selected: Option<int>,
}

impl RotationView {
    /// The rotation over `keys` before the first check.
    pub open spec fn start(keys: Seq<Seq<char>>) -> RotationView {
        RotationView { keys, index: 0 }
    }

    /// The current position lies in the list, which makes the list non-empty.
    pub open spec fn valid(self) -> bool {
        0 <= self.index < self.keys.len()
    }

    /// The current credential.
    pub open spec fn current(self) -> Seq<char> {
        self.keys[self.index]
    }

    /// The rotation after a check of the current credential with this outcome:
    /// unchanged where the credential is usable, else one position further.
    pub open spec fn after(self, outcome: Result<JsonData, ApiError>) -> RotationView {
        if usable(outcome) {
            self
        } else {
            RotationView { keys: self.keys, index: next_index(self.keys.len() as int, self.index) }
        }
    }

    /// What to do after a check of the current credential with this outcome.
    /// The search is over without a credential when the position is back at
    /// the start.
    pub open spec fn step(self, outcome: Result<JsonData, ApiError>) -> Step {
        if usable(outcome) {
            Step::Selected
        } else if self.after(outcome).index == 0 {
            Step::Exhausted { pause_millis: PAUSE_MILLIS }
        } else {
            Step::Retry { pause_millis: PAUSE_MILLIS }
        }
    }

    /// The run from this state on, where `outcomes[i]` is what the check of the
    /// credential at position `i` gives.
    pub open spec fn run(self, outcomes: Seq<Result<JsonData, ApiError>>) -> Run
        decreases self.keys.len() - self.index,
    {
        if !self.valid() {
            Run { checked: seq![], selected: None }
        } else {
            match self.step(outcomes[self.index]) {
                Step::Selected => Run { checked: seq![self.index], selected: Some(self.index) },
                Step::Exhausted { .. } => Run { checked: seq![self.index], selected: None },
                Step::Retry { .. } => {
                    let rest = self.after(outcomes[self.index]).run(outcomes);
                    Run { checked: seq![self.index] + rest.checked, selected: rest.selected }
                },
            }
        }
    }
}

/// The positions from `from` up to `to`, `to` left out, in rising order.
pub open spec fn positions(from: int, to: int) -> Seq<int> {
    Seq::new((to - from) as nat, |k: int| from + k)
}

/// The credentials and the position of the one to check next.
pub struct RotationState {
    keys: Vec<String>,
    index: usize,
}

impl View for RotationState {
    type V = RotationView;

    closed spec fn view(&self) -> RotationView {
        RotationView { keys: self.keys.deep_view(), index: self.index as int }
    }
}

impl RotationState {
    #[verifier::type_invariant]
    spec fn in_range(&self) -> bool {
        self.index < self.keys.len()
    }

    /// Starts a rotation over `keys` at the first of them. A rotation needs at
    /// least one credential: an empty list is refused.
    pub fn new(keys: Vec<String>) -> (made: Result<RotationState, ConfigError>)
        ensures
            keys.len() == 0 ==> made == Err::<RotationState, ConfigError>(
                ConfigError::EmptyKeyList,
            ),
            keys.len() > 0 ==> made is Ok && made->Ok_0@ == RotationView::start(keys.deep_view()),
    {
        if keys.len() == 0 {
            Err(ConfigError::EmptyKeyList)
        } else {
            Ok(RotationState { keys, index: 0 })
        }
    }

    /// The number of credentials, which is never zero.
    pub fn len(&self) -> (n: usize)
        ensures
            n == self@.keys.len(),
            n > 0,
    {
        proof {
            use_type_invariant(self);
        }
        self.keys.len()
    }

    /// The position of the current credential.
    pub fn position(&self) -> (index: usize)
        ensures
            index == self@.index,
            self@.valid(),
    {
        proof {
            use_type_invariant(self);
        }
        self.index
    }

    /// The current credential: the one to check next, and after
    /// [`Step::Selected`] the one to look up with.
    pub fn current(&self) -> (key: &String)
        ensures
            self@.valid(),
            key@ == self@.current(),
    {
        proof {
            use_type_invariant(self);
        }
        &self.keys[self.index]
    }

    /// Lends the current credential to `client`, which makes its requests
    /// with it from now on.
    pub fn lend(&self, client: &mut API)
        ensures
            self@.valid(),
            final(client)@ == self@.current(),
    {
        proof {
            use_type_invariant(self);
        }
        client.set_api_key(self.keys[self.index].clone());
    }

    /// Takes in the outcome of the check of the current credential and says
    /// what to do next. A credential without query credits and a failed check
    /// are treated alike: the rotation moves to the next credential.
    pub fn on_check(&mut self, outcome: &Result<JsonData, ApiError>) -> (step: Step)
        ensures
            old(self)@.valid(),
            final(self)@ == old(self)@.after(*outcome),
            step == old(self)@.step(*outcome),
            final(self)@.valid(),
    {
        proof {
            use_type_invariant(&*self);
        }
        let selected = match outcome {
            Ok(info) => info.is_usable(),
            Err(_) => false,
        };
        if selected {
            Step::Selected
        } else {
            let next: usize = if self.index + 1 == self.keys.len() {
                0
            } else {
                self.index + 1
            };
            self.index = next;
            if next == 0 {
                Step::Exhausted { pause_millis: PAUSE_MILLIS }
            } else {
                Step::Retry { pause_millis: PAUSE_MILLIS }
            }
        }
    }
}

/// Moving on from a position wraps modulo the number of credentials, and
/// gives a position in the list again.
pub proof fn lemma_next_index_wraps(len: int, index: int)
    requires
        0 <= index < len,
    ensures
        next_index(len, index) == (index + 1) % len,
        0 <= next_index(len, index) < len,
{
    if index + 1 == len {
        lemma_mod_self_0(len);
    } else {
        lemma_small_mod((index + 1) as nat, len as nat);
    }
}

/// From a position up to the first usable credential at or behind it, the
/// run checks each credential once and in order, and selects that one.
proof fn lemma_run_reaches_first_usable(
    r: RotationView,
    outcomes: Seq<Result<JsonData, ApiError>>,
    first: int,
)
    requires
        r.valid(),
        r.index <= first < r.keys.len(),
        usable(outcomes[first]),
        forall|j: int| r.index <= j < first ==> !usable(#[trigger] outcomes[j]),
    ensures
        r.run(outcomes) == (Run { checked: positions(r.index, first + 1), selected: Some(first) }),
    decreases first - r.index,
{
    if r.index == first {
        assert(positions(first, first + 1) =~= seq![first]);
    } else {
        let next = r.after(outcomes[r.index]);
        lemma_run_reaches_first_usable(next, outcomes, first);
        assert(seq![r.index] + positions(r.index + 1, first + 1) =~= positions(
            r.index,
            first + 1,
        ));
    }
}

/// From a position behind which no credential is usable, the run checks each
/// credential up to the last once and in order, and selects none.
proof fn lemma_run_exhausts(r: RotationView, outcomes: Seq<Result<JsonData, ApiError>>)
    requires
        r.valid(),
        forall|j: int| r.index <= j < r.keys.len() ==> !usable(#[trigger] outcomes[j]),
    ensures
        r.run(outcomes) == (Run {
            checked: positions(r.index, r.keys.len() as int),
            selected: None,
        }),
    decreases r.keys.len() - r.index,
{
    let len = r.keys.len() as int;
    if r.index + 1 == len {
        assert(positions(r.index, len) =~= seq![r.index]);
    } else {
        let next = r.after(outcomes[r.index]);
        lemma_run_exhausts(next, outcomes);
        assert(seq![r.index] + positions(r.index + 1, len) =~= positions(r.index, len));
    }
}

/// Where some credential is usable, the rotation selects the first such
/// credential in the order of the list. It checks the credentials before it
/// and that one, each once and in order, and none behind it.
pub proof fn lemma_first_usable_is_selected(
    keys: Seq<Seq<char>>,
    outcomes: Seq<Result<JsonData, ApiError>>,
    first: int,
)
    requires
        outcomes.len() == keys.len(),
        0 <= first < keys.len(),
        usable(outcomes[first]),
        forall|j: int| 0 <= j < first ==> !usable(#[trigger] outcomes[j]),
    ensures
        RotationView::start(keys).run(outcomes) == (Run {
            checked: positions(0, first + 1),
            selected: Some(first),
        }),
        RotationView::start(keys).run(outcomes).checked.len() == first + 1,
{
    lemma_run_reaches_first_usable(RotationView::start(keys), outcomes, first);
}

/// Where no credential is usable, whether for want of query credits or
/// because its check failed, the rotation checks every credential once, in
/// the order of the list, and ends without a lookup.
pub proof fn lemma_exhausted_after_full_cycle(
    keys: Seq<Seq<char>>,
    outcomes: Seq<Result<JsonData, ApiError>>,
)
    requires
        keys.len() > 0,
        outcomes.len() == keys.len(),
        forall|j: int| 0 <= j < keys.len() ==> !usable(#[trigger] outcomes[j]),
    ensures
        RotationView::start(keys).run(outcomes) == (Run {
            checked: positions(0, keys.len() as int),
            selected: None,
        }),
        RotationView::start(keys).run(outcomes).checked.len() == keys.len(),
{
    lemma_run_exhausts(RotationView::start(keys), outcomes);
}

/// With a single credential the rotation makes exactly one check, whatever
/// its outcome, and ends with it: the credential is selected where it is
/// usable, and the search is over where it is not.
pub proof fn lemma_single_credential_checked_once(
    keys: Seq<Seq<char>>,
    outcomes: Seq<Result<JsonData, ApiError>>,
)
    requires
        keys.len() == 1,
        outcomes.len() == 1,
    ensures
        RotationView::start(keys).run(outcomes).checked == seq![0int],
        RotationView::start(keys).run(outcomes).selected == if usable(outcomes[0]) {
            Some(0int)
        } else {
            None
        },
        RotationView::start(keys).step(outcomes[0]) !is Retry,
{
}

/// A credential that the service rejects as unauthorized and one that
/// reports no query credits move the rotation in the same way: by exactly
/// one position, with the same next step.
pub proof fn lemma_unauthorized_rotates_like_no_credits(
    r: RotationView,
    rejected_body: Result<JsonData, String>,
    status: u16,
    info: JsonData,
)
    requires
        r.valid(),
        status != unauthorized(),
        info.query_credits <= 0,
    ensures
        ({
            let rejected = account_outcome(
                Reply::Answered { status: unauthorized(), body: rejected_body },
            );
            let spent = account_outcome(Reply::Answered { status, body: Ok(info) });
            &&& r.after(rejected) == r.after(spent)
            &&& r.step(rejected) == r.step(spent)
            &&& r.after(rejected).index == (r.index + 1) % (r.keys.len() as int)
        }),
{
    lemma_next_index_wraps(r.keys.len() as int, r.index);
}

} // verus!
