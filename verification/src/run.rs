//! Carrying out the steps of a processor, one after the other: which step
//! comes next, when the run stops, and what it returns.
//!
//! The steps themselves (account data writes and calls into other programs)
//! are performed by the runtime; what each one gave is handed back here,
//! and the run goes on only while every step succeeds.
use vstd::prelude::*;
use crate::cpi::{spec_create_pda_steps, Invocation, InvocationView, Step, StepView};
use crate::error::{BorshError, ProgramError};
use crate::programs::{is_token_program, spec_token_program_id};

verus! {

/// What to do next while carrying out a list of steps.
#[derive(Debug)]
pub enum Action {
    /// Carry out the step with this index, and report what it gave.
    Perform(usize),
    /// Stop: the run is over and returns this.
    Finish(Result<(), ProgramError>),
}

/// The error with which a step is refused before it is carried out: a
/// token transfer for a program that is not the token program is refused
/// with `IncorrectProgramId`, as the token instruction builder refuses it.
pub open spec fn spec_refused(step: StepView) -> Option<ProgramError> {
    match step {
        StepView::Invoke(InvocationView::TokenTransfer { token_program, .. }) => {
            if token_program != spec_token_program_id() {
                Some(ProgramError::IncorrectProgramId)
            } else {
                None
            }
        },
        _ => None,
    }
}

/// What comes after `carried_out` steps were carried out, the last of them
/// giving `last` (`Ok` before the first): a failure ends the run with its
/// error; otherwise the next step is carried out unless it is refused or
/// there is none left.
pub open spec fn spec_next_action(steps: Seq<StepView>, carried_out: nat, last: Result<(), ProgramError>) -> Action {
    match last {
        Err(e) => Action::Finish(Err(e)),
        Ok(_) => if carried_out >= steps.len() {
            Action::Finish(Ok(()))
        } else {
            match spec_refused(steps[carried_out as int]) {
                Some(e) => Action::Finish(Err(e)),
                None => Action::Perform(carried_out as usize),
            }
        },
    }
}

/// The action of `spec_next_action`.
pub fn next_action(steps: &Vec<Step>, carried_out: usize, last: Result<(), ProgramError>) -> (r: Action)
    ensures
        r == spec_next_action(steps.deep_view(), carried_out as nat, last),
{
    match last {
        Err(e) => Action::Finish(Err(e)),
        Ok(()) => {
            if carried_out >= steps.len() {
                return Action::Finish(Ok(()));
            }
            match &steps[carried_out] {
                Step::Invoke(Invocation::TokenTransfer { token_program, .. }) => {
                    if is_token_program(token_program) {
                        Action::Perform(carried_out)
                    } else {
                        Action::Finish(Err(ProgramError::IncorrectProgramId))
                    }
                },
                _ => Action::Perform(carried_out),
            }
        },
    }
}

/// The run that follows `spec_next_action` from `carried_out` steps that
/// all succeeded, where `outcomes[i]` is what step `i` gives when it is
/// carried out: what the run returns, and how many steps it carried out.
pub open spec fn spec_run(steps: Seq<StepView>, outcomes: Seq<Result<(), ProgramError>>, carried_out: nat) -> (
    Result<(), ProgramError>,
    nat,
)
    decreases steps.len() - carried_out,
{
    if carried_out >= steps.len() {
        (Ok(()), carried_out)
    } else {
        match spec_refused(steps[carried_out as int]) {
            Some(e) => (Err(e), carried_out),
            None => match outcomes[carried_out as int] {
                Err(e) => (Err(e), carried_out + 1),
                Ok(_) => spec_run(steps, outcomes, carried_out + 1),
            },
        }
    }
}

/// The run is the one a driver gets by asking `next_action` after each
/// step it carries out, handing in what the step gave: a step that fails
/// makes the next action `Finish` with its error, and a step that succeeds
/// lets the run go on.
pub proof fn lemma_run_follows_next_action(
    steps: Seq<StepView>,
    outcomes: Seq<Result<(), ProgramError>>,
    carried_out: nat,
)
    requires
        carried_out < usize::MAX,
    ensures
        spec_run(steps, outcomes, carried_out) == match spec_next_action(steps, carried_out, Ok(())) {
            Action::Finish(r) => (r, carried_out),
            Action::Perform(i) => match outcomes[i as int] {
                Err(e) => (Err(e), carried_out + 1),
                Ok(_) => spec_run(steps, outcomes, carried_out + 1),
            },
        },
        forall|e: ProgramError| #[trigger] spec_next_action(steps, carried_out + 1, Err(e)) == Action::Finish(Err(e)),
{
}

/// A run stops at the first step that fails or is refused and returns its
/// error, carrying out no later step; it succeeds exactly when every step
/// was carried out and succeeded.
pub proof fn lemma_run_stops_at_first_failure(
    steps: Seq<StepView>,
    outcomes: Seq<Result<(), ProgramError>>,
    carried_out: nat,
)
    requires
        carried_out <= steps.len(),
        outcomes.len() == steps.len(),
    ensures
        ({
            let (r, k) = spec_run(steps, outcomes, carried_out);
            &&& carried_out <= k <= steps.len()
            &&& forall|i: int| carried_out <= i < k - 1 ==> #[trigger] outcomes[i] is Ok
            &&& forall|i: int| carried_out <= i < k ==> spec_refused(#[trigger] steps[i]) is None
            &&& r is Ok <==> (k == steps.len() && forall|i: int| carried_out <= i < k ==> #[trigger] outcomes[i] is Ok)
            &&& r is Ok ==> r == Ok::<(), ProgramError>(())
            &&& r is Err ==> {
                ||| k > carried_out && outcomes[k - 1] is Err && r == outcomes[k - 1]
                ||| k < steps.len() && (k == carried_out || outcomes[k - 1] is Ok) && spec_refused(steps[k as int]) == Some(r->Err_0)
            }
        }),
    decreases steps.len() - carried_out,
{
    if carried_out < steps.len() && spec_refused(steps[carried_out as int]) is None {
        lemma_run_stops_at_first_failure(steps, outcomes, carried_out + 1);
    }
}

/// Among steps none of which is refused, the run carries out every step up
/// to the first that fails and returns that step's error.
pub proof fn lemma_run_up_to_first_failure(
    steps: Seq<StepView>,
    outcomes: Seq<Result<(), ProgramError>>,
    failed: nat,
)
    requires
        failed < steps.len(),
        outcomes.len() == steps.len(),
        forall|i: int| 0 <= i < steps.len() ==> spec_refused(#[trigger] steps[i]) is None,
        forall|i: int| 0 <= i < failed ==> #[trigger] outcomes[i] is Ok,
        outcomes[failed as int] is Err,
    ensures
        spec_run(steps, outcomes, 0) == (outcomes[failed as int], failed + 1),
{
    lemma_run_stops_at_first_failure(steps, outcomes, 0);
    let (r, k) = spec_run(steps, outcomes, 0);
    if k < failed + 1 {
        if k == 0 {
            assert(spec_refused(steps[0]) is None);
        } else {
            assert(outcomes[k - 1] is Ok);
            assert(spec_refused(steps[k as int]) is None);
        }
    }
    if k > failed + 1 {
        assert(outcomes[failed as int] is Ok);
    }
}

/// The data that writing `bytes` over the start of `data` leaves: as many
/// of the bytes as fit replace the first bytes of `data`; its length does
/// not change.
pub open spec fn spec_write_over(data: Seq<u8>, bytes: Seq<u8>) -> Seq<u8> {
    if bytes.len() <= data.len() {
        bytes + data.skip(bytes.len() as int)
    } else {
        bytes.take(data.len() as int)
    }
}

/// Writes `bytes` over the start of `data`: returns the data this leaves,
/// and `FailedToWriteWholeBuffer` when not all of the bytes fit.
pub fn write_over(data: &[u8], bytes: &[u8]) -> (r: (Vec<u8>, Result<(), ProgramError>))
    ensures
        r.0@ == spec_write_over(data@, bytes@),
        r.1 == if bytes@.len() <= data@.len() {
            Ok::<(), ProgramError>(())
        } else {
            Err(ProgramError::BorshIoError(BorshError::FailedToWriteWholeBuffer))
        },
{
    let mut out: Vec<u8> = Vec::new();
    let mut i: usize = 0;
    while i < data.len()
        invariant
            i <= data@.len(),
            out@.len() == i,
            forall|j: int| 0 <= j < i ==> #[trigger] out@[j] == if j < bytes@.len() {
                bytes@[j]
            } else {
                data@[j]
            },
        decreases data.len() - i,
    {
        if i < bytes.len() {
            out.push(bytes[i]);
        } else {
            out.push(data[i]);
        }
        i = i + 1;
    }
    assert(out@ =~= spec_write_over(data@, bytes@));
    if bytes.len() <= data.len() {
        (out, Ok(()))
    } else {
        (out, Err(ProgramError::BorshIoError(BorshError::FailedToWriteWholeBuffer)))
    }
}

/// Creating an account stops at the first call that fails: that call's
/// error is returned and no later call is made (a failed funding transfer
/// means no allocate and no assign, a failed allocate means no assign);
/// when every call succeeds, all are made and the creation succeeds.
pub proof fn lemma_create_pda_stops_at_first_failed_call(
    payer: Seq<u8>,
    pda: Seq<u8>,
    pda_lamports: u64,
    signer_seeds: Seq<Seq<u8>>,
    space: u64,
    owner: Seq<u8>,
    system_program: Seq<u8>,
    minimum_balance: u64,
    outcomes: Seq<Result<(), ProgramError>>,
)
    requires
        outcomes.len() == spec_create_pda_steps(
            payer,
            pda,
            pda_lamports,
            signer_seeds,
            space,
            owner,
            system_program,
            minimum_balance,
        ).len(),
    ensures
        ({
            let steps = spec_create_pda_steps(
                payer,
                pda,
                pda_lamports,
                signer_seeds,
                space,
                owner,
                system_program,
                minimum_balance,
            );
            &&& forall|failed: int|
                0 <= failed < steps.len() && (forall|i: int| 0 <= i < failed ==> #[trigger] outcomes[i] is Ok)
                    && outcomes[failed] is Err ==> spec_run(steps, outcomes, 0) == (
                    outcomes[failed],
                    (failed + 1) as nat,
                )
            &&& (forall|i: int| 0 <= i < steps.len() ==> #[trigger] outcomes[i] is Ok) ==> spec_run(
                steps,
                outcomes,
                0,
            ) == (Ok::<(), ProgramError>(()), steps.len())
        }),
{
    let steps = spec_create_pda_steps(
        payer,
        pda,
        pda_lamports,
        signer_seeds,
        space,
        owner,
        system_program,
        minimum_balance,
    );
    assert forall|i: int| 0 <= i < steps.len() implies spec_refused(#[trigger] steps[i]) is None by {}
    assert forall|failed: int|
        0 <= failed < steps.len() && (forall|i: int| 0 <= i < failed ==> #[trigger] outcomes[i] is Ok)
            && outcomes[failed] is Err implies spec_run(steps, outcomes, 0) == (
            outcomes[failed],
            (failed + 1) as nat,
        ) by {
        lemma_run_up_to_first_failure(steps, outcomes, failed as nat);
    }
    lemma_run_stops_at_first_failure(steps, outcomes, 0);
    if forall|i: int| 0 <= i < steps.len() ==> #[trigger] outcomes[i] is Ok {
        let (r, k) = spec_run(steps, outcomes, 0);
        if r is Err {
            if k > 0 {
                assert(outcomes[k - 1] is Ok);
            }
            if k < steps.len() {
                assert(spec_refused(steps[k as int]) is None);
            }
        }
    }
}


/// Writing bytes over an account's data keeps its length: the first bytes,
/// as many as fit, are the bytes written, in order, and the rest are the
/// data's own.
pub proof fn lemma_write_over_layout(data: Seq<u8>, bytes: Seq<u8>)
    ensures
        spec_write_over(data, bytes).len() == data.len(),
        forall|i: int|
            0 <= i < data.len() ==> #[trigger] spec_write_over(data, bytes)[i] == if i < bytes.len() {
                bytes[i]
            } else {
                data[i]
            },
{
}

} // verus!
