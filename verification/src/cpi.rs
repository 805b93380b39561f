//! The steps a processor takes after its checks pass: writes to account data
//! and calls into other programs, in the order the processor makes them.
use vstd::prelude::*;
use crate::account::AccountState;
use crate::error::ProgramError;
use crate::pda::clone_seeds;

verus! {

/// A call into another program.
#[derive(Debug)]
pub enum Invocation {
    /// The system program moves `lamports` from `from` to `to`; the account
    /// infos passed are `from`, `to` and `system_program`.
    SystemTransfer { from: [u8; 32], to: [u8; 32], lamports: u64, system_program: [u8; 32] },
    /// The system program sizes the data of `account` to `space` bytes; the
    /// account infos passed are `account` and `system_program`, and
    /// `signer_seeds` sign for `account`.
    SystemAllocate {
        account: [u8; 32],
        space: u64,
        system_program: [u8; 32],
        signer_seeds: Vec<Vec<u8>>,
    },
    /// The system program hands `account` over to `owner`; the account infos
    /// passed are `account` and `system_program`, and `signer_seeds` sign for
    /// `account`.
    SystemAssign {
        account: [u8; 32],
        owner: [u8; 32],
        system_program: [u8; 32],
        signer_seeds: Vec<Vec<u8>>,
    },
    /// The token program moves `amount` tokens from `source` to `destination`
    /// on the authority of `authority`; the account infos passed are
    /// `source`, `destination` and `authority`, and `signer_seeds` sign for
    /// `authority`.
    TokenTransfer {
        token_program: [u8; 32],
        source: [u8; 32],
        destination: [u8; 32],
        authority: [u8; 32],
        amount: u64,
        signer_seeds: Vec<Vec<u8>>,
    },
}

/// One step of a processor.
#[derive(Debug)]
pub enum Step {
    /// `bytes` are written over the start of the data of `account`.
    WriteData { account: [u8; 32], bytes: Vec<u8> },
    /// A call into another program.
    Invoke(Invocation),
}

/// The mathematical value of an `Invocation`.
pub enum InvocationView {
    SystemTransfer { from: Seq<u8>, to: Seq<u8>, lamports: u64, system_program: Seq<u8> },
    SystemAllocate { account: Seq<u8>, space: u64, system_program: Seq<u8>, signer_seeds: Seq<Seq<u8>> },
    SystemAssign { account: Seq<u8>, owner: Seq<u8>, system_program: Seq<u8>, signer_seeds: Seq<Seq<u8>> },
    TokenTransfer {
        token_program: Seq<u8>,
        source: Seq<u8>,
        destination: Seq<u8>,
        authority: Seq<u8>,
        amount: u64,
        signer_seeds: Seq<Seq<u8>>,
    },
}

/// The mathematical value of a `Step`.
pub enum StepView {
    WriteData { account: Seq<u8>, bytes: Seq<u8> },
    Invoke(InvocationView),
}

impl DeepView for Invocation {
    type V = InvocationView;

    open spec fn deep_view(&self) -> InvocationView {
        match self {
            Invocation::SystemTransfer { from, to, lamports, system_program } => InvocationView::SystemTransfer {
                from: from@,
                to: to@,
                lamports: *lamports,
                system_program: system_program@,
            },
            Invocation::SystemAllocate { account, space, system_program, signer_seeds } => InvocationView::SystemAllocate {
                account: account@,
                space: *space,
                system_program: system_program@,
                signer_seeds: signer_seeds.deep_view(),
            },
            Invocation::SystemAssign { account, owner, system_program, signer_seeds } => InvocationView::SystemAssign {
                account: account@,
                owner: owner@,
                system_program: system_program@,
                signer_seeds: signer_seeds.deep_view(),
            },
            Invocation::TokenTransfer {
                token_program,
                source,
                destination,
                authority,
                amount,
                signer_seeds,
            } => InvocationView::TokenTransfer {
                token_program: token_program@,
                source: source@,
                destination: destination@,
                authority: authority@,
                amount: *amount,
                signer_seeds: signer_seeds.deep_view(),
            },
        }
    }
}

impl DeepView for Step {
    type V = StepView;

    open spec fn deep_view(&self) -> StepView {
        match self {
            Step::WriteData { account, bytes } => StepView::WriteData { account: account@, bytes: bytes@ },
            Step::Invoke(invocation) => StepView::Invoke(invocation.deep_view()),
        }
    }
}

/// The mathematical value of what a processor returns.
pub open spec fn spec_steps_outcome(r: Result<Vec<Step>, ProgramError>) -> Result<Seq<StepView>, ProgramError> {
    match r {
        Ok(steps) => Ok(steps.deep_view()),
        Err(e) => Err(e),
    }
}

/// The steps that make the account `pda` a rent-exempt account of `space`
/// bytes owned by `owner`: when `pda` holds less than `minimum_balance`, the
/// payer first sends it the missing lamports; then the system program sizes
/// the account and hands it to `owner`, with `signer_seeds` signing for it.
pub open spec fn spec_create_pda_steps(
    payer: Seq<u8>,
    pda: Seq<u8>,
    pda_lamports: u64,
    signer_seeds: Seq<Seq<u8>>,
    space: u64,
    owner: Seq<u8>,
    system_program: Seq<u8>,
    minimum_balance: u64,
) -> Seq<StepView> {
    let allocate_and_assign = seq![
        StepView::Invoke(
            InvocationView::SystemAllocate { account: pda, space, system_program, signer_seeds },
        ),
        StepView::Invoke(
            InvocationView::SystemAssign { account: pda, owner, system_program, signer_seeds },
        ),
    ];
    if pda_lamports < minimum_balance {
        seq![
            StepView::Invoke(
                InvocationView::SystemTransfer {
                    from: payer,
                    to: pda,
                    lamports: (minimum_balance - pda_lamports) as u64,
                    system_program,
                },
            ),
        ] + allocate_and_assign
    } else {
        allocate_and_assign
    }
}

/// The steps of `spec_create_pda_steps`.
pub fn create_pda_steps(
    payer: &AccountState,
    pda: &AccountState,
    signer_seeds: &Vec<Vec<u8>>,
    space: u64,
    owner: &[u8; 32],
    system_program: &AccountState,
    minimum_balance: u64,
) -> (r: Vec<Step>)
    ensures
        r.deep_view() == spec_create_pda_steps(
            payer.key@,
            pda.key@,
            pda.lamports,
            signer_seeds.deep_view(),
            space,
            owner@,
            system_program.key@,
            minimum_balance,
        ),
{
    let mut steps: Vec<Step> = Vec::new();
    let rent_exempt_missing_amount = minimum_balance.saturating_sub(pda.lamports);
    if rent_exempt_missing_amount > 0 {
        steps.push(
            Step::Invoke(
                Invocation::SystemTransfer {
                    from: payer.key,
                    to: pda.key,
                    lamports: rent_exempt_missing_amount,
                    system_program: system_program.key,
                },
            ),
        );
    }
    steps.push(
        Step::Invoke(
            Invocation::SystemAllocate {
                account: pda.key,
                space,
                system_program: system_program.key,
                signer_seeds: clone_seeds(signer_seeds),
            },
        ),
    );
    steps.push(
        Step::Invoke(
            Invocation::SystemAssign {
                account: pda.key,
                owner: *owner,
                system_program: system_program.key,
                signer_seeds: clone_seeds(signer_seeds),
            },
        ),
    );
    assert(steps.deep_view() =~= spec_create_pda_steps(
        payer.key@,
        pda.key@,
        pda.lamports,
        signer_seeds.deep_view(),
        space,
        owner@,
        system_program.key@,
        minimum_balance,
    ));
    steps
}

/// The lamports that the system transfers among `steps` send to `to`.
pub open spec fn spec_lamports_sent_to(steps: Seq<StepView>, to: Seq<u8>) -> int
    decreases steps.len(),
{
    if steps.len() == 0 {
        0
    } else {
        spec_lamports_sent_to(steps.drop_last(), to) + match steps.last() {
            StepView::Invoke(InvocationView::SystemTransfer { to: receiver, lamports, .. }) => {
                if receiver == to {
                    lamports as int
                } else {
                    0
                }
            },
            _ => 0,
        }
    }
}

/// Creating an account brings its balance up to the rent-exempt minimum and
/// no further: the lamports sent to it make up exactly what it lacked, and
/// nothing is sent to an account that already holds the minimum.
pub proof fn lemma_create_pda_tops_up_to_minimum(
    payer: Seq<u8>,
    pda: Seq<u8>,
    pda_lamports: u64,
    signer_seeds: Seq<Seq<u8>>,
    space: u64,
    owner: Seq<u8>,
    system_program: Seq<u8>,
    minimum_balance: u64,
)
    ensures
        pda_lamports + spec_lamports_sent_to(
            spec_create_pda_steps(
                payer,
                pda,
                pda_lamports,
                signer_seeds,
                space,
                owner,
                system_program,
                minimum_balance,
            ),
            pda,
        ) == if pda_lamports < minimum_balance {
            minimum_balance as int
        } else {
            pda_lamports as int
        },
{
    let steps = spec_create_pda_steps(
        payer,
        pda,
        pda_lamports,
        signer_seeds,
        space,
        owner,
        system_program,
        minimum_balance,
    );
    reveal_with_fuel(spec_lamports_sent_to, 4);
    if pda_lamports < minimum_balance {
        assert(steps.drop_last().drop_last().drop_last() =~= Seq::<StepView>::empty());
        assert(steps.drop_last().drop_last() =~= steps.take(1));
    } else {
        assert(steps.drop_last().drop_last() =~= Seq::<StepView>::empty());
    }
}


/// Creating an account makes, in order: when the account holds less than
/// the minimum balance, a system transfer from the payer to the account of
/// exactly the shortfall; then a system allocate of `space` bytes for the
/// account; then a system assign of the account to `owner`; the last two
/// signed by `signer_seeds`, all passing `system_program`.
pub proof fn lemma_create_pda_steps_layout(
    payer: Seq<u8>,
    pda: Seq<u8>,
    pda_lamports: u64,
    signer_seeds: Seq<Seq<u8>>,
    space: u64,
    owner: Seq<u8>,
    system_program: Seq<u8>,
    minimum_balance: u64,
)
    ensures
        ({
            let steps = spec_create_pda_steps(
                payer,
                pda,
                pda_lamports,
                signer_seeds,
                space,
                owner,
                system_program,
                minimum_balance,
            );
            let n = steps.len() as int;
            &&& n == if pda_lamports < minimum_balance { 3int } else { 2int }
            &&& pda_lamports < minimum_balance ==> (steps[0] matches StepView::Invoke(
                InvocationView::SystemTransfer { from, to, lamports, system_program: program },
            ) && from == payer && to == pda && lamports + pda_lamports == minimum_balance
                && program == system_program)
            &&& steps[n - 2] matches StepView::Invoke(
                InvocationView::SystemAllocate { account, space: allocated, system_program: program, signer_seeds: seeds },
            ) && account == pda && allocated == space && program == system_program && seeds == signer_seeds
            &&& steps[n - 1] matches StepView::Invoke(
                InvocationView::SystemAssign { account, owner: new_owner, system_program: program, signer_seeds: seeds },
            ) && account == pda && new_owner == owner && program == system_program && seeds == signer_seeds
        }),
{
}

} // verus!
