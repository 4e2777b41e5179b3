//! Bringing a package onto a chain: what both runners have in common.
use crate::fuzzer::error::Error;
use crate::runner::chain::AccountAddress;
use crate::runner::transaction::{
    entry_function, AccountRequest, Transaction, TransactionPayload, TransactionStatus,
};
use vstd::prelude::*;

verus! {

use crate::external::codec::byte_lists;
use crate::external::names::is_identifier;
use crate::runner::aptos_helpers::registry::call_lists;
use crate::runner::transaction::{PayloadView, TransactionView};

/// What a runner is told while it sets up.
pub enum SetupEvent {
    Start,
    AccountOpened(AccountAddress),
    /// The transaction that was asked for last was executed.
    Executed(TransactionStatus),
}

/// What a runner asks for while it sets up.
pub enum SetupStep {
    OpenAccount(AccountRequest),
    Execute(Transaction),
    Finished,
    /// The package cannot be used.
    Failed(Error),
}

/// What has to be done next.
pub struct SetupAction {
    /// A chain in its genesis state takes the place of the present one first:
    /// nothing that was committed before remains.
    pub reset_chain: bool,
    /// The changes made by the transaction that was executed last are committed
    /// first.
    pub apply_write_set: bool,
    pub step: SetupStep,
}

/// The mathematical content of an [`AccountRequest`].
pub ghost enum AccountRequestView {
    At(Seq<u8>),
    Fresh { balance: u64, sequence_number: u64 },
}

impl View for AccountRequest {
    type V = AccountRequestView;

    open spec fn view(&self) -> AccountRequestView {
        match self {
            AccountRequest::At(address) => AccountRequestView::At(address@),
            AccountRequest::Fresh { balance, sequence_number } => AccountRequestView::Fresh {
                balance: *balance,
                sequence_number: *sequence_number,
            },
        }
    }
}

/// The mathematical content of a [`SetupStep`].
pub ghost enum SetupStepView {
    OpenAccount(AccountRequestView),
    Execute(TransactionView),
    Finished,
    Failed(Seq<char>),
}

/// The mathematical content of a [`SetupAction`].
pub ghost struct SetupActionView {
    pub reset_chain: bool,
    pub apply_write_set: bool,
    pub step: SetupStepView,
}

impl View for SetupAction {
    type V = SetupActionView;

    open spec fn view(&self) -> SetupActionView {
        SetupActionView {
            reset_chain: self.reset_chain,
            apply_write_set: self.apply_write_set,
            step: match self.step {
                SetupStep::OpenAccount(request) => SetupStepView::OpenAccount(request@),
                SetupStep::Execute(transaction) => SetupStepView::Execute(transaction@),
                SetupStep::Finished => SetupStepView::Finished,
                SetupStep::Failed(error) => SetupStepView::Failed(error@),
            },
        }
    }
}

/// The account request for a package: at the package's address where it has one,
/// otherwise anywhere with the given balance.
pub open spec fn account_request(address: Option<Seq<u8>>, balance: u64) -> AccountRequestView {
    match address {
        Some(a) => AccountRequestView::At(a),
        None => AccountRequestView::Fresh { balance, sequence_number: 0 },
    }
}

/// Asks for the account of a package.
pub fn request_account(address: Option<AccountAddress>, balance: u64) -> (request: AccountRequest)
    ensures
        request@ == account_request(
            match address {
                Some(a) => Some(a@),
                None => None,
            },
            balance,
        ),
        address matches Some(a) ==> request == AccountRequest::At(a),
        address is None ==> request == (AccountRequest::Fresh { balance, sequence_number: 0 }),
{
    match address {
        Some(a) => AccountRequest::At(a),
        None => AccountRequest::Fresh { balance, sequence_number: 0 },
    }
}

/// Which transaction of a setup is being executed.
#[derive(Debug, Clone, Copy, PartialEq, Eq, Structural)]
pub enum SetupStage {
    Publishing,
    /// A helper's call of `initialize`.
    Initializing,
    FuzzInit,
}

/// How far a setup has come.
pub struct SetupProgress {
    pub stage: SetupStage,
    pub package_address: AccountAddress,
    /// The arguments of the calls of `initialize` that are still to be made.
    pub calls: Vec<Vec<Vec<u8>>>,
}

/// The mathematical content of a [`SetupProgress`].
pub ghost struct SetupProgressView {
    pub stage: SetupStage,
    pub package_address: Seq<u8>,
    pub calls: Seq<Seq<Seq<u8>>>,
}

impl View for SetupProgress {
    type V = SetupProgressView;

    open spec fn view(&self) -> SetupProgressView {
        SetupProgressView {
            stage: self.stage,
            package_address: self.package_address@,
            calls: call_lists(self.calls@),
        }
    }
}

/// A transaction that calls a function of a module.
pub open spec fn call_transaction(
    module_address: Seq<u8>,
    module_name: Seq<char>,
    function_name: Seq<char>,
    args: Seq<Seq<u8>>,
    sequence_number: u64,
    gas_unit_price: Option<u64>,
) -> TransactionView {
    TransactionView {
        payload: PayloadView::EntryFunction { module_address, module_name, function_name, args },
        sequence_number,
        gas_unit_price,
    }
}

impl SetupProgressView {
    /// Where the setup stands after its next call.
    pub open spec fn advanced(self) -> SetupProgressView {
        if self.calls.len() > 0 {
            SetupProgressView {
                stage: SetupStage::Initializing,
                calls: self.calls.drop_first(),
                ..self
            }
        } else {
            SetupProgressView { stage: SetupStage::FuzzInit, ..self }
        }
    }

    /// The next call after publication: first the pending calls of `initialize`,
    /// then one of `fuzz_init`. No call can be made of a module whose name is no
    /// identifier.
    pub open spec fn next_call(
        self,
        module_name: Seq<char>,
        sequence_number: u64,
        gas_unit_price: Option<u64>,
    ) -> Option<TransactionView> {
        if !is_identifier(module_name) {
            None
        } else if self.calls.len() > 0 {
            Some(
                call_transaction(
                    self.package_address,
                    module_name,
                    "initialize"@,
                    self.calls[0],
                    sequence_number,
                    gas_unit_price,
                ),
            )
        } else {
            Some(
                call_transaction(
                    self.package_address,
                    module_name,
                    "fuzz_init"@,
                    Seq::empty(),
                    sequence_number,
                    gas_unit_price,
                ),
            )
        }
    }
}

/// The functions that a setup calls have proper names.
proof fn lemma_setup_names()
    ensures
        is_identifier("initialize"@),
        is_identifier("fuzz_init"@),
{
    reveal_strlit("initialize");
    reveal_strlit("fuzz_init");
}

impl SetupProgress {
    /// Makes the next call after publication.
    pub fn advance(&mut self, module_name: &str, sequence_number: u64, gas_unit_price: Option<u64>)
        -> (call: Option<Transaction>)
        ensures
            final(self)@ == old(self)@.advanced(),
            match call {
                Some(transaction) => old(self)@.next_call(
                    module_name@,
                    sequence_number,
                    gas_unit_price,
                ) == Some(transaction@),
                None => old(self)@.next_call(module_name@, sequence_number, gas_unit_price) is None,
            },
    {
        proof {
            lemma_setup_names();
        }
        let ghost before = self.calls@;
        let call = if self.calls.len() > 0 {
            self.stage = SetupStage::Initializing;
            let args = self.calls.remove(0);
            assert(call_lists(self.calls@) =~= call_lists(before).drop_first());
            entry_function(self.package_address, module_name, "initialize", args)
        } else {
            self.stage = SetupStage::FuzzInit;
            let args: Vec<Vec<u8>> = Vec::new();
            assert(byte_lists(args@) =~= Seq::empty());
            entry_function(self.package_address, module_name, "fuzz_init", args)
        };
        match call {
            Ok(call) => Some(
                Transaction {
                    payload: TransactionPayload::EntryFunction(call),
                    sequence_number,
                    gas_unit_price,
                },
            ),
            Err(_) => None,
        }
    }
}

/// A package with an address gets an account there; any other gets one anywhere, with
/// the given balance and nothing sent yet.
pub proof fn law_account_of_a_package(address: Option<Seq<u8>>, balance: u64)
    ensures
        address matches Some(a) ==> account_request(address, balance) == AccountRequestView::At(a),
        address is None ==> account_request(address, balance) == (AccountRequestView::Fresh {
            balance,
            sequence_number: 0,
        }),
{
}

/// The transaction of a call names the function and its module at their address, and
/// carries the arguments, the number and the price that it was made with.
pub proof fn law_transaction_of_a_call(
    module_address: Seq<u8>,
    module_name: Seq<char>,
    function_name: Seq<char>,
    args: Seq<Seq<u8>>,
    sequence_number: u64,
    gas_unit_price: Option<u64>,
)
    ensures
        ({
            let made = call_transaction(
                module_address,
                module_name,
                function_name,
                args,
                sequence_number,
                gas_unit_price,
            );
            &&& made.sequence_number == sequence_number
            &&& made.gas_unit_price == gas_unit_price
            &&& made.payload is EntryFunction
            &&& made.payload->module_address == module_address
            &&& made.payload->module_name == module_name
            &&& made.payload->function_name == function_name
            &&& made.payload->args == args
        }),
{
}

/// Pending calls of `initialize` are made in order and each leaves the list; when none
/// is left, `fuzz_init` is called without arguments. All of them go to the package's
/// own address, and none is made of a module whose name is no identifier.
pub proof fn law_calls_after_publication(
    progress: SetupProgressView,
    module_name: Seq<char>,
    sequence_number: u64,
    gas_unit_price: Option<u64>,
)
    ensures
        ({
            let call = progress.next_call(module_name, sequence_number, gas_unit_price);
            let next = progress.advanced();
            &&& call is None <==> !is_identifier(module_name)
            &&& next.package_address == progress.package_address
            &&& call matches Some(made) ==> {
                &&& made.sequence_number == sequence_number
                &&& made.gas_unit_price == gas_unit_price
                &&& made.payload is EntryFunction
                &&& made.payload->module_address == progress.package_address
                &&& made.payload->module_name == module_name
                &&& progress.calls.len() > 0 ==> {
                    &&& made.payload->function_name == "initialize"@
                    &&& made.payload->args == progress.calls[0]
                }
                &&& progress.calls.len() == 0 ==> {
                    &&& made.payload->function_name == "fuzz_init"@
                    &&& made.payload->args.len() == 0
                }
            }
            &&& progress.calls.len() > 0 ==> {
                &&& next.stage is Initializing
                &&& seq![progress.calls[0]] + next.calls == progress.calls
            }
            &&& progress.calls.len() == 0 ==> next.stage is FuzzInit && next.calls.len() == 0
        }),
{
    if progress.calls.len() > 0 {
        assert(seq![progress.calls[0]] + progress.advanced().calls =~= progress.calls);
    }
}

} // verus!
