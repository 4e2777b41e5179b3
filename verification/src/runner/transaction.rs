//! Transactions and what the chain answers to them.
use crate::external::names::new_identifier;
use crate::fuzzer::error::Error;
use crate::runner::chain::AccountAddress;
use vstd::prelude::*;

verus! {

use crate::external::codec::byte_lists;
use crate::external::names::{identifier_error, is_identifier};

/// A call of an entry function without type arguments.
#[derive(Debug, PartialEq, Eq)]
pub struct EntryFunction {
    pub module_address: AccountAddress,
    pub module_name: String,
    pub function_name: String,
    /// The encoded arguments.
    pub args: Vec<Vec<u8>>,
}

/// What a transaction does.
#[derive(Debug, PartialEq, Eq)]
pub enum TransactionPayload {
    EntryFunction(EntryFunction),
    /// Publishes a package under the address of the sender.
    PublishPackage { metadata: Vec<u8>, modules: Vec<Vec<u8>> },
}

/// A transaction of the runner's account, before it is signed.
#[derive(Debug, PartialEq, Eq)]
pub struct Transaction {
    pub payload: TransactionPayload,
    pub sequence_number: u64,
    /// The price that is offered, where it is not the account's default.
    pub gas_unit_price: Option<u64>,
}

/// The mathematical content of a [`TransactionPayload`].
pub ghost enum PayloadView {
    EntryFunction {
        module_address: Seq<u8>,
        module_name: Seq<char>,
        function_name: Seq<char>,
        args: Seq<Seq<u8>>,
    },
    PublishPackage { metadata: Seq<u8>, modules: Seq<Seq<u8>> },
}

/// The mathematical content of a [`Transaction`].
pub ghost struct TransactionView {
    pub payload: PayloadView,
    pub sequence_number: u64,
    pub gas_unit_price: Option<u64>,
}

impl View for EntryFunction {
    type V = PayloadView;

    open spec fn view(&self) -> PayloadView {
        PayloadView::EntryFunction {
            module_address: self.module_address@,
            module_name: self.module_name@,
            function_name: self.function_name@,
            args: byte_lists(self.args@),
        }
    }
}

impl View for TransactionPayload {
    type V = PayloadView;

    open spec fn view(&self) -> PayloadView {
        match self {
            TransactionPayload::EntryFunction(entry_function) => entry_function@,
            TransactionPayload::PublishPackage { metadata, modules } => {
                PayloadView::PublishPackage { metadata: metadata@, modules: byte_lists(modules@) }
            },
        }
    }
}

impl View for Transaction {
    type V = TransactionView;

    open spec fn view(&self) -> TransactionView {
        TransactionView {
            payload: self.payload@,
            sequence_number: self.sequence_number,
            gas_unit_price: self.gas_unit_price,
        }
    }
}

/// How a transaction that was kept went.
#[derive(Debug, PartialEq, Eq)]
pub enum ExecutionStatus {
    Success,
    /// Aborted, out of gas or otherwise failed, in words.
    Failure(String),
}

/// What the chain made of a transaction.
#[derive(Debug, PartialEq, Eq)]
pub enum TransactionStatus {
    Keep(ExecutionStatus),
    /// Not accepted, with the reason in words.
    Discard(String),
    Retry,
}

/// What the chain answers to a transaction.
#[derive(Debug, PartialEq, Eq)]
pub struct TransactionOutput {
    pub status: TransactionStatus,
    pub gas_used: u64,
}

impl TransactionStatus {
    pub open spec fn kept(self) -> bool {
        self is Keep
    }

    pub open spec fn succeeded(self) -> bool {
        self matches TransactionStatus::Keep(ExecutionStatus::Success)
    }
}

/// Whether a transaction was kept.
pub fn is_kept(status: &TransactionStatus) -> (kept: bool)
    ensures
        kept == status.kept(),
        kept == (*status is Keep),
{
    match status {
        TransactionStatus::Keep(_) => true,
        _ => false,
    }
}

/// Whether a transaction was kept and did what it should.
pub fn is_success(status: &TransactionStatus) -> (success: bool)
    ensures
        success == status.succeeded(),
        success <==> (*status matches TransactionStatus::Keep(kept) && kept is Success),
{
    match status {
        TransactionStatus::Keep(ExecutionStatus::Success) => true,
        _ => false,
    }
}

/// The account that a runner asks the chain for.
#[derive(Debug, Clone, Copy, PartialEq, Eq)]
pub enum AccountRequest {
    /// A new account at a given address.
    At(AccountAddress),
    /// A new account at an address of the chain's choosing.
    Fresh { balance: u64, sequence_number: u64 },
}

/// Why the names of a call are refused, where they are: the module's name is
/// looked at first.
pub open spec fn name_error(module_name: Seq<char>, function_name: Seq<char>) -> Option<Seq<char>> {
    if !is_identifier(module_name) {
        Some("Invalid module name: "@ + identifier_error(module_name))
    } else if !is_identifier(function_name) {
        Some("Invalid function name: "@ + identifier_error(function_name))
    } else {
        None
    }
}

/// The call of a function of a module with encoded arguments.
pub fn entry_function(
    module_address: AccountAddress,
    module_name: &str,
    function_name: &str,
    args: Vec<Vec<u8>>,
) -> (call: Result<EntryFunction, Error>)
    ensures
        match call {
            Ok(entry_function) => {
                &&& name_error(module_name@, function_name@) is None
                &&& is_identifier(module_name@) && is_identifier(function_name@)
                &&& entry_function.module_address == module_address
                &&& entry_function.module_name@ == module_name@
                &&& entry_function.function_name@ == function_name@
                &&& entry_function.args == args
                &&& entry_function@ == (PayloadView::EntryFunction {
                    module_address: module_address@,
                    module_name: module_name@,
                    function_name: function_name@,
                    args: byte_lists(args@),
                })
            },
            Err(error) => name_error(module_name@, function_name@) == Some(error@),
        },
{
    match new_identifier(module_name) {
        Err(detail) => Err(Error::with_detail("Invalid module name: ", detail.as_str())),
        Ok(module_name) => match new_identifier(function_name) {
            Err(detail) => Err(Error::with_detail("Invalid function name: ", detail.as_str())),
            Ok(function_name) => Ok(
                EntryFunction { module_address, module_name, function_name, args },
            ),
        },
    }
}

/// A transaction was kept where its status says so, whether it did what it should or
/// not, and succeeded only where it was kept and did what it should.
pub proof fn law_statuses(reason: String)
    ensures
        TransactionStatus::Keep(ExecutionStatus::Success).kept(),
        TransactionStatus::Keep(ExecutionStatus::Success).succeeded(),
        TransactionStatus::Keep(ExecutionStatus::Failure(reason)).kept(),
        !TransactionStatus::Keep(ExecutionStatus::Failure(reason)).succeeded(),
        !TransactionStatus::Discard(reason).kept(),
        !TransactionStatus::Discard(reason).succeeded(),
        !TransactionStatus::Retry.kept(),
        !TransactionStatus::Retry.succeeded(),
{
}

/// A call is refused exactly where one of its names is no identifier. The module's
/// name comes first, and the refusal names the culprit.
pub proof fn law_bad_names_are_refused(module_name: Seq<char>, function_name: Seq<char>)
    ensures
        name_error(module_name, function_name) is None <==> is_identifier(module_name)
            && is_identifier(function_name),
        !is_identifier(module_name) ==> name_error(module_name, function_name) == Some(
            "Invalid module name: "@ + identifier_error(module_name),
        ),
        is_identifier(module_name) && !is_identifier(function_name) ==> name_error(
            module_name,
            function_name,
        ) == Some("Invalid function name: "@ + identifier_error(function_name)),
{
}

/// A transaction is what it was made of, part by part.
pub proof fn law_parts_of_a_transaction(
    call: EntryFunction,
    metadata: Vec<u8>,
    modules: Vec<Vec<u8>>,
    sequence_number: u64,
    gas_unit_price: Option<u64>,
)
    ensures
        ({
            let payload = TransactionPayload::EntryFunction(call);
            let made = Transaction { payload, sequence_number, gas_unit_price };
            &&& made@.sequence_number == sequence_number
            &&& made@.gas_unit_price == gas_unit_price
            &&& made@.payload is EntryFunction
            &&& made@.payload->module_address == call.module_address.bytes@
            &&& made@.payload->module_name == call.module_name@
            &&& made@.payload->function_name == call.function_name@
            &&& made@.payload->args.len() == call.args@.len()
            &&& forall|i: int|
                0 <= i < call.args@.len() ==> #[trigger] made@.payload->args[i] == call.args@[i]@
        }),
        ({
            let payload = TransactionPayload::PublishPackage { metadata, modules };
            &&& payload@ is PublishPackage
            &&& payload@->metadata == metadata@
            &&& payload@->modules.len() == modules@.len()
            &&& forall|i: int|
                0 <= i < modules@.len() ==> #[trigger] payload@->modules[i] == modules@[i]@
        }),
{
}

} // verus!
