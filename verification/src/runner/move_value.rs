//! Move values and the arguments of transactions.
use crate::bytes::copy_bytes;
use crate::external::codec::{
    encode_array, encode_bool, encode_bytes, encode_u128, encode_u16, encode_u32, encode_u64,
    encode_u8, MAX_SEQUENCE_LENGTH,
};
use crate::runner::chain::AccountAddress;
use vstd::prelude::*;

verus! {

use crate::bytes::le_bytes;
use crate::external::codec::{byte_lists, bytes_encoding};

/// A value of the Move language.
#[derive(Debug, PartialEq, Eq)]
pub enum MoveValue {
    U8(u8),
    U16(u16),
    U32(u32),
    U64(u64),
    U128(u128),
    /// The little-endian bytes of the number.
    U256([u8; 32]),
    Bool(bool),
    Address(AccountAddress),
    Vector(Vec<MoveValue>),
    Struct(Vec<MoveValue>),
    Signer(AccountAddress),
}

/// The mathematical content of a [`MoveValue`].
pub ghost enum MoveValueView {
    U8(u8),
    U16(u16),
    U32(u32),
    U64(u64),
    U128(u128),
    U256(Seq<u8>),
    Bool(bool),
    Address(Seq<u8>),
    Vector(Seq<MoveValueView>),
    Struct(Seq<MoveValueView>),
    Signer(Seq<u8>),
}

/// The contents of a list of Move values, item by item.
pub open spec fn contents_of(values: Seq<MoveValue>) -> Seq<MoveValueView>
    decreases values,
{
    Seq::new(
        values.len(),
        |i: int|
            if 0 <= i < values.len() {
                values[i].content()
            } else {
                arbitrary()
            },
    )
}

impl MoveValue {
    pub open spec fn content(self) -> MoveValueView
        decreases self,
    {
        match self {
            MoveValue::U8(v) => MoveValueView::U8(v),
            MoveValue::U16(v) => MoveValueView::U16(v),
            MoveValue::U32(v) => MoveValueView::U32(v),
            MoveValue::U64(v) => MoveValueView::U64(v),
            MoveValue::U128(v) => MoveValueView::U128(v),
            MoveValue::U256(bytes) => MoveValueView::U256(bytes@),
            MoveValue::Bool(v) => MoveValueView::Bool(v),
            MoveValue::Address(address) => MoveValueView::Address(address@),
            MoveValue::Vector(items) => MoveValueView::Vector(contents_of(items@)),
            MoveValue::Struct(fields) => MoveValueView::Struct(contents_of(fields@)),
            MoveValue::Signer(address) => MoveValueView::Signer(address@),
        }
    }
}

impl View for MoveValue {
    type V = MoveValueView;

    open spec fn view(&self) -> MoveValueView {
        self.content()
    }
}

/// An argument of an entry function.
#[derive(Debug, PartialEq, Eq)]
pub enum TransactionArgument {
    U8(u8),
    U16(u16),
    U32(u32),
    U64(u64),
    U128(u128),
    /// The little-endian bytes of the number.
    U256([u8; 32]),
    Bool(bool),
    Address(AccountAddress),
    U8Vector(Vec<u8>),
    /// An argument that is encoded already.
    Serialized(Vec<u8>),
}

/// The mathematical content of a [`TransactionArgument`].
pub ghost enum TransactionArgumentView {
    U8(u8),
    U16(u16),
    U32(u32),
    U64(u64),
    U128(u128),
    U256(Seq<u8>),
    Bool(bool),
    Address(Seq<u8>),
    U8Vector(Seq<u8>),
    Serialized(Seq<u8>),
}

impl View for TransactionArgument {
    type V = TransactionArgumentView;

    open spec fn view(&self) -> TransactionArgumentView {
        match self {
            TransactionArgument::U8(v) => TransactionArgumentView::U8(*v),
            TransactionArgument::U16(v) => TransactionArgumentView::U16(*v),
            TransactionArgument::U32(v) => TransactionArgumentView::U32(*v),
            TransactionArgument::U64(v) => TransactionArgumentView::U64(*v),
            TransactionArgument::U128(v) => TransactionArgumentView::U128(*v),
            TransactionArgument::U256(bytes) => TransactionArgumentView::U256(bytes@),
            TransactionArgument::Bool(v) => TransactionArgumentView::Bool(*v),
            TransactionArgument::Address(address) => TransactionArgumentView::Address(address@),
            TransactionArgument::U8Vector(bytes) => TransactionArgumentView::U8Vector(bytes@),
            TransactionArgument::Serialized(bytes) => TransactionArgumentView::Serialized(bytes@),
        }
    }
}

impl TransactionArgumentView {
    /// The bytes by which an entry function takes the argument.
    pub open spec fn encoding(self) -> Seq<u8> {
        match self {
            TransactionArgumentView::U8(v) => le_bytes(v as nat, 1),
            TransactionArgumentView::U16(v) => le_bytes(v as nat, 2),
            TransactionArgumentView::U32(v) => le_bytes(v as nat, 4),
            TransactionArgumentView::U64(v) => le_bytes(v as nat, 8),
            TransactionArgumentView::U128(v) => le_bytes(v as nat, 16),
            TransactionArgumentView::U256(bytes) => bytes,
            TransactionArgumentView::Bool(v) => seq![if v { 1u8 } else { 0u8 }],
            TransactionArgumentView::Address(bytes) => bytes,
            TransactionArgumentView::U8Vector(bytes) => bytes_encoding(bytes),
            TransactionArgumentView::Serialized(bytes) => bytes,
        }
    }

    /// The argument is not too long to be encoded.
    pub open spec fn encodable(self) -> bool {
        self matches TransactionArgumentView::U8Vector(bytes) ==> bytes.len()
            <= MAX_SEQUENCE_LENGTH
    }
}

/// The contents of a list of arguments.
pub open spec fn argument_views(args: Seq<TransactionArgument>) -> Seq<TransactionArgumentView> {
    args.map_values(|arg: TransactionArgument| arg@)
}

/// The encodings of a list of arguments.
pub open spec fn argument_encodings(args: Seq<TransactionArgumentView>) -> Seq<Seq<u8>> {
    args.map_values(|arg: TransactionArgumentView| arg.encoding())
}

/// Every argument can be encoded.
pub open spec fn all_encodable(args: Seq<TransactionArgumentView>) -> bool {
    forall|i: int| 0 <= i < args.len() ==> (#[trigger] args[i]).encodable()
}

impl TransactionArgument {
    /// Encodes the argument.
    pub fn to_bytes(&self) -> (bytes: Vec<u8>)
        requires
            self@.encodable(),
        ensures
            bytes@ == self@.encoding(),
    {
        match self {
            TransactionArgument::U8(v) => encode_u8(*v),
            TransactionArgument::U16(v) => encode_u16(*v),
            TransactionArgument::U32(v) => encode_u32(*v),
            TransactionArgument::U64(v) => encode_u64(*v),
            TransactionArgument::U128(v) => encode_u128(*v),
            TransactionArgument::U256(bytes) => encode_array(bytes),
            TransactionArgument::Bool(v) => encode_bool(*v),
            TransactionArgument::Address(address) => encode_array(&address.bytes),
            TransactionArgument::U8Vector(bytes) => encode_bytes(bytes),
            TransactionArgument::Serialized(bytes) => copy_bytes(bytes.as_slice()),
        }
    }
}

/// Whether every argument can be encoded.
pub fn arguments_encodable(args: &Vec<TransactionArgument>) -> (encodable: bool)
    ensures
        encodable == all_encodable(argument_views(args@)),
{
    let ghost views = argument_views(args@);
    let mut i: usize = 0;
    while i < args.len()
        invariant
            i <= args.len(),
            views == argument_views(args@),
            forall|j: int| 0 <= j < i ==> (#[trigger] views[j]).encodable(),
        decreases args.len() - i,
    {
        assert(views[i as int] == args@[i as int]@);
        if let TransactionArgument::U8Vector(bytes) = &args[i] {
            if bytes.len() > MAX_SEQUENCE_LENGTH {
                return false;
            }
        }
        i += 1;
    }
    true
}

/// Encodes the arguments of an entry function.
pub fn encode_arguments(args: &Vec<TransactionArgument>) -> (encoded: Vec<Vec<u8>>)
    requires
        all_encodable(argument_views(args@)),
    ensures
        byte_lists(encoded@) == argument_encodings(argument_views(args@)),
{
    let ghost views = argument_views(args@);
    let mut encoded: Vec<Vec<u8>> = Vec::new();
    let mut i: usize = 0;
    while i < args.len()
        invariant
            i <= args.len(),
            encoded.len() == i,
            views == argument_views(args@),
            all_encodable(views),
            forall|j: int| 0 <= j < i ==> (#[trigger] encoded@[j])@ == views[j].encoding(),
        decreases args.len() - i,
    {
        assert(views[i as int].encodable());
        encoded.push(args[i].to_bytes());
        i += 1;
    }
    assert(byte_lists(encoded@) =~= argument_encodings(views));
    encoded
}

/// What a Move value holds is what it was made of, part by part and in order.
pub proof fn law_contents_of_values(
    number: [u8; 32],
    address: AccountAddress,
    items: Vec<MoveValue>,
)
    ensures
        MoveValue::U256(number)@ == MoveValueView::U256(number@),
        MoveValue::Address(address)@ == MoveValueView::Address(address.bytes@),
        MoveValue::Signer(address)@ == MoveValueView::Signer(address.bytes@),
        MoveValue::Vector(items)@ == MoveValueView::Vector(contents_of(items@)),
        MoveValue::Struct(items)@ == MoveValueView::Struct(contents_of(items@)),
        contents_of(items@).len() == items@.len(),
        forall|i: int| 0 <= i < items@.len() ==> #[trigger] contents_of(items@)[i] == items@[i]@,
{
}

/// A number, and a truth value, is itself, as a value and as an argument.
pub proof fn law_contents_of_scalars(a: u8, b: u16, c: u32, d: u64, e: u128, f: bool)
    ensures
        MoveValue::U8(a)@ == MoveValueView::U8(a),
        MoveValue::U16(b)@ == MoveValueView::U16(b),
        MoveValue::U32(c)@ == MoveValueView::U32(c),
        MoveValue::U64(d)@ == MoveValueView::U64(d),
        MoveValue::U128(e)@ == MoveValueView::U128(e),
        MoveValue::Bool(f)@ == MoveValueView::Bool(f),
        TransactionArgument::U8(a)@ == TransactionArgumentView::U8(a),
        TransactionArgument::U16(b)@ == TransactionArgumentView::U16(b),
        TransactionArgument::U32(c)@ == TransactionArgumentView::U32(c),
        TransactionArgument::U64(d)@ == TransactionArgumentView::U64(d),
        TransactionArgument::U128(e)@ == TransactionArgumentView::U128(e),
        TransactionArgument::Bool(f)@ == TransactionArgumentView::Bool(f),
{
}

/// What an argument holds is what it was made of, and lists keep their order.
pub proof fn law_contents_of_arguments(
    number: [u8; 32],
    address: AccountAddress,
    bytes: Vec<u8>,
    args: Seq<TransactionArgument>,
)
    ensures
        TransactionArgument::U256(number)@ == TransactionArgumentView::U256(number@),
        TransactionArgument::Address(address)@ == TransactionArgumentView::Address(
            address.bytes@,
        ),
        TransactionArgument::U8Vector(bytes)@ == TransactionArgumentView::U8Vector(bytes@),
        TransactionArgument::Serialized(bytes)@ == TransactionArgumentView::Serialized(bytes@),
        argument_views(args).len() == args.len(),
        forall|i: int| 0 <= i < args.len() ==> #[trigger] argument_views(args)[i] == args[i]@,
{
}

} // verus!
