use vstd::prelude::*;

verus! {

/// A Move value or type as the fuzzer sees it: scalars carry the value that is
/// tried next, compound variants carry their parts.
#[derive(Debug, PartialEq, Eq)]
pub enum FuzzerType {
    U8(u8),
    U16(u16),
    U32(u32),
    U64(u64),
    U128(u128),
    Bool(bool),
    Address([u8; 32]),
    /// Element type and items.
    Vector(Box<FuzzerType>, Vec<FuzzerType>),
    Struct(Vec<FuzzerType>),
    /// Mutability and referenced value.
    Reference(bool, Box<FuzzerType>),
    /// Name, parameters and return type.
    Function(String, Vec<FuzzerType>, Option<Box<FuzzerType>>),
}

/// The mathematical content of a [`FuzzerType`].
pub ghost enum FuzzerValue {
    U8(u8),
    U16(u16),
    U32(u32),
    U64(u64),
    U128(u128),
    Bool(bool),
    Address(Seq<u8>),
    Vector(Box<FuzzerValue>, Seq<FuzzerValue>),
    Struct(Seq<FuzzerValue>),
    Reference(bool, Box<FuzzerValue>),
    Function(Seq<char>, Seq<FuzzerValue>, Option<Box<FuzzerValue>>),
}

/// The contents of a list of fuzzer types, item by item.
pub open spec fn values_of(items: Seq<FuzzerType>) -> Seq<FuzzerValue>
    decreases items,
{
    Seq::new(
        items.len(),
        |i: int|
            if 0 <= i < items.len() {
                items[i].value()
            } else {
                arbitrary()
            },
    )
}

impl FuzzerType {
    pub open spec fn value(self) -> FuzzerValue
        decreases self,
    {
        match self {
            FuzzerType::U8(v) => FuzzerValue::U8(v),
            FuzzerType::U16(v) => FuzzerValue::U16(v),
            FuzzerType::U32(v) => FuzzerValue::U32(v),
            FuzzerType::U64(v) => FuzzerValue::U64(v),
            FuzzerType::U128(v) => FuzzerValue::U128(v),
            FuzzerType::Bool(v) => FuzzerValue::Bool(v),
            FuzzerType::Address(bytes) => FuzzerValue::Address(bytes@),
            FuzzerType::Vector(element, items) => FuzzerValue::Vector(
                Box::new((*element).value()),
                values_of(items@),
            ),
            FuzzerType::Struct(fields) => FuzzerValue::Struct(values_of(fields@)),
            FuzzerType::Reference(mutable, target) => FuzzerValue::Reference(
                mutable,
                Box::new((*target).value()),
            ),
            FuzzerType::Function(name, parameters, result) => FuzzerValue::Function(
                name@,
                values_of(parameters@),
                match result {
                    Some(r) => Some(Box::new((*r).value())),
                    None => None,
                },
            ),
        }
    }
}

impl View for FuzzerType {
    type V = FuzzerValue;

    open spec fn view(&self) -> FuzzerValue {
        self.value()
    }
}

/// Copies a list of fuzzer types.
pub fn clone_types(items: &Vec<FuzzerType>) -> (copy: Vec<FuzzerType>)
    ensures
        values_of(copy@) == values_of(items@),
    decreases items,
{
    let mut copy: Vec<FuzzerType> = Vec::new();
    let mut i: usize = 0;
    while i < items.len()
        invariant
            i <= items.len(),
            copy.len() == i,
            forall|j: int| 0 <= j < i ==> (#[trigger] copy@[j]).value() == items@[j].value(),
        decreases items.len() - i,
    {
        copy.push(items[i].clone());
        i += 1;
    }
    assert(values_of(copy@) =~= values_of(items@));
    copy
}

impl Clone for FuzzerType {
    fn clone(&self) -> (copy: Self)
        ensures
            copy@ == self@,
        decreases self,
    {
        match self {
            FuzzerType::U8(v) => FuzzerType::U8(*v),
            FuzzerType::U16(v) => FuzzerType::U16(*v),
            FuzzerType::U32(v) => FuzzerType::U32(*v),
            FuzzerType::U64(v) => FuzzerType::U64(*v),
            FuzzerType::U128(v) => FuzzerType::U128(*v),
            FuzzerType::Bool(v) => FuzzerType::Bool(*v),
            FuzzerType::Address(bytes) => FuzzerType::Address(*bytes),
            FuzzerType::Vector(element, items) => FuzzerType::Vector(
                Box::new((**element).clone()),
                clone_types(items),
            ),
            FuzzerType::Struct(fields) => FuzzerType::Struct(clone_types(fields)),
            FuzzerType::Reference(mutable, target) => FuzzerType::Reference(
                *mutable,
                Box::new((**target).clone()),
            ),
            FuzzerType::Function(name, parameters, result) => FuzzerType::Function(
                name.clone(),
                clone_types(parameters),
                match result {
                    Some(r) => Some(Box::new((**r).clone())),
                    None => None,
                },
            ),
        }
    }
}

/// What a fuzzer type holds is what it was made of, part by part and in order.
pub proof fn law_contents(
    element: FuzzerType,
    items: Vec<FuzzerType>,
    mutable: bool,
    name: String,
    bytes: [u8; 32],
)
    ensures
        FuzzerType::Address(bytes)@ == FuzzerValue::Address(bytes@),
        FuzzerType::Reference(mutable, Box::new(element))@ == FuzzerValue::Reference(
            mutable,
            Box::new(element@),
        ),
        FuzzerType::Vector(Box::new(element), items)@ is Vector,
        *FuzzerType::Vector(Box::new(element), items)@->Vector_0 == element@,
        FuzzerType::Vector(Box::new(element), items)@->Vector_1 == values_of(items@),
        FuzzerType::Struct(items)@ == FuzzerValue::Struct(values_of(items@)),
        FuzzerType::Function(name, items, None)@ == FuzzerValue::Function(
            name@,
            values_of(items@),
            None,
        ),
        FuzzerType::Function(name, items, Some(Box::new(element)))@ == FuzzerValue::Function(
            name@,
            values_of(items@),
            Some(Box::new(element@)),
        ),
        values_of(items@).len() == items@.len(),
        forall|i: int| 0 <= i < items@.len() ==> #[trigger] values_of(items@)[i] == items@[i]@,
{
}

/// A number, and a truth value, is itself.
pub proof fn law_scalar_contents(a: u8, b: u16, c: u32, d: u64, e: u128, f: bool)
    ensures
        FuzzerType::U8(a)@ == FuzzerValue::U8(a),
        FuzzerType::U16(b)@ == FuzzerValue::U16(b),
        FuzzerType::U32(c)@ == FuzzerValue::U32(c),
        FuzzerType::U64(d)@ == FuzzerValue::U64(d),
        FuzzerType::U128(e)@ == FuzzerValue::U128(e),
        FuzzerType::Bool(f)@ == FuzzerValue::Bool(f),
{
}

} // verus!
