//! What the fuzzer reads from the model of a Move package.
use vstd::prelude::*;

verus! {

/// The primitive types of the Move model.
#[derive(Debug, Clone, Copy, PartialEq, Eq)]
pub enum PrimitiveType {
    Bool,
    U8,
    U16,
    U32,
    U64,
    U128,
    U256,
    Address,
    Signer,
    Num,
    Range,
    EventStore,
}

/// A type of the Move model, as far as inputs are made for it.
#[derive(Debug, PartialEq, Eq)]
pub enum MoveType {
    Primitive(PrimitiveType),
    Vector(Box<MoveType>),
    Struct,
    /// Mutability and referenced type.
    Reference(bool, Box<MoveType>),
    /// Tuples, type parameters, functions and whatever else the model has.
    Other,
}

/// A function of a module.
#[derive(Debug, PartialEq, Eq)]
pub struct FunctionModel {
    pub name: String,
    pub parameters: Vec<MoveType>,
    pub result: MoveType,
    /// The number of bytecode instructions, where there is bytecode.
    pub bytecode_len: Option<usize>,
}

/// A module of a package.
#[derive(Debug, PartialEq, Eq)]
pub struct ModuleModel {
    /// Whether the module goes by the name of the module under test.
    pub matches_target: bool,
    pub functions: Vec<FunctionModel>,
}

/// Why a package has no interface for a target.
#[derive(Debug, Clone, Copy, PartialEq, Eq)]
pub enum AbiError {
    ModuleNotFound,
    FunctionNotFound,
}

/// The functions of the first module that goes by the target's name.
pub open spec fn target_functions(modules: Seq<ModuleModel>) -> Option<Seq<FunctionModel>>
    decreases modules.len(),
{
    if modules.len() == 0 {
        None
    } else if modules[0].matches_target {
        Some(modules[0].functions@)
    } else {
        target_functions(modules.drop_first())
    }
}

/// The first function called `name`.
pub open spec fn function_named(functions: Seq<FunctionModel>, name: Seq<char>) -> Option<
    FunctionModel,
>
    decreases functions.len(),
{
    if functions.len() == 0 {
        None
    } else if functions[0].name@ == name {
        Some(functions[0])
    } else {
        function_named(functions.drop_first(), name)
    }
}

/// Finds the module under test.
pub fn find_target_module(modules: &Vec<ModuleModel>) -> (found: Option<&ModuleModel>)
    ensures
        match found {
            Some(module) => target_functions(modules@) == Some(module.functions@),
            None => target_functions(modules@) is None,
        },
{
    let mut i: usize = 0;
    assert(modules@.skip(0) =~= modules@);
    while i < modules.len()
        invariant
            i <= modules.len(),
            target_functions(modules@) == target_functions(modules@.skip(i as int)),
        decreases modules.len() - i,
    {
        assert(modules@.skip(i as int).drop_first() =~= modules@.skip(i + 1));
        if modules[i].matches_target {
            return Some(&modules[i]);
        }
        i += 1;
    }
    None
}

/// Finds a function by name.
pub fn find_function<'a>(functions: &'a Vec<FunctionModel>, name: &str) -> (found: Option<
    &'a FunctionModel,
>)
    ensures
        match found {
            Some(function) => function_named(functions@, name@) == Some(*function),
            None => function_named(functions@, name@) is None,
        },
{
    let wanted = name.to_owned();
    let mut i: usize = 0;
    assert(functions@.skip(0) =~= functions@);
    while i < functions.len()
        invariant
            i <= functions.len(),
            wanted@ == name@,
            function_named(functions@, name@) == function_named(functions@.skip(i as int), name@),
        decreases functions.len() - i,
    {
        assert(functions@.skip(i as int).drop_first() =~= functions@.skip(i + 1));
        if functions[i].name == wanted {
            return Some(&functions[i]);
        }
        i += 1;
    }
    None
}

} // verus!
