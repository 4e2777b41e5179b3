use crate::mutator::types::{clone_types, FuzzerType};
use crate::runner::aptos_helpers::usdcx_mint_helper::UsdcxMintHelper;
use crate::runner::aptos_helpers::AptosHelper;
use crate::runner::chain::AccountAddress;
use crate::runner::stateless_runner::aptos_runner_utils::{inputs_convertible, inputs_short};
use crate::runner::table::StringTable;
use vstd::prelude::*;
use vstd::string::StringExecFns;

verus! {

use crate::external::codec::{byte_lists, MAX_SEQUENCE_LENGTH};
use crate::external::random::seeded_words;
use crate::mutator::types::{values_of, FuzzerValue};
use crate::runner::aptos_helpers::usdcx_mint_helper::{
    attested_by, bytes_value, derived_secret, input_bytes, mint_input_values, mixed_seed, raw_public_key,
    UsdcxMintHelperView,
};
use crate::runner::aptos_helpers::usdcx_mint_laws::{
    law_bytes_round_trip, law_drawn_intents_are_well_formed, law_payload_length,
};
use crate::runner::stateless_runner::aptos_runner_utils::{
    all_convertible, all_short, convertible, lemma_bytes_convertible,
};

/// How many helper names the registry knows.
pub const KNOWN_HELPERS: usize = 1;

/// A helper that the registry knows.
pub enum Helper {
    UsdcxMint(UsdcxMintHelper),
}

/// The mathematical content of a [`Helper`].
pub ghost enum HelperView {
    UsdcxMint(UsdcxMintHelperView),
}

impl View for Helper {
    type V = HelperView;

    open spec fn view(&self) -> HelperView {
        match self {
            Helper::UsdcxMint(helper) => HelperView::UsdcxMint(helper@),
        }
    }
}

impl HelperView {
    /// The arguments of `initialize` that the helper supplies for `admin`.
    pub open spec fn initialize_args(self, admin: Seq<u8>) -> Option<Seq<Seq<u8>>> {
        match self {
            HelperView::UsdcxMint(helper) => Some(helper.initialize_args(admin)),
        }
    }

    /// The inputs that the helper uses in place of `inputs`.
    pub open spec fn transformed(self, inputs: Seq<FuzzerValue>) -> Option<Seq<FuzzerValue>> {
        match self {
            HelperView::UsdcxMint(helper) => Some(helper.mint_inputs(inputs)),
        }
    }
}

/// Minted inputs have Move values, and are short enough to encode where payload and
/// signature are.
proof fn lemma_mint_inputs_convertible(
    payload: Seq<u8>,
    signature: Seq<u8>,
    recovery_id: u8,
    fee_amount: u64,
)
    requires
        payload.len() <= MAX_SEQUENCE_LENGTH,
        signature.len() < MAX_SEQUENCE_LENGTH,
    ensures
        all_short(mint_input_values(payload, signature, recovery_id, fee_amount)),
        all_convertible(mint_input_values(payload, signature, recovery_id, fee_amount)),
{
    let first = bytes_value(payload);
    let second = bytes_value(signature.push(recovery_id));
    let third = FuzzerValue::U64(fee_amount);
    lemma_bytes_convertible(payload);
    lemma_bytes_convertible(signature.push(recovery_id));
    law_bytes_round_trip(payload);
    law_bytes_round_trip(signature.push(recovery_id));
    assert(convertible(first));
    assert(convertible(second));
    assert(convertible(third));
    let none = Seq::<FuzzerValue>::empty();
    assert(all_convertible(none));
    let one = none.push(first);
    assert(one.drop_last() =~= none);
    assert(all_convertible(one));
    let two = one.push(second);
    assert(two.drop_last() =~= one);
    assert(all_convertible(two));
    let three = two.push(third);
    assert(three.drop_last() =~= two);
    assert(all_convertible(three));
    assert(three =~= mint_input_values(payload, signature, recovery_id, fee_amount));
}

impl AptosHelper for Helper {
    fn initialize_args(&self, admin: &AccountAddress) -> (args: Option<Vec<Vec<u8>>>)
        ensures
            match args {
                Some(list) => self@.initialize_args(admin@) == Some(byte_lists(list@)),
                None => self@.initialize_args(admin@) is None,
            },
    {
        match self {
            Helper::UsdcxMint(helper) => helper.initialize_args(admin),
        }
    }

    fn transform_inputs(&self, inputs: &Vec<FuzzerType>) -> (transformed: Option<Vec<FuzzerType>>)
        ensures
            match transformed {
                Some(list) => {
                    &&& self@.transformed(values_of(inputs@)) == Some(values_of(list@))
                    &&& all_convertible(values_of(list@))
                    &&& all_short(values_of(list@))
                    &&& self@ matches HelperView::UsdcxMint(helper) ==> attested_by(
                        values_of(list@),
                        helper.public_key,
                    )
                },
                None => self@.transformed(values_of(inputs@)) is None,
            },
    {
        match self {
            Helper::UsdcxMint(helper) => {
                let transformed = helper.transform_inputs(inputs);
                proof {
                    let values = values_of(inputs@);
                    let signed = helper@.signature(values);
                    let words = seeded_words(mixed_seed(helper@.seed, input_bytes(values, 0)));
                    law_drawn_intents_are_well_formed(words, helper@.domain);
                    law_payload_length(helper@.intent(values), input_bytes(values, 1));
                    lemma_mint_inputs_convertible(
                        helper@.payload(values),
                        signed.0,
                        signed.1,
                        helper@.fee_amount(values),
                    );
                }
                transformed
            },
        }
    }
}

/// Some function is configured to use the helper called `name`.
pub open spec fn mentions(aptos_helpers: &StringTable<String>, name: Seq<char>) -> bool {
    exists|i: int|
        0 <= i < aptos_helpers.values().len() && (#[trigger] aptos_helpers.values()[i])@ == name
}

/// The helper that a name stands for, where the registry knows the name.
pub open spec fn known_helper(name: Seq<char>, seed: u64) -> Option<HelperView> {
    match derived_secret(seed) {
        Some(secret) => if name == "usdcx_mint_v1"@ {
            Some(
                HelperView::UsdcxMint(
                    UsdcxMintHelperView {
                        seed,
                        secret,
                        public_key: raw_public_key(secret),
                        domain: 0,
                    },
                ),
            )
        } else {
            None
        },
        None => None,
    }
}

/// Makes one helper for each distinct name that the configuration mentions and
/// the registry knows; other names are passed over.
pub fn build_helpers(aptos_helpers: &StringTable<String>, seed: u64) -> (helpers: StringTable<
    Helper,
>)
    ensures
        forall|name: Seq<char>| #[trigger]
            helpers@.contains_key(name) <==> mentions(aptos_helpers, name) && known_helper(
                name,
                seed,
            ) is Some,
        forall|name: Seq<char>| #[trigger]
            helpers@.contains_key(name) ==> known_helper(name, seed) == Some(helpers@[name]@),
{
    let mut helpers: StringTable<Helper> = StringTable::new();
    let count = aptos_helpers.len();
    let known = "usdcx_mint_v1".to_owned();
    let mut i: usize = 0;
    while i < count
        invariant
            i <= count,
            count == aptos_helpers.values().len(),
            known@ == "usdcx_mint_v1"@,
            forall|name: Seq<char>| #[trigger]
                helpers@.contains_key(name) <==> known_helper(name, seed) is Some && (exists|j: int|
                    0 <= j < i && (#[trigger] aptos_helpers.values()[j])@ == name),
            forall|name: Seq<char>| #[trigger]
                helpers@.contains_key(name) ==> known_helper(name, seed) == Some(helpers@[name]@),
        decreases count - i,
    {
        let name = aptos_helpers.value_at(i);
        if *name == known {
            if helpers.get(name.as_str()).is_none() {
                if let Some(helper) = UsdcxMintHelper::new(seed) {
                    helpers.insert(name.clone(), Helper::UsdcxMint(helper));
                }
            }
        }
        i += 1;
    }
    helpers
}

/// The helpers of a run: which function uses which helper, and the helpers.
pub struct AssignedHelpers {
    assignments: StringTable<String>,
    instances: StringTable<Helper>,
}

/// The mathematical content of [`AssignedHelpers`].
pub ghost struct AssignedHelpersView {
    /// Helper names by `module::function`.
    pub assignments: Map<Seq<char>, Seq<char>>,
    /// The names of the helpers, in the order in which they initialize.
    pub names: Seq<Seq<char>>,
    /// The helpers of these names.
    pub helpers: Seq<HelperView>,
}

impl View for AssignedHelpers {
    type V = AssignedHelpersView;

    closed spec fn view(&self) -> AssignedHelpersView {
        AssignedHelpersView {
            assignments: self.assignments@.map_values(|name: String| name@),
            names: self.instances.names(),
            helpers: self.instances.values().map_values(|helper: Helper| helper@),
        }
    }
}

/// The key by which a function of a module is configured.
pub open spec fn function_key(module: Seq<char>, function: Seq<char>) -> Seq<char> {
    module + "::"@ + function
}

/// The calls of `initialize` that helpers ask for.
pub open spec fn initialize_calls(helpers: Seq<HelperView>, admin: Seq<u8>) -> Seq<Seq<Seq<u8>>>
    decreases helpers.len(),
{
    if helpers.len() == 0 {
        Seq::empty()
    } else {
        match helpers.last().initialize_args(admin) {
            Some(args) => initialize_calls(helpers.drop_last(), admin).push(args),
            None => initialize_calls(helpers.drop_last(), admin),
        }
    }
}

/// There are at most as many calls as helpers.
pub proof fn lemma_calls_not_more(helpers: Seq<HelperView>, admin: Seq<u8>)
    ensures
        initialize_calls(helpers, admin).len() <= helpers.len(),
    decreases helpers.len(),
{
    if helpers.len() > 0 {
        lemma_calls_not_more(helpers.drop_last(), admin);
    }
}

impl AssignedHelpersView {
    /// The helper that a function uses.
    pub open spec fn helper_for(self, module: Seq<char>, function: Seq<char>) -> Option<HelperView> {
        let key = function_key(module, function);
        if self.assignments.contains_key(key) && self.names.contains(self.assignments[key]) {
            Some(self.helpers[self.names.index_of(self.assignments[key])])
        } else {
            None
        }
    }

    /// What a function is called with in place of `inputs`: what its helper makes
    /// of them, and `inputs` themselves where there is none.
    pub open spec fn adjusted(
        self,
        module: Seq<char>,
        function: Seq<char>,
        inputs: Seq<FuzzerValue>,
    ) -> Seq<FuzzerValue> {
        match self.helper_for(module, function) {
            Some(helper) => match helper.transformed(inputs) {
                Some(transformed) => transformed,
                None => inputs,
            },
            None => inputs,
        }
    }

    /// A function can be called with these inputs: a helper makes its own of them,
    /// or they have Move values themselves and are short enough to encode.
    pub open spec fn accepts(
        self,
        module: Seq<char>,
        function: Seq<char>,
        inputs: Seq<FuzzerValue>,
    ) -> bool {
        match self.helper_for(module, function) {
            Some(HelperView::UsdcxMint(_)) => true,
            None => all_convertible(inputs) && all_short(inputs),
        }
    }

    /// These are the helpers of a configuration: those that it mentions and that
    /// the registry knows.
    pub open spec fn configured(self, assignments: &StringTable<String>, seed: u64) -> bool {
        &&& self.assignments == assignments@.map_values(|name: String| name@)
        &&& forall|name: Seq<char>| #[trigger]
            self.names.contains(name) <==> mentions(assignments, name) && known_helper(
                name,
                seed,
            ) is Some
        &&& forall|i: int|
            0 <= i < self.names.len() ==> known_helper(#[trigger] self.names[i], seed) == Some(
                self.helpers[i],
            )
    }

    /// Each name occurs once and has its helper.
    pub open spec fn well_formed(self) -> bool {
        &&& self.names.no_duplicates()
        &&& self.names.len() == self.helpers.len()
        &&& self.names.len() <= KNOWN_HELPERS
    }
}

/// The views of the argument lists of several calls.
pub open spec fn call_lists(calls: Seq<Vec<Vec<u8>>>) -> Seq<Seq<Seq<u8>>> {
    calls.map_values(|call: Vec<Vec<u8>>| byte_lists(call@))
}

impl AssignedHelpers {
    #[verifier::type_invariant]
    spec fn few(&self) -> bool {
        self@.well_formed()
    }

    /// The helpers of a configuration, which maps `module::function` to the name
    /// of a helper.
    pub fn new(assignments: StringTable<String>, seed: u64) -> (helpers: Self)
        ensures
            helpers@.configured(&assignments, seed),
            helpers@.well_formed(),
    {
        let instances = build_helpers(&assignments, seed);
        let count = instances.len();
        proof {
            let names = instances.names();
            let values = instances.values();
            assert forall|i: int| 0 <= i < names.len() implies known_helper(
                #[trigger] names[i],
                seed,
            ) == Some(values[i]@) by {
                assert(names.contains(names[i]));
                assert(names.index_of(names[i]) == i);
                assert(instances@.contains_key(names[i]));
            }
            assert forall|name: Seq<char>| #[trigger] names.contains(name) <==> mentions(
                &assignments,
                name,
            ) && known_helper(name, seed) is Some by {
                assert(instances@.contains_key(name) <==> names.contains(name));
            }
            if names.len() > 1 {
                assert(known_helper(names[0], seed) is Some);
                assert(known_helper(names[1], seed) is Some);
                assert(names[0] == names[1]);
            }
        }
        AssignedHelpers { assignments, instances }
    }

    /// The helper that a function of a module uses.
    pub fn helper_for(&self, module: &str, function: &str) -> (helper: Option<&Helper>)
        ensures
            match helper {
                Some(h) => self@.helper_for(module@, function@) == Some(h@),
                None => self@.helper_for(module@, function@) is None,
            },
    {
        proof {
            use_type_invariant(self);
        }
        let key = module.to_owned().concat("::").concat(function);
        assert(key@ == function_key(module@, function@));
        match self.assignments.get(key.as_str()) {
            None => None,
            Some(name) => self.instances.get(name.as_str()),
        }
    }

    /// Whether a function of a module can be called with these inputs.
    pub fn accepts(&self, module: &str, function: &str, inputs: &Vec<FuzzerType>) -> (yes: bool)
        ensures
            yes == self@.accepts(module@, function@, values_of(inputs@)),
    {
        match self.helper_for(module, function) {
            Some(Helper::UsdcxMint(_)) => true,
            None => inputs_convertible(inputs) && inputs_short(inputs),
        }
    }

    /// The inputs that a function of a module is called with in place of `inputs`.
    pub fn adjust_inputs(&self, module: &str, function: &str, inputs: &Vec<FuzzerType>) -> (adjusted:
        Vec<FuzzerType>)
        ensures
            values_of(adjusted@) == self@.adjusted(module@, function@, values_of(inputs@)),
            self@.accepts(module@, function@, values_of(inputs@)) ==> all_convertible(
                values_of(adjusted@),
            ) && all_short(values_of(adjusted@)),
    {
        match self.helper_for(module, function) {
            Some(helper) => match helper.transform_inputs(inputs) {
                Some(transformed) => transformed,
                None => clone_types(inputs),
            },
            None => clone_types(inputs),
        }
    }

    /// The calls of `initialize` that the helpers ask for.
    pub fn initialize_calls(&self, admin: &AccountAddress) -> (calls: Vec<Vec<Vec<u8>>>)
        ensures
            call_lists(calls@) == initialize_calls(self@.helpers, admin@),
            calls@.len() <= KNOWN_HELPERS,
    {
        proof {
            use_type_invariant(self);
        }
        let count = self.instances.len();
        let ghost helpers = self@.helpers;
        let mut calls: Vec<Vec<Vec<u8>>> = Vec::new();
        let mut i: usize = 0;
        assert(call_lists(calls@) =~= initialize_calls(helpers.take(0), admin@));
        while i < count
            invariant
                i <= count,
                count <= KNOWN_HELPERS,
                helpers == self@.helpers,
                helpers.len() == count,
                count == self.instances.values().len(),
                calls@.len() <= i,
                call_lists(calls@) == initialize_calls(helpers.take(i as int), admin@),
            decreases count - i,
        {
            let ghost before = calls@;
            assert(helpers.take(i + 1).drop_last() =~= helpers.take(i as int));
            if let Some(args) = self.instances.value_at(i).initialize_args(admin) {
                calls.push(args);
                assert(call_lists(calls@) =~= call_lists(before).push(byte_lists(args@)));
            }
            i += 1;
        }
        assert(helpers.take(i as int) =~= helpers);
        calls
    }
}

/// A configuration and a seed lead to the same helpers every time.
pub proof fn law_helpers_are_determined(
    one: AssignedHelpersView,
    other: AssignedHelpersView,
    assignments: &StringTable<String>,
    seed: u64,
)
    requires
        one.well_formed(),
        other.well_formed(),
        one.configured(assignments, seed),
        other.configured(assignments, seed),
    ensures
        one == other,
{
    if one.names.len() > 0 {
        assert(one.names.contains(one.names[0]));
        assert(other.names.contains(one.names[0]));
    }
    if other.names.len() > 0 {
        assert(other.names.contains(other.names[0]));
        assert(one.names.contains(other.names[0]));
    }
    assert(one.names =~= other.names);
    assert forall|i: int| 0 <= i < one.helpers.len() implies #[trigger] one.helpers[i]
        == other.helpers[i] by {
        assert(known_helper(one.names[i], seed) == Some(one.helpers[i]));
        assert(known_helper(other.names[i], seed) == Some(other.helpers[i]));
    }
    assert(one.helpers =~= other.helpers);
}

} // verus!
