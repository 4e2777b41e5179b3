//! Compiled packages.
use crate::bytes::copy_bytes;
use crate::runner::chain::AccountAddress;
use crate::runner::transaction::TransactionPayload;
use vstd::prelude::*;

verus! {

use crate::runner::transaction::PayloadView;

/// The address and the name that a compiled module declares.
#[derive(Debug, PartialEq, Eq)]
pub struct ModuleHeader {
    pub address: AccountAddress,
    pub name: String,
}

/// A compiled module, with its header where its bytes could be read.
#[derive(Debug, PartialEq, Eq)]
pub struct CompiledModule {
    pub bytes: Vec<u8>,
    pub header: Option<ModuleHeader>,
}

/// The mathematical content of a [`ModuleHeader`].
pub ghost struct ModuleHeaderView {
    pub address: Seq<u8>,
    pub name: Seq<char>,
}

/// The mathematical content of a [`CompiledModule`].
pub ghost struct CompiledModuleView {
    pub bytes: Seq<u8>,
    pub header: Option<ModuleHeaderView>,
}

impl View for ModuleHeader {
    type V = ModuleHeaderView;

    open spec fn view(&self) -> ModuleHeaderView {
        ModuleHeaderView { address: self.address@, name: self.name@ }
    }
}

impl View for CompiledModule {
    type V = CompiledModuleView;

    open spec fn view(&self) -> CompiledModuleView {
        CompiledModuleView {
            bytes: self.bytes@,
            header: match self.header {
                Some(header) => Some(header@),
                None => None,
            },
        }
    }
}

/// The contents of the modules of a package.
pub open spec fn module_views(modules: Seq<CompiledModule>) -> Seq<CompiledModuleView> {
    modules.map_values(|module: CompiledModule| module@)
}

/// The address that the first readable module declares.
pub open spec fn first_address(modules: Seq<CompiledModuleView>) -> Option<Seq<u8>>
    decreases modules.len(),
{
    if modules.len() == 0 {
        None
    } else {
        match modules[0].header {
            Some(header) => Some(header.address),
            None => first_address(modules.drop_first()),
        }
    }
}

/// The address that the first readable module called `name` declares.
pub open spec fn address_of(modules: Seq<CompiledModuleView>, name: Seq<char>) -> Option<Seq<u8>>
    decreases modules.len(),
{
    if modules.len() == 0 {
        None
    } else {
        match modules[0].header {
            Some(header) if header.name == name => Some(header.address),
            _ => address_of(modules.drop_first(), name),
        }
    }
}

/// The address that a package is published under: that of the target module, or
/// else that of the first readable module.
pub open spec fn package_address(
    modules: Seq<CompiledModuleView>,
    target_module: Seq<char>,
) -> Option<Seq<u8>> {
    match address_of(modules, target_module) {
        Some(address) => Some(address),
        None => first_address(modules),
    }
}

/// The address that must sign the publication of a package.
pub fn resolve_package_address(modules: &Vec<CompiledModule>, target_module: &str) -> (address:
    Option<AccountAddress>)
    ensures
        match address {
            Some(a) => package_address(module_views(modules@), target_module@) == Some(a@),
            None => package_address(module_views(modules@), target_module@) is None,
        },
{
    let ghost views = module_views(modules@);
    let wanted = target_module.to_owned();
    let mut first: Option<AccountAddress> = None;
    let mut i: usize = 0;
    assert(views.skip(0) =~= views);
    while i < modules.len()
        invariant
            i <= modules.len(),
            views == module_views(modules@),
            wanted@ == target_module@,
            address_of(views, target_module@) == address_of(
                views.skip(i as int),
                target_module@,
            ),
            match first {
                Some(a) => first_address(views) == Some(a@),
                None => first_address(views) == first_address(views.skip(i as int)),
            },
        decreases modules.len() - i,
    {
        assert(views.skip(i as int).drop_first() =~= views.skip(i + 1));
        assert(views.skip(i as int)[0] == modules@[i as int]@);
        if let Some(header) = &modules[i].header {
            if first.is_none() {
                first = Some(header.address);
            }
            if header.name == wanted {
                return Some(header.address);
            }
        }
        i += 1;
    }
    first
}

/// What a transaction does that publishes a package.
pub open spec fn publication(metadata: Seq<u8>, modules: Seq<CompiledModuleView>) -> PayloadView {
    PayloadView::PublishPackage {
        metadata,
        modules: modules.map_values(|module: CompiledModuleView| module.bytes),
    }
}

/// The payload that publishes a package.
pub fn publish_payload(metadata: &Vec<u8>, modules: &Vec<CompiledModule>) -> (payload:
    TransactionPayload)
    ensures
        payload@ == publication(metadata@, module_views(modules@)),
        payload matches TransactionPayload::PublishPackage { metadata: published, modules: code } && {
            &&& published@ == metadata@
            &&& code@.len() == modules@.len()
            &&& forall|i: int|
                0 <= i < modules@.len() ==> (#[trigger] code@[i])@ == modules@[i].bytes@
        },
{
    let mut code: Vec<Vec<u8>> = Vec::new();
    let mut i: usize = 0;
    while i < modules.len()
        invariant
            i <= modules.len(),
            code.len() == i,
            forall|j: int| 0 <= j < i ==> (#[trigger] code@[j])@ == modules@[j].bytes@,
        decreases modules.len() - i,
    {
        code.push(copy_bytes(modules[i].bytes.as_slice()));
        i += 1;
    }
    let payload = TransactionPayload::PublishPackage {
        metadata: copy_bytes(metadata.as_slice()),
        modules: code,
    };
    assert(payload@->modules =~= publication(metadata@, module_views(modules@))->modules);
    payload
}

/// Some module of the package declares this address.
pub open spec fn declares(modules: Seq<CompiledModuleView>, address: Seq<u8>) -> bool {
    exists|i: int|
        0 <= i < modules.len() && (#[trigger] modules[i]).header is Some
            && modules[i].header->0.address == address
}

proof fn lemma_addresses_are_declared(modules: Seq<CompiledModuleView>, name: Seq<char>)
    ensures
        first_address(modules) matches Some(address) ==> declares(modules, address),
        address_of(modules, name) matches Some(address) ==> declares(modules, address),
        first_address(modules) is None ==> forall|i: int|
            0 <= i < modules.len() ==> (#[trigger] modules[i]).header is None,
        address_of(modules, name) is None ==> forall|i: int|
            0 <= i < modules.len() ==> ((#[trigger] modules[i]).header matches Some(header)
                ==> header.name != name),
    decreases modules.len(),
{
    if modules.len() > 0 {
        let rest = modules.drop_first();
        lemma_addresses_are_declared(rest, name);
        assert forall|address: Seq<u8>| declares(rest, address) implies declares(
            modules,
            address,
        ) by {
            let i = choose|i: int|
                0 <= i < rest.len() && (#[trigger] rest[i]).header is Some
                    && rest[i].header->0.address == address;
            assert(modules[i + 1] == rest[i]);
        }
        assert forall|i: int| 1 <= i < modules.len() implies #[trigger] modules[i] == rest[
        i - 1] by {}
    }
}

/// A package is published under an address that one of its modules declares. It
/// has none exactly where no module can be read, and where a module has the
/// target's name, a module of that name declares it.
pub proof fn law_package_address_is_declared(
    modules: Seq<CompiledModuleView>,
    target_module: Seq<char>,
)
    ensures
        package_address(modules, target_module) matches Some(address) ==> declares(
            modules,
            address,
        ),
        package_address(modules, target_module) is None <==> forall|i: int|
            0 <= i < modules.len() ==> (#[trigger] modules[i]).header is None,
        (exists|i: int|
            0 <= i < modules.len() && (#[trigger] modules[i]).header is Some
                && modules[i].header->0.name == target_module) ==> package_address(modules, target_module)
            == address_of(modules, target_module) && address_of(modules, target_module) is Some,
{
    lemma_addresses_are_declared(modules, target_module);
    lemma_unreadable_has_no_address(modules, target_module);
}

proof fn lemma_unreadable_has_no_address(modules: Seq<CompiledModuleView>, name: Seq<char>)
    ensures
        (forall|i: int| 0 <= i < modules.len() ==> (#[trigger] modules[i]).header is None) ==> {
            &&& first_address(modules) is None
            &&& address_of(modules, name) is None
        },
    decreases modules.len(),
{
    if modules.len() > 0 {
        let rest = modules.drop_first();
        lemma_unreadable_has_no_address(rest, name);
        assert forall|i: int| 0 <= i < rest.len() implies #[trigger] rest[i] == modules[i + 1] by {}
    }
}

/// A publication carries the metadata of its package unchanged, and the modules of
/// the package in order, each byte for byte.
pub proof fn law_publication_is_faithful(metadata: Seq<u8>, modules: Seq<CompiledModuleView>)
    ensures
        publication(metadata, modules) matches PayloadView::PublishPackage {
            metadata: published,
            modules: code,
        } && {
            &&& published == metadata
            &&& code.len() == modules.len()
            &&& forall|i: int|
                0 <= i < modules.len() ==> {
                    &&& (#[trigger] code[i]).len() == modules[i].bytes.len()
                    &&& forall|k: int|
                        0 <= k < modules[i].bytes.len() ==> #[trigger] code[i][k]
                            == modules[i].bytes[k]
                }
        },
{
}

/// Packages with the same publication have the same metadata and the same code.
pub proof fn law_publication_is_unambiguous(
    metadata: Seq<u8>,
    modules: Seq<CompiledModuleView>,
    other_metadata: Seq<u8>,
    other_modules: Seq<CompiledModuleView>,
)
    requires
        publication(metadata, modules) == publication(other_metadata, other_modules),
    ensures
        metadata == other_metadata,
        modules.len() == other_modules.len(),
        forall|i: int|
            0 <= i < modules.len() ==> (#[trigger] modules[i]).bytes == other_modules[i].bytes,
{
    let code = publication(metadata, modules)->modules;
    let other_code = publication(other_metadata, other_modules)->modules;
    assert(code.len() == modules.len());
    assert(other_code.len() == other_modules.len());
    assert forall|i: int| 0 <= i < modules.len() implies (#[trigger] modules[i]).bytes
        == other_modules[i].bytes by {
        assert(code[i] == modules[i].bytes);
        assert(other_code[i] == other_modules[i].bytes);
    }
}

/// The first module that has the target's name gives a package its address.
pub proof fn law_target_module_gives_the_address(
    modules: Seq<CompiledModuleView>,
    target_module: Seq<char>,
    i: int,
)
    requires
        0 <= i < modules.len(),
        modules[i].header matches Some(header) && header.name == target_module,
        forall|j: int|
            0 <= j < i ==> ((#[trigger] modules[j]).header matches Some(header) ==> header.name
                != target_module),
    ensures
        package_address(modules, target_module) == Some(modules[i].header->0.address),
    decreases i,
{
    lemma_address_at(modules, target_module, i);
}

proof fn lemma_address_at(modules: Seq<CompiledModuleView>, name: Seq<char>, i: int)
    requires
        0 <= i < modules.len(),
        modules[i].header matches Some(header) && header.name == name,
        forall|j: int|
            0 <= j < i ==> ((#[trigger] modules[j]).header matches Some(header) ==> header.name
                != name),
    ensures
        address_of(modules, name) == Some(modules[i].header->0.address),
    decreases i,
{
    if i > 0 {
        let rest = modules.drop_first();
        assert forall|j: int| 0 <= j < i - 1 implies ((#[trigger] rest[j]).header matches Some(
            header,
        ) ==> header.name != name) by {
            assert(rest[j] == modules[j + 1]);
        }
        assert(rest[i - 1] == modules[i]);
        assert(modules[0].header matches Some(header) ==> header.name != name);
        lemma_address_at(rest, name, i - 1);
    }
}

/// Where no module has the target's name, the first module that can be read gives a
/// package its address.
pub proof fn law_first_module_gives_the_address(
    modules: Seq<CompiledModuleView>,
    target_module: Seq<char>,
    i: int,
)
    requires
        0 <= i < modules.len(),
        modules[i].header is Some,
        forall|j: int| 0 <= j < i ==> (#[trigger] modules[j]).header is None,
        forall|j: int|
            0 <= j < modules.len() ==> ((#[trigger] modules[j]).header matches Some(header)
                ==> header.name != target_module),
    ensures
        package_address(modules, target_module) == Some(modules[i].header->0.address),
{
    lemma_addresses_are_declared(modules, target_module);
    lemma_no_address(modules, target_module);
    lemma_first_at(modules, i);
}

proof fn lemma_no_address(modules: Seq<CompiledModuleView>, name: Seq<char>)
    requires
        forall|j: int|
            0 <= j < modules.len() ==> ((#[trigger] modules[j]).header matches Some(header)
                ==> header.name != name),
    ensures
        address_of(modules, name) is None,
    decreases modules.len(),
{
    if modules.len() > 0 {
        let rest = modules.drop_first();
        assert forall|j: int| 0 <= j < rest.len() implies ((#[trigger] rest[j]).header
            matches Some(header) ==> header.name != name) by {
            assert(rest[j] == modules[j + 1]);
        }
        assert(modules[0].header matches Some(header) ==> header.name != name);
        lemma_no_address(rest, name);
    }
}

proof fn lemma_first_at(modules: Seq<CompiledModuleView>, i: int)
    requires
        0 <= i < modules.len(),
        modules[i].header is Some,
        forall|j: int| 0 <= j < i ==> (#[trigger] modules[j]).header is None,
    ensures
        first_address(modules) == Some(modules[i].header->0.address),
    decreases i,
{
    if i > 0 {
        let rest = modules.drop_first();
        assert forall|j: int| 0 <= j < i - 1 implies (#[trigger] rest[j]).header is None by {
            assert(rest[j] == modules[j + 1]);
        }
        assert(rest[i - 1] == modules[i]);
        assert(modules[0].header is None);
        lemma_first_at(rest, i - 1);
    }
}

/// Modules are read one by one, in order: each with its bytes, and with the address and
/// the name of its header where it has one.
pub proof fn law_modules_are_read_one_by_one(modules: Seq<CompiledModule>)
    ensures
        module_views(modules).len() == modules.len(),
        forall|i: int|
            0 <= i < modules.len() ==> (#[trigger] module_views(modules)[i]).bytes
                == modules[i].bytes@,
        forall|i: int|
            0 <= i < modules.len() ==> ((#[trigger] module_views(modules)[i]).header is Some
                <==> modules[i].header is Some),
        forall|i: int|
            0 <= i < modules.len() && modules[i].header is Some ==> {
                &&& (#[trigger] module_views(modules)[i]).header->0.address
                    == modules[i].header->0.address.bytes@
                &&& module_views(modules)[i].header->0.name == modules[i].header->0.name@
            },
{
}

} // verus!
