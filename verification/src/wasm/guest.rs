//! The engine's view of a guest.
//!
//! An instantiated module is a `wasmer::Instance` in a `wasmer::Store`: the
//! instance lists the module's exports, the store holds the state of
//! everything in it and is what the engine asks for to run a function or
//! to reach a memory. Everything the host does with a guest goes through
//! the functions here, and nothing of them is proved: their contracts state
//! what the engine does.
//!
//! `memory_of` names the bytes of a memory as a function of the store's
//! state. That holds under a discipline which is this module's own: every
//! function here that may change a guest's state takes the store by `&mut`.
//! The engine asks as much of a call, but not of a write to a memory, which
//! its view allows through a shared borrow; so code that writes to a guest's
//! memory past these functions, while the library holds the store, breaks
//! what the contracts say.

use vstd::prelude::*;
use crate::wasm::wasm_helper::AbiError;
use crate::wasm::wasm_loader::ExternKind;

verus! {

/// `wasmer::Store`, taken as it is: nothing of its inside is known here.
#[verifier::external_type_specification]
#[verifier::external_body]
pub struct ExStore(wasmer::Store);

/// `wasmer::Instance`, taken as it is: nothing of its inside is known
/// here.
#[verifier::external_type_specification]
#[verifier::external_body]
pub struct ExInstance(wasmer::Instance);

/// The exports of an instance, by name and kind, in the order in which the
/// engine lists them.
pub uninterp spec fn exports_of(guest: wasmer::Instance) -> Seq<(Seq<char>, ExternKind)>;

/// The bytes of the linear memory that an instance exports under `name`,
/// in the state that the store holds.
pub uninterp spec fn memory_of(store: wasmer::Store, guest: wasmer::Instance, name: Seq<char>)
    -> Seq<u8>;

/// Whether the exports of an instance can be used with a store: whether the
/// instance lives in that store.
pub uninterp spec fn usable(store: wasmer::Store, guest: wasmer::Instance) -> bool;

/// Whether `exports` lists `name` with kind `kind`.
pub open spec fn lists(exports: Seq<(Seq<char>, ExternKind)>, name: Seq<char>, kind: ExternKind)
    -> bool {
    exists|i: int| 0 <= i < exports.len() && #[trigger] exports[i] == (name, kind)
}

/// Whether a call ended for want of the export.
pub open spec fn missing(r: Result<u32, AbiError>) -> bool {
    r matches Err(e) && e == AbiError::MissingExport
}

/// Whether the memories of an instance are the same in two states of a
/// store.
pub open spec fn stays(before: wasmer::Store, after: wasmer::Store, guest: wasmer::Instance)
    -> bool {
    forall|memory: Seq<char>| #[trigger]
        memory_of(after, guest, memory) == memory_of(before, guest, memory)
}

/// Lists the exports of an instance.
///
/// Trusted: the body walks `Exports::iter`, which hands out each export
/// with its name, and tells the five variants of `Extern` apart.
#[verifier::external_body]
pub(crate) fn export_list(guest: &wasmer::Instance) -> (r: Vec<(String, ExternKind)>)
    ensures
        r@.len() == exports_of(*guest).len(),
        forall|i: int|
            0 <= i < r@.len() ==> ((#[trigger] r@[i]).0@, r@[i].1) == exports_of(*guest)[i],
{
    guest.exports.iter().map(
        |(name, export)|
            (
                name.clone(),
                match export {
                    wasmer::Extern::Function(_) => ExternKind::Function,
                    wasmer::Extern::Global(_) => ExternKind::Global,
                    wasmer::Extern::Table(_) => ExternKind::Table,
                    wasmer::Extern::Memory(_) => ExternKind::Memory,
                    wasmer::Extern::Tag(_) => ExternKind::Tag,
                },
            ),
    ).collect()
}

/// Tells whether an instance lives in a store.
///
/// Trusted: the body asks each export `Extern::is_from_store`. The engine
/// panics where an export is used with another store than its own, so the
/// functions below ask for a usable instance.
#[verifier::external_body]
pub(crate) fn is_usable(store: &wasmer::Store, guest: &wasmer::Instance) -> (r: bool)
    ensures
        r == usable(*store, *guest),
{
    guest.exports.iter().all(|(_, export)| export.is_from_store(store))
}

/// The size in bytes of the memory exported under `name`.
///
/// Trusted: the body is `Exports::get_memory`, which succeeds exactly for
/// an export of that name that is a memory, `Memory::view`, and
/// `MemoryView::data_size`.
#[verifier::external_body]
pub(crate) fn memory_size(store: &wasmer::Store, guest: &wasmer::Instance, name: &str) -> (r:
    Option<u64>)
    requires
        usable(*store, *guest),
    ensures
        match r {
            Some(size) => lists(exports_of(*guest), name@, ExternKind::Memory) && size
                == memory_of(*store, *guest, name@).len(),
            None => !lists(exports_of(*guest), name@, ExternKind::Memory),
        },
{
    guest.exports.get_memory(name).ok().map(|memory| memory.view(store).data_size())
}

/// Copies the bytes from `at` up to `end` of the memory exported under
/// `name`.
///
/// Trusted: the body is `Exports::get_memory`, `Memory::view` and
/// `MemoryView::copy_range_to_vec`, which reads the range as far as it lies
/// within the view.
#[verifier::external_body]
pub(crate) fn memory_range(
    store: &wasmer::Store,
    guest: &wasmer::Instance,
    name: &str,
    at: u64,
    end: u64,
) -> (r: Option<Vec<u8>>)
    requires
        usable(*store, *guest),
    ensures
        match r {
            Some(bytes) => lists(exports_of(*guest), name@, ExternKind::Memory) && (at <= end
                <= memory_of(*store, *guest, name@).len() ==> bytes@ == memory_of(
                *store,
                *guest,
                name@,
            ).subrange(at as int, end as int)),
            None => !lists(exports_of(*guest), name@, ExternKind::Memory),
        },
{
    guest.exports.get_memory(name).ok()?.view(store).copy_range_to_vec(at..end).ok()
}

/// Writes `bytes` into the memory exported under `name`, from `at` on.
///
/// Trusted: the body is `Exports::get_memory`, `Memory::view` and
/// `MemoryView::write`, which writes all the bytes where they lie within
/// the view, and none otherwise.
#[verifier::external_body]
pub(crate) fn memory_write(
    store: &mut wasmer::Store,
    guest: &wasmer::Instance,
    name: &str,
    at: u64,
    bytes: &[u8],
) -> (r: Result<(), AbiError>)
    requires
        usable(*old(store), *guest),
    ensures
        usable(*final(store), *guest),
        match r {
            Ok(()) => {
                let before = memory_of(*old(store), *guest, name@);
                &&& lists(exports_of(*guest), name@, ExternKind::Memory)
                &&& at + bytes@.len() <= before.len()
                &&& memory_of(*final(store), *guest, name@) == before.subrange(0, at as int)
                    + bytes@ + before.subrange(at + bytes@.len(), before.len() as int)
            },
            Err(e) => {
                &&& memory_of(*final(store), *guest, name@) == memory_of(*old(store), *guest, name@)
                &&& if lists(exports_of(*guest), name@, ExternKind::Memory) {
                    e == AbiError::Allocation && at + bytes@.len() > memory_of(
                        *old(store),
                        *guest,
                        name@,
                    ).len()
                } else {
                    e == AbiError::MissingExport
                }
            },
        },
{
    let memory = guest.exports.get_memory(name).map_err(|_| AbiError::MissingExport)?;
    memory.view(store).write(at, bytes).map_err(|_| AbiError::Allocation)
}

/// Calls the exported function `name`, which takes nothing and returns an
/// address.
///
/// Trusted: the body is `Exports::get_typed_function` and
/// `TypedFunction::call`. The first fails for a name that is no exported
/// function, and for a function of another type; then the export is
/// missing, the guest does not run and its memories stay. Otherwise the
/// guest runs, and the call returns when the guest does; what it returns,
/// whether it traps, and what it does to its memory is not known.
#[verifier::external_body]
pub(crate) fn call_nullary(store: &mut wasmer::Store, guest: &wasmer::Instance, name: &str) -> (r:
    Result<u32, AbiError>)
    requires
        usable(*old(store), *guest),
    ensures
        usable(*final(store), *guest),
        r matches Err(e) ==> e == AbiError::MissingExport || e == AbiError::Trap,
        !lists(exports_of(*guest), name@, ExternKind::Function) ==> missing(r),
        missing(r) ==> stays(*old(store), *final(store), *guest),
{
    let f = guest.exports.get_typed_function::<(), u32>(store, name).map_err(
        |_| AbiError::MissingExport,
    )?;
    f.call(store).map_err(|_| AbiError::Trap)
}

/// Calls the exported function `name`, which takes a size and returns an
/// address.
///
/// Trusted: as `call_nullary`.
#[verifier::external_body]
pub(crate) fn call_with_size(
    store: &mut wasmer::Store,
    guest: &wasmer::Instance,
    name: &str,
    size: u64,
) -> (r: Result<u32, AbiError>)
    requires
        usable(*old(store), *guest),
    ensures
        usable(*final(store), *guest),
        r matches Err(e) ==> e == AbiError::MissingExport || e == AbiError::Trap,
        !lists(exports_of(*guest), name@, ExternKind::Function) ==> missing(r),
        missing(r) ==> stays(*old(store), *final(store), *guest),
{
    let f = guest.exports.get_typed_function::<u64, u32>(store, name).map_err(
        |_| AbiError::MissingExport,
    )?;
    f.call(store, size).map_err(|_| AbiError::Trap)
}

/// Calls the exported function `name`, which takes an address and returns
/// an address.
///
/// Trusted: as `call_nullary`.
#[verifier::external_body]
pub(crate) fn call_with_pointer(
    store: &mut wasmer::Store,
    guest: &wasmer::Instance,
    name: &str,
    ptr: u32,
) -> (r: Result<u32, AbiError>)
    requires
        usable(*old(store), *guest),
    ensures
        usable(*final(store), *guest),
        r matches Err(e) ==> e == AbiError::MissingExport || e == AbiError::Trap,
        !lists(exports_of(*guest), name@, ExternKind::Function) ==> missing(r),
        missing(r) ==> stays(*old(store), *final(store), *guest),
{
    let f = guest.exports.get_typed_function::<u32, u32>(store, name).map_err(
        |_| AbiError::MissingExport,
    )?;
    f.call(store, ptr).map_err(|_| AbiError::Trap)
}

} // verus!
