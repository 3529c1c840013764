use vstd::prelude::*;

verus! {

/// A code read from the thread's `errno` right after a failing native call.
#[derive(Clone, Copy, Debug, PartialEq, Eq, Structural)]
pub struct Errno(pub i32);

/// Everything that can go wrong in this library.
#[derive(Clone, Copy, Debug, PartialEq, Eq, Structural)]
pub enum Error {
    /// The native context could not be created.
    NewCtx,
    /// The kernel refused to insert a module, with the code it left.
    InsertModule(Errno),
    /// Insertion failed and the native layer left no code behind.
    InsertModuleUnknown,
    /// The kernel refused to remove a module.
    RemoveModule(Errno),
    /// No module of that name could be described.
    ModuleFromName,
    /// The alias lookup failed.
    ModuleFromLookup,
    /// No module could be described from that file.
    ModuleFromPath(Errno),
    /// The list of loaded modules could not be read.
    LoadedModules,
    /// A native query on a module failed with the code it left.
    Errno(Errno),
    /// A caller's string holds a nul byte, at this byte position.
    Null(usize),
}

/// The native calls whose status this library translates.
#[derive(Clone, Copy, Debug, PartialEq, Eq, Structural)]
pub enum Operation {
    ModulesLoaded,
    ModuleFromLookup,
    ModuleFromName,
    ModuleFromPath,
    InsertModule,
    RemoveModule,
    SoftDependencies,
    DependencySymbols,
    ModuleInfo,
}

/// The error that a failed `op` stands for, given the `errno` code read at once
/// after it.
pub open spec fn failure_spec(op: Operation, code: i32) -> Error {
    match op {
        Operation::ModulesLoaded => Error::LoadedModules,
        Operation::ModuleFromLookup => Error::ModuleFromLookup,
        Operation::ModuleFromName => Error::ModuleFromName,
        Operation::ModuleFromPath => Error::ModuleFromPath(Errno(code)),
        Operation::InsertModule => if code == 0 {
            Error::InsertModuleUnknown
        } else {
            Error::InsertModule(Errno(code))
        },
        Operation::RemoveModule => Error::RemoveModule(Errno(code)),
        Operation::SoftDependencies => Error::Errno(Errno(code)),
        Operation::DependencySymbols => Error::Errno(Errno(code)),
        Operation::ModuleInfo => Error::Errno(Errno(code)),
    }
}

/// Relies on `errno::errno`: the value of the calling thread's `errno`. It
/// depends on what ran before, so nothing is stated of it.
#[verifier::external_body]
fn last_errno() -> (r: i32) {
    errno::errno().0
}

/// The error for a failed `op`, given the `errno` code that it left.
pub fn failure(op: Operation, code: i32) -> (r: Error)
    ensures
        r == failure_spec(op, code),
{
    match op {
        Operation::ModulesLoaded => Error::LoadedModules,
        Operation::ModuleFromLookup => Error::ModuleFromLookup,
        Operation::ModuleFromName => Error::ModuleFromName,
        Operation::ModuleFromPath => Error::ModuleFromPath(Errno(code)),
        Operation::InsertModule => {
            if code == 0 {
                Error::InsertModuleUnknown
            } else {
                Error::InsertModule(Errno(code))
            }
        },
        Operation::RemoveModule => Error::RemoveModule(Errno(code)),
        Operation::SoftDependencies => Error::Errno(Errno(code)),
        Operation::DependencySymbols => Error::Errno(Errno(code)),
        Operation::ModuleInfo => Error::Errno(Errno(code)),
    }
}

/// Translates the status `ret` returned by the native call `op`. To be called
/// right after that call: on a negative status the thread's `errno` is read
/// before anything else can overwrite it.
pub fn native_status(op: Operation, ret: i32) -> (r: Result<(), Error>)
    ensures
        ret >= 0 ==> r == Ok::<(), Error>(()),
        ret < 0 ==> exists|code: i32| r == Err::<(), Error>(failure_spec(op, code)),
{
    if ret < 0 {
        let code = last_errno();
        Err(failure(op, code))
    } else {
        Ok(())
    }
}

/// A freshly created context handle: `None` stands for the null pointer that
/// signals a failed creation.
pub fn context_from_handle<H>(handle: Option<H>) -> (r: Result<H, Error>)
    ensures
        r == match handle {
            Some(h) => Ok::<H, Error>(h),
            None => Err(Error::NewCtx),
        },
{
    match handle {
        Some(h) => Ok(h),
        None => Err(Error::NewCtx),
    }
}

} // verus!
