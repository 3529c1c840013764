use kmod::{context_from_handle, failure, native_status, Errno, Error, Operation};

#[test]
fn failure_maps_each_operation() {
    assert_eq!(failure(Operation::ModulesLoaded, 5), Error::LoadedModules);
    assert_eq!(failure(Operation::ModuleFromLookup, 5), Error::ModuleFromLookup);
    assert_eq!(failure(Operation::ModuleFromName, 5), Error::ModuleFromName);
    assert_eq!(failure(Operation::ModuleFromPath, 2), Error::ModuleFromPath(Errno(2)));
    assert_eq!(failure(Operation::RemoveModule, 16), Error::RemoveModule(Errno(16)));
    assert_eq!(failure(Operation::SoftDependencies, 12), Error::Errno(Errno(12)));
    assert_eq!(failure(Operation::DependencySymbols, 12), Error::Errno(Errno(12)));
    assert_eq!(failure(Operation::ModuleInfo, 1), Error::Errno(Errno(1)));
}

#[test]
fn insert_failure_keeps_code_or_says_unknown() {
    assert_eq!(failure(Operation::InsertModule, 17), Error::InsertModule(Errno(17)));
    assert_eq!(failure(Operation::InsertModule, 0), Error::InsertModuleUnknown);
}

#[test]
fn non_negative_status_is_success() {
    assert_eq!(native_status(Operation::InsertModule, 0), Ok(()));
    assert_eq!(native_status(Operation::ModulesLoaded, 3), Ok(()));
}

#[test]
fn negative_status_reads_errno_at_once() {
    errno::set_errno(errno::Errno(17));
    assert_eq!(
        native_status(Operation::InsertModule, -1),
        Err(Error::InsertModule(Errno(17)))
    );
    errno::set_errno(errno::Errno(0));
    assert_eq!(
        native_status(Operation::InsertModule, -1),
        Err(Error::InsertModuleUnknown)
    );
    errno::set_errno(errno::Errno(16));
    assert_eq!(
        native_status(Operation::RemoveModule, -16),
        Err(Error::RemoveModule(Errno(16)))
    );
    errno::set_errno(errno::Errno(2));
    assert_eq!(
        native_status(Operation::ModuleFromPath, -2),
        Err(Error::ModuleFromPath(Errno(2)))
    );
}

#[test]
fn unknown_name_is_an_error() {
    errno::set_errno(errno::Errno(2));
    assert_eq!(
        native_status(Operation::ModuleFromName, -2),
        Err(Error::ModuleFromName)
    );
}

#[test]
fn null_context_handle_is_an_error() {
    assert_eq!(context_from_handle::<u32>(None), Err(Error::NewCtx));
    assert_eq!(context_from_handle(Some(7u32)), Ok(7));
}
