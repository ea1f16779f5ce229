use vstd::prelude::*;

verus! {

#[verifier::external_type_specification]
#[verifier::external_body]
#[verifier::reject_recursive_types(T)]
pub struct ExMutex<T: ?Sized>(std::sync::Mutex<T>);

/// Relies on std::sync::Mutex::lock: it returns an error when another holder of the lock
/// panicked, and otherwise a guard through which the value is replaced. Which of the two
/// happens depends on other threads, so nothing is promised of the result.
#[verifier::external_body]
fn replace_locked<T>(resource: &std::sync::Mutex<T>, new_value: T) -> (replaced: bool) {
    match resource.lock() {
        Ok(mut guard) => {
            *guard = new_value;
            true
        },
        Err(_) => false,
    }
}

/// The error reported when a shared cell's lock is poisoned.
pub open spec fn poisoned_message() -> Seq<char> {
    "Mutex was poisoned"@
}

/// The answer to an update: success when the value was replaced, the poisoning error
/// otherwise.
pub fn update_report(replaced: bool) -> (r: Result<(), String>)
    ensures
        replaced ==> r is Ok,
        !replaced ==> (r matches Err(msg) && msg@ == poisoned_message()),
{
    if replaced {
        Ok(())
    } else {
        Err(String::from_str("Mutex was poisoned"))
    }
}

/// Replaces the value guarded by `resource`. A poisoned lock is reported as an error and
/// leaves the value alone; whether the lock is poisoned depends on other threads.
pub fn update_resource<T>(resource: &std::sync::Mutex<T>, new_value: T) -> (r: Result<(), String>)
    ensures
        r is Ok || (r matches Err(msg) && msg@ == poisoned_message()),
{
    update_report(replace_locked(resource, new_value))
}

} // verus!
