use vstd::prelude::*;
use crate::errors::Error;

verus! {

/// Relies on `ioprio::set_priority`: asks the kernel for idle I/O scheduling
/// priority for this process group. Whether the kernel granted it is all
/// that can be said of the outcome.
#[verifier::external_body]
fn set_idle_io_priority() -> (r: bool) {
    ioprio::set_priority(
        ioprio::Target::ProcessGroup(ioprio::Pid::from_raw(0)),
        ioprio::Priority::new(ioprio::Class::Idle),
    ).is_ok()
}

/// Asks for idle I/O priority, reporting a refusal by the kernel as an error.
pub fn ionice() -> (r: Result<(), Error>)
    ensures
        r matches Err(e) ==> e == Error::PriorityNotSet,
{
    if set_idle_io_priority() {
        Ok(())
    } else {
        Err(Error::PriorityNotSet)
    }
}

/// Asks for idle I/O priority so that scans do not compete with interactive
/// work. A refusal by the kernel is no error: scanning simply proceeds at
/// normal priority. Lowering the CPU priority as well is done at the process
/// edge, where the raw `nice` call lives.
pub fn setup() -> (r: Result<(), Error>)
    ensures
        r is Ok,
{
    let _granted = ionice();
    Ok(())
}

} // verus!
