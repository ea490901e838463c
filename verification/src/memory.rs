//! Free-memory readings of the machine. A reading can only come from the
//! machine itself: nothing outside this module can make one up.

use vstd::prelude::*;

verus! {

/// One reading of the machine's available memory.
#[derive(Debug)]
pub struct MemoryReading {
    available: Option<u64>,
}

impl MemoryReading {
    /// The bytes of memory available for (re)use, or `None` when the system
    /// could not be read.
    pub closed spec fn bytes(&self) -> Option<u64> {
        self.available
    }

    /// The bytes this reading found, if any.
    pub fn available_bytes(&self) -> (r: Option<u64>)
        ensures
            r == self.bytes(),
    {
        self.available
    }
}

/// `sysinfo::System::new_all()` then `available_memory()`: the bytes of
/// memory available for (re)use; `None` when the system could not be read.
/// It reads the machine, so nothing is promised of the value.
#[verifier::external_body]
pub(crate) fn available_memory_bytes() -> (r: MemoryReading)
{
    match sysinfo::System::new_all() {
        Ok(sys) => MemoryReading { available: Some(sys.available_memory()) },
        Err(_) => MemoryReading { available: None },
    }
}

} // verus!
