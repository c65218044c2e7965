use vstd::prelude::*;
use vstd::string::*;

use crate::channel::EnqueueOutcome;
use crate::dispatch::{Dispatcher, LogRecord};
use crate::error::LogManagerError;

verus! {

/// The slot that holds the one dispatcher records are emitted to. It can be
/// filled once; nothing empties it.
pub struct SinkRegistry {
    pub installed: Option<Dispatcher>,
}

impl SinkRegistry {
    /// A registry with no dispatcher installed.
    pub fn new() -> (r: SinkRegistry)
        ensures
            r.installed is None,
    {
        SinkRegistry { installed: None }
    }

    pub open spec fn wf(&self) -> bool {
        self.installed matches Some(d) ==> d.wf()
    }

    /// Installs `dispatcher` if the slot is empty. A second installation is
    /// refused and leaves the first dispatcher in place, untouched.
    pub fn install(&mut self, dispatcher: Dispatcher) -> (r: Result<(), LogManagerError>)
        ensures
            old(self).installed is None ==> r is Ok && final(self).installed == Some(dispatcher),
            old(self).installed is Some ==> {
                &&& r matches Err(LogManagerError::LogSubscriberFailed(m))
                &&& m@ == "a global default trace dispatcher has already been set"@
                &&& final(self).installed == old(self).installed
            },
    {
        if self.installed.is_some() {
            Err(
                LogManagerError::LogSubscriberFailed(
                    String::from_str("a global default trace dispatcher has already been set"),
                ),
            )
        } else {
            self.installed = Some(dispatcher);
            Ok(())
        }
    }

    /// Emits a record through the installed dispatcher; `None` when none is installed.
    pub fn emit(&mut self, record: &LogRecord) -> (r: Option<Vec<Option<EnqueueOutcome>>>)
        requires
            old(self).wf(),
        ensures
            final(self).wf(),
            old(self).installed is None <==> r is None,
            old(self).installed is None ==> final(self).installed is None,
            old(self).installed matches Some(d) ==> final(self).installed matches Some(e) && {
                &&& e.sinks@.len() == d.sinks@.len()
                &&& forall|i: int|
                    #![trigger e.sinks@[i]]
                    0 <= i < d.sinks@.len() ==> {
                        &&& e.sinks@[i].minimum == d.sinks@[i].minimum
                        &&& e.sinks@[i].ansi == d.sinks@[i].ansi
                        &&& e.sinks@[i].queue.model() == crate::dispatch::deliver_model(
                            d.sinks@[i].minimum,
                            d.sinks@[i].ansi,
                            d.sinks@[i].queue.model(),
                            *record,
                        )
                    }
            },
    {
        match self.installed.take() {
            None => None,
            Some(mut d) => {
                let outcomes = d.dispatch(record);
                self.installed = Some(d);
                Some(outcomes)
            },
        }
    }
}

} // verus!
