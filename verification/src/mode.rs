//! Which side of the pipeline a process runs.

use vstd::prelude::*;
use vstd::string::*;

verus! {

/// The two sides of the pipeline.
#[derive(Clone, Copy, Debug, PartialEq, Eq, Structural)]
pub enum Mode {
    /// Flood the transport with batches and watch their counters.
    Producer,
    /// Drain the topics and count what arrives.
    Consumer,
}

/// The mode that a name selects. Names are matched letter for letter.
pub open spec fn mode_named(name: Seq<char>) -> Option<Mode> {
    if name == "PRODUCER"@ {
        Some(Mode::Producer)
    } else if name == "CONSUMER"@ {
        Some(Mode::Consumer)
    } else {
        None
    }
}

/// Reads the mode switch. A switch that is not set, or set to anything but
/// one of the two names, selects nothing: the caller then explains the
/// switch and runs neither side.
pub fn select_mode(value: Option<&str>) -> (mode: Option<Mode>)
    ensures
        mode == match value {
            Some(name) => mode_named(name@),
            None => None,
        },
{
    match value {
        Some(name) => {
            let given = String::from_str(name);
            if given == String::from_str("PRODUCER") {
                Some(Mode::Producer)
            } else if given == String::from_str("CONSUMER") {
                Some(Mode::Consumer)
            } else {
                None
            }
        },
        None => None,
    }
}

/// The two names select different modes.
pub proof fn lemma_mode_names()
    ensures
        mode_named("PRODUCER"@) == Some(Mode::Producer),
        mode_named("CONSUMER"@) == Some(Mode::Consumer),
{
    reveal_strlit("PRODUCER");
    reveal_strlit("CONSUMER");
    assert("PRODUCER"@[0] == 'P');
    assert("CONSUMER"@[0] == 'C');
}

} // verus!
