//! Selection of the display backend that renders summaries and alerts.
//!
//! Rendering itself is an external collaborator writing to a human-readable
//! sink; the core only validates the configured backend name at startup and
//! hands back a token for the one supported backend.

use vstd::prelude::*;

use crate::ConfigurationError;

verus! {

/// The command-line display backend.
pub struct Cli {}

/// Character-by-character string comparison.
fn str_equal(a: &str, b: &str) -> (r: bool)
    ensures
        r == (a@ == b@),
{
    let na = a.unicode_len();
    let nb = b.unicode_len();
    if na != nb {
        return false;
    }
    let mut i: usize = 0;
    while i < na
        invariant
            i <= na,
            na == a@.len(),
            nb == b@.len(),
            na == nb,
            forall|j: int| 0 <= j < i ==> a@[j] == b@[j],
        decreases na - i,
    {
        let ca = a.get_char(i);
        let cb = b.get_char(i);
        if ca != cb {
            return false;
        }
        i = i + 1;
    }
    proof {
        assert(a@ =~= b@);
    }
    true
}

/// Selects the display backend by its configured name. `"cli"` names the
/// only supported backend; any other name is a startup configuration error,
/// never a runtime failure.
pub fn get_display(name: &str) -> (r: Result<Cli, ConfigurationError>)
    ensures
        r is Ok <==> name@ == "cli"@,
        r matches Err(e) ==> e == ConfigurationError::UnknownDisplay,
{
    if str_equal(name, "cli") {
        Ok(Cli {  })
    } else {
        Err(ConfigurationError::UnknownDisplay)
    }
}

} // verus!
