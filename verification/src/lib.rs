//! Core logic of a wiki-editing command line client: the edit round-trip.
//!
//! A document is fetched from a remote service together with a version
//! number, rendered into an editable text file with a frontmatter header,
//! handed to an external editor, parsed back, and submitted under
//! optimistic concurrency control.  This crate holds the verified pieces:
//! the frontmatter format (rendering and parsing), the interpretation of
//! the remote service's responses, and the session state machine that
//! sequences the round-trip.  The unverified shell around it performs the
//! actual network, file and process work and feeds the outcomes back in
//! as events.
use vstd::prelude::*;

pub mod client;
pub mod format;
pub mod session;

verus! {

/// Address of the remote service used when the configuration names none.
pub fn default_address() -> (r: String)
    ensures
        r@ == "http://localhost:1181"@,
{
    String::from_str("http://localhost:1181")
}

} // verus!
