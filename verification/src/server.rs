//! The web layer's marker types. The routes and their handlers live with
//! the web framework; the library only defines what they share.

use vstd::prelude::*;

verus! {

/// Marker for the response stage that adds cross-origin headers.
pub struct CORS;

} // verus!
