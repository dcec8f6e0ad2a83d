//! The one startup value the verified code carries: the application's
//! base URL, under which the confirmation links are built. Binding
//! sockets and wiring handlers happens outside the library.

use vstd::prelude::*;

verus! {

/// The application's public base URL, wrapped so it cannot be confused
/// with other strings handed around at startup.
pub struct AppBaseUrl(pub String);

} // verus!
