//! Messages about certificate material exchanged with co-located services.

use vstd::prelude::*;

verus! {

/// A renewed certificate as announced to other components: which component
/// it belongs to, whether it is the CA or the main certificate, and the
/// certificate text itself.
pub struct CertRenewal {
    pub component_name: String,
    pub crt_type: String,
    pub crt_data: String,
}

} // verus!
