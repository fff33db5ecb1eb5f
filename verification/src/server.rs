//! Server settings derived from the configuration.

use vstd::prelude::*;

use crate::config::{views, Config};
use crate::text::{has_elem, str_eq};

verus! {

broadcast use vstd::string::group_string_axioms;

/// Whether CORS lets any origin in: the configured origins hold "*".
pub fn allows_any_origin(config: &Config) -> (b: bool)
    ensures
        b == has_elem(views(config.server.cors_origins@), "*"@),
{
    let origins = &config.server.cors_origins;
    let mut i: usize = 0;
    while i < origins.len()
        invariant
            i <= origins@.len(),
            origins@ == config.server.cors_origins@,
            forall|j: int| 0 <= j < i ==> #[trigger] origins@[j]@ != "*"@,
        decreases origins@.len() - i,
    {
        if str_eq(origins[i].as_str(), "*") {
            assert(views(origins@)[i as int] == "*"@);
            return true;
        }
        i = i + 1;
    }
    assert forall|j: int| 0 <= j < views(origins@).len() implies views(origins@)[j] != "*"@ by {
        assert(views(origins@)[j] == origins@[j]@);
    }
    false
}

} // verus!
