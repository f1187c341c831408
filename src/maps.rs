use vstd::prelude::*;

verus! {

/// dashmap's sharded concurrent hash map, held opaquely; each store names
/// what its map holds and reaches it through wrappers of its own.
#[verifier::external_type_specification]
#[verifier::external_body]
#[verifier::reject_recursive_types(K)]
#[verifier::reject_recursive_types(V)]
#[verifier::reject_recursive_types(S)]
pub struct ExDashMap<K, V, S>(dashmap::DashMap<K, V, S>);

} // verus!
