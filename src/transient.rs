use vstd::prelude::*;
use dashmap::DashMap;
use crate::data::TransientTaskType;

verus! {

#[verifier::external_type_specification]
#[verifier::external_body]
#[verifier::reject_recursive_types(K)]
#[verifier::reject_recursive_types(V)]
#[verifier::reject_recursive_types(S)]
pub struct ExDashMap<K, V, S>(DashMap<K, V, S>);

/// The table of transient tasks: what each one runs, by id.
pub type TransientTable = DashMap<u64, TransientTaskType>;

/// The entries held by the table of transient tasks.
pub uninterp spec fn transient_entries(m: TransientTable) -> Map<u64, TransientTaskType>;

/// Relies on `DashMap::new`: the map starts without entries.
#[verifier::external_body]
pub(crate) fn transient_table_new() -> (r: TransientTable)
    ensures
        forall|k: u64| !transient_entries(r).contains_key(k),
{
    DashMap::new()
}

/// Relies on `DashMap::insert`: afterwards `key` maps to `value`, other
/// entries stay.
#[verifier::external_body]
pub(crate) fn transient_table_insert(
    m: &mut TransientTable,
    key: u64,
    value: TransientTaskType,
)
    ensures
        transient_entries(*final(m)) == transient_entries(*old(m)).insert(key, value),
{
    m.insert(key, value);
}

/// Relies on `DashMap::get`: the value held for `key`, if any, copied out.
#[verifier::external_body]
pub(crate) fn transient_table_get(m: &TransientTable, key: u64) -> (r: Option<TransientTaskType>)
    ensures
        r == (if transient_entries(*m).contains_key(key) {
            Some(transient_entries(*m)[key])
        } else {
            None
        }),
{
    m.get(&key).map(|v| *v)
}

} // verus!
