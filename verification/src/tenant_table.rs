//! The per-tenant active-lease table, kept in a `dashmap::DashMap` keyed by
//! tenant name. Every operation the connection manager performs on it goes
//! through one of the small trusted wrappers below.

use vstd::prelude::*;
use dashmap::DashMap;

verus! {

#[verifier::external_type_specification]
#[verifier::external_body]
#[verifier::reject_recursive_types(K)]
#[verifier::reject_recursive_types(V)]
#[verifier::reject_recursive_types(S)]
pub struct ExDashMap<K, V, S>(DashMap<K, V, S>);

/// What a tenant table holds: tenant name (as characters) to the number of
/// leases that tenant currently holds.
/// The map type that holds the per-tenant counts.
pub type TenantTable = DashMap<String, usize>;

pub uninterp spec fn tenant_table(m: TenantTable) -> Map<Seq<char>, usize>;

/// `DashMap::new`: an empty map.
#[verifier::external_body]
pub(crate) fn table_new() -> (table: TenantTable)
    ensures
        tenant_table(table).dom().is_empty(),
{
    DashMap::new()
}

/// `DashMap::get`: the value stored under `tenant`, copied out, if any.
#[verifier::external_body]
pub(crate) fn table_get(m: &TenantTable, tenant: &str) -> (r: Option<usize>)
    ensures
        r == (if tenant_table(*m).contains_key(tenant@) {
            Some(tenant_table(*m)[tenant@])
        } else {
            None::<usize>
        }),
{
    m.get(tenant).map(|v| *v)
}

/// `DashMap::insert`: stores `value` under `tenant`, replacing any old value.
#[verifier::external_body]
pub(crate) fn table_insert(m: &mut TenantTable, tenant: String, value: usize)
    ensures
        tenant_table(*final(m)) == tenant_table(*old(m)).insert(tenant@, value),
{
    m.insert(tenant, value);
}

/// `DashMap::remove`: drops the entry stored under `tenant`, if any.
#[verifier::external_body]
pub(crate) fn table_remove(m: &mut TenantTable, tenant: &str)
    ensures
        tenant_table(*final(m)) == tenant_table(*old(m)).remove(tenant@),
{
    m.remove(tenant);
}

/// `DashMap::len`: the number of tenants with an entry.
#[verifier::external_body]
pub(crate) fn table_len(m: &TenantTable) -> (n: usize)
    ensures
        n == tenant_table(*m).dom().len(),
{
    m.len()
}

/// `DashMap::iter`: every (tenant, count) entry, copied out, each tenant once.
/// The order in which the map hands them out is not stated.
#[verifier::external_body]
pub(crate) fn table_entries(m: &TenantTable) -> (r: Vec<(String, usize)>)
    ensures
        r.len() == tenant_table(*m).dom().len(),
        forall|i: int| 0 <= i < r.len() ==>
            #[trigger] tenant_table(*m).contains_key(r[i].0@) && tenant_table(*m)[r[i].0@] == r[i].1,
        forall|i: int, j: int| 0 <= i < j < r.len() ==> r[i].0@ != r[j].0@,
        forall|k: Seq<char>| #[trigger] tenant_table(*m).contains_key(k) ==>
            exists|i: int| 0 <= i < r.len() && r[i].0@ == k,
{
    m.iter().map(|entry| (entry.key().clone(), *entry.value())).collect()
}

} // verus!
