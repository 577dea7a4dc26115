//! The tenant registry and the storage layout.
//!
//! The registry maps each tenant to its schema. A schema enters it whole,
//! by `install`, and is replaced whole by the next one; a reader finds the
//! schema that was installed last.

use vstd::prelude::*;
use crate::gql::gql_loader::complete;
use crate::gql::gql_loader::Schema;
use crate::gql::gql_loader::SchemaView;
use crate::text::copy_str;
use crate::text::str_eq;

verus! {

/// How tenants are laid out in storage: one bucket per tenant, or one
/// directory per tenant below a common root.
#[derive(Debug, Clone, Copy, PartialEq, Eq, Structural)]
pub enum StorageOrgBy {
    Bucket,
    Dir,
}

impl Default for StorageOrgBy {
    fn default() -> (r: Self)
        ensures
            r is Dir,
    {
        StorageOrgBy::Dir
    }
}

/// Where the modules of the tenants are stored: the kind of storage, its
/// options by name, and the layout.
#[derive(Debug, PartialEq, Eq)]
pub struct StorageConfig {
    pub kind: String,
    pub opt: Vec<(String, String)>,
    pub org_by: StorageOrgBy,
}

/// The option that tells tenants apart under the layout `org_by`.
pub open spec fn tenant_option(org_by: StorageOrgBy) -> Seq<char> {
    match org_by {
        StorageOrgBy::Dir => "root"@,
        StorageOrgBy::Bucket => "bucket"@,
    }
}

/// The value of the tenant's option for the tenant `org`: its directory
/// below the common root `value`, or its bucket.
pub open spec fn tenant_value(org_by: StorageOrgBy, value: Seq<char>, org: Seq<char>) -> Seq<
    char,
> {
    match org_by {
        StorageOrgBy::Dir => value + "/"@ + org,
        StorageOrgBy::Bucket => org,
    }
}

/// The options of the storage of the tenant `org`: each option as it is,
/// but the tenant's option with the tenant's value.
pub open spec fn tenant_options(
    opt: Seq<(String, String)>,
    org_by: StorageOrgBy,
    org: Seq<char>,
) -> Seq<(Seq<char>, Seq<char>)> {
    Seq::new(
        opt.len(),
        |i: int|
            if opt[i].0@ == tenant_option(org_by) {
                (opt[i].0@, tenant_value(org_by, opt[i].1@, org))
            } else {
                (opt[i].0@, opt[i].1@)
            },
    )
}

impl StorageConfig {
    /// The storage of the tenant `org`: of the same kind and layout, with
    /// the options narrowed to the tenant.
    pub fn for_org(&self, org: &str) -> (r: StorageConfig)
        ensures
            r.kind@ == self.kind@,
            r.org_by == self.org_by,
            r.opt@.len() == self.opt@.len(),
            forall|i: int|
                0 <= i < r.opt@.len() ==> ((#[trigger] r.opt@[i]).0@, r.opt@[i].1@)
                    == tenant_options(self.opt@, self.org_by, org@)[i],
    {
        let mut opt: Vec<(String, String)> = Vec::new();
        let mut i: usize = 0;
        while i < self.opt.len()
            invariant
                i <= self.opt@.len(),
                opt@.len() == i,
                forall|k: int|
                    0 <= k < i ==> ((#[trigger] opt@[k]).0@, opt@[k].1@) == tenant_options(
                        self.opt@,
                        self.org_by,
                        org@,
                    )[k],
            decreases self.opt@.len() - i,
        {
            let key = copy_str(self.opt[i].0.as_str());
            let value = match self.org_by {
                StorageOrgBy::Dir => {
                    if str_eq(key.as_str(), "root") {
                        let mut v = copy_str(self.opt[i].1.as_str());
                        v.append("/");
                        v.append(org);
                        v
                    } else {
                        copy_str(self.opt[i].1.as_str())
                    }
                },
                StorageOrgBy::Bucket => {
                    if str_eq(key.as_str(), "bucket") {
                        copy_str(org)
                    } else {
                        copy_str(self.opt[i].1.as_str())
                    }
                },
            };
            opt.push((key, value));
            i += 1;
        }
        StorageConfig { kind: copy_str(self.kind.as_str()), opt, org_by: self.org_by }
    }
}

/// A tenant: its schema.
#[derive(Debug, PartialEq, Eq)]
pub struct Org {
    pub gql: Schema,
}

/// The request names a tenant that the registry does not hold.
#[derive(Debug, Clone, Copy, PartialEq, Eq, Structural)]
pub struct TenantNotFound {}

/// Whether `entries` holds the tenant `org`.
pub open spec fn holds(entries: Seq<(String, Org)>, org: Seq<char>) -> bool {
    exists|i: int| 0 <= i < entries.len() && #[trigger] entries[i].0@ == org
}

/// A position at which `entries` holds the tenant `org`.
pub open spec fn position(entries: Seq<(String, Org)>, org: Seq<char>) -> int {
    choose|i: int| 0 <= i < entries.len() && #[trigger] entries[i].0@ == org
}

/// Whether no tenant stands twice in `entries`.
pub open spec fn distinct(entries: Seq<(String, Org)>) -> bool {
    forall|i: int, j: int|
        0 <= i < entries.len() && 0 <= j < entries.len() && i != j ==> #[trigger] entries[i].0@
            != #[trigger] entries[j].0@
}

/// The registry of tenants, with the storage that their modules come
/// from.
#[derive(Debug, PartialEq, Eq)]
pub struct Orgs {
    orgs: Vec<(String, Org)>,
    storage: StorageConfig,
}

impl View for Orgs {
    type V = Map<Seq<char>, SchemaView>;

    closed spec fn view(&self) -> Map<Seq<char>, SchemaView> {
        Map::new(
            |org: Seq<char>| holds(self.orgs@, org),
            |org: Seq<char>| self.orgs@[position(self.orgs@, org)].1.gql@,
        )
    }
}

impl Orgs {
    /// Whether the registry is well formed: it holds no tenant twice.
    pub closed spec fn wf(&self) -> bool {
        distinct(self.orgs@)
    }

    /// The storage that the modules come from.
    pub closed spec fn storage_of(&self) -> StorageConfig {
        self.storage
    }

    /// A registry without tenants, for modules from `storage`.
    pub fn new(storage: StorageConfig) -> (r: Orgs)
        ensures
            r.wf(),
            r@ == Map::<Seq<char>, SchemaView>::empty(),
            r.storage_of() == storage,
    {
        let r = Orgs { orgs: Vec::new(), storage };
        proof {
            assert(r@ =~= Map::<Seq<char>, SchemaView>::empty());
        }
        r
    }

    /// The storage that the modules come from.
    pub fn storage(&self) -> (r: &StorageConfig)
        ensures
            *r == self.storage_of(),
    {
        &self.storage
    }

    /// The position of the tenant `org`.
    fn find(&self, org: &str) -> (r: Option<usize>)
        ensures
            match r {
                Some(i) => i < self.orgs@.len() && self.orgs@[i as int].0@ == org@,
                None => !holds(self.orgs@, org@),
            },
    {
        let mut i: usize = 0;
        while i < self.orgs.len()
            invariant
                i <= self.orgs@.len(),
                forall|k: int| 0 <= k < i ==> (#[trigger] self.orgs@[k]).0@ != org@,
            decreases self.orgs@.len() - i,
        {
            if str_eq(self.orgs[i].0.as_str(), org) {
                return Some(i);
            }
            i += 1;
        }
        None
    }

    /// The tenant `org`, if the registry holds it. Its schema is the one
    /// installed last, and it is complete.
    pub fn get(&self, org: &str) -> (r: Result<&Org, TenantNotFound>)
        requires
            self.wf(),
        ensures
            match r {
                Ok(o) => self@.contains_key(org@) && self@[org@] == o.gql@ && complete(o.gql@),
                Err(_) => !self@.contains_key(org@),
            },
    {
        match self.find(org) {
            Some(i) => {
                let o = &self.orgs[i].1;
                proof {
                    assert(holds(self.orgs@, org@));
                    assert(position(self.orgs@, org@) == i);
                }
                let _ = o.gql.handlers();
                Ok(o)
            },
            None => Err(TenantNotFound {  }),
        }
    }

    /// Installs `gql` as the schema of the tenant `org`, in place of the
    /// one it had, if any. The other tenants stay as they are.
    pub fn install(&mut self, org: String, gql: Schema)
        requires
            old(self).wf(),
        ensures
            final(self).wf(),
            final(self)@ == old(self)@.insert(org@, gql@),
            final(self).storage_of() == old(self).storage_of(),
    {
        let ghost before = self.orgs@;
        let ghost key = org@;
        let ghost value = gql@;
        match self.find(org.as_str()) {
            Some(i) => {
                self.orgs[i] = (org, Org { gql });
                proof {
                    let after = self.orgs@;
                    assert(after == before.update(i as int, after[i as int]));
                    assert(distinct(after)) by {
                        assert forall|a: int, b: int|
                            0 <= a < after.len() && 0 <= b < after.len() && a != b implies after[a].0@
                            != after[b].0@ by {
                            assert(after[a].0@ == before[a].0@);
                            assert(after[b].0@ == before[b].0@);
                        }
                    }
                    lemma_installed(before, after, i as int, key, value);
                }
            },
            None => {
                self.orgs.push((org, Org { gql }));
                proof {
                    let after = self.orgs@;
                    assert(distinct(after)) by {
                        assert forall|a: int, b: int|
                            0 <= a < after.len() && 0 <= b < after.len() && a != b implies after[a].0@
                            != after[b].0@ by {
                            if a < before.len() {
                                assert(after[a] == before[a]);
                                assert(before[a].0@ != key);
                            } else {
                                assert(after[a].0@ == key);
                            }
                            if b < before.len() {
                                assert(after[b] == before[b]);
                                assert(before[b].0@ != key);
                            } else {
                                assert(after[b].0@ == key);
                            }
                        }
                    }
                    lemma_installed(before, after, before.len() as int, key, value);
                }
            },
        }
    }
}

/// The registry after an entry was put at position `at`, in place of the
/// tenant's old one or as a new last one, maps the tenant to the new schema
/// and every other tenant as before.
proof fn lemma_installed(
    before: Seq<(String, Org)>,
    after: Seq<(String, Org)>,
    at: int,
    org: Seq<char>,
    gql: SchemaView,
)
    requires
        distinct(before),
        distinct(after),
        0 <= at < after.len(),
        after[at].0@ == org,
        after[at].1.gql@ == gql,
        at < before.len() ==> before[at].0@ == org && after.len() == before.len(),
        at >= before.len() ==> at == before.len() && after.len() == before.len() + 1 && !holds(
            before,
            org,
        ),
        forall|i: int| 0 <= i < before.len() && i != at ==> after[i] == before[i],
    ensures
        Map::new(
            |k: Seq<char>| holds(after, k),
            |k: Seq<char>| after[position(after, k)].1.gql@,
        ) == Map::new(
            |k: Seq<char>| holds(before, k),
            |k: Seq<char>| before[position(before, k)].1.gql@,
        ).insert(org, gql),
{
    let old_map = Map::new(
        |k: Seq<char>| holds(before, k),
        |k: Seq<char>| before[position(before, k)].1.gql@,
    );
    let new_map = Map::new(
        |k: Seq<char>| holds(after, k),
        |k: Seq<char>| after[position(after, k)].1.gql@,
    );
    assert forall|k: Seq<char>| new_map.contains_key(k) <==> old_map.insert(
        org,
        gql,
    ).contains_key(k) by {
        if holds(after, k) {
            let i = position(after, k);
            if i != at && i < before.len() {
                assert(before[i].0@ == k);
            }
        }
        if holds(before, k) {
            let i = position(before, k);
            if i != at {
                assert(after[i].0@ == k);
            } else {
                assert(after[at].0@ == k);
            }
        }
        if k == org {
            assert(after[at].0@ == k);
        }
    }
    assert forall|k: Seq<char>| new_map.contains_key(k) implies new_map[k] == old_map.insert(
        org,
        gql,
    )[k] by {
        let i = position(after, k);
        if k == org {
            assert(after[at].0@ == k);
            assert(i == at);
        } else {
            assert(i != at);
            assert(i < before.len());
            assert(before[i].0@ == k);
            let j = position(before, k);
            assert(j == i);
        }
    }
    assert(new_map =~= old_map.insert(org, gql));
}

/// The registry after the installs of `log` took place, one after the
/// other: each entry of the log is a tenant with the schema installed for
/// it.
pub open spec fn installed(
    registry: Map<Seq<char>, SchemaView>,
    log: Seq<(Seq<char>, SchemaView)>,
) -> Map<Seq<char>, SchemaView>
    decreases log.len(),
{
    if log.len() == 0 {
        registry
    } else {
        installed(registry, log.drop_last()).insert(log.last().0, log.last().1)
    }
}

/// The schema that the log installs last for the tenant `org`, if it
/// installs any.
pub open spec fn last_for(log: Seq<(Seq<char>, SchemaView)>, org: Seq<char>) -> Option<SchemaView>
    decreases log.len(),
{
    if log.len() == 0 {
        None
    } else if log.last().0 == org {
        Some(log.last().1)
    } else {
        last_for(log.drop_last(), org)
    }
}

/// After any sequence of installs, whatever tenants they are for, the
/// registry holds for each tenant the schema installed last for it, and a
/// tenant that none of the installs is for as before.
pub proof fn lemma_last_install_wins(
    registry: Map<Seq<char>, SchemaView>,
    log: Seq<(Seq<char>, SchemaView)>,
    org: Seq<char>,
)
    ensures
        match last_for(log, org) {
            Some(schema) => installed(registry, log).contains_key(org) && installed(
                registry,
                log,
            )[org] == schema,
            None => installed(registry, log).contains_key(org) == registry.contains_key(org) && (
            registry.contains_key(org) ==> installed(registry, log)[org] == registry[org]),
        },
    decreases log.len(),
{
    if log.len() > 0 {
        lemma_last_install_wins(registry, log.drop_last(), org);
    }
}

} // verus!
