//! The wallets that are registered with key custody.

use vstd::prelude::*;

use crate::text;

verus! {

/// No tenant has two entries.
pub open spec fn each_tenant_once<H>(entries: Seq<(String, H)>) -> bool {
    forall|i: int, j: int|
        0 <= i < j < entries.len() ==> #[trigger] entries[i].0@ != #[trigger] entries[j].0@
}

/// Some entry is this tenant's.
pub open spec fn has_entry<H>(entries: Seq<(String, H)>, tenant_id: Seq<char>) -> bool {
    exists|i: int| 0 <= i < entries.len() && #[trigger] entries[i].0@ == tenant_id
}

/// Where this tenant's entry stands.
pub open spec fn entry_index<H>(entries: Seq<(String, H)>, tenant_id: Seq<char>) -> int {
    choose|i: int| 0 <= i < entries.len() && #[trigger] entries[i].0@ == tenant_id
}

/// What the entries say: each tenant's handle.
pub open spec fn handles<H>(entries: Seq<(String, H)>) -> Map<Seq<char>, H> {
    Map::new(
        |tenant_id: Seq<char>| has_entry(entries, tenant_id),
        |tenant_id: Seq<char>| entries[entry_index(entries, tenant_id)].1,
    )
}

/// The handle that key custody gave out for each registered tenant.
pub struct WalletHandles<H> {
    entries: Vec<(String, H)>,
}

impl<H> View for WalletHandles<H> {
    type V = Map<Seq<char>, H>;

    closed spec fn view(&self) -> Map<Seq<char>, H> {
        handles(self.entries@)
    }
}

/// What is logged of a tenant that could not be registered.
pub open spec fn registration_failure(tenant_id: Seq<char>, reason: Seq<char>) -> Seq<char> {
    "failed to register tenant "@ + tenant_id + " with key custody: "@ + reason
}

impl<H> WalletHandles<H> {
    #[verifier::type_invariant]
    spec fn wf(self) -> bool {
        each_tenant_once(self.entries@)
    }
}

impl<H: Copy> WalletHandles<H> {
    /// No tenant is registered yet.
    pub fn new() -> (r: Self)
        ensures
            r@ == Map::<Seq<char>, H>::empty(),
    {
        let r = WalletHandles { entries: Vec::new() };
        assert(handles(r.entries@) =~= Map::<Seq<char>, H>::empty());
        r
    }

    /// Keeps the handle of a tenant, in place of an earlier one.
    pub fn insert(&mut self, tenant_id: String, handle: H)
        ensures
            final(self)@ == old(self)@.insert(tenant_id@, handle),
    {
        proof {
            use_type_invariant(&*self);
        }
        let mut entries: Vec<(String, H)> = Vec::new();
        std::mem::swap(&mut entries, &mut self.entries);
        let ghost before = entries@;
        let ghost key = tenant_id@;
        let mut i: usize = 0;
        while i < entries.len() && !text::str_eq(entries[i].0.as_str(), tenant_id.as_str())
            invariant
                i <= entries@.len(),
                forall|j: int| 0 <= j < i ==> #[trigger] entries@[j].0@ != tenant_id@,
            decreases entries@.len() - i,
        {
            i = i + 1;
        }
        if i < entries.len() {
            entries.set(i, (tenant_id, handle));
        } else {
            entries.push((tenant_id, handle));
        }
        proof {
            let after = entries@;
            assert(after[i as int].0@ == key);
            assert forall|a: int, b: int| 0 <= a < b < after.len() implies #[trigger] after[a].0@
                != #[trigger] after[b].0@ by {
                if a == i {
                    assert(before[a].0@ == key && before[b] == after[b]);
                } else if b == i {
                    assert(before[a] == after[a]);
                } else {
                    assert(before[a] == after[a] && before[b] == after[b]);
                }
            }
            assert forall|id: Seq<char>| id != key implies has_entry(after, id) == has_entry(
                before,
                id,
            ) by {
                if has_entry(after, id) {
                    assert(before[entry_index(after, id)].0@ == id);
                }
                if has_entry(before, id) {
                    assert(after[entry_index(before, id)].0@ == id);
                }
            }
            assert forall|id: Seq<char>| has_entry(after, id) implies #[trigger] handles(
                after,
            )[id] == handles(before).insert(key, handle)[id] by {
                let j = entry_index(after, id);
                if id == key {
                    assert(j == i);
                } else {
                    assert(before[j].0@ == id);
                    assert(entry_index(before, id) == j);
                }
            }
            assert(handles(after) =~= handles(before).insert(key, handle));
        }
        self.entries = entries;
    }

    /// Settles what key custody made of a tenant's sealed keys. A tenant whose keys cannot be
    /// unsealed is told of in the log, and stands in no other tenant's way.
    pub fn register(&mut self, tenant_id: String, outcome: Result<H, String>) -> (logged: Option<
        String,
    >)
        ensures
            match outcome {
                Ok(handle) => logged is None && final(self)@ == old(self)@.insert(
                    tenant_id@,
                    handle,
                ),
                Err(reason) => final(self)@ == old(self)@ && (logged matches Some(line) && line@
                    == registration_failure(tenant_id@, reason@)),
            },
            outcome matches Err(reason) ==> (logged matches Some(line) && line@
                == "failed to register tenant "@ + tenant_id@ + " with key custody: "@ + reason@),
    {
        match outcome {
            Ok(handle) => {
                self.insert(tenant_id, handle);
                None
            },
            Err(reason) => {
                let mut line = text::join("failed to register tenant ", tenant_id.as_str());
                line.append(" with key custody: ");
                line.append(reason.as_str());
                Some(line)
            },
        }
    }

    /// Every registered tenant with its handle, for one round of work.
    pub fn snapshot(&self) -> (r: Vec<(String, H)>)
        ensures
            handles(r@) == self@,
            each_tenant_once(r@),
            forall|i: int, j: int|
                0 <= i < j < r@.len() ==> #[trigger] r@[i].0@ != #[trigger] r@[j].0@,
            forall|i: int|
                0 <= i < r@.len() ==> self@.contains_key(#[trigger] r@[i].0@) && self@[r@[i].0@]
                    == r@[i].1,
            forall|id: Seq<char>| #[trigger]
                self@.contains_key(id) ==> exists|i: int|
                    0 <= i < r@.len() && #[trigger] r@[i].0@ == id,
    {
        proof {
            use_type_invariant(self);
            entries_tell_their_tenants_handle(self.entries@);
        }
        let mut out: Vec<(String, H)> = Vec::new();
        let mut i: usize = 0;
        while i < self.entries.len()
            invariant
                i <= self.entries@.len(),
                out@ == self.entries@.take(i as int),
            decreases self.entries@.len() - i,
        {
            out.push((self.entries[i].0.clone(), self.entries[i].1));
            assert(out@ =~= self.entries@.take(i + 1));
            i = i + 1;
        }
        assert(out@ =~= self.entries@);
        out
    }
}

/// The handles after key custody was asked for each tenant in turn.
pub open spec fn registered<H>(outcomes: Seq<(String, Result<H, String>)>) -> Map<Seq<char>, H>
    decreases outcomes.len(),
{
    if outcomes.len() == 0 {
        Map::empty()
    } else {
        match outcomes.last().1 {
            Ok(handle) => registered(outcomes.drop_last()).insert(outcomes.last().0@, handle),
            Err(_) => registered(outcomes.drop_last()),
        }
    }
}

/// What was logged meanwhile: a line for each tenant that could not be registered.
pub open spec fn registration_log<H>(outcomes: Seq<(String, Result<H, String>)>) -> Seq<Seq<char>>
    decreases outcomes.len(),
{
    if outcomes.len() == 0 {
        Seq::empty()
    } else {
        match outcomes.last().1 {
            Ok(_) => registration_log(outcomes.drop_last()),
            Err(reason) => registration_log(outcomes.drop_last()).push(
                registration_failure(outcomes.last().0@, reason@),
            ),
        }
    }
}

/// The characters of some lines.
pub open spec fn line_texts(lines: Seq<String>) -> Seq<Seq<char>> {
    lines.map_values(|line: String| line@)
}

/// Settles what key custody made of every tenant's sealed keys at boot: the handles, and
/// what is to be logged.
pub fn register_all_tenants<H: Copy>(outcomes: Vec<(String, Result<H, String>)>) -> (r: (
    WalletHandles<H>,
    Vec<String>,
))
    ensures
        r.0@ == registered(outcomes@),
        line_texts(r.1@) == registration_log(outcomes@),
        r.1@.len() == registration_log(outcomes@).len(),
        forall|i: int| 0 <= i < r.1@.len() ==> #[trigger] r.1@[i]@ == registration_log(outcomes@)[i],
{
    let ghost all = outcomes@;
    let mut wallets: WalletHandles<H> = WalletHandles::new();
    let mut log: Vec<String> = Vec::new();
    let mut i: usize = 0;
    assert(all.take(0) =~= Seq::empty());
    assert(line_texts(log@) =~= Seq::empty());
    while i < outcomes.len()
        invariant
            i <= outcomes@.len(),
            all == outcomes@,
            wallets@ == registered(all.take(i as int)),
            line_texts(log@) == registration_log(all.take(i as int)),
        decreases outcomes@.len() - i,
    {
        let ghost before = log@;
        assert(all.take(i + 1).drop_last() =~= all.take(i as int));
        let outcome: Result<H, String> = match &outcomes[i].1 {
            Ok(handle) => Ok(*handle),
            Err(reason) => Err(reason.clone()),
        };
        match wallets.register(outcomes[i].0.clone(), outcome) {
            Some(line) => {
                log.push(line);
                assert(line_texts(log@) =~= line_texts(before).push(line@));
            },
            None => {},
        }
        i = i + 1;
    }
    assert(all.take(i as int) =~= all);
    assert forall|k: int| 0 <= k < log@.len() implies #[trigger] log@[k]@ == registration_log(all)[k] by {
        assert(line_texts(log@)[k] == log@[k]@);
    }
    (wallets, log)
}

/// Law: a tenant is registered exactly when its keys could be unsealed. No tenant's failure
/// stands in the way of another.
pub proof fn exactly_the_unsealed_tenants_are_registered<H>(
    outcomes: Seq<(String, Result<H, String>)>,
    tenant_id: Seq<char>,
)
    ensures
        registered(outcomes).contains_key(tenant_id) <==> exists|i: int|
            0 <= i < outcomes.len() && #[trigger] outcomes[i].0@ == tenant_id && outcomes[i].1 is Ok,
    decreases outcomes.len(),
{
    if outcomes.len() > 0 {
        let before = outcomes.drop_last();
        let last = outcomes.len() - 1;
        exactly_the_unsealed_tenants_are_registered(before, tenant_id);
        if registered(before).contains_key(tenant_id) {
            let i = choose|i: int|
                0 <= i < before.len() && #[trigger] before[i].0@ == tenant_id && before[i].1 is Ok;
            assert(outcomes[i].0@ == tenant_id);
        }
        if registered(outcomes).contains_key(tenant_id) && !registered(before).contains_key(
            tenant_id,
        ) {
            assert(outcomes[last].0@ == tenant_id);
        }
        if exists|i: int|
            0 <= i < outcomes.len() && #[trigger] outcomes[i].0@ == tenant_id
                && outcomes[i].1 is Ok {
            let i = choose|i: int|
                0 <= i < outcomes.len() && #[trigger] outcomes[i].0@ == tenant_id
                    && outcomes[i].1 is Ok;
            if i < last {
                assert(before[i].0@ == tenant_id);
            }
        }
    }
}

/// Law: where no tenant has two entries, each entry tells its tenant's handle, and nothing
/// else is told.
pub proof fn entries_tell_their_tenants_handle<H>(entries: Seq<(String, H)>)
    requires
        forall|i: int, j: int|
            0 <= i < j < entries.len() ==> #[trigger] entries[i].0@ != #[trigger] entries[j].0@,
    ensures
        forall|i: int|
            0 <= i < entries.len() ==> handles(entries).contains_key(#[trigger] entries[i].0@)
                && handles(entries)[entries[i].0@] == entries[i].1,
        forall|id: Seq<char>| #[trigger]
            handles(entries).contains_key(id) ==> exists|i: int|
                0 <= i < entries.len() && #[trigger] entries[i].0@ == id,
{
    assert forall|i: int| 0 <= i < entries.len() implies handles(entries).contains_key(
        #[trigger] entries[i].0@,
    ) && handles(entries)[entries[i].0@] == entries[i].1 by {
        let id = entries[i].0@;
        assert(has_entry(entries, id));
        let k = entry_index(entries, id);
        assert(entries[k].0@ == id);
        if k < i {
            assert(entries[k].0@ != entries[i].0@);
        } else if i < k {
            assert(entries[i].0@ != entries[k].0@);
        }
    }
}

/// Law: each tenant is settled on its own. A handle takes the place of an earlier one of the
/// same tenant and touches no other; a failure touches nothing and adds its line to the log.
pub proof fn tenants_are_settled_one_by_one<H>(
    outcomes: Seq<(String, Result<H, String>)>,
    tenant_id: String,
    handle: H,
    reason: String,
)
    ensures
        registered(Seq::<(String, Result<H, String>)>::empty()).dom() == Set::<Seq<char>>::empty(),
        registered(outcomes.push((tenant_id, Ok(handle)))) == registered(outcomes).insert(
            tenant_id@,
            handle,
        ),
        registered(outcomes.push((tenant_id, Err(reason)))) == registered(outcomes),
        registration_log(Seq::<(String, Result<H, String>)>::empty()).len() == 0,
        registration_log(outcomes.push((tenant_id, Ok(handle)))) == registration_log(outcomes),
        registration_log(outcomes.push((tenant_id, Err(reason)))) == registration_log(
            outcomes,
        ).push("failed to register tenant "@ + tenant_id@ + " with key custody: "@ + reason@),
{
    assert(outcomes.push((tenant_id, Ok(handle))).drop_last() =~= outcomes);
    assert(outcomes.push((tenant_id, Err(reason))).drop_last() =~= outcomes);
}

/// Law: a tenant holds the handle that key custody gave out for it last.
pub proof fn the_last_handle_of_a_tenant_counts<H>(
    outcomes: Seq<(String, Result<H, String>)>,
    i: int,
    handle: H,
)
    requires
        0 <= i < outcomes.len(),
        outcomes[i].1 == Ok::<H, String>(handle),
        forall|j: int|
            i < j < outcomes.len() && #[trigger] outcomes[j].0@ == outcomes[i].0@
                ==> outcomes[j].1 is Err,
    ensures
        registered(outcomes).contains_key(outcomes[i].0@),
        registered(outcomes)[outcomes[i].0@] == handle,
    decreases outcomes.len(),
{
    let last = outcomes.len() - 1;
    if i < last {
        let before = outcomes.drop_last();
        assert forall|j: int|
            i < j < before.len() && #[trigger] before[j].0@ == before[i].0@ implies before[j].1 is Err by {
            assert(outcomes[j].0@ == outcomes[i].0@);
        }
        the_last_handle_of_a_tenant_counts(before, i, handle);
        if outcomes[last].0@ == outcomes[i].0@ {
            assert(outcomes[last].1 is Err);
        }
    }
}

} // verus!
