//! Resources of accounts, read through a state view with pending writes on top.
use vstd::prelude::*;
use vstd::string::StringSliceAdditionalSpecFns;

use crate::state::{read_view, NexusStateView};
use crate::text::extend_bytes;
use crate::types::AccountAddress;
use crate::vm_types::{changes_model, StateChange, VmError, VmResult};
use crate::write_set::{
    clone_opt_bytes, lemma_lookup_insert_other, lemma_lookup_insert_same, model_insert,
    model_lookup, opt_bytes, sorted, lemma_insert_sorted, EntryModel, WriteSet,
};

verus! {

/// The bytes `resource::`.
pub open spec fn resource_prefix() -> Seq<u8> {
    seq![0x72u8, 0x65, 0x73, 0x6f, 0x75, 0x72, 0x63, 0x65, 0x3a, 0x3a]
}

/// The storage key of a resource: `resource::` followed by its type tag.
pub open spec fn spec_resource_key(type_tag: Seq<u8>) -> Seq<u8> {
    resource_prefix() + type_tag
}

/// The storage key `resource::{type_tag}`.
pub fn resource_key(type_tag: &str) -> (r: Vec<u8>)
    ensures
        r@ == spec_resource_key(type_tag.spec_bytes()),
{
    let mut key = vec![0x72u8, 0x65, 0x73, 0x6f, 0x75, 0x72, 0x63, 0x65, 0x3a, 0x3a];
    assert(key@ =~= resource_prefix());
    extend_bytes(&mut key, type_tag.as_bytes());
    key
}

/// Two type tags share a resource key only when they are the same bytes.
pub proof fn lemma_resource_key_injective(t1: Seq<u8>, t2: Seq<u8>)
    ensures
        spec_resource_key(t1) == spec_resource_key(t2) <==> t1 == t2,
{
    if spec_resource_key(t1) == spec_resource_key(t2) {
        assert(t1 =~= spec_resource_key(t1).skip(10));
        assert(t2 =~= spec_resource_key(t2).skip(10));
    }
}

/// The pending write to a resource, if there is one (`Some(None)` for a removal).
pub open spec fn pending_read(
    overlay: Seq<EntryModel>,
    account: AccountAddress,
    type_tag: Seq<u8>,
) -> Option<Option<Seq<u8>>> {
    model_lookup(overlay, account, spec_resource_key(type_tag))
}

/// What a read of a resource may answer: the pending write if there is one (`None` for a
/// removal), else an answer the state view admits under the resource's key.
pub open spec fn resource_answer(
    overlay: Seq<EntryModel>,
    view: NexusStateView<'_>,
    account: AccountAddress,
    type_tag: Seq<u8>,
    answer: Result<Option<Seq<u8>>, VmError>,
) -> bool {
    match pending_read(overlay, account, type_tag) {
        Some(p) => answer == Ok::<Option<Seq<u8>>, VmError>(p),
        None => view.admits(account, spec_resource_key(type_tag), answer),
    }
}

/// Resource reads and writes of one execution; writes stay pending until taken out.
pub struct ResourceStore<'a> {
    view: &'a NexusStateView<'a>,
    overlay: WriteSet,
}

impl<'a> ResourceStore<'a> {
    /// The pending writes, in key order.
    pub closed spec fn pending(&self) -> Seq<EntryModel> {
        self.overlay.model()
    }

    /// The state view below the pending writes.
    pub closed spec fn spec_view(&self) -> NexusStateView<'a> {
        *self.view
    }

    /// A store over `view` with nothing pending.
    pub fn new(view: &'a NexusStateView<'a>) -> (r: Self)
        ensures
            r.pending() == Seq::<EntryModel>::empty(),
            r.spec_view() == *view,
    {
        ResourceStore { view, overlay: WriteSet::new() }
    }

    /// The pending write to the resource if there is one (`None` for a removal), else what
    /// the state view reads under the resource's key.
    pub fn get(&self, account: &AccountAddress, type_tag: &str) -> (r: VmResult<Option<Vec<u8>>>)
        ensures
            pending_read(self.pending(), *account, type_tag.spec_bytes()) matches Some(p) ==> (
            r matches Ok(v) && opt_bytes(v) == p),
            pending_read(self.pending(), *account, type_tag.spec_bytes()) is None ==> self.spec_view().admits(
                *account,
                spec_resource_key(type_tag.spec_bytes()),
                read_view(r),
            ),
            resource_answer(self.pending(), self.spec_view(), *account, type_tag.spec_bytes(), read_view(r)),
    {
        let key = resource_key(type_tag);
        let pending = self.overlay.get(&(*account, key));
        match pending {
            Some(entry) => Ok(clone_opt_bytes(entry)),
            None => {
                let key = resource_key(type_tag);
                self.view.get_resource(account, key.as_slice())
            },
        }
    }

    /// Records a write of `value` to the resource.
    pub fn set(&mut self, account: AccountAddress, type_tag: &str, value: Vec<u8>)
        ensures
            final(self).pending() == model_insert(
                old(self).pending(),
                account,
                spec_resource_key(type_tag.spec_bytes()),
                Some(value@),
            ),
            final(self).spec_view() == old(self).spec_view(),
    {
        let key = resource_key(type_tag);
        self.overlay.insert(account, key, Some(value));
    }

    /// Records a removal of the resource.
    pub fn remove(&mut self, account: AccountAddress, type_tag: &str)
        ensures
            final(self).pending() == model_insert(
                old(self).pending(),
                account,
                spec_resource_key(type_tag.spec_bytes()),
                None,
            ),
            final(self).spec_view() == old(self).spec_view(),
    {
        let key = resource_key(type_tag);
        self.overlay.insert(account, key, None);
    }

    /// The pending writes, as a write set and as state changes in key order.
    pub fn into_changes(self) -> (r: (WriteSet, Vec<StateChange>))
        ensures
            r.0.model() == self.pending(),
            changes_model(r.1@) == self.pending(),
    {
        let changes = crate::vm_types::write_set_changes(&self.overlay);
        (self.overlay, changes)
    }
}

/// Reading a resource after writing it gives back exactly the bytes written, whatever the
/// state view holds.
pub proof fn law_read_after_set(
    overlay: Seq<EntryModel>,
    view: NexusStateView<'_>,
    account: AccountAddress,
    type_tag: Seq<u8>,
    value: Seq<u8>,
    answer: Result<Option<Seq<u8>>, VmError>,
)
    ensures
        resource_answer(
            model_insert(overlay, account, spec_resource_key(type_tag), Some(value)),
            view,
            account,
            type_tag,
            answer,
        ) <==> answer == Ok::<Option<Seq<u8>>, VmError>(Some(value)),
{
    lemma_lookup_insert_same(overlay, account, spec_resource_key(type_tag), Some(value));
}

/// Reading a resource after removing it finds nothing, whatever the state view holds.
pub proof fn law_read_after_remove(
    overlay: Seq<EntryModel>,
    view: NexusStateView<'_>,
    account: AccountAddress,
    type_tag: Seq<u8>,
    answer: Result<Option<Seq<u8>>, VmError>,
)
    ensures
        resource_answer(
            model_insert(overlay, account, spec_resource_key(type_tag), None),
            view,
            account,
            type_tag,
            answer,
        ) <==> answer == Ok::<Option<Seq<u8>>, VmError>(None),
{
    lemma_lookup_insert_same(overlay, account, spec_resource_key(type_tag), None);
}

/// A write or removal of one resource leaves what a read of every other resource may
/// answer unchanged, pending or read through the state view.
pub proof fn law_write_leaves_other_resources(
    overlay: Seq<EntryModel>,
    view: NexusStateView<'_>,
    account: AccountAddress,
    type_tag: Seq<u8>,
    value: Option<Seq<u8>>,
    other_account: AccountAddress,
    other_tag: Seq<u8>,
    answer: Result<Option<Seq<u8>>, VmError>,
)
    requires
        !(account@ == other_account@ && type_tag == other_tag),
    ensures
        resource_answer(
            model_insert(overlay, account, spec_resource_key(type_tag), value),
            view,
            other_account,
            other_tag,
            answer,
        ) == resource_answer(overlay, view, other_account, other_tag, answer),
{
    lemma_resource_key_injective(type_tag, other_tag);
    lemma_lookup_insert_other(
        overlay,
        account,
        spec_resource_key(type_tag),
        value,
        other_account,
        spec_resource_key(other_tag),
    );
}

/// A lookup depends on the account only through its bytes.
proof fn lemma_lookup_same_account(m: Seq<EntryModel>, a: AccountAddress, b: AccountAddress, k: Seq<u8>)
    requires
        a@ == b@,
    ensures
        model_lookup(m, a, k) == model_lookup(m, b, k),
    decreases m.len(),
{
    if m.len() > 0 {
        lemma_lookup_same_account(m.drop_first(), a, b, k);
    }
}

/// One write to a resource: the account, the type tag, and the bytes (`None` removes).
pub type ResourceWrite = (AccountAddress, Seq<u8>, Option<Seq<u8>>);

/// The pending writes of a fresh store after the given writes, first to last.
pub open spec fn pending_after(writes: Seq<ResourceWrite>) -> Seq<EntryModel>
    decreases writes.len(),
{
    if writes.len() == 0 {
        Seq::empty()
    } else {
        let w = writes.last();
        model_insert(pending_after(writes.drop_last()), w.0, spec_resource_key(w.1), w.2)
    }
}

/// The last of the writes to a resource, if any.
pub open spec fn last_write(writes: Seq<ResourceWrite>, account: AccountAddress, type_tag: Seq<u8>) -> Option<
    Option<Seq<u8>>,
>
    decreases writes.len(),
{
    if writes.len() == 0 {
        None
    } else if writes.last().0@ == account@ && writes.last().1 == type_tag {
        Some(writes.last().2)
    } else {
        last_write(writes.drop_last(), account, type_tag)
    }
}

/// After any sequence of writes and removals on a fresh store, the pending writes (what
/// `into_changes` hands out) are in strict key order, and each resource's entry is its last
/// write, while an untouched resource has none.
pub proof fn law_pending_after_writes(writes: Seq<ResourceWrite>, account: AccountAddress, type_tag: Seq<u8>)
    ensures
        sorted(pending_after(writes)),
        pending_read(pending_after(writes), account, type_tag) == last_write(writes, account, type_tag),
    decreases writes.len(),
{
    if writes.len() > 0 {
        let w = writes.last();
        let before = pending_after(writes.drop_last());
        law_pending_after_writes(writes.drop_last(), account, type_tag);
        lemma_insert_sorted(before, w.0, spec_resource_key(w.1), w.2);
        if w.0@ == account@ && w.1 == type_tag {
            lemma_lookup_insert_same(before, w.0, spec_resource_key(w.1), w.2);
            lemma_lookup_same_account(
                pending_after(writes),
                w.0,
                account,
                spec_resource_key(type_tag),
            );
        } else {
            lemma_resource_key_injective(w.1, type_tag);
            lemma_lookup_insert_other(before, w.0, spec_resource_key(w.1), w.2, account, spec_resource_key(type_tag));
        }
    }
}

/// After any sequence of writes and removals on a fresh store over `view`, a read of a
/// resource gives its last write (`None` after a removal, whatever the view holds), and a
/// resource the sequence never touched reads as the view answers.
pub proof fn law_read_after_writes(
    writes: Seq<ResourceWrite>,
    view: NexusStateView<'_>,
    account: AccountAddress,
    type_tag: Seq<u8>,
    answer: Result<Option<Seq<u8>>, VmError>,
)
    ensures
        resource_answer(pending_after(writes), view, account, type_tag, answer) <==> match last_write(
            writes,
            account,
            type_tag,
        ) {
            Some(v) => answer == Ok::<Option<Seq<u8>>, VmError>(v),
            None => view.admits(account, spec_resource_key(type_tag), answer),
        },
{
    law_pending_after_writes(writes, account, type_tag);
}

} // verus!
