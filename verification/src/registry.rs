//! The callback registry: revocable bindings from UI events to handlers.
//!
//! An entry pairs a receiver identity with a handler identity; both are plain
//! numbers the render loop chooses, never addresses, so a stale handle can at
//! worst name a revoked entry and dispatch through it is a clean no-op.
//! Entries are only ever appended or marked revoked, never removed, so a
//! handle's index stays meaningful for the registry's whole life.

use vstd::prelude::*;

use crate::tree::BindingHandle;

verus! {

/// One registry entry: who receives the event, which handler runs, and
/// whether the binding has been revoked.
#[derive(Clone, Copy, PartialEq, Eq, Structural, Debug)]
pub struct RegistryEntry {
    pub receiver: u64,
    pub handler: u64,
    pub revoked: bool,
}

/// The table of event-callback bindings.
#[derive(Debug)]
pub struct CallbackRegistry {
    entries: Vec<RegistryEntry>,
}

impl View for CallbackRegistry {
    type V = Seq<RegistryEntry>;

    closed spec fn view(&self) -> Seq<RegistryEntry> {
        self.entries@
    }
}

/// What `register` does to the table.
pub open spec fn spec_register(
    entries: Seq<RegistryEntry>,
    receiver: u64,
    handler: u64,
) -> Seq<RegistryEntry> {
    entries.push(RegistryEntry { receiver, handler, revoked: false })
}

/// What `revoke` does to the table: the named entry, if it exists, becomes
/// inert; every other entry is untouched.
pub open spec fn spec_revoke(entries: Seq<RegistryEntry>, h: BindingHandle) -> Seq<RegistryEntry> {
    if h.index < entries.len() {
        entries.update(
            h.index as int,
            RegistryEntry {
                receiver: entries[h.index as int].receiver,
                handler: entries[h.index as int].handler,
                revoked: true,
            },
        )
    } else {
        entries
    }
}

/// A handle is live in a table when it names an entry that has not been
/// revoked.
pub open spec fn spec_live_in(entries: Seq<RegistryEntry>, h: BindingHandle) -> bool {
    h.index < entries.len() && !entries[h.index as int].revoked
}

/// What dispatching through a handle finds in a table: the bound pair while
/// the entry is live, nothing once it is revoked or when the handle is
/// foreign to the table.
pub open spec fn spec_lookup_in(entries: Seq<RegistryEntry>, h: BindingHandle) -> Option<
    (u64, u64),
> {
    if spec_live_in(entries, h) {
        Some((entries[h.index as int].receiver, entries[h.index as int].handler))
    } else {
        None
    }
}

impl CallbackRegistry {
    /// A handle is live when it names an entry that has not been revoked.
    pub open spec fn spec_live(self, h: BindingHandle) -> bool {
        spec_live_in(self@, h)
    }

    /// What dispatching through a handle finds: the bound pair while the
    /// entry is live, nothing once it is revoked or when the handle is
    /// foreign to this registry.
    pub open spec fn spec_lookup(self, h: BindingHandle) -> Option<(u64, u64)> {
        spec_lookup_in(self@, h)
    }

    pub fn new() -> (r: CallbackRegistry)
        ensures
            r@ == Seq::<RegistryEntry>::empty(),
    {
        CallbackRegistry { entries: Vec::new() }
    }

    pub fn len(&self) -> (r: usize)
        ensures
            r == self@.len(),
    {
        self.entries.len()
    }

    /// Create a binding of `handler` to `receiver`, live until revoked.
    pub fn register(&mut self, receiver: u64, handler: u64) -> (h: BindingHandle)
        ensures
            final(self)@ == spec_register(old(self)@, receiver, handler),
            h.index == old(self)@.len(),
            final(self).spec_live(h),
    {
        let h = BindingHandle { index: self.entries.len() };
        self.entries.push(RegistryEntry { receiver, handler, revoked: false });
        h
    }

    /// Make the named binding inert. Dispatching through its handle finds
    /// nothing from here on; other bindings are untouched. A handle foreign
    /// to the registry is ignored.
    pub fn revoke(&mut self, h: BindingHandle)
        ensures
            final(self)@ == spec_revoke(old(self)@, h),
            !final(self).spec_live(h),
    {
        if h.index < self.entries.len() {
            let e = self.entries[h.index];
            self.entries.set(
                h.index,
                RegistryEntry { receiver: e.receiver, handler: e.handler, revoked: true },
            );
        }
    }

    /// Make every binding inert, as a teardown must before the memory the
    /// receivers name is reused.
    pub fn revoke_all(&mut self)
        ensures
            final(self)@.len() == old(self)@.len(),
            forall|i: int|
                0 <= i < old(self)@.len() ==> #[trigger] final(self)@[i] == (RegistryEntry {
                    receiver: old(self)@[i].receiver,
                    handler: old(self)@[i].handler,
                    revoked: true,
                }),
            forall|h: BindingHandle| !final(self).spec_live(h),
    {
        let mut i: usize = 0;
        while i < self.entries.len()
            invariant
                self@.len() == old(self)@.len(),
                i <= self@.len(),
                forall|k: int|
                    0 <= k < i ==> #[trigger] self@[k] == (RegistryEntry {
                        receiver: old(self)@[k].receiver,
                        handler: old(self)@[k].handler,
                        revoked: true,
                    }),
                forall|k: int| i <= k < self@.len() ==> #[trigger] self@[k] == old(self)@[k],
            decreases self@.len() - i,
        {
            let e = self.entries[i];
            self.entries.set(
                i,
                RegistryEntry { receiver: e.receiver, handler: e.handler, revoked: true },
            );
            i += 1;
        }
    }

    /// Find the binding a handle names, if it is still live.
    pub fn lookup(&self, h: BindingHandle) -> (r: Option<(u64, u64)>)
        ensures
            r == self.spec_lookup(h),
    {
        if h.index < self.entries.len() {
            let e = self.entries[h.index];
            if e.revoked {
                None
            } else {
                Some((e.receiver, e.handler))
            }
        } else {
            None
        }
    }
}

/// Callback revocation: once a binding is revoked — as every binding of a
/// discarded frame is, before that frame's arena is reset — dispatching
/// through its handle finds nothing; and no other binding is disturbed by
/// the revocation.
pub proof fn lemma_revoked_binding_is_inert(entries: Seq<RegistryEntry>, h: BindingHandle)
    ensures
        spec_lookup_in(spec_revoke(entries, h), h) is None,
        spec_revoke(entries, h).len() == entries.len(),
        forall|i: int|
            0 <= i < entries.len() && i != h.index ==> #[trigger] spec_revoke(entries, h)[i]
                == entries[i],
{
}

} // verus!
