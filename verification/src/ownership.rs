//! The shared ownership of one backing allocation, as a state machine: who
//! still refers to it, and how often it has been freed.

use vstd::prelude::*;

verus! {

/// What can happen to the references to one allocation.
pub enum OwnershipEvent {
    /// The native side publishes one more managed view.
    CreateView,
    /// The managed side disposes of one view.
    DisposeView,
    /// The native side disposes of its handle.
    DisposeNative,
}

/// The references to one allocation.
pub struct Ownership {
    /// The native side still has its handle.
    pub native: bool,
    /// The number of managed views that are not disposed of.
    pub views: nat,
    /// How often the allocation has been freed.
    pub frees: nat,
}

impl Ownership {
    /// The state of a new allocation: the native side has its handle, no
    /// view exists, nothing has been freed.
    pub open spec fn initial() -> Ownership {
        Ownership { native: true, views: 0, frees: 0 }
    }

    /// Nothing refers to the allocation any more.
    pub open spec fn unreferenced(self) -> bool {
        !self.native && self.views == 0
    }

    /// Whether `event` can happen: a view is created through the native
    /// handle, and only what exists is disposed of.
    pub open spec fn admits(self, event: OwnershipEvent) -> bool {
        match event {
            OwnershipEvent::CreateView => self.native,
            OwnershipEvent::DisposeView => self.views > 0,
            OwnershipEvent::DisposeNative => self.native,
        }
    }

    /// The references after `event`, where it can happen: the count goes up
    /// or down by one, and the allocation is freed by the event that takes
    /// the last reference away.
    pub open spec fn after(self, event: OwnershipEvent) -> Ownership {
        match event {
            OwnershipEvent::CreateView => Ownership { views: self.views + 1, ..self },
            OwnershipEvent::DisposeView => Ownership {
                views: (self.views - 1) as nat,
                frees: if !self.native && self.views == 1 {
                    self.frees + 1
                } else {
                    self.frees
                },
                ..self
            },
            OwnershipEvent::DisposeNative => Ownership {
                native: false,
                frees: if self.views == 0 {
                    self.frees + 1
                } else {
                    self.frees
                },
                ..self
            },
        }
    }

    /// The references after `event`; an event that cannot happen changes
    /// nothing.
    pub open spec fn step(self, event: OwnershipEvent) -> Ownership {
        if self.admits(event) {
            self.after(event)
        } else {
            self
        }
    }

    /// The references after `events`, one after the other.
    pub open spec fn run(self, events: Seq<OwnershipEvent>) -> Ownership
        decreases events.len(),
    {
        if events.len() == 0 {
            self
        } else {
            self.run(events.drop_last()).step(events.last())
        }
    }

    /// The allocation has been freed once if nothing refers to it, and not
    /// at all if anything does.
    pub open spec fn sound(self) -> bool {
        self.frees == if self.unreferenced() {
            1nat
        } else {
            0nat
        }
    }

    /// How many of `events` took effect as creations of a view.
    pub open spec fn created(self, events: Seq<OwnershipEvent>) -> nat
        decreases events.len(),
    {
        if events.len() == 0 {
            0
        } else {
            let before = self.run(events.drop_last());
            self.created(events.drop_last()) + if events.last() is CreateView && before.admits(
                events.last(),
            ) {
                1nat
            } else {
                0nat
            }
        }
    }

    /// How many of `events` took effect as disposals of a view.
    pub open spec fn disposed(self, events: Seq<OwnershipEvent>) -> nat
        decreases events.len(),
    {
        if events.len() == 0 {
            0
        } else {
            let before = self.run(events.drop_last());
            self.disposed(events.drop_last()) + if events.last() is DisposeView && before.admits(
                events.last(),
            ) {
                1nat
            } else {
                0nat
            }
        }
    }
}

/// One event keeps the state sound.
pub proof fn lemma_step_sound(state: Ownership, event: OwnershipEvent)
    requires
        state.sound(),
    ensures
        state.step(event).sound(),
{
}

/// Whatever the order in which views are created and disposed of and the
/// native handle is given up, the allocation is freed if and only if neither
/// the native handle nor any view is left: it is never freed while a
/// reference remains, it is freed once the last is gone, and it is never
/// freed twice.
pub proof fn lemma_freed_iff_unreferenced(events: Seq<OwnershipEvent>)
    ensures
        Ownership::initial().run(events).sound(),
        Ownership::initial().run(events).frees <= 1,
        Ownership::initial().run(events).frees == 1 <==> Ownership::initial().run(
            events,
        ).unreferenced(),
    decreases events.len(),
{
    if events.len() > 0 {
        lemma_freed_iff_unreferenced(events.drop_last());
        lemma_step_sound(Ownership::initial().run(events.drop_last()), events.last());
    }
}

/// The views that are left are those created and not yet disposed of.
pub proof fn lemma_views_are_created_less_disposed(events: Seq<OwnershipEvent>)
    ensures
        Ownership::initial().run(events).views + Ownership::initial().disposed(events)
            == Ownership::initial().created(events),
    decreases events.len(),
{
    if events.len() > 0 {
        lemma_views_are_created_less_disposed(events.drop_last());
    }
}

/// The allocation is freed if and only if the native handle is disposed of
/// and as many views are disposed of as were created.
pub proof fn lemma_freed_iff_all_disposed(events: Seq<OwnershipEvent>)
    ensures
        Ownership::initial().run(events).frees == 1 <==> !Ownership::initial().run(events).native
            && Ownership::initial().disposed(events) == Ownership::initial().created(events),
{
    lemma_freed_iff_unreferenced(events);
    lemma_views_are_created_less_disposed(events);
}

} // verus!
