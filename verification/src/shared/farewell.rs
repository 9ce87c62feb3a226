//! Who is told that one end of a channel has disconnected.
use futures::task::AtomicWaker;
use vstd::prelude::*;

verus! {

/// The places whose tasks were woken because one end has disconnected, of the
/// two that there are.
pub struct Farewell {
    places: Ghost<(AtomicWaker, AtomicWaker)>,
    woken: Ghost<Seq<AtomicWaker>>,
}

impl View for Farewell {
    type V = Seq<AtomicWaker>;

    /// The places whose tasks were woken, in order.
    closed spec fn view(&self) -> Seq<AtomicWaker> {
        self.woken@
    }
}

impl Farewell {
    /// The farewell is for the tasks of these two places.
    pub closed spec fn is_for(self, sender: AtomicWaker, receiver: AtomicWaker) -> bool {
        self.places@ == (sender, receiver)
    }

    /// The farewell is for the task of this place.
    pub closed spec fn concerns(self, place: AtomicWaker) -> bool {
        place == self.places@.0 || place == self.places@.1
    }
}

/// The two places of a new channel, and the farewell for their tasks.
pub(super) fn prepare() -> (places: (AtomicWaker, AtomicWaker, Farewell))
    ensures
        call_ensures(AtomicWaker::new, (), places.0),
        call_ensures(AtomicWaker::new, (), places.1),
        places.2.is_for(places.0, places.1),
        places.2@ == Seq::<AtomicWaker>::empty(),
{
    let sender = AtomicWaker::new();
    let receiver = AtomicWaker::new();
    let ghost both = (sender, receiver);
    (sender, receiver, Farewell { places: Ghost(both), woken: Ghost(Seq::empty()) })
}

/// A farewell can be for any two places, and it concerns these two and no other.
/// Any tasks can have been woken.
pub proof fn law_farewell_is_free(
    sender: AtomicWaker,
    receiver: AtomicWaker,
    woken: Seq<AtomicWaker>,
    other: AtomicWaker,
)
    ensures
        exists|farewell: Farewell| #[trigger]
            farewell.is_for(sender, receiver) && farewell@ == woken && (farewell.concerns(other)
                <==> other == sender || other == receiver),
{
    let farewell = Farewell { places: Ghost((sender, receiver)), woken: Ghost(woken) };
    assert(farewell.is_for(sender, receiver) && farewell@ == woken && (farewell.concerns(other)
        <==> other == sender || other == receiver));
}

/// A farewell for two places is for each of them.
pub proof fn lemma_concerns(farewell: Farewell, sender: AtomicWaker, receiver: AtomicWaker)
    requires
        farewell.is_for(sender, receiver),
    ensures
        farewell.concerns(sender),
        farewell.concerns(receiver),
{
}

} // verus!
