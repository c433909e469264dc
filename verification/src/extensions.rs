//! The listeners of each function, and what they are sent.

use crate::names::same_text;
use crate::request::NextEvent;
use vstd::prelude::*;
use vstd::string::*;

verus! {

/// One listener's interest in one function.
#[derive(Clone, Debug, PartialEq, Eq)]
pub struct Subscription {
    /// Identifier of the listener.
    pub listener: u64,
    /// Name of the function whose events the listener gets.
    pub function: String,
}

/// An event on its way to one listener.
#[derive(Clone, Debug, PartialEq, Eq)]
pub struct Delivery {
    /// Identifier of the listener.
    pub listener: u64,
    pub event: NextEvent,
}

/// The listeners that are registered, oldest registration first.
pub struct ExtensionCache {
    subscriptions: Vec<Subscription>,
}

/// The listeners of `function` among `subscriptions`, in the order in
/// which they registered, each as often as it registered.
pub open spec fn listeners_of(subscriptions: Seq<(u64, Seq<char>)>, function: Seq<char>) -> Seq<u64>
    decreases subscriptions.len(),
{
    if subscriptions.len() == 0 {
        Seq::empty()
    } else {
        let earlier = listeners_of(subscriptions.drop_last(), function);
        if subscriptions.last().1 == function {
            earlier.push(subscriptions.last().0)
        } else {
            earlier
        }
    }
}

impl View for ExtensionCache {
    type V = Seq<(u64, Seq<char>)>;

    closed spec fn view(&self) -> Seq<(u64, Seq<char>)> {
        self.subscriptions@.map_values(|s: Subscription| (s.listener, s.function@))
    }
}

impl ExtensionCache {
    /// A registry without listeners.
    pub fn new() -> (cache: ExtensionCache)
        ensures
            cache@ == Seq::<(u64, Seq<char>)>::empty(),
    {
        let cache = ExtensionCache { subscriptions: Vec::new() };
        assert(cache@ =~= Seq::<(u64, Seq<char>)>::empty());
        cache
    }

    /// Registers `listener` for the events of `function`.
    pub fn register(&mut self, listener: u64, function: &str)
        ensures
            final(self)@ == old(self)@.push((listener, function@)),
    {
        self.subscriptions.push(Subscription { listener, function: function.to_owned() });
        assert(self@ =~= old(self)@.push((listener, function@)));
    }

    /// How many registrations there are.
    pub fn len(&self) -> (len: usize)
        ensures
            len == self@.len(),
    {
        self.subscriptions.len()
    }

    /// Says whom to send `event` to: the listeners of `function`, in the
    /// order in which they registered. Without listeners nothing is sent,
    /// and that is no failure.
    pub fn send_event(&self, function: &str, event: &NextEvent) -> (deliveries: Vec<Delivery>)
        ensures
            deliveries@.len() == listeners_of(self@, function@).len(),
            forall|i: int|
                0 <= i < deliveries@.len() ==> (#[trigger] deliveries@[i]).listener == listeners_of(
                    self@,
                    function@,
                )[i] && deliveries@[i].event == *event,
    {
        let mut deliveries: Vec<Delivery> = Vec::new();
        let mut i: usize = 0;
        assert(self@.take(0) =~= Seq::<(u64, Seq<char>)>::empty());
        while i < self.subscriptions.len()
            invariant
                i <= self.subscriptions.len(),
                self@.len() == self.subscriptions.len(),
                deliveries@.len() == listeners_of(self@.take(i as int), function@).len(),
                forall|j: int|
                    0 <= j < deliveries@.len() ==> (#[trigger] deliveries@[j]).listener
                        == listeners_of(self@.take(i as int), function@)[j] && deliveries@[j].event
                        == *event,
            decreases self.subscriptions.len() - i,
        {
            proof {
                let next = self@.take(i + 1);
                assert(next.drop_last() =~= self@.take(i as int));
                assert(next.last() == (
                    self.subscriptions@[i as int].listener,
                    self.subscriptions@[i as int].function@,
                ));
            }
            if same_text(self.subscriptions[i].function.as_str(), function) {
                deliveries.push(
                    Delivery { listener: self.subscriptions[i].listener, event: event.duplicate() },
                );
            }
            i += 1;
        }
        assert(self@.take(i as int) =~= self@);
        deliveries
    }
}

} // verus!
