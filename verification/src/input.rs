//! The per-frame key state: which keys are down, and which went down or up
//! during the last sampling pass.

use vstd::prelude::*;
use crate::key::{Key, KEY_COUNT};

verus! {

/// A set of keys that never holds `Unknown`.
#[derive(Clone, Copy, Debug)]
pub struct KeySet {
    /// Whether the key at each position is in the set.
    member: [bool; KEY_COUNT],
}

impl View for KeySet {
    type V = Set<Key>;

    closed spec fn view(&self) -> Set<Key> {
        Set::new(|k: Key| k != Key::Unknown && self.member@[k.ordinal() as int])
    }
}

impl KeySet {
    /// The empty set.
    pub fn new() -> (s: KeySet)
        ensures
            s@ == Set::<Key>::empty(),
    {
        let s = KeySet { member: [false; KEY_COUNT] };
        assert(s@ =~= Set::<Key>::empty());
        s
    }

    /// `Unknown` is in no set.
    pub proof fn lemma_never_unknown(self)
        ensures
            !self@.contains(Key::Unknown),
    {
    }

    pub fn contains(&self, key: Key) -> (r: bool)
        ensures
            r == self@.contains(key),
    {
        let i: usize = key.index();
        i < KEY_COUNT && self.member[i]
    }

    /// Adds `key` to the set, unless it is `Unknown`.
    pub fn insert(&mut self, key: Key)
        ensures
            final(self)@ == if key == Key::Unknown {
                old(self)@
            } else {
                old(self)@.insert(key)
            },
    {
        let i: usize = key.index();
        if i < KEY_COUNT {
            self.member[i] = true;
            proof {
                assert forall|k: Key| #[trigger]
                    self@.contains(k) == old(self)@.insert(key).contains(k) by {
                    if k.ordinal() == key.ordinal() {
                        Key::lemma_ordinal_injective(k, key);
                    }
                }
            }
        }
        assert(self@ =~= if key == Key::Unknown {
            old(self)@
        } else {
            old(self)@.insert(key)
        });
    }

    /// Takes `key` out of the set.
    pub fn remove(&mut self, key: Key)
        ensures
            final(self)@ == old(self)@.remove(key),
    {
        let i: usize = key.index();
        if i < KEY_COUNT {
            self.member[i] = false;
            proof {
                assert forall|k: Key| #[trigger]
                    self@.contains(k) == old(self)@.remove(key).contains(k) by {
                    if k.ordinal() == key.ordinal() {
                        Key::lemma_ordinal_injective(k, key);
                    }
                }
            }
        }
        assert(self@ =~= old(self)@.remove(key));
    }

    /// The keys of `self` that are not in `other`.
    pub fn difference(&self, other: &KeySet) -> (r: KeySet)
        ensures
            r@ == self@.difference(other@),
    {
        let mut r = KeySet::new();
        let mut i: usize = 0;
        while i < KEY_COUNT
            invariant
                i <= KEY_COUNT,
                forall|j: int|
                    0 <= j < i ==> r.member@[j] == (self.member@[j] && !other.member@[j]),
            decreases KEY_COUNT - i,
        {
            r.member[i] = self.member[i] && !other.member[i];
            i += 1;
        }
        assert(r@ =~= self@.difference(other@));
        r
    }

    /// The keys that occur in `keys`, but for `Unknown`.
    pub fn from_keys(keys: &Vec<Key>) -> (r: KeySet)
        ensures
            r@ == keys@.to_set().remove(Key::Unknown),
    {
        let mut r = KeySet::new();
        let mut i: usize = 0;
        while i < keys.len()
            invariant
                i <= keys.len(),
                r@ == keys@.take(i as int).to_set().remove(Key::Unknown),
            decreases keys.len() - i,
        {
            r.insert(keys[i]);
            proof {
                let before = keys@.take(i as int);
                let after = keys@.take(i + 1);
                assert forall|k: Key| #[trigger]
                    after.to_set().contains(k) == before.to_set().insert(keys@[i as int]).contains(
                        k,
                    ) by {
                    if after.contains(k) {
                        let j = choose|j: int| 0 <= j < after.len() && after[j] == k;
                        if j < i {
                            assert(before[j] == k);
                        }
                    }
                    if before.contains(k) {
                        let j = choose|j: int| 0 <= j < before.len() && before[j] == k;
                        assert(after[j] == k);
                    }
                    if k == keys@[i as int] {
                        assert(after[i as int] == k);
                    }
                }
                assert(after.to_set() =~= before.to_set().insert(keys@[i as int]));
                assert(r@ =~= after.to_set().remove(Key::Unknown));
            }
            i += 1;
        }
        proof {
            assert(keys@.take(i as int) =~= keys@);
        }
        r
    }
}

/// One notification from a device that reports key presses and releases as
/// they happen.
#[derive(Clone, Copy, Debug, PartialEq, Eq, Structural)]
pub enum KeyEvent {
    Press(Key),
    Release(Key),
}

/// The three sets of keys that a sampling pass leaves behind.
pub struct KeySets {
    /// The keys that are down.
    pub held: Set<Key>,
    /// The keys that were up before the pass and are down after it.
    pub just_pressed: Set<Key>,
    /// The keys that were down before the pass and are up after it.
    pub just_released: Set<Key>,
}

impl KeySets {
    /// No key is down and none has moved.
    pub open spec fn idle() -> KeySets {
        KeySets { held: Set::empty(), just_pressed: Set::empty(), just_released: Set::empty() }
    }

    /// Every key that went down is down, no key that went up is down, and
    /// `Unknown` is in none of the sets.
    pub open spec fn consistent(self) -> bool {
        &&& self.just_pressed.subset_of(self.held)
        &&& self.just_released.disjoint(self.held)
        &&& !self.held.contains(Key::Unknown)
        &&& !self.just_pressed.contains(Key::Unknown)
        &&& !self.just_released.contains(Key::Unknown)
    }

    /// The sets after a pass that finds the keys `down` to be down.
    pub open spec fn polled(self, down: Set<Key>) -> KeySets {
        KeySets {
            held: down,
            just_pressed: down.difference(self.held),
            just_released: self.held.difference(down),
        }
    }

    /// The sets at the start of a pass, before any notification: the same
    /// keys are down and none has moved.
    pub open spec fn settled(self) -> KeySets {
        KeySets { held: self.held, just_pressed: Set::empty(), just_released: Set::empty() }
    }

    /// The sets after a press of `key` is notified. Only a key that was up
    /// moves: it is down now, and it went down during this pass unless it
    /// went up earlier in the pass.
    pub open spec fn pressed(self, key: Key) -> KeySets {
        if key == Key::Unknown || self.held.contains(key) {
            self
        } else if self.just_released.contains(key) {
            KeySets {
                held: self.held.insert(key),
                just_pressed: self.just_pressed,
                just_released: self.just_released.remove(key),
            }
        } else {
            KeySets {
                held: self.held.insert(key),
                just_pressed: self.just_pressed.insert(key),
                just_released: self.just_released,
            }
        }
    }

    /// The sets after a release of `key` is notified. Only a key that was
    /// down moves: it is up now, and it went up during this pass unless it
    /// went down earlier in the pass.
    pub open spec fn released(self, key: Key) -> KeySets {
        if key == Key::Unknown || !self.held.contains(key) {
            self
        } else if self.just_pressed.contains(key) {
            KeySets {
                held: self.held.remove(key),
                just_pressed: self.just_pressed.remove(key),
                just_released: self.just_released,
            }
        } else {
            KeySets {
                held: self.held.remove(key),
                just_pressed: self.just_pressed,
                just_released: self.just_released.insert(key),
            }
        }
    }

    /// The sets after one notification.
    pub open spec fn applied(self, event: KeyEvent) -> KeySets {
        match event {
            KeyEvent::Press(key) => self.pressed(key),
            KeyEvent::Release(key) => self.released(key),
        }
    }

    /// The sets after the notifications `events`, in the order of arrival.
    pub open spec fn applied_all(self, events: Seq<KeyEvent>) -> KeySets
        decreases events.len(),
    {
        if events.len() == 0 {
            self
        } else {
            self.applied_all(events.drop_last()).applied(events.last())
        }
    }

    /// The sets after a pass that drains the notifications `events`.
    pub open spec fn drained(self, events: Seq<KeyEvent>) -> KeySets {
        self.settled().applied_all(events)
    }

    /// The two transition sets are what a poll against the keys `before`
    /// would have found.
    pub open spec fn moved_since(self, before: Set<Key>) -> bool {
        &&& self.just_pressed == self.held.difference(before)
        &&& self.just_released == before.difference(self.held)
    }

    /// A poll leaves consistent sets, whatever the sets were before, as long
    /// as `Unknown` is not among the keys found down.
    pub proof fn lemma_polled_consistent(self, down: Set<Key>)
        requires
            !down.contains(Key::Unknown),
            !self.held.contains(Key::Unknown),
        ensures
            self.polled(down).consistent(),
    {
    }

    /// One notification keeps consistent sets consistent.
    pub proof fn lemma_applied_consistent(self, event: KeyEvent)
        requires
            self.consistent(),
        ensures
            self.applied(event).consistent(),
    {
    }

    /// Whatever notifications a pass drains, in whatever order, the sets it
    /// leaves are consistent.
    pub proof fn lemma_drained_consistent(self, events: Seq<KeyEvent>)
        requires
            !self.held.contains(Key::Unknown),
        ensures
            self.drained(events).consistent(),
        decreases events.len(),
    {
        if events.len() > 0 {
            self.lemma_drained_consistent(events.drop_last());
            self.settled().applied_all(events.drop_last()).lemma_applied_consistent(events.last());
        }
    }

    /// A press of a key that is already down changes none of the three sets:
    /// the key stays down, and it is not counted as pressed again.
    pub proof fn lemma_repeated_press(self, key: Key)
        requires
            self.held.contains(key),
        ensures
            self.pressed(key) == self,
            self.pressed(key).pressed(key) == self.pressed(key),
    {
    }

    /// A pass that drains notifications leaves the sets that a poll would
    /// leave which finds down the keys that are down after the last
    /// notification.
    pub proof fn lemma_drained_is_polled(self, events: Seq<KeyEvent>)
        ensures
            self.drained(events) == self.polled(self.drained(events).held),
        decreases events.len(),
    {
        self.lemma_drained_moved(events);
    }

    /// A key that was down before a pass and is down after it has not moved,
    /// whichever way the pass sampled: it is in neither transition set.
    pub proof fn lemma_held_across_pass(self, down: Set<Key>, events: Seq<KeyEvent>, key: Key)
        requires
            self.held.contains(key),
        ensures
            down.contains(key) ==> !self.polled(down).just_pressed.contains(key) && !self.polled(
                down,
            ).just_released.contains(key),
            self.drained(events).held.contains(key) ==> !self.drained(
                events,
            ).just_pressed.contains(key) && !self.drained(events).just_released.contains(key),
    {
        self.lemma_drained_moved(events);
    }

    proof fn lemma_drained_moved(self, events: Seq<KeyEvent>)
        ensures
            self.drained(events).moved_since(self.held),
        decreases events.len(),
    {
        if events.len() == 0 {
            assert(self.settled().just_pressed =~= self.held.difference(self.held));
            assert(self.settled().just_released =~= self.held.difference(self.held));
        } else {
            self.lemma_drained_moved(events.drop_last());
            let prev = self.drained(events.drop_last());
            let next = prev.applied(events.last());
            assert(next.just_pressed =~= next.held.difference(self.held));
            assert(next.just_released =~= self.held.difference(next.held));
        }
    }
}

/// The key state that a device keeps from one sampling pass to the next.
#[derive(Clone, Copy, Debug)]
pub struct KeyState {
    held: KeySet,
    just_pressed: KeySet,
    just_released: KeySet,
}

impl View for KeyState {
    type V = KeySets;

    closed spec fn view(&self) -> KeySets {
        KeySets {
            held: self.held@,
            just_pressed: self.just_pressed@,
            just_released: self.just_released@,
        }
    }
}

impl KeyState {
    /// The state in which no key is down and none has moved.
    pub fn new() -> (s: KeyState)
        ensures
            s@ == KeySets::idle(),
    {
        KeyState { held: KeySet::new(), just_pressed: KeySet::new(), just_released: KeySet::new() }
    }

    /// `Unknown` is in none of the three sets.
    pub proof fn lemma_never_unknown(self)
        ensures
            !self@.held.contains(Key::Unknown),
            !self@.just_pressed.contains(Key::Unknown),
            !self@.just_released.contains(Key::Unknown),
    {
        self.held.lemma_never_unknown();
        self.just_pressed.lemma_never_unknown();
        self.just_released.lemma_never_unknown();
    }

    /// A sampling pass for a device that can only say which keys are down
    /// right now. `Unknown` entries of `down` are left out.
    pub fn update_from_poll(&mut self, down: &Vec<Key>)
        ensures
            final(self)@ == old(self)@.polled(down@.to_set().remove(Key::Unknown)),
            final(self)@.consistent(),
    {
        let current = KeySet::from_keys(down);
        self.just_pressed = current.difference(&self.held);
        self.just_released = self.held.difference(&current);
        self.held = current;
        proof {
            old(self).lemma_never_unknown();
            old(self)@.lemma_polled_consistent(down@.to_set().remove(Key::Unknown));
        }
    }

    /// Starts a sampling pass for a device that notifies presses and
    /// releases: the same keys are down and none has moved yet.
    pub fn begin_pass(&mut self)
        ensures
            final(self)@ == old(self)@.settled(),
            final(self)@.consistent(),
    {
        self.just_pressed = KeySet::new();
        self.just_released = KeySet::new();
        proof {
            old(self).lemma_never_unknown();
        }
    }

    /// Takes in a press of `key`.
    pub fn press(&mut self, key: Key)
        ensures
            final(self)@ == old(self)@.pressed(key),
            old(self)@.held.contains(key) ==> final(self)@ == old(self)@,
            old(self)@.consistent() ==> final(self)@.consistent(),
    {
        if self.held.contains(key) {
            return ;
        }
        self.held.insert(key);
        if self.just_released.contains(key) {
            self.just_released.remove(key);
        } else {
            self.just_pressed.insert(key);
        }
    }

    /// Takes in a release of `key`.
    pub fn release(&mut self, key: Key)
        ensures
            final(self)@ == old(self)@.released(key),
            !old(self)@.held.contains(key) ==> final(self)@ == old(self)@,
            old(self)@.consistent() ==> final(self)@.consistent(),
    {
        if !self.held.contains(key) {
            proof {
                old(self).lemma_never_unknown();
            }
            return ;
        }
        self.held.remove(key);
        if self.just_pressed.contains(key) {
            self.just_pressed.remove(key);
        } else {
            self.just_released.insert(key);
        }
        proof {
            old(self).lemma_never_unknown();
        }
    }

    /// Takes in one notification.
    pub fn apply(&mut self, event: KeyEvent)
        ensures
            final(self)@ == old(self)@.applied(event),
            old(self)@.consistent() ==> final(self)@.consistent(),
    {
        match event {
            KeyEvent::Press(key) => self.press(key),
            KeyEvent::Release(key) => self.release(key),
        }
    }

    /// A sampling pass for a device that notifies presses and releases:
    /// drains `events` in the order of arrival.
    pub fn update_from_events(&mut self, events: &Vec<KeyEvent>)
        ensures
            final(self)@ == old(self)@.drained(events@),
            final(self)@.consistent(),
    {
        self.begin_pass();
        let mut i: usize = 0;
        while i < events.len()
            invariant
                i <= events.len(),
                self@ == old(self)@.drained(events@.take(i as int)),
                self@.consistent(),
            decreases events.len() - i,
        {
            assert(events@.take(i + 1).drop_last() =~= events@.take(i as int));
            self.apply(events[i]);
            i += 1;
        }
        assert(events@.take(i as int) =~= events@);
    }

    /// Whether `key` is down.
    pub fn is_key_pressed(&self, key: Key) -> (r: bool)
        ensures
            r == self@.held.contains(key),
    {
        self.held.contains(key)
    }

    /// Whether `key` went down during the last pass.
    pub fn is_key_just_pressed(&self, key: Key) -> (r: bool)
        ensures
            r == self@.just_pressed.contains(key),
    {
        self.just_pressed.contains(key)
    }

    /// Whether `key` went up during the last pass.
    pub fn is_key_just_released(&self, key: Key) -> (r: bool)
        ensures
            r == self@.just_released.contains(key),
    {
        self.just_released.contains(key)
    }
}

} // verus!
