//! Which buttons are held, and which were pressed or released since the
//! last clearing.

use vstd::prelude::*;

verus! {

/// A key or button that a `ButtonMap` can hold. Its code tells it from
/// every other value of its type.
pub trait Button: Copy {
    /// The code of the button.
    spec fn spec_code(&self) -> u64;

    /// The code of the button.
    fn code(&self) -> (code: u64)
        ensures
            code == self.spec_code(),
    ;

    /// Buttons with the same code are the same button.
    proof fn lemma_code_identifies(a: Self, b: Self)
        requires
            a.spec_code() == b.spec_code(),
        ensures
            a == b,
    ;
}

/// The state of a `ButtonMap`: the buttons that are held, and those that
/// went down or up since the last clearing.
#[verifier::reject_recursive_types(T)]
pub struct ButtonModel<T> {
    pub pressed: Set<T>,
    pub just_pressed: Set<T>,
    pub just_released: Set<T>,
}

impl<T> ButtonModel<T> {
    /// The state after `input` went down.
    pub open spec fn press(self, input: T) -> ButtonModel<T> {
        ButtonModel {
            pressed: self.pressed.insert(input),
            just_pressed: if self.pressed.contains(input) {
                self.just_pressed
            } else {
                self.just_pressed.insert(input)
            },
            just_released: self.just_released,
        }
    }

    /// The state after `input` went up.
    pub open spec fn release(self, input: T) -> ButtonModel<T> {
        ButtonModel {
            pressed: self.pressed.remove(input),
            just_pressed: self.just_pressed,
            just_released: if self.pressed.contains(input) {
                self.just_released.insert(input)
            } else {
                self.just_released
            },
        }
    }

    /// The state after a clearing.
    pub open spec fn clear(self) -> ButtonModel<T> {
        ButtonModel {
            pressed: self.pressed,
            just_pressed: Set::empty(),
            just_released: Set::empty(),
        }
    }
}

/// The place of `input` in `items`.
fn find<T: Button>(items: &Vec<T>, input: T) -> (at: Option<usize>)
    ensures
        match at {
            Some(i) => i < items@.len() && items@[i as int] == input,
            None => !items@.contains(input),
        },
{
    let mut i: usize = 0;
    while i < items.len()
        invariant
            i <= items.len(),
            forall|j: int| 0 <= j < i ==> items@[j] != input,
        decreases items.len() - i,
    {
        if items[i].code() == input.code() {
            proof {
                T::lemma_code_identifies(items@[i as int], input);
            }
            return Some(i);
        }
        i += 1;
    }
    None
}

/// Adds `input` to `items` unless it is there. Returns whether it was added.
fn put_in<T: Button>(items: &mut Vec<T>, input: T) -> (added: bool)
    ensures
        old(items)@.no_duplicates() ==> final(items)@.no_duplicates(),
        added == !old(items)@.contains(input),
        final(items)@.to_set() == old(items)@.to_set().insert(input),
{
    match find(items, input) {
        Some(_) => {
            proof {
                assert(items@.to_set() =~= items@.to_set().insert(input));
            }
            false
        },
        None => {
            items.push(input);
            proof {
                let before = old(items)@;
                assert forall|t: T| items@.to_set().contains(t) <==> before.to_set().insert(input).contains(t) by {
                    if items@.contains(t) {
                        let j = choose|j: int| 0 <= j < items@.len() && items@[j] == t;
                        if j < before.len() {
                            assert(before[j] == t);
                        }
                    }
                    if before.contains(t) {
                        let j = choose|j: int| 0 <= j < before.len() && before[j] == t;
                        assert(items@[j] == t);
                    }
                    if t == input {
                        assert(items@[before.len() as int] == input);
                    }
                }
                assert(items@.to_set() =~= before.to_set().insert(input));
            }
            true
        },
    }
}

/// What taking the element at `i` out of `s` does to the members of `s`.
proof fn lemma_remove_at<T>(s: Seq<T>, i: int)
    requires
        0 <= i < s.len(),
    ensures
        forall|t: T| s.remove(i).contains(t) ==> s.contains(t),
        forall|t: T| s.contains(t) && t != s[i] ==> s.remove(i).contains(t),
        s.no_duplicates() ==> s.remove(i).no_duplicates(),
{
    let r = s.remove(i);
    assert forall|t: T| r.contains(t) implies s.contains(t) by {
        let j = choose|j: int| 0 <= j < r.len() && r[j] == t;
        if j < i {
            assert(s[j] == t);
        } else {
            assert(s[j + 1] == t);
        }
    }
    assert forall|t: T| s.contains(t) && t != s[i] implies r.contains(t) by {
        let j = choose|j: int| 0 <= j < s.len() && s[j] == t;
        if j < i {
            assert(r[j] == t);
        } else {
            assert(r[j - 1] == t);
        }
    }
    if s.no_duplicates() {
        assert forall|a: int, b: int| 0 <= a < r.len() && 0 <= b < r.len() && a != b implies r[a]
            != r[b] by {
            let a2 = if a < i {
                a
            } else {
                a + 1
            };
            let b2 = if b < i {
                b
            } else {
                b + 1
            };
            assert(s[a2] != s[b2]);
        }
    }
}

/// Takes `input` out of `items` wherever it stands. Returns whether it was there.
fn take_out<T: Button>(items: &mut Vec<T>, input: T) -> (removed: bool)
    ensures
        old(items)@.no_duplicates() ==> final(items)@.no_duplicates(),
        removed == old(items)@.contains(input),
        final(items)@.to_set() == old(items)@.to_set().remove(input),
{
    let mut removed = false;
    let mut i: usize = 0;
    while i < items.len()
        invariant
            i <= items.len(),
            old(items)@.no_duplicates() ==> items@.no_duplicates(),
            forall|j: int| 0 <= j < i ==> items@[j] != input,
            forall|t: T| items@.contains(t) ==> old(items)@.contains(t),
            forall|t: T| old(items)@.contains(t) && t != input ==> items@.contains(t),
            removed ==> old(items)@.contains(input),
            !removed ==> items@ == old(items)@,
        decreases items.len() - i,
    {
        if items[i].code() == input.code() {
            proof {
                T::lemma_code_identifies(items@[i as int], input);
                lemma_remove_at(items@, i as int);
                assert(items@.contains(items@[i as int]));
            }
            let ghost before = items@;
            items.remove(i);
            proof {
                assert(items@ =~= before.remove(i as int));
            }
            removed = true;
        } else {
            i += 1;
        }
    }
    proof {
        assert forall|t: T| items@.to_set().contains(t) <==> old(items)@.to_set().remove(input).contains(t) by {
            if items@.contains(t) {
                let j = choose|j: int| 0 <= j < items@.len() && items@[j] == t;
                assert(items@[j] != input);
            }
        }
        assert(items@.to_set() =~= old(items)@.to_set().remove(input));
        if !removed && old(items)@.contains(input) {
            let j = choose|j: int| 0 <= j < items@.len() && items@[j] == input;
            assert(items@[j] != input);
        }
    }
    removed
}

/// Button map resource for button presses.
#[derive(Clone, Debug)]
pub struct ButtonMap<T: Button> {
    pressed: Vec<T>,
    just_pressed: Vec<T>,
    just_released: Vec<T>,
}

impl<T: Button> ButtonMap<T> {
    /// The buttons that are held.
    pub closed spec fn pressed_set(&self) -> Set<T> {
        self.pressed@.to_set()
    }

    /// The buttons that went down since the last clearing.
    pub closed spec fn just_pressed_set(&self) -> Set<T> {
        self.just_pressed@.to_set()
    }

    /// The buttons that went up since the last clearing.
    pub closed spec fn just_released_set(&self) -> Set<T> {
        self.just_released@.to_set()
    }

    /// The state of the map.
    pub open spec fn model(&self) -> ButtonModel<T> {
        ButtonModel {
            pressed: self.pressed_set(),
            just_pressed: self.just_pressed_set(),
            just_released: self.just_released_set(),
        }
    }

    /// No button is listed twice. This holds of a new map and stays so.
    pub closed spec fn wf(&self) -> bool {
        &&& self.pressed@.no_duplicates()
        &&& self.just_pressed@.no_duplicates()
        &&& self.just_released@.no_duplicates()
    }

    /// A map in which no button is held.
    pub fn new() -> (map: ButtonMap<T>)
        ensures
            map.wf(),
            map.pressed_set() == Set::<T>::empty(),
            map.just_pressed_set() == Set::<T>::empty(),
            map.just_released_set() == Set::<T>::empty(),
    {
        let map = ButtonMap { pressed: Vec::new(), just_pressed: Vec::new(), just_released: Vec::new() };
        proof {
            assert(map.pressed@.to_set() =~= Set::<T>::empty());
            assert(map.just_pressed@.to_set() =~= Set::<T>::empty());
            assert(map.just_released@.to_set() =~= Set::<T>::empty());
        }
        map
    }

    /// Send a button press for specified `input`. A button that is held
    /// already does not count as just pressed again.
    pub fn press(&mut self, input: T)
        ensures
            old(self).wf() ==> final(self).wf(),
            final(self).pressed_set() == old(self).pressed_set().insert(input),
            final(self).just_pressed_set() == if old(self).pressed_set().contains(input) {
                old(self).just_pressed_set()
            } else {
                old(self).just_pressed_set().insert(input)
            },
            final(self).just_released_set() == old(self).just_released_set(),
    {
        if put_in(&mut self.pressed, input) {
            put_in(&mut self.just_pressed, input);
        }
    }

    /// Release specified `input`. A button that is not held does not count
    /// as just released.
    pub fn release(&mut self, input: T)
        ensures
            old(self).wf() ==> final(self).wf(),
            final(self).pressed_set() == old(self).pressed_set().remove(input),
            final(self).just_released_set() == if old(self).pressed_set().contains(input) {
                old(self).just_released_set().insert(input)
            } else {
                old(self).just_released_set()
            },
            final(self).just_pressed_set() == old(self).just_pressed_set(),
    {
        if take_out(&mut self.pressed, input) {
            put_in(&mut self.just_released, input);
        }
    }

    /// Release all currently held `inputs`.
    pub fn release_all(&mut self)
        ensures
            old(self).wf() ==> final(self).wf(),
            final(self).pressed_set() == Set::<T>::empty(),
            final(self).just_released_set() == old(self).just_released_set().union(
                old(self).pressed_set(),
            ),
            final(self).just_pressed_set() == old(self).just_pressed_set(),
    {
        let ghost held = self.pressed@;
        while self.pressed.len() > 0
            invariant
                old(self).wf() ==> self.wf(),
                self.just_pressed == old(self).just_pressed,
                held == old(self).pressed@,
                self.pressed@.len() <= held.len(),
                self.pressed@ =~= held.take(self.pressed@.len() as int),
                self.just_released@.to_set() =~= old(self).just_released@.to_set().union(
                    held.skip(self.pressed@.len() as int).to_set(),
                ),
            decreases self.pressed.len(),
        {
            let ghost n = self.pressed@.len() as int;
            match self.pressed.pop() {
                None => {},
                Some(input) => {
                    put_in(&mut self.just_released, input);
                    proof {
                        assert(held.take(n)[n - 1] == input);
                        assert(held[n - 1] == input);
                        let was = held.skip(n);
                        let now = held.skip(n - 1);
                        assert forall|t: T| now.to_set().contains(t) <==> was.to_set().insert(input).contains(t) by {
                            if now.contains(t) {
                                let j = choose|j: int| 0 <= j < now.len() && now[j] == t;
                                if j > 0 {
                                    assert(was[j - 1] == t);
                                }
                            }
                            if was.contains(t) {
                                let j = choose|j: int| 0 <= j < was.len() && was[j] == t;
                                assert(now[j + 1] == t);
                            }
                            if t == input {
                                assert(now[0] == input);
                            }
                        }
                        assert(now.to_set() =~= was.to_set().insert(input));
                    }
                },
            }
        }
        proof {
            assert(held.skip(0) =~= held);
            assert(self.pressed@.to_set() =~= Set::<T>::empty());
        }
    }

    /// Clear all struct fields.
    pub fn reset(&mut self)
        ensures
            final(self).wf(),
            final(self).pressed_set() == Set::<T>::empty(),
            final(self).just_pressed_set() == Set::<T>::empty(),
            final(self).just_released_set() == Set::<T>::empty(),
    {
        self.pressed.clear();
        self.just_pressed.clear();
        self.just_released.clear();
        proof {
            assert(self.pressed@.to_set() =~= Set::<T>::empty());
            assert(self.just_pressed@.to_set() =~= Set::<T>::empty());
            assert(self.just_released@.to_set() =~= Set::<T>::empty());
        }
    }

    /// Clear `just_pressed` and `just_released` `inputs`.
    pub fn clear(&mut self)
        ensures
            old(self).wf() ==> final(self).wf(),
            final(self).pressed_set() == old(self).pressed_set(),
            final(self).just_pressed_set() == Set::<T>::empty(),
            final(self).just_released_set() == Set::<T>::empty(),
    {
        self.just_pressed.clear();
        self.just_released.clear();
        proof {
            assert(self.just_pressed@.to_set() =~= Set::<T>::empty());
            assert(self.just_released@.to_set() =~= Set::<T>::empty());
        }
    }

    /// Returns `true` if the `input` is pressed.
    pub fn pressed(&self, input: T) -> (b: bool)
        ensures
            b == self.pressed_set().contains(input),
    {
        find(&self.pressed, input).is_some()
    }

    /// Returns `true` if any of the `inputs` are pressed.
    pub fn any_pressed(&self, inputs: &Vec<T>) -> (b: bool)
        ensures
            b == exists|i: int| 0 <= i < inputs@.len() && self.pressed_set().contains(inputs@[i]),
    {
        any_in(&self.pressed, inputs)
    }

    /// Returns `true` if all of the `inputs` are pressed.
    pub fn all_pressed(&self, inputs: &Vec<T>) -> (b: bool)
        ensures
            b == forall|i: int| 0 <= i < inputs@.len() ==> self.pressed_set().contains(inputs@[i]),
    {
        all_in(&self.pressed, inputs)
    }

    /// Returns `true` if the `input` was just pressed.
    pub fn just_pressed(&self, input: T) -> (b: bool)
        ensures
            b == self.just_pressed_set().contains(input),
    {
        find(&self.just_pressed, input).is_some()
    }

    /// Returns `true` if any of the `inputs` have just been pressed.
    pub fn any_just_pressed(&self, inputs: &Vec<T>) -> (b: bool)
        ensures
            b == exists|i: int|
                0 <= i < inputs@.len() && self.just_pressed_set().contains(inputs@[i]),
    {
        any_in(&self.just_pressed, inputs)
    }

    /// Returns `true` if all of the `inputs` have just been pressed.
    pub fn all_just_pressed(&self, inputs: &Vec<T>) -> (b: bool)
        ensures
            b == forall|i: int|
                0 <= i < inputs@.len() ==> self.just_pressed_set().contains(inputs@[i]),
    {
        all_in(&self.just_pressed, inputs)
    }

    /// Returns `true` if the `input` was just released.
    pub fn just_released(&self, input: T) -> (b: bool)
        ensures
            b == self.just_released_set().contains(input),
    {
        find(&self.just_released, input).is_some()
    }

    /// Returns `true` if any of the `inputs` have just been released.
    pub fn any_just_released(&self, inputs: &Vec<T>) -> (b: bool)
        ensures
            b == exists|i: int|
                0 <= i < inputs@.len() && self.just_released_set().contains(inputs@[i]),
    {
        any_in(&self.just_released, inputs)
    }

    /// Returns `true` if all of the `inputs` have just been released.
    pub fn all_just_released(&self, inputs: &Vec<T>) -> (b: bool)
        ensures
            b == forall|i: int|
                0 <= i < inputs@.len() ==> self.just_released_set().contains(inputs@[i]),
    {
        all_in(&self.just_released, inputs)
    }

    /// Get every pressed `input`, each once.
    pub fn get_pressed(&self) -> (inputs: &Vec<T>)
        ensures
            inputs@.to_set() == self.pressed_set(),
            self.wf() ==> inputs@.no_duplicates(),
    {
        &self.pressed
    }

    /// Get every just pressed `input`, each once.
    pub fn get_just_pressed(&self) -> (inputs: &Vec<T>)
        ensures
            inputs@.to_set() == self.just_pressed_set(),
            self.wf() ==> inputs@.no_duplicates(),
    {
        &self.just_pressed
    }

    /// Get every just released `input`, each once.
    pub fn get_just_released(&self) -> (inputs: &Vec<T>)
        ensures
            inputs@.to_set() == self.just_released_set(),
            self.wf() ==> inputs@.no_duplicates(),
    {
        &self.just_released
    }
}

impl<T: Button> Default for ButtonMap<T> {
    fn default() -> (map: ButtonMap<T>)
        ensures
            map.wf(),
            map.pressed_set() == Set::<T>::empty(),
            map.just_pressed_set() == Set::<T>::empty(),
            map.just_released_set() == Set::<T>::empty(),
    {
        ButtonMap::new()
    }
}

/// Whether one of `inputs` is in `items`.
fn any_in<T: Button>(items: &Vec<T>, inputs: &Vec<T>) -> (b: bool)
    ensures
        b == exists|i: int| 0 <= i < inputs@.len() && items@.to_set().contains(inputs@[i]),
{
    let mut i: usize = 0;
    while i < inputs.len()
        invariant
            i <= inputs.len(),
            forall|j: int| 0 <= j < i ==> !items@.to_set().contains(inputs@[j]),
        decreases inputs.len() - i,
    {
        if find(items, inputs[i]).is_some() {
            assert(items@.to_set().contains(inputs@[i as int]));
            return true;
        }
        i += 1;
    }
    false
}

/// Whether all of `inputs` are in `items`.
fn all_in<T: Button>(items: &Vec<T>, inputs: &Vec<T>) -> (b: bool)
    ensures
        b == forall|i: int| 0 <= i < inputs@.len() ==> items@.to_set().contains(inputs@[i]),
{
    let mut i: usize = 0;
    while i < inputs.len()
        invariant
            i <= inputs.len(),
            forall|j: int| 0 <= j < i ==> items@.to_set().contains(inputs@[j]),
        decreases inputs.len() - i,
    {
        if find(items, inputs[i]).is_none() {
            assert(!items@.to_set().contains(inputs@[i as int]));
            return false;
        }
        i += 1;
    }
    true
}

} // verus!
