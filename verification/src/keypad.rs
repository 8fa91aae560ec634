use vstd::prelude::*;

verus! {

/// The 16-key input device: one press/release latch per key, last write wins.
pub struct Keypad {
    pub keys: Vec<bool>,
}

impl View for Keypad {
    type V = Seq<bool>;

    open spec fn view(&self) -> Seq<bool> {
        self.keys@
    }
}

impl Keypad {
    /// A keypad is well formed when it holds one latch for each of the 16 keys.
    pub open spec fn wf(&self) -> bool {
        self@.len() == 16
    }

    pub fn new() -> (k: Keypad)
        ensures
            k.wf(),
            forall|i: int| 0 <= i < 16 ==> !k@[i],
    {
        Keypad { keys: vec![false; 16] }
    }

    pub fn key_down(&mut self, index: usize)
        requires
            old(self).wf(),
            index < 16,
        ensures
            final(self).wf(),
            final(self)@ == old(self)@.update(index as int, true),
    {
        self.keys[index] = true;
    }

    pub fn key_up(&mut self, index: usize)
        requires
            old(self).wf(),
            index < 16,
        ensures
            final(self).wf(),
            final(self)@ == old(self)@.update(index as int, false),
    {
        self.keys[index] = false;
    }

    pub fn is_key_down(&self, index: usize) -> (pressed: bool)
        requires
            self.wf(),
            index < 16,
        ensures
            pressed == self@[index as int],
    {
        self.keys[index]
    }
}

} // verus!
