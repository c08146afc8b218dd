use vstd::prelude::*;

verus! {

/// The 16-key input device: one boolean per logical key 0x0..0xF.
/// Key codes outside that range are rejected without any state change.
pub struct Keyboard {
    keys: Vec<bool>,
}

impl View for Keyboard {
    type V = Seq<bool>;

    closed spec fn view(&self) -> Seq<bool> {
        self.keys@
    }
}

/// Whether `code` names a tracked key that is currently down.
/// Out-of-range codes read as released.
pub open spec fn key_down(keys: Seq<bool>, code: u8) -> bool {
    code <= 0xF && keys[code as int]
}

impl Keyboard {
    pub open spec fn wf(&self) -> bool {
        self@.len() == 16
    }

    pub fn new() -> (kbd: Keyboard)
        ensures
            kbd.wf(),
            forall|k: int| 0 <= k < 16 ==> !kbd@[k],
    {
        let mut keys: Vec<bool> = Vec::new();
        let mut n: usize = 0;
        while n < 16
            invariant
                keys@.len() == n,
                n <= 16,
                forall|k: int| 0 <= k < n ==> !keys@[k],
            decreases 16 - n,
        {
            keys.push(false);
            n += 1;
        }
        Keyboard { keys }
    }

    pub fn key_press(&mut self, key: u8)
        requires
            old(self).wf(),
        ensures
            final(self).wf(),
            key <= 0xF ==> final(self)@ == old(self)@.update(key as int, true),
            key > 0xF ==> final(self)@ == old(self)@,
    {
        if key <= 0xF {
            self.keys[key as usize] = true;
        }
    }

    pub fn key_release(&mut self, key: u8)
        requires
            old(self).wf(),
        ensures
            final(self).wf(),
            key <= 0xF ==> final(self)@ == old(self)@.update(key as int, false),
            key > 0xF ==> final(self)@ == old(self)@,
    {
        if key <= 0xF {
            self.keys[key as usize] = false;
        }
    }

    pub fn key_pressed(&self, key: u8) -> (down: bool)
        requires
            self.wf(),
        ensures
            down == key_down(self@, key),
    {
        if key <= 0xF {
            self.keys[key as usize]
        } else {
            false
        }
    }
}

} // verus!
