//! A snapshot of the sixteen-key hexadecimal keypad, as the host saw it
//! when it handed the snapshot to the interpreter.
use vstd::prelude::*;

verus! {

/// Which of the keys 0x0..=0xF are held.
pub struct Keypad {
    down: Vec<bool>,
}

impl View for Keypad {
    type V = Seq<bool>;

    closed spec fn view(&self) -> Seq<bool> {
        self.down@
    }
}

/// The lowest key that `keys` holds down, if any.
pub open spec fn first_key_down(keys: Seq<bool>) -> Option<u8> {
    if exists|k: int| 0 <= k < 16 && #[trigger] keys[k] {
        let k = choose|k: int| 0 <= k < 16 && #[trigger] keys[k] && (forall|j: int| 0 <= j < k ==> !keys[j]);
        Some(k as u8)
    } else {
        None
    }
}

impl Keypad {
    /// A keypad with every key up.
    pub fn new() -> (r: Self)
        ensures
            r@ == Seq::new(16, |k: int| false),
    {
        let mut down: Vec<bool> = Vec::new();
        let mut k: usize = 0;
        while k < 16
            invariant
                k <= 16,
                down@ == Seq::new(k as nat, |j: int| false),
            decreases 16 - k,
        {
            down.push(false);
            k = k + 1;
        }
        Keypad { down }
    }

    /// Records whether the key `nibble` is held.
    pub fn set(&mut self, nibble: u8, held: bool)
        requires
            old(self)@.len() == 16,
            nibble < 16,
        ensures
            final(self)@ == old(self)@.update(nibble as int, held),
    {
        self.down.set(nibble as usize, held);
    }
}

/// Whether the key `nibble` is held.
pub fn is_key_down(keys: &Keypad, nibble: u8) -> (r: bool)
    requires
        keys@.len() == 16,
        nibble < 16,
    ensures
        r == keys@[nibble as int],
{
    keys.down[nibble as usize]
}

/// The lowest key that is held, if any key is.
pub fn is_any_key_down(keys: &Keypad) -> (r: Option<u8>)
    requires
        keys@.len() == 16,
    ensures
        r == first_key_down(keys@),
        r is Some ==> r->0 < 16 && keys@[r->0 as int],
{
    let mut k: usize = 0;
    while k < 16
        invariant
            k <= 16,
            keys@.len() == 16,
            forall|j: int| 0 <= j < k ==> !keys@[j],
        decreases 16 - k,
    {
        if keys.down[k] {
            let ghost w = choose|w: int| 0 <= w < 16 && #[trigger] keys@[w] && (forall|j: int| 0 <= j < w ==> !keys@[j]);
            assert(0 <= k < 16 && keys@[k as int] && (forall|j: int| 0 <= j < k ==> !keys@[j]));
            assert(w == k) by {
                if w < k {
                    assert(!keys@[w]);
                } else if w > k {
                    assert(!keys@[k as int]);
                }
            }
            return Some(k as u8);
        }
        k = k + 1;
    }
    None
}

} // verus!
