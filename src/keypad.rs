use vstd::prelude::*;

verus! {

/// The key that a host key code stands for, on the usual layout that puts the
/// 4x4 keypad on the keys `1234 / qwer / asdf / zxcv`.
///
/// Key codes are those of SDL: a printable key's code is its ASCII value.
pub open spec fn key_of_code(code: i32) -> Option<u8> {
    if code == 0x31 {
        Some(0x1u8)
    } else if code == 0x32 {
        Some(0x2u8)
    } else if code == 0x33 {
        Some(0x3u8)
    } else if code == 0x34 {
        Some(0xCu8)
    } else if code == 0x71 {
        Some(0x4u8)
    } else if code == 0x77 {
        Some(0x5u8)
    } else if code == 0x65 {
        Some(0x6u8)
    } else if code == 0x72 {
        Some(0xDu8)
    } else if code == 0x61 {
        Some(0x7u8)
    } else if code == 0x73 {
        Some(0x8u8)
    } else if code == 0x64 {
        Some(0x9u8)
    } else if code == 0x66 {
        Some(0xEu8)
    } else if code == 0x7A {
        Some(0xAu8)
    } else if code == 0x78 {
        Some(0x0u8)
    } else if code == 0x63 {
        Some(0xBu8)
    } else if code == 0x76 {
        Some(0xFu8)
    } else {
        None
    }
}

/// Maps a host key code to the keypad key it stands for, if any.
pub fn map_keycode_to_chip8(code: i32) -> (r: Option<u8>)
    ensures
        r == key_of_code(code),
        r matches Some(k) ==> k < 16,
{
    match code {
        0x31 => Some(0x1),
        0x32 => Some(0x2),
        0x33 => Some(0x3),
        0x34 => Some(0xC),
        0x71 => Some(0x4),
        0x77 => Some(0x5),
        0x65 => Some(0x6),
        0x72 => Some(0xD),
        0x61 => Some(0x7),
        0x73 => Some(0x8),
        0x64 => Some(0x9),
        0x66 => Some(0xE),
        0x7A => Some(0xA),
        0x78 => Some(0x0),
        0x63 => Some(0xB),
        0x76 => Some(0xF),
        _ => None,
    }
}

/// Whether key `k` is held down in the snapshot `keys`; a value that names no
/// key is never held down.
pub open spec fn key_down(keys: Seq<bool>, k: int) -> bool {
    0 <= k < 16 && keys[k]
}

/// The lowest-numbered key held down among keys `from..16`.
pub open spec fn lowest_pressed_from(keys: Seq<bool>, from: int) -> Option<u8>
    decreases 16 - from,
{
    if from >= 16 || from < 0 {
        None
    } else if keys[from] {
        Some(from as u8)
    } else {
        lowest_pressed_from(keys, from + 1)
    }
}

/// The lowest-numbered key held down, if any.
pub open spec fn lowest_pressed(keys: Seq<bool>) -> Option<u8> {
    lowest_pressed_from(keys, 0)
}

/// A snapshot of the 16 keys of the keypad.
pub struct InputState {
    keys: [bool; 16],
}

impl View for InputState {
    type V = Seq<bool>;

    closed spec fn view(&self) -> Seq<bool> {
        self.keys@
    }
}

impl InputState {
    /// A keypad with no key held down.
    pub fn new() -> (r: InputState)
        ensures
            r@ == Seq::new(16, |_k: int| false),
    {
        let r = InputState { keys: [false; 16] };
        assert(r@ =~= Seq::new(16, |_k: int| false));
        r
    }

    /// A keypad in the state that `keys` gives, key by key.
    pub fn from_keys(keys: [bool; 16]) -> (r: InputState)
        ensures
            r@ == keys@,
            r@.len() == 16,
    {
        InputState { keys }
    }

    /// The keypad state read from the host key codes held down: a key is down
    /// exactly when one of the codes stands for it.
    pub fn from_keycodes(codes: &[i32]) -> (r: InputState)
        ensures
            r@.len() == 16,
            forall|k: int|
                0 <= k < 16 ==> (r@[k] <==> exists|i: int|
                    0 <= i < codes@.len() && key_of_code(#[trigger] codes@[i]) == Some(k as u8)),
    {
        let mut keys = [false; 16];
        let mut i: usize = 0;
        while i < codes.len()
            invariant
                i <= codes@.len(),
                forall|k: int|
                    0 <= k < 16 ==> (keys@[k] <==> exists|j: int|
                        0 <= j < i && key_of_code(#[trigger] codes@[j]) == Some(k as u8)),
            decreases codes@.len() - i,
        {
            let code = codes[i];
            match map_keycode_to_chip8(code) {
                Some(k) => {
                    keys[k as usize] = true;
                },
                None => {},
            }
            assert forall|k: int| 0 <= k < 16 implies (keys@[k] <==> exists|j: int|
                0 <= j < i + 1 && key_of_code(#[trigger] codes@[j]) == Some(k as u8)) by {
                if key_of_code(codes@[i as int]) == Some(k as u8) {
                    assert(key_of_code(codes@[i as int]) == Some(k as u8));
                }
            }
            i = i + 1;
        }
        InputState { keys }
    }

    /// Marks key `k` as held down.
    pub fn press(&mut self, k: u8)
        requires
            k < 16,
        ensures
            final(self)@ == old(self)@.update(k as int, true),
    {
        self.keys[k as usize] = true;
    }

    /// Marks key `k` as released.
    pub fn release(&mut self, k: u8)
        requires
            k < 16,
        ensures
            final(self)@ == old(self)@.update(k as int, false),
    {
        self.keys[k as usize] = false;
    }

    /// Whether the key that `k` names is held down; no key is named by a value
    /// above 15.
    pub fn is_pressed(&self, k: u8) -> (r: bool)
        ensures
            r == key_down(self@, k as int),
    {
        if k < 16 {
            self.keys[k as usize]
        } else {
            false
        }
    }

    /// The lowest-numbered key held down, if any.
    pub fn first_pressed(&self) -> (r: Option<u8>)
        ensures
            r == lowest_pressed(self@),
            r matches Some(k) ==> k < 16 && self@[k as int]
                && forall|j: int| 0 <= j < k ==> !self@[j],
            r is None ==> forall|j: int| 0 <= j < 16 ==> !self@[j],
    {
        let mut i: u8 = 0;
        while i < 16
            invariant
                i <= 16,
                self@.len() == 16,
                forall|j: int| 0 <= j < i ==> !self@[j],
                lowest_pressed(self@) == lowest_pressed_from(self@, i as int),
            decreases 16 - i,
        {
            if self.keys[i as usize] {
                return Some(i);
            }
            i = i + 1;
        }
        None
    }
}

} // verus!
