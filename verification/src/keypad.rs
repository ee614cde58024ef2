use vstd::prelude::*;

verus! {

/// The keyboard symbols that stand for the sixteen keys of the pad: the
/// symbol at position `k` presses key `k`. They are the four rows of keys
/// below `1 2 3 4` on a QWERTY keyboard, read row by row.
pub const KEYPAD: [char; 16] = [
    '1', '2', '3', '4',
    'q', 'w', 'e', 'r',
    'a', 's', 'd', 'f',
    'z', 'x', 'c', 'v',
];

/// The layout as a sequence of symbols.
pub open spec fn keypad() -> Seq<char> {
    KEYPAD@
}

/// No symbol stands for two keys.
pub proof fn lemma_keypad_distinct()
    ensures
        forall|j: int, k: int| 0 <= j < k < 16 ==> keypad()[j] != keypad()[k],
{
}

/// The key that a keyboard symbol stands for, or `None` for a symbol that
/// is not on the pad.
pub fn key_index(symbol: char) -> (key: Option<u8>)
    ensures
        match key {
            Some(k) => k < 16 && keypad()[k as int] == symbol,
            None => !keypad().contains(symbol),
        },
{
    let mut k: u8 = 0;
    while k < 16
        invariant
            k <= 16,
            forall|j: int| 0 <= j < k ==> keypad()[j] != symbol,
        decreases 16 - k,
    {
        if KEYPAD[k as usize] == symbol {
            return Some(k);
        }
        k = k + 1;
    }
    None
}

} // verus!
