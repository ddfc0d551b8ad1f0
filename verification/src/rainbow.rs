//! The rainbow role, whose colour moves one step along a wheel of twelve hues
//! every few minutes.
use vstd::prelude::*;

verus! {

/// The number of hues on the wheel.
pub const RAINBOW_STEPS: usize = 12;

/// The hues, from red round to rose, as `0xRRGGBB`.
pub open spec fn palette() -> Seq<u32> {
    seq![
        0xFF0000u32, 0xFF8000u32, 0xFFFF00u32, 0x80FF00u32,
        0x00FF00u32, 0x00FF80u32, 0x00FFFFu32, 0x0080FFu32,
        0x0000FFu32, 0x8000FFu32, 0xFF00FFu32, 0xFF0080u32,
    ]
}

/// The index reached after `n` steps from `start`.
pub open spec fn index_after(start: int, n: nat) -> int
    decreases n,
{
    if n == 0 {
        start
    } else {
        (index_after(start, (n - 1) as nat) + 1) % 12
    }
}

/// One step of the wheel: the colour to set now and the index of the next one.
pub fn rainbow_step(index: usize) -> (r: (u32, usize))
    requires
        index < RAINBOW_STEPS,
    ensures
        r.0 == palette()[index as int],
        r.1 == (index + 1) % 12,
        r.1 < RAINBOW_STEPS,
{
    let colors: [u32; 12] = [
        0xFF0000, 0xFF8000, 0xFFFF00, 0x80FF00,
        0x00FF00, 0x00FF80, 0x00FFFF, 0x0080FF,
        0x0000FF, 0x8000FF, 0xFF00FF, 0xFF0080,
    ];
    assert(colors@ =~= palette());
    (colors[index], (index + 1) % RAINBOW_STEPS)
}

proof fn lemma_index_after(start: int, n: nat)
    requires
        0 <= start < 12,
    ensures
        index_after(start, n) == (start + n) % 12,
    decreases n,
{
    if n > 0 {
        lemma_index_after(start, (n - 1) as nat);
    }
}

/// The wheel comes back to every colour after twelve steps, and never sooner
/// (from any hue, the twelve steps show twelve different colours).
pub proof fn law_rainbow_period(start: int, n: nat)
    requires
        0 <= start < 12,
    ensures
        index_after(start, n + 12) == index_after(start, n),
        0 < n < 12 ==> palette()[index_after(start, n)] != palette()[start],
{
    lemma_index_after(start, n);
    lemma_index_after(start, n + 12);
    let k = index_after(start, n);
    assert(0 <= k < 12);
    if 0 < n < 12 {
        assert(k != start);
        assert(palette()[0] == 0xFF0000u32);
        assert(forall|i: int, j: int| 0 <= i < 12 && 0 <= j < 12 && i != j ==> palette()[i] != palette()[j]);
    }
}

} // verus!
