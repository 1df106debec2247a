//! Global drawing state: the fill color to use for the next new shape,
//! cycled deterministically through the palette.

use vstd::prelude::*;
use crate::shapes::Color;

verus! {

/// The color returned by a white-skipping draw that starts in state `c`:
/// the state itself, unless the state is white, in which case the white
/// value is discarded and the draw continues with red.
pub open spec fn skip_white_result(c: Color) -> Color {
    if c == Color::White {
        Color::Red
    } else {
        c
    }
}

/// The cycler state after a white-skipping draw that starts in state `c`.
pub open spec fn state_after_skip(c: Color) -> Color {
    if c == Color::White {
        Color::Orange
    } else {
        c.spec_advance()
    }
}

/// The cycler state after `n` white-skipping draws that start in state `c`.
pub open spec fn nth_state(c: Color, n: nat) -> Color
    decreases n,
{
    if n == 0 {
        c
    } else {
        state_after_skip(nth_state(c, (n - 1) as nat))
    }
}

/// The color returned by the `n`-th (counting from 0) of a row of
/// white-skipping draws that starts in state `c`.
pub open spec fn nth_skipping_result(c: Color, n: nat) -> Color {
    skip_white_result(nth_state(c, n))
}

/// The position of a non-white color in the fixed cycle of the eight
/// non-white colors.
pub open spec fn color_index8(c: Color) -> int
    recommends
        c != Color::White,
{
    match c {
        Color::Red => 0,
        Color::Orange => 1,
        Color::Yellow => 2,
        Color::Green => 3,
        Color::Blue => 4,
        Color::Indigo => 5,
        Color::Violet => 6,
        Color::Black => 7,
        Color::White => 0,
    }
}

/// The non-white color at a position in the fixed cycle of the eight
/// non-white colors.
pub open spec fn color_of_index8(i: int) -> Color {
    if i == 0 {
        Color::Red
    } else if i == 1 {
        Color::Orange
    } else if i == 2 {
        Color::Yellow
    } else if i == 3 {
        Color::Green
    } else if i == 4 {
        Color::Blue
    } else if i == 5 {
        Color::Indigo
    } else if i == 6 {
        Color::Violet
    } else {
        Color::Black
    }
}

/// `color_of_index8` inverts `color_index8` on the non-white colors.
proof fn lemma_color_index8_inverse(c: Color)
    requires
        c != Color::White,
    ensures
        color_of_index8(color_index8(c)) == c,
{
}

/// One white-skipping draw advances the returned color by one position in
/// the cycle of the eight non-white colors.
proof fn lemma_skip_white_step(c: Color)
    ensures
        color_index8(skip_white_result(state_after_skip(c))) == (color_index8(
            skip_white_result(c),
        ) + 1) % 8,
{
}

/// The `n`-th white-skipping draw returns the color `n` positions past the
/// first one in the cycle of the eight non-white colors, and never white.
proof fn lemma_nth_skipping_result_index(c: Color, n: nat)
    ensures
        nth_skipping_result(c, n) != Color::White,
        color_index8(nth_skipping_result(c, n)) == (color_index8(skip_white_result(c)) + n) % 8,
    decreases n,
{
    if n == 0 {
        assert((color_index8(skip_white_result(c)) + 0) % 8 == color_index8(
            skip_white_result(c),
        ));
    } else {
        lemma_nth_skipping_result_index(c, (n - 1) as nat);
        lemma_skip_white_step(nth_state(c, (n - 1) as nat));
    }
}

/// A row of white-skipping draws never returns white, however long it is.
pub proof fn lemma_skipping_draws_never_white(c: Color, n: nat)
    ensures
        nth_skipping_result(c, n) != Color::White,
{
    lemma_nth_skipping_result_index(c, n);
}

/// Eight consecutive white-skipping draws return eight pairwise-distinct
/// colors: together with [`lemma_skipping_draws_never_white`] and
/// [`lemma_skipping_draws_cover`], each non-white color exactly once.
pub proof fn lemma_skipping_draws_distinct(c: Color)
    ensures
        forall|i: nat, j: nat|
            i < j < 8 ==> #[trigger] nth_skipping_result(c, i) != #[trigger] nth_skipping_result(
                c,
                j,
            ),
{
    assert forall|i: nat, j: nat| i < j < 8 implies #[trigger] nth_skipping_result(c, i)
        != #[trigger] nth_skipping_result(c, j) by {
        lemma_nth_skipping_result_index(c, i);
        lemma_nth_skipping_result_index(c, j);
    }
}

/// Every non-white color appears among eight consecutive white-skipping
/// draws.
pub proof fn lemma_skipping_draws_cover(c: Color, target: Color)
    requires
        target != Color::White,
    ensures
        exists|i: nat| i < 8 && nth_skipping_result(c, i) == target,
{
    let a = color_index8(skip_white_result(c));
    let i = ((color_index8(target) - a + 8) % 8) as nat;
    lemma_nth_skipping_result_index(c, i);
    assert(color_index8(nth_skipping_result(c, i)) == color_index8(target));
    lemma_color_index8_inverse(target);
    lemma_color_index8_inverse(nth_skipping_result(c, i));
    assert(nth_skipping_result(c, i) == target);
}

/// Advancing a color is injective, so the fixed nine-color cycle of
/// `Color::advance` is a permutation of the whole palette.
pub proof fn lemma_advance_injective(c1: Color, c2: Color)
    requires
        c1.spec_advance() == c2.spec_advance(),
    ensures
        c1 == c2,
{
}

/// Drawing state shared across the canvas: the fill color for the next
/// shape drawn. Its abstract state is just that color.
pub struct AppState {
    fill_color: Color,
}

impl View for AppState {
    type V = Color;

    closed spec fn view(&self) -> Color {
        self.fill_color
    }
}

impl AppState {
    /// The initial drawing state: the first fill color is red.
    pub fn default() -> (s: AppState)
        ensures
            s@ == Color::Red,
    {
        AppState { fill_color: Color::Red }
    }

    /// The fill color the next draw would return.
    pub fn fill_color(&self) -> (c: Color)
        ensures
            c == self@,
    {
        self.fill_color
    }

    /// Returns the current fill color and advances to the next color in the
    /// fixed nine-color cycle.
    pub fn get_fill_color_and_advance(&mut self) -> (c: Color)
        ensures
            c == old(self)@,
            final(self)@ == old(self)@.spec_advance(),
    {
        let old_color = self.fill_color;
        self.fill_color.advance();
        old_color
    }

    /// Returns the current fill color and advances, skipping white, so that
    /// automatically colored shapes never blend into a white background.
    pub fn get_fill_color_and_advance_skipping_white(&mut self) -> (c: Color)
        ensures
            c == skip_white_result(old(self)@),
            c != Color::White,
            final(self)@ == state_after_skip(old(self)@),
    {
        let color = self.get_fill_color_and_advance();
        if color == Color::White {
            self.get_fill_color_and_advance()
        } else {
            color
        }
    }
}

} // verus!
