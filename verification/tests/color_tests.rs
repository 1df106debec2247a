use shape_canvas::app_state::AppState;
use shape_canvas::shapes::Color;

#[test]
fn advance_visits_all_nine_colors_and_returns() {
    let expected = [
        Color::Red,
        Color::Orange,
        Color::Yellow,
        Color::Green,
        Color::Blue,
        Color::Indigo,
        Color::Violet,
        Color::Black,
        Color::White,
    ];
    let mut color = Color::Red;
    for want in expected.iter() {
        assert_eq!(color, *want);
        color.advance();
    }
    assert_eq!(color, Color::Red);
}

#[test]
fn fill_color_cycler_returns_then_advances() {
    let mut state = AppState::default();
    assert_eq!(state.fill_color(), Color::Red);
    assert_eq!(state.get_fill_color_and_advance(), Color::Red);
    assert_eq!(state.get_fill_color_and_advance(), Color::Orange);
    assert_eq!(state.fill_color(), Color::Yellow);
}

#[test]
fn nine_skipping_draws_are_never_white() {
    let mut state = AppState::default();
    for _ in 0..9 {
        assert_ne!(state.get_fill_color_and_advance_skipping_white(), Color::White);
    }
}

#[test]
fn eight_skipping_draws_cover_the_non_white_colors_exactly_once() {
    let mut state = AppState::default();
    let mut drawn = Vec::new();
    for _ in 0..8 {
        drawn.push(state.get_fill_color_and_advance_skipping_white());
    }
    let all_non_white = [
        Color::Red,
        Color::Orange,
        Color::Yellow,
        Color::Green,
        Color::Blue,
        Color::Indigo,
        Color::Violet,
        Color::Black,
    ];
    for color in all_non_white.iter() {
        let count = drawn.iter().filter(|c| *c == color).count();
        assert_eq!(count, 1);
    }
}

#[test]
fn skipping_draw_skips_over_white() {
    let mut state = AppState::default();
    // Walk the state up to violet; the next draw's advance lands on black,
    // then white, which must be skipped.
    for _ in 0..7 {
        state.get_fill_color_and_advance();
    }
    assert_eq!(state.fill_color(), Color::Black);
    assert_eq!(state.get_fill_color_and_advance_skipping_white(), Color::Black);
    // The state was left on white; a skipping draw discards it and yields red.
    assert_eq!(state.get_fill_color_and_advance_skipping_white(), Color::Red);
    assert_eq!(state.fill_color(), Color::Orange);
}
