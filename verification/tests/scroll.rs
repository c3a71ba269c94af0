use the_light_core::scroll::ScrollState;

/// Normalizes `state` as a drawing of `lines` short lines in a bordered block
/// `20 × h` with one reserved footer line does: the inner height is `h - 2`.
fn render(state: &mut ScrollState, lines: usize, h: u16) {
    state.clamp_to(lines, h - 2, 1);
}

#[test]
fn jump_to_end_normalizes_to_real_max_and_up_responds() {
    let mut s = ScrollState::default();
    s.jump_to_end();
    render(&mut s, 40, 10); // 40 lines, about 7 visible
    let at_end = s.offset();
    assert!(at_end > 0 && at_end < 40, "the end became a real maximum: {at_end}");
    s.up(1);
    assert_eq!(s.offset(), at_end - 1);
}

#[test]
fn short_content_clamps_to_top() {
    let mut s = ScrollState::default();
    s.down(50);
    render(&mut s, 2, 20);
    assert_eq!(s.offset(), 0, "short content does not scroll");
}

#[test]
fn cannot_scroll_past_the_end() {
    let mut s = ScrollState::default();
    s.down(10_000);
    render(&mut s, 30, 8);
    let max = s.offset();
    s.down(10_000);
    render(&mut s, 30, 8);
    assert_eq!(s.offset(), max);
}

#[test]
fn max_offset_is_lines_less_visible_body() {
    let mut s = ScrollState::default();
    s.jump_to_end();
    s.clamp_to(40, 8, 1); // 7 visible rows
    assert_eq!(s.offset(), 33);
    s.jump_to_end();
    s.clamp_to(40, 1, 5); // body never below one row
    assert_eq!(s.offset(), 39);
}

#[test]
fn up_and_down_saturate() {
    let mut s = ScrollState::default();
    s.up(3);
    assert_eq!(s.offset(), 0);
    s.down(u16::MAX);
    s.down(1);
    assert_eq!(s.offset(), u16::MAX);
}
