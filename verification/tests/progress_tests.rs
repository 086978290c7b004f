use pomodoro::progress::{dec_string, filled_cells, render_bar_line, BAR_WIDTH};

#[test]
fn no_cells_filled_at_start() {
    assert_eq!(filled_cells(0, 600), 0);
}

#[test]
fn all_cells_filled_at_end() {
    assert_eq!(filled_cells(600, 600), BAR_WIDTH);
}

#[test]
fn half_elapsed_fills_half_the_bar() {
    assert_eq!(filled_cells(300, 600), 20);
}

#[test]
fn filled_count_is_the_floor_of_the_scaled_fraction() {
    // 1/600 of the bar's 40 cells rounds down to none.
    assert_eq!(filled_cells(1, 600), 0);
    // 599/600 scales to 39.93..., so 39 cells.
    assert_eq!(filled_cells(599, 600), 39);
    // 450/600 scales exactly to 30 cells.
    assert_eq!(filled_cells(450, 600), 30);
}

#[test]
fn bar_stays_full_after_the_duration() {
    assert_eq!(filled_cells(601, 600), BAR_WIDTH);
    assert_eq!(filled_cells(u64::MAX, 600), BAR_WIDTH);
}

#[test]
fn zero_duration_phase_is_immediately_complete() {
    assert_eq!(filled_cells(0, 0), BAR_WIDTH);
}

#[test]
fn renders_decimal_numbers() {
    assert_eq!(dec_string(0), "0");
    assert_eq!(dec_string(7), "7");
    assert_eq!(dec_string(25), "25");
    assert_eq!(dec_string(120), "120");
    assert_eq!(dec_string(18446744073709551615), "18446744073709551615");
}

#[test]
fn renders_empty_bar_line() {
    assert_eq!(
        render_bar_line(0, 120),
        "[                                        ]   0 mins / 2 mins"
    );
}

#[test]
fn renders_half_bar_line() {
    assert_eq!(
        render_bar_line(60, 120),
        "[====================                    ]   1 mins / 2 mins"
    );
}

#[test]
fn renders_full_bar_line() {
    assert_eq!(
        render_bar_line(120, 120),
        "[========================================]   2 mins / 2 mins"
    );
}

#[test]
fn rendered_minutes_are_truncated() {
    // 119 seconds is still 1 whole minute.
    let line = render_bar_line(119, 1500);
    assert!(line.ends_with("]   1 mins / 25 mins"));
}
