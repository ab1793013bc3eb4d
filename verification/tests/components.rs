use keyed_editor::components::{FixedSizeText, FixedSizeTextOverflow, LoopingAnimation, StatusBar};
use keyed_editor::config::{resolve_chain, ConfigLayer, StatusBarConfig};
use keyed_editor::mode::Mode;
use keyed_editor::screen_buffer::ScreenBuffer;

const MS: i128 = 1_000_000;
const DEFAULT_SPEED_MS: i64 = 500;

/// The buffer as text, each line without its trailing blanks, and without
/// trailing blank lines.
fn shown(screen: &ScreenBuffer) -> String {
    normalize(&screen.display_as_text())
}

fn normalize(s: &str) -> String {
    let lines: Vec<&str> = s.lines().map(|l| l.trim_end()).collect();
    lines.join("\n").trim_end().to_string()
}

fn draw(text: &mut FixedSizeText, screen: &mut ScreenBuffer, now: i128) {
    let sub = screen.as_sub_screen();
    text.draw(screen, sub, now);
}

#[test]
fn crud_fixed_sized_text() {
    let mut screen = ScreenBuffer::new(1, 10);

    let mut text = FixedSizeText::new(10, FixedSizeTextOverflow::CropLeft, DEFAULT_SPEED_MS);
    assert_eq!(text.text(), "");
    assert_eq!(text.size(), 10);
    assert_eq!(text.overflow(), FixedSizeTextOverflow::CropLeft);

    draw(&mut text, &mut screen, 0);
    assert_eq!(shown(&screen), "");

    text.set_text(String::from("Hello"));
    text.set_overflow(FixedSizeTextOverflow::CropRight);
    assert_eq!(text.text(), "Hello");
    assert_eq!(text.size(), 10);
    assert_eq!(text.overflow(), FixedSizeTextOverflow::CropRight);

    draw(&mut text, &mut screen, 0);
    assert_eq!(shown(&screen), "Hello");
}

#[test]
fn overflow_crop_fixed_sized_text() {
    let mut screen = ScreenBuffer::new(1, 15);

    let mut text = FixedSizeText::new(10, FixedSizeTextOverflow::CropRight, DEFAULT_SPEED_MS);
    text.set_text(String::from("Hello World!"));
    draw(&mut text, &mut screen, 0);
    assert_eq!(shown(&screen), "Hello Worl");
    text.resize(11);
    draw(&mut text, &mut screen, 0);
    assert_eq!(shown(&screen), "Hello World");

    text.set_overflow(FixedSizeTextOverflow::CropLeft);
    draw(&mut text, &mut screen, 0);
    assert_eq!(shown(&screen), "ello World!");
    text.resize(11);
    draw(&mut text, &mut screen, 0);
    assert_eq!(shown(&screen), "ello World!");
}

#[test]
fn overflow_animate_fixed_sized_text() {
    let mut screen = ScreenBuffer::new(1, 15);

    let mut text = FixedSizeText::new(10, FixedSizeTextOverflow::Animate, DEFAULT_SPEED_MS);
    text.set_text(String::from("Hello World!"));
    let mut now: i128 = 0;
    draw(&mut text, &mut screen, now);
    assert_eq!(shown(&screen), "Hello Worl");
    draw(&mut text, &mut screen, now);
    assert_eq!(shown(&screen), "Hello Worl");

    now += 400 * MS;
    draw(&mut text, &mut screen, now);
    assert_eq!(shown(&screen), "Hello Worl");

    now += 150 * MS;
    draw(&mut text, &mut screen, now);
    assert_eq!(shown(&screen), "ello World");

    now += 10_000 * MS;
    draw(&mut text, &mut screen, now);
    assert_eq!(shown(&screen), "rld! Hello");

    let mut ret = String::new();
    for _ in 0..12 {
        now += 500 * MS;
        draw(&mut text, &mut screen, now);
        ret.push_str(&screen.display_as_text());
        ret.push('\n');
    }
    let expected = [
        "ld! Hello",
        "d! Hello W",
        "! Hello Wo",
        " Hello Wor",
        "Hello Worl",
        "ello World",
        "llo World!",
        "lo World!",
        "o World! H",
        " World! He",
        "World! Hel",
        "orld! Hell",
    ]
    .join("\n");
    assert_eq!(normalize(&ret), expected);

    // By adding one char we could either show the h or the !. But we should
    // reset the animation and start again from the beginning.
    text.resize(11);
    draw(&mut text, &mut screen, now);
    assert_eq!(shown(&screen), "Hello World");
}

#[test]
fn animation_speed_is_read_from_config() {
    let mut screen = ScreenBuffer::new(1, 10);
    let base = ConfigLayer {
        status_bar: StatusBarConfig { animation_speed: Some(DEFAULT_SPEED_MS) },
        theme: None,
        soft_wrap: Some(false),
    };
    let user = ConfigLayer { status_bar: StatusBarConfig { animation_speed: Some(100) }, theme: None, soft_wrap: None };
    let config = resolve_chain(&vec![user, base]);
    let speed = config.status_bar.animation_speed.unwrap();
    assert_eq!(speed, 100);

    let mut text = FixedSizeText::new(10, FixedSizeTextOverflow::Animate, speed);
    text.set_text(String::from("Hello World!"));
    let mut now: i128 = 0;

    draw(&mut text, &mut screen, now);
    assert_eq!(shown(&screen), "Hello Worl");

    // With the default 500ms step, 100ms wouldn't be enough to advance
    // the animation. With the configured 100ms step, it advances by one.
    now += 100 * MS;
    draw(&mut text, &mut screen, now);
    assert_eq!(shown(&screen), "ello World");
}

#[test]
fn status_bar_displays_current_mode() {
    let mut screen = ScreenBuffer::new(1, 15);
    let mut status_bar = StatusBar::new(DEFAULT_SPEED_MS);

    let sub = screen.as_sub_screen();
    status_bar.draw(&mut screen, sub, 0, Mode::Normal);
    assert_eq!(screen.display_as_text(), " norma         ");

    let sub = screen.as_sub_screen();
    status_bar.draw(&mut screen, sub, 0, Mode::Insert);
    assert_eq!(screen.display_as_text(), " inser         ");
}

#[test]
fn status_bar_animates_mode_that_overflows() {
    let mut screen = ScreenBuffer::new(1, 15);
    let mut status_bar = StatusBar::new(DEFAULT_SPEED_MS);

    let mut now: i128 = 0;
    let sub = screen.as_sub_screen();
    status_bar.draw(&mut screen, sub, now, Mode::Insert);
    assert_eq!(screen.display_as_text(), " inser         ");

    now += 500 * MS;
    let sub = screen.as_sub_screen();
    status_bar.draw(&mut screen, sub, now, Mode::Insert);
    assert_eq!(screen.display_as_text(), " nsert         ");

    now += 500 * MS;
    let sub = screen.as_sub_screen();
    status_bar.draw(&mut screen, sub, now, Mode::Insert);
    assert_eq!(screen.display_as_text(), " sert          ");
}

#[test]
fn status_bar_hands_back_its_left_square() {
    let mut screen = ScreenBuffer::new(1, 15);
    let mut status_bar = StatusBar::new(DEFAULT_SPEED_MS);
    let sub = screen.as_sub_screen();
    let rest = status_bar.draw(&mut screen, sub, 0, Mode::Normal);
    // The bar is drawn right of its first `height` columns, which it hands back.
    assert_eq!(rest.height(), 1);
    assert_eq!(rest.width(), 1);
}

#[test]
fn looping_animation_steps_and_wakes_up() {
    let anim = LoopingAnimation::start(1_000, 500 * MS);
    assert_eq!(anim.step(1_000), 0);
    assert_eq!(anim.step(1_000 + 499 * MS), 0);
    assert_eq!(anim.step(1_000 + 500 * MS), 1);
    assert_eq!(anim.step(1_000 + 1_750 * MS), 3);
    // The next step starts at the next multiple of the step duration.
    assert_eq!(anim.next_wakeup(1_000 + 750 * MS), Some(1_000 + 1_000 * MS));
}

#[test]
fn looping_animation_is_lag_proof() {
    let t0: i128 = 0;
    let step = LoopingAnimation::start(t0, 500 * MS);

    assert_eq!(step.step(t0), 0);
    assert_eq!(step.step(t0 + 499 * MS), 0);
    assert_eq!(step.step(t0 + 500 * MS), 1);

    // A single large gap must jump straight to the correct step, not
    // advance by one the way a per-call increment would.
    let jumped = t0 + 10_000 * MS + 550 * MS;
    assert_eq!(step.step(jumped), 21);
    assert_eq!(step.next_wakeup(jumped), Some(t0 + 11_000 * MS));
}

#[test]
fn next_wakeup_before_first_draw_is_now() {
    let text = FixedSizeText::new(10, FixedSizeTextOverflow::Animate, DEFAULT_SPEED_MS);
    assert_eq!(text.next_wakeup(42), Some(42));
}

#[test]
fn cropped_text_never_wakes_up() {
    let mut screen = ScreenBuffer::new(1, 15);
    let mut text = FixedSizeText::new(5, FixedSizeTextOverflow::CropRight, DEFAULT_SPEED_MS);
    text.set_text(String::from("Hello World!"));
    draw(&mut text, &mut screen, 0);
    assert_eq!(text.next_wakeup(10), None);
}

#[test]
fn a_negative_step_never_advances_and_wakes_up_one_step_after_the_start() {
    let anim = LoopingAnimation::start(1_000, -500 * MS);
    assert_eq!(anim.step(1_000 + 10_000 * MS), 0);
    assert_eq!(anim.next_wakeup(1_000 + 10_000 * MS), Some(1_000 - 500 * MS));
}

#[test]
fn a_status_bar_with_a_negative_speed_can_still_say_when_to_wake_up() {
    let mut screen = ScreenBuffer::new(1, 15);
    let mut status_bar = StatusBar::new(-100);
    let sub = screen.as_sub_screen();
    status_bar.draw(&mut screen, sub, 0, Mode::Insert);
    assert_eq!(status_bar.next_wakeup(5_000 * MS), Some(-100 * MS));
}
