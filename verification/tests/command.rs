use render_engine::command::{
    decode, draw_line, draw_rect, flush, new_frame, set_color, set_pixel, Color, Command,
    DecodeError, Payload,
};

fn num(n: i64) -> Payload {
    Payload::Number(n)
}

fn arr(items: Vec<Payload>) -> Payload {
    Payload::Array(items)
}

fn corners(x1: i64, y1: i64, x2: i64, y2: i64) -> Payload {
    arr(vec![arr(vec![num(x1), num(y1)]), arr(vec![num(x2), num(y2)])])
}

#[test]
fn set_color_takes_exactly_three_numbers() {
    assert_eq!(
        set_color(&arr(vec![num(255), num(0), num(7)])),
        Ok(Command::SetColor(Color { r: 255, g: 0, b: 7 }))
    );
    assert_eq!(
        set_color(&arr(vec![num(1), num(2)])),
        Err(DecodeError::WrongArity)
    );
    assert_eq!(
        set_color(&arr(vec![num(1), num(2), num(3), num(4)])),
        Err(DecodeError::WrongArity)
    );
    assert_eq!(set_color(&Payload::Nil), Err(DecodeError::NotAnArray));
    assert_eq!(set_color(&num(3)), Err(DecodeError::NotAnArray));
    assert_eq!(
        set_color(&arr(vec![num(1), Payload::Nil, num(3)])),
        Err(DecodeError::NotANumber)
    );
    assert_eq!(
        set_color(&arr(vec![num(1), num(2), arr(vec![])])),
        Err(DecodeError::NotANumber)
    );
}

#[test]
fn channels_are_held_to_their_range() {
    assert_eq!(
        set_color(&arr(vec![num(-5), num(i64::MAX), num(4_294_967_295)])),
        Ok(Command::SetColor(Color {
            r: 0,
            g: u32::MAX,
            b: u32::MAX
        }))
    );
}

#[test]
fn set_pixel_takes_a_point_and_a_colour() {
    let payload = arr(vec![num(3), num(4), arr(vec![num(1), num(2), num(3)])]);
    assert_eq!(
        set_pixel(&payload),
        Ok(Command::SetPixel {
            x: 3,
            y: 4,
            color: Color { r: 1, g: 2, b: 3 }
        })
    );
    let negative = arr(vec![num(-3), num(4), arr(vec![num(1), num(2), num(3)])]);
    assert_eq!(
        set_pixel(&negative),
        Ok(Command::SetPixel {
            x: 0,
            y: 4,
            color: Color { r: 1, g: 2, b: 3 }
        })
    );
}

#[test]
fn set_pixel_rejects_other_shapes() {
    assert_eq!(set_pixel(&Payload::Nil), Err(DecodeError::NotAnArray));
    assert_eq!(set_pixel(&arr(vec![])), Err(DecodeError::WrongArity));
    assert_eq!(
        set_pixel(&arr(vec![num(1), num(2)])),
        Err(DecodeError::WrongArity)
    );
    assert_eq!(
        set_pixel(&arr(vec![num(1), num(2), num(3)])),
        Err(DecodeError::NotAnArray)
    );
    assert_eq!(
        set_pixel(&arr(vec![num(1), Payload::Nil, arr(vec![num(1), num(2), num(3)])])),
        Err(DecodeError::NotANumber)
    );
    assert_eq!(
        set_pixel(&arr(vec![num(1), num(2), arr(vec![num(1), num(2)])])),
        Err(DecodeError::WrongArity)
    );
}

#[test]
fn draw_rect_takes_two_corners() {
    assert_eq!(
        draw_rect(&corners(0, 1, 2, 3)),
        Ok(Command::DrawRect {
            x1: 0,
            y1: 1,
            x2: 2,
            y2: 3
        })
    );
    assert_eq!(
        draw_rect(&corners(-1, -1, 2, 3)),
        Ok(Command::DrawRect {
            x1: 0,
            y1: 0,
            x2: 2,
            y2: 3
        })
    );
    assert_eq!(draw_rect(&num(1)), Err(DecodeError::NotAnArray));
    assert_eq!(
        draw_rect(&arr(vec![arr(vec![num(0), num(0)])])),
        Err(DecodeError::WrongArity)
    );
    assert_eq!(
        draw_rect(&arr(vec![arr(vec![num(0)]), arr(vec![num(1), num(1)])])),
        Err(DecodeError::WrongArity)
    );
    assert_eq!(
        draw_rect(&arr(vec![num(0), arr(vec![num(1), num(1)])])),
        Err(DecodeError::NotAnArray)
    );
    assert_eq!(
        draw_rect(&arr(vec![
            arr(vec![num(0), num(0)]),
            arr(vec![Payload::Nil, num(1)])
        ])),
        Err(DecodeError::NotANumber)
    );
}

#[test]
fn draw_line_takes_two_signed_points() {
    assert_eq!(
        draw_line(&corners(-1, 2, 3, -4)),
        Ok(Command::DrawLine {
            x1: -1,
            y1: 2,
            x2: 3,
            y2: -4
        })
    );
    assert_eq!(
        draw_line(&corners(i64::MIN, i64::MAX, 0, 0)),
        Ok(Command::DrawLine {
            x1: i32::MIN,
            y1: i32::MAX,
            x2: 0,
            y2: 0
        })
    );
    assert_eq!(draw_line(&Payload::Nil), Err(DecodeError::NotAnArray));
    assert_eq!(draw_line(&arr(vec![])), Err(DecodeError::WrongArity));
}

#[test]
fn frame_boundaries_are_flush_and_new_frame() {
    assert_eq!(flush(), Command::Flush);
    assert_eq!(new_frame(), Command::NewFrame);
    assert!(flush().is_frame_boundary());
    assert!(new_frame().is_frame_boundary());
    assert!(!Command::SetColor(Color::black()).is_frame_boundary());
    assert!(!Command::DrawRect { x1: 0, y1: 0, x2: 1, y2: 1 }.is_frame_boundary());
}

#[test]
fn colour_packs_by_left_shift() {
    assert_eq!(Color { r: 255, g: 0, b: 0 }.pack(), 0x00ff_0000);
    assert_eq!(Color { r: 1, g: 2, b: 3 }.pack(), 0x0001_0203);
    assert_eq!(Color::black().pack(), 0);
}

#[test]
fn decode_tells_the_six_kinds_apart() {
    assert_eq!(decode("new_frame", &Payload::Nil), Ok(Some(Command::NewFrame)));
    assert_eq!(decode("flush", &Payload::Nil), Ok(Some(Command::Flush)));
    assert_eq!(decode("flush", &num(7)), Ok(Some(Command::Flush)));
    assert_eq!(
        decode("set_color", &arr(vec![num(1), num(2), num(3)])),
        Ok(Some(Command::SetColor(Color { r: 1, g: 2, b: 3 })))
    );
    assert_eq!(
        decode("set_pixel", &arr(vec![num(1), num(2), arr(vec![num(3), num(4), num(5)])])),
        Ok(Some(Command::SetPixel {
            x: 1,
            y: 2,
            color: Color { r: 3, g: 4, b: 5 }
        }))
    );
    assert_eq!(
        decode("draw_rect", &corners(0, 0, 2, 2)),
        Ok(Some(Command::DrawRect {
            x1: 0,
            y1: 0,
            x2: 2,
            y2: 2
        }))
    );
    assert_eq!(
        decode("draw_line", &corners(0, 0, 3, 3)),
        Ok(Some(Command::DrawLine {
            x1: 0,
            y1: 0,
            x2: 3,
            y2: 3
        }))
    );
}

#[test]
fn decode_of_an_unknown_kind_is_no_command() {
    assert_eq!(decode("clear", &Payload::Nil), Ok(None));
    assert_eq!(decode("", &corners(0, 0, 1, 1)), Ok(None));
    assert_eq!(decode("Flush", &Payload::Nil), Ok(None));
    assert_eq!(decode("flush ", &Payload::Nil), Ok(None));
}

#[test]
fn decode_reports_a_payload_of_the_wrong_shape() {
    assert_eq!(decode("set_color", &Payload::Nil), Err(DecodeError::NotAnArray));
    assert_eq!(
        decode("set_color", &arr(vec![num(1)])),
        Err(DecodeError::WrongArity)
    );
    assert_eq!(
        decode("draw_line", &arr(vec![arr(vec![num(0), Payload::Nil]), arr(vec![])])),
        Err(DecodeError::NotANumber)
    );
    assert_eq!(
        decode("draw_rect", &arr(vec![arr(vec![num(0), num(0)]), num(1)])),
        Err(DecodeError::NotAnArray)
    );
    assert_eq!(
        decode("set_pixel", &arr(vec![num(0), num(0)])),
        Err(DecodeError::WrongArity)
    );
}
