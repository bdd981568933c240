use pixel_canvas::board::{Board, MutationError};
use pixel_canvas::color::{parse_color, Color};
use pixel_canvas::engine::{AppState, EventMessage, Intent, Mode, SinkOp, COLS, ROWS};
use pixel_canvas::session::{LoopKind, Phase, Session, Teardown};
use pixel_canvas::wire::encode_snapshot;

fn zeros(rows: usize, cols: usize) -> Vec<Vec<u32>> {
    vec![vec![0u32; cols]; rows]
}

fn msg(mode: Mode, x: u8, y: u8, color: &str) -> EventMessage {
    EventMessage { mode, x, y, color: color.to_string() }
}

#[test]
fn pack_and_unpack_round_trip() {
    let c = Color { red: 0x12, green: 0x34, blue: 0x56 };
    assert_eq!(c.pack(), 0x123456);
    assert_eq!(Color::unpack(0x123456), c);
    assert_eq!(Color { red: 255, green: 0, blue: 0 }.pack(), 16711680);
    assert_eq!(Color::unpack(0xFFFF_FFFF), Color { red: 255, green: 255, blue: 255 });
}

#[test]
fn parse_rgba_and_rgb() {
    assert_eq!(parse_color("rgba(255,0,0,255)"), Some(Color { red: 255, green: 0, blue: 0 }));
    assert_eq!(parse_color("rgb(1,2,3)"), Some(Color { red: 1, green: 2, blue: 3 }));
    assert_eq!(parse_color("rgb(007,0,10)"), Some(Color { red: 7, green: 0, blue: 10 }));
    assert_eq!(parse_color("rgba(9,8,7,0)"), Some(Color { red: 9, green: 8, blue: 7 }));
}

#[test]
fn either_prefix_takes_three_or_four_channels() {
    assert_eq!(parse_color("rgb(1,2,3,4)"), Some(Color { red: 1, green: 2, blue: 3 }));
    assert_eq!(parse_color("rgba(1,2,3)"), Some(Color { red: 1, green: 2, blue: 3 }));
    let mut s = AppState::new();
    let a = s.draw_pixel(0, 0, "rgb(1,2,3,4)").unwrap();
    assert_eq!(a.snapshot[0][0], 0x010203);
}

#[test]
fn parse_rejects_malformed_colors() {
    assert_eq!(parse_color("not-a-color"), None);
    assert_eq!(parse_color(""), None);
    assert_eq!(parse_color("rgb(256,0,0)"), None);
    assert_eq!(parse_color("rgb(1,2)"), None);
    assert_eq!(parse_color("rgb(1,2,3,256)"), None);
    assert_eq!(parse_color("rgba(1,2,3,4,5)"), None);
    assert_eq!(parse_color("rgb(1,,3)"), None);
    assert_eq!(parse_color("rgb(1,2,3"), None);
    assert_eq!(parse_color("rgb(-1,2,3)"), None);
    assert_eq!(parse_color("rgb( 1,2,3)"), None);
    assert_eq!(parse_color("rgb(99999999999,0,0)"), None);
}

#[test]
fn new_board_is_all_zero() {
    let s = AppState::new();
    assert_eq!(s.rows(), ROWS);
    assert_eq!(s.cols(), COLS);
    assert_eq!(s.snapshot(), zeros(16, 32));
}

#[test]
fn board_set_get_and_bounds() {
    let mut b = Board::new(2, 3);
    assert_eq!(b.set(2, 1, Color { red: 0, green: 0, blue: 5 }), Ok(()));
    assert_eq!(b.get(2, 1), Some(5));
    assert_eq!(b.get(3, 1), None);
    assert_eq!(b.set(3, 0, Color { red: 1, green: 1, blue: 1 }), Err(MutationError::OutOfBounds));
    assert_eq!(b.set(0, 2, Color { red: 1, green: 1, blue: 1 }), Err(MutationError::OutOfBounds));
    assert_eq!(b.snapshot(), vec![vec![0, 0, 0], vec![0, 0, 5]]);
    b.clear();
    assert_eq!(b.snapshot(), zeros(2, 3));
}

#[test]
fn draw_then_snapshot_sets_only_that_cell() {
    let mut s = AppState::new();
    s.draw_pixel(1, 1, "rgb(0,0,9)").unwrap();
    let a = s.draw_pixel(3, 5, "rgb(10,20,30)").unwrap();
    let mut expected = zeros(16, 32);
    expected[1][1] = 9;
    expected[5][3] = Color { red: 10, green: 20, blue: 30 }.pack();
    assert_eq!(a.snapshot, expected);
    assert_eq!(s.snapshot(), expected);
    assert_eq!(a.sink, SinkOp::SetPixel { x: 3, y: 5, color: Color { red: 10, green: 20, blue: 30 } });
    assert_eq!(Color::unpack(s.snapshot()[5][3]), Color { red: 10, green: 20, blue: 30 });
}

#[test]
fn clear_zeroes_and_is_idempotent() {
    let mut s = AppState::new();
    s.draw_pixel(0, 0, "rgb(1,1,1)").unwrap();
    s.draw_pixel(31, 15, "rgb(2,2,2)").unwrap();
    let a = s.clear();
    assert_eq!(a.snapshot, zeros(16, 32));
    assert_eq!(a.sink, SinkOp::Clear);
    let b = s.clear();
    assert_eq!(b.snapshot, zeros(16, 32));
}

#[test]
fn draw_then_erase_returns_to_zero() {
    let mut s = AppState::new();
    s.draw_pixel(4, 2, "rgba(200,100,50,255)").unwrap();
    let a = s.erase_pixel(4, 2).unwrap();
    assert_eq!(a.snapshot, zeros(16, 32));
    assert_eq!(a.sink, SinkOp::SetPixel { x: 4, y: 2, color: Color { red: 0, green: 0, blue: 0 } });
}

#[test]
fn two_draws_different_and_same_cell() {
    let mut s = AppState::new();
    s.draw_pixel(1, 2, "rgb(0,0,1)").unwrap();
    s.draw_pixel(2, 1, "rgb(0,0,2)").unwrap();
    let snap = s.snapshot();
    assert_eq!(snap[2][1], 1);
    assert_eq!(snap[1][2], 2);
    s.draw_pixel(7, 7, "rgb(0,0,3)").unwrap();
    s.draw_pixel(7, 7, "rgb(0,0,4)").unwrap();
    assert_eq!(s.snapshot()[7][7], 4);
}

#[test]
fn out_of_bounds_is_an_error_not_a_panic() {
    let mut s = AppState::new();
    assert_eq!(s.draw_pixel(32, 0, "rgb(1,1,1)").unwrap_err(), MutationError::OutOfBounds);
    assert_eq!(s.draw_pixel(0, 16, "rgb(1,1,1)").unwrap_err(), MutationError::OutOfBounds);
    assert_eq!(s.erase_pixel(255, 255).unwrap_err(), MutationError::OutOfBounds);
    assert_eq!(s.snapshot(), zeros(16, 32));
}

#[test]
fn malformed_color_is_rejected() {
    let mut s = AppState::new();
    let m = msg(Mode::Draw, 1, 1, "not-a-color");
    assert_eq!(Intent::from_message(&m), Err(MutationError::MalformedColor));
    assert_eq!(s.process_message(&m).unwrap_err(), MutationError::MalformedColor);
    assert_eq!(s.snapshot(), zeros(16, 32));
}

#[test]
fn intents_from_messages() {
    assert_eq!(
        Intent::from_message(&msg(Mode::Draw, 3, 5, "rgba(255,0,0,255)")),
        Ok(Intent::Draw { x: 3, y: 5, color: Color { red: 255, green: 0, blue: 0 } })
    );
    assert_eq!(Intent::from_message(&msg(Mode::Erase, 3, 5, "")), Ok(Intent::Erase { x: 3, y: 5 }));
    assert_eq!(Intent::from_message(&msg(Mode::Clear, 200, 200, "junk")), Ok(Intent::Clear));
}

#[test]
fn new_session_gets_current_board() {
    let mut s = AppState::new();
    s.draw_pixel(6, 6, "rgb(0,1,0)").unwrap();
    let mut session = Session::new();
    assert_eq!(session.phase, Phase::Connecting);
    let first = session.activate(&s).unwrap();
    assert_eq!(first, s.snapshot());
    assert_eq!(session.phase, Phase::Active);
    assert!(session.activate(&s).is_none());
}

#[test]
fn session_teardown_cancels_the_other_loop() {
    let mut session = Session::new();
    let s = AppState::new();
    session.activate(&s);
    assert_eq!(session.loop_ended(LoopKind::Outbound), Teardown::Cancel(LoopKind::Inbound));
    assert_eq!(session.phase, Phase::Draining { remaining: LoopKind::Inbound });
    assert_eq!(session.loop_ended(LoopKind::Outbound), Teardown::Nothing);
    assert_eq!(session.loop_ended(LoopKind::Inbound), Teardown::Release);
    assert_eq!(session.phase, Phase::Closed);
    assert_eq!(session.loop_ended(LoopKind::Inbound), Teardown::Nothing);
}

#[test]
fn malformed_message_keeps_session_and_board() {
    let mut s = AppState::new();
    let mut session = Session::new();
    session.activate(&s);
    let bad = msg(Mode::Draw, 1, 1, "not-a-color");
    assert!(session.on_inbound(&mut s, Some(&bad)).is_none());
    assert!(session.on_inbound(&mut s, None).is_none());
    assert_eq!(session.phase, Phase::Active);
    assert_eq!(s.snapshot(), zeros(16, 32));
    let good = msg(Mode::Draw, 1, 1, "rgb(0,0,1)");
    assert_eq!(session.on_inbound(&mut s, Some(&good)).unwrap().snapshot[1][1], 1);
}

#[test]
fn closed_session_processes_nothing() {
    let mut s = AppState::new();
    let mut session = Session::new();
    let good = msg(Mode::Draw, 1, 1, "rgb(0,0,1)");
    assert!(session.on_inbound(&mut s, Some(&good)).is_none());
    session.activate(&s);
    session.loop_ended(LoopKind::Inbound);
    session.loop_ended(LoopKind::Outbound);
    assert!(session.on_inbound(&mut s, Some(&good)).is_none());
    assert_eq!(s.snapshot(), zeros(16, 32));
}

#[test]
fn end_to_end_draw_then_clear() {
    let mut s = AppState::new();
    let mut session = Session::new();
    let first = session.activate(&s).unwrap();
    assert_eq!(first, zeros(16, 32));
    let a = session.on_inbound(&mut s, Some(&msg(Mode::Draw, 3, 5, "rgba(255,0,0,255)"))).unwrap();
    let mut expected = zeros(16, 32);
    expected[5][3] = 0xFF0000;
    assert_eq!(a.snapshot, expected);
    assert_eq!(Color::unpack(a.snapshot[5][3]), Color { red: 255, green: 0, blue: 0 });
    let b = session.on_inbound(&mut s, Some(&msg(Mode::Clear, 0, 0, ""))).unwrap();
    assert_eq!(b.snapshot, zeros(16, 32));
}

#[test]
fn snapshot_encodes_as_json_rows() {
    let g = vec![vec![1u32, 2], vec![16711680, 0]];
    assert_eq!(encode_snapshot(&g), "[[1,2],[16711680,0]]");
    assert_eq!(encode_snapshot(&Vec::new()), "[]");
    assert_eq!(encode_snapshot(&vec![Vec::new(), vec![1234567890]]), "[[],[1234567890]]");
}

#[test]
fn default_state_is_blank_standard_canvas() {
    let s = AppState::default();
    assert_eq!((s.rows(), s.cols()), (16, 32));
    assert_eq!(s.snapshot(), zeros(16, 32));
}
