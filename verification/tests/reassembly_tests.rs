use brain::led_state::{LedState, OnMessageAction};
use brain::pixel::Rgb;
use brain::proto::Header;

fn header(id: i16, frame_size: i16, msg_size: i32, frame_offset: i32) -> Header {
    Header { id, frame_size, msg_size, frame_offset }
}

fn rgb(r: u8, g: u8, b: u8) -> Rgb {
    Rgb { r, g, b }
}

/// The body of a panel-shade first fragment (everything after the wire
/// header): type byte, pong flag and optional pong payload, descriptor,
/// pixel count, optional palette, pixel data.
fn shade_body(
    pong: Option<&[u8]>,
    desc: &[u8],
    pixel_count: u16,
    palette: Option<&[u8]>,
    pixel_data: &[u8],
) -> Vec<u8> {
    let mut body = vec![1u8];
    match pong {
        Some(p) => {
            body.push(1);
            body.extend_from_slice(&(p.len() as u32).to_be_bytes());
            body.extend_from_slice(p);
        }
        None => body.push(0),
    }
    body.extend_from_slice(&(desc.len() as u32).to_be_bytes());
    body.extend_from_slice(desc);
    body.extend_from_slice(&pixel_count.to_be_bytes());
    if let Some(pal) = palette {
        body.extend_from_slice(pal);
    }
    body.extend_from_slice(pixel_data);
    body
}

#[test]
fn palette_decode_selects_colors_msb_first() {
    let mut state = LedState::new(8);
    let palette = [0, 10, 20, 30, 0, 200, 210, 220];
    let body = shade_body(None, &[1, 2], 8, Some(&palette), &[0b1000_0000]);
    let h = header(1, body.len() as i16, body.len() as i32, 0);
    let res = state.on_message(h, &body);
    assert!(matches!(res.action, OnMessageAction::WriteLeds));
    let leds = state.get_leds();
    assert_eq!(leds.len(), 8);
    assert_eq!(leds[0], rgb(200, 210, 220));
    for i in 1..8 {
        assert_eq!(leds[i], rgb(10, 20, 30));
    }
}

#[test]
fn direct_decode_copies_triples() {
    let mut state = LedState::new(2);
    let body = shade_body(None, &[1, 1], 2, None, &[1, 2, 3, 4, 5, 6]);
    let h = header(1, body.len() as i16, body.len() as i32, 0);
    let res = state.on_message(h, &body);
    assert!(matches!(res.action, OnMessageAction::WriteLeds));
    assert_eq!(state.get_leds(), vec![rgb(1, 2, 3), rgb(4, 5, 6)]);
}

#[test]
fn direct_decode_clips_at_buffer_end() {
    let mut state = LedState::new(1);
    let body = shade_body(None, &[1, 1], 4, None, &[1, 2, 3, 4, 5, 6, 7, 8, 9, 10, 11, 12]);
    let h = header(1, body.len() as i16, body.len() as i32, 0);
    let res = state.on_message(h, &body);
    assert!(matches!(res.action, OnMessageAction::WriteLeds));
    assert_eq!(state.get_leds(), vec![rgb(1, 2, 3)]);
}

#[test]
fn palette_decode_clips_at_buffer_end() {
    let mut state = LedState::new(2);
    let palette = [0, 1, 1, 1, 0, 9, 9, 9];
    let body = shade_body(None, &[1, 2], 2, Some(&palette), &[0b1111_1111]);
    let h = header(1, body.len() as i16, body.len() as i32, 0);
    let res = state.on_message(h, &body);
    assert!(matches!(res.action, OnMessageAction::WriteLeds));
    assert_eq!(state.get_leds(), vec![rgb(9, 9, 9), rgb(9, 9, 9)]);
}

#[test]
fn contiguous_continuation_is_accepted() {
    let mut state = LedState::new(2);
    let first = shade_body(None, &[1, 1], 2, None, &[1, 2, 3]);
    let total = (first.len() + 3) as i32;
    let res1 = state.on_message(header(9, first.len() as i16, total, 0), &first);
    assert!(matches!(res1.action, OnMessageAction::Nothing));
    let res2 = state.on_message(header(9, 3, total, first.len() as i32), &[4, 5, 6]);
    assert!(matches!(res2.action, OnMessageAction::WriteLeds));
    assert_eq!(state.get_leds(), vec![rgb(1, 2, 3), rgb(4, 5, 6)]);
}

#[test]
fn continuation_with_wrong_id_resets() {
    let mut state = LedState::new(2);
    let first = shade_body(None, &[1, 1], 2, None, &[1, 2, 3]);
    let total = (first.len() + 3) as i32;
    state.on_message(header(9, first.len() as i16, total, 0), &first);
    let res = state.on_message(header(8, 3, total, first.len() as i32), &[4, 5, 6]);
    assert!(matches!(res.action, OnMessageAction::Nothing));
    // The machine reset: even the rightful continuation is now refused.
    let res3 = state.on_message(header(9, 3, total, first.len() as i32), &[4, 5, 6]);
    assert!(matches!(res3.action, OnMessageAction::Nothing));
    // The earlier pixels were kept, never blanked.
    assert_eq!(state.get_leds(), vec![rgb(1, 2, 3), rgb(0, 0, 0)]);
}

#[test]
fn continuation_with_gap_resets() {
    let mut state = LedState::new(2);
    let first = shade_body(None, &[1, 1], 2, None, &[1, 2, 3]);
    let total = (first.len() + 3) as i32;
    state.on_message(header(9, first.len() as i16, total, 0), &first);
    let res = state.on_message(header(9, 3, total, first.len() as i32 + 1), &[4, 5, 6]);
    assert!(matches!(res.action, OnMessageAction::Nothing));
}

#[test]
fn continuation_without_start_resets() {
    let mut state = LedState::new(2);
    let res = state.on_message(header(9, 3, 6, 3), &[4, 5, 6]);
    assert!(matches!(res.action, OnMessageAction::Nothing));
}

#[test]
fn completion_requires_exact_sum() {
    let mut state = LedState::new(2);
    // A single fragment spanning the whole message completes at once.
    let body = shade_body(None, &[1, 1], 1, None, &[1, 2, 3]);
    let res = state.on_message(header(1, body.len() as i16, body.len() as i32, 0), &body);
    assert!(matches!(res.action, OnMessageAction::WriteLeds));
    // One declaring more to come does not.
    let res2 = state.on_message(header(2, body.len() as i16, body.len() as i32 + 1, 0), &body);
    assert!(matches!(res2.action, OnMessageAction::Nothing));
}

#[test]
fn three_fragment_message_completes_on_last() {
    let mut state = LedState::new(3);
    let first = shade_body(None, &[1, 1], 3, None, &[1, 2, 3]);
    let l1 = first.len() as i32;
    let total = l1 + 6;
    let r1 = state.on_message(header(4, first.len() as i16, total, 0), &first);
    assert!(matches!(r1.action, OnMessageAction::Nothing));
    let r2 = state.on_message(header(4, 3, total, l1), &[4, 5, 6]);
    assert!(matches!(r2.action, OnMessageAction::Nothing));
    let r3 = state.on_message(header(4, 3, total, l1 + 3), &[7, 8, 9]);
    assert!(matches!(r3.action, OnMessageAction::WriteLeds));
    assert_eq!(
        state.get_leds(),
        vec![rgb(1, 2, 3), rgb(4, 5, 6), rgb(7, 8, 9)]
    );
}

#[test]
fn id_request_asks_for_hello() {
    let mut state = LedState::new(2);
    let res = state.on_message(header(5, 1, 1, 0), &[3]);
    assert!(matches!(res.action, OnMessageAction::SendBrainHello));
    assert!(res.pong_data.is_none());
}

#[test]
fn unsupported_message_type_is_ignored() {
    let mut state = LedState::new(2);
    let res = state.on_message(header(5, 1, 1, 0), &[2]);
    assert!(matches!(res.action, OnMessageAction::Nothing));
}

#[test]
fn empty_first_fragment_is_ignored() {
    let mut state = LedState::new(2);
    let res = state.on_message(header(5, 0, 0, 0), &[]);
    assert!(matches!(res.action, OnMessageAction::Nothing));
}

#[test]
fn unsupported_descriptor_is_ignored() {
    let mut state = LedState::new(8);
    let body = shade_body(None, &[1, 3], 2, None, &[1, 2, 3]);
    let res = state.on_message(header(1, body.len() as i16, body.len() as i32, 0), &body);
    assert!(matches!(res.action, OnMessageAction::Nothing));
    // The declared pixel count sticks, as for any parsed shade start.
    assert_eq!(state.get_leds().len(), 2);
}

#[test]
fn truncated_shade_body_is_ignored() {
    let mut state = LedState::new(2);
    for body in [
        vec![1u8],
        vec![1u8, 1],
        vec![1u8, 0, 0, 0],
        vec![1u8, 0, 0, 0, 0, 9],
        vec![1u8, 1, 0, 0, 0, 5, 1],
    ] {
        let res = state.on_message(header(1, body.len() as i16, body.len() as i32, 0), &body);
        assert!(matches!(res.action, OnMessageAction::Nothing));
    }
}

#[test]
fn pong_data_is_captured() {
    let mut state = LedState::new(2);
    let body = shade_body(Some(&[7, 8, 9]), &[1, 1], 2, None, &[1, 2, 3, 4, 5, 6]);
    let res = state.on_message(header(1, body.len() as i16, body.len() as i32, 0), &body);
    assert!(matches!(res.action, OnMessageAction::WriteLeds));
    assert_eq!(res.pong_data, Some(vec![7, 8, 9]));
}

#[test]
fn oversized_pong_data_is_dropped() {
    let mut state = LedState::new(2);
    let pong = [0u8; 17];
    let body = shade_body(Some(&pong), &[1, 1], 2, None, &[1, 2, 3, 4, 5, 6]);
    let res = state.on_message(header(1, body.len() as i16, body.len() as i32, 0), &body);
    assert!(matches!(res.action, OnMessageAction::WriteLeds));
    assert!(res.pong_data.is_none());
    assert_eq!(state.get_leds(), vec![rgb(1, 2, 3), rgb(4, 5, 6)]);
}

#[test]
fn firmware_request_hands_out_url() {
    let mut state = LedState::new(2);
    let body = [6u8, 0, 0, 0, 4, b'h', b't', b't', b'p'];
    let res = state.on_message(header(1, body.len() as i16, body.len() as i32, 0), &body);
    match res.action {
        OnMessageAction::DownloadFirmware(url) => assert_eq!(url, "http"),
        _ => panic!("expected a firmware download"),
    }
}

#[test]
fn malformed_firmware_request_is_ignored() {
    let mut state = LedState::new(2);
    let body = [6u8, 0, 0, 0, 9, b'h'];
    let res = state.on_message(header(1, body.len() as i16, body.len() as i32, 0), &body);
    assert!(matches!(res.action, OnMessageAction::Nothing));
}

#[test]
fn new_start_discards_unfinished_message() {
    let mut state = LedState::new(2);
    let first = shade_body(None, &[1, 1], 2, None, &[1, 2, 3]);
    let total = (first.len() + 3) as i32;
    state.on_message(header(9, first.len() as i16, total, 0), &first);
    // A fresh start arrives before the continuation: the old message is gone.
    let body = shade_body(None, &[1, 1], 2, None, &[9, 9, 9, 8, 8, 8]);
    let res = state.on_message(header(10, body.len() as i16, body.len() as i32, 0), &body);
    assert!(matches!(res.action, OnMessageAction::WriteLeds));
    assert_eq!(state.get_leds(), vec![rgb(9, 9, 9), rgb(8, 8, 8)]);
}

#[test]
fn completion_keeps_continuation_tracking() {
    // Completing a message does not wipe the last header: only a fresh start
    // or a reset does. A fragment that chains onto the completed one is
    // still consumed; here it lands past the buffer and clips away.
    let mut state = LedState::new(2);
    let body = shade_body(None, &[1, 1], 2, None, &[1, 2, 3, 4, 5, 6]);
    let l1 = body.len() as i32;
    let r1 = state.on_message(header(9, body.len() as i16, l1, 0), &body);
    assert!(matches!(r1.action, OnMessageAction::WriteLeds));
    let r2 = state.on_message(header(9, 3, l1 + 3, l1), &[7, 7, 7]);
    assert!(matches!(r2.action, OnMessageAction::WriteLeds));
    assert_eq!(state.get_leds(), vec![rgb(1, 2, 3), rgb(4, 5, 6)]);
}
