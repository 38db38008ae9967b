use brain::network::{broadcast_of, NetworkInterface};
use brain::pixel::Rgb;
use brain::proto::{create_hello_msg, prepend_header, Header, Ping};
use brain::supervisor::{DatagramOutcome, Supervisor};

fn datagram(id: i16, frame_size: i16, msg_size: i32, frame_offset: i32, body: &[u8]) -> Vec<u8> {
    let h = Header { id, frame_size, msg_size, frame_offset };
    let mut bytes = h.to_bytes().to_vec();
    bytes.extend_from_slice(body);
    bytes
}

fn whole_message(id: i16, body: &[u8]) -> Vec<u8> {
    datagram(id, body.len() as i16, body.len() as i32, 0, body)
}

#[test]
fn timeout_sends_one_hello_with_fresh_id() {
    let mut sup = Supervisor::new("AB".to_string(), 4);
    let first = sup.on_timeout();
    let second = sup.on_timeout();
    assert_eq!(first, create_hello_msg(0, "AB"));
    assert_eq!(second, create_hello_msg(1, "AB"));
    // The id is the only difference between the two broadcasts.
    assert_eq!(first[0..2], [0, 0]);
    assert_eq!(second[0..2], [0, 1]);
    assert_eq!(first[2..], second[2..]);
}

#[test]
fn connect_broadcast_matches_timeout_broadcast() {
    let mut on_connect = Supervisor::new("AB".to_string(), 4);
    let mut on_silence = Supervisor::new("AB".to_string(), 4);
    assert_eq!(on_connect.hello_broadcast(), on_silence.on_timeout());
}

#[test]
fn id_request_is_answered_with_hello_to_sender() {
    let mut sup = Supervisor::new("AB".to_string(), 4);
    let outcome = sup.on_datagram(&whole_message(5, &[3]));
    assert!(outcome.frame.is_none());
    assert!(outcome.download.is_none());
    // The reply id continues from the received message id.
    assert_eq!(outcome.reply, Some(create_hello_msg(6, "AB")));
}

#[test]
fn short_datagram_is_discarded() {
    let mut sup = Supervisor::new("AB".to_string(), 4);
    let outcome = sup.on_datagram(&[1, 2, 3]);
    assert!(outcome.frame.is_none());
    assert!(outcome.reply.is_none());
    assert!(outcome.download.is_none());
}

fn shade_direct_body(pong: Option<&[u8]>, pixel_count: u16, pixel_data: &[u8]) -> Vec<u8> {
    let mut body = vec![1u8];
    match pong {
        Some(p) => {
            body.push(1);
            body.extend_from_slice(&(p.len() as u32).to_be_bytes());
            body.extend_from_slice(p);
        }
        None => body.push(0),
    }
    body.extend_from_slice(&[0, 0, 0, 2, 1, 1]);
    body.extend_from_slice(&pixel_count.to_be_bytes());
    body.extend_from_slice(pixel_data);
    body
}

#[test]
fn completed_frame_is_published() {
    let mut sup = Supervisor::new("AB".to_string(), 2);
    let body = shade_direct_body(None, 2, &[1, 2, 3, 4, 5, 6]);
    let outcome = sup.on_datagram(&whole_message(7, &body));
    assert_eq!(
        outcome.frame,
        Some(vec![Rgb { r: 1, g: 2, b: 3 }, Rgb { r: 4, g: 5, b: 6 }])
    );
    assert!(outcome.reply.is_none());
}

#[test]
fn pong_is_echoed_once_frame_completes() {
    let mut sup = Supervisor::new("AB".to_string(), 2);
    let body = shade_direct_body(Some(&[7, 8]), 2, &[1, 2, 3, 4, 5, 6]);
    let outcome = sup.on_datagram(&whole_message(7, &body));
    assert!(outcome.frame.is_some());
    let ping = Ping { data: vec![7, 8], is_pong: true };
    assert_eq!(outcome.reply, Some(prepend_header(8, ping.to_vec())));
    // The pong is sent exactly once: the next completed frame carries none.
    let body2 = shade_direct_body(None, 2, &[1, 2, 3, 4, 5, 6]);
    let outcome2 = sup.on_datagram(&whole_message(9, &body2));
    assert!(outcome2.frame.is_some());
    assert!(outcome2.reply.is_none());
}

#[test]
fn split_frame_publishes_only_when_complete() {
    let mut sup = Supervisor::new("AB".to_string(), 2);
    let first = shade_direct_body(None, 2, &[1, 2, 3]);
    let total = (first.len() + 3) as i32;
    let o1 = sup.on_datagram(&datagram(9, first.len() as i16, total, 0, &first));
    assert!(o1.frame.is_none());
    let o2 = sup.on_datagram(&datagram(9, 3, total, first.len() as i32, &[4, 5, 6]));
    assert_eq!(
        o2.frame,
        Some(vec![Rgb { r: 1, g: 2, b: 3 }, Rgb { r: 4, g: 5, b: 6 }])
    );
}

#[test]
fn firmware_request_yields_download() {
    let mut sup = Supervisor::new("AB".to_string(), 2);
    let body = [6u8, 0, 0, 0, 4, b'h', b't', b't', b'p'];
    let DatagramOutcome { frame, reply, download } = sup.on_datagram(&whole_message(2, &body));
    assert!(frame.is_none());
    assert!(reply.is_none());
    assert_eq!(download.as_deref(), Some("http"));
}

#[test]
fn broadcast_address_sets_host_bits() {
    assert_eq!(broadcast_of(0xC0A8_0105, 0xFFFF_FF00), 0xC0A8_01FF);
    assert_eq!(broadcast_of(0x0A00_0001, 0xFF00_0000), 0x0AFF_FFFF);
}

struct FixedTransport {
    ip: u32,
    subnet: u32,
}

impl NetworkInterface for FixedTransport {
    fn get_ip(&self) -> u32 {
        self.ip
    }

    fn get_subnet(&self) -> u32 {
        self.subnet
    }

    fn is_up(&self) -> bool {
        true
    }
}

#[test]
fn transport_broadcast_uses_ip_and_mask() {
    let t = FixedTransport { ip: 0xC0A8_0105, subnet: 0xFFFF_FF00 };
    assert_eq!(t.get_broadcast(), 0xC0A8_01FF);
}

#[test]
fn discovery_then_split_frame_scenario() {
    let mut sup = Supervisor::new("AB".to_string(), 2);
    // A mapper asks who we are: one fragment, offset zero, type byte 3.
    let ask = whole_message(5, &[3]);
    let o = sup.on_datagram(&ask);
    assert!(o.reply.is_some());
    assert!(o.frame.is_none());
    // The controller sends a 2-pixel direct frame split across two
    // correctly chained fragments.
    let first = shade_direct_body(None, 2, &[1, 2, 3]);
    let total = (first.len() + 3) as i32;
    let o1 = sup.on_datagram(&datagram(9, first.len() as i16, total, 0, &first));
    assert!(o1.frame.is_none() && o1.reply.is_none());
    let o2 = sup.on_datagram(&datagram(9, 3, total, first.len() as i32, &[4, 5, 6]));
    assert_eq!(
        o2.frame,
        Some(vec![Rgb { r: 1, g: 2, b: 3 }, Rgb { r: 4, g: 5, b: 6 }])
    );
}
