//! Liveness and discovery decisions.
//!
//! The node must stay mutually visible with its controller over a
//! connectionless transport. This module holds the decision core of that
//! policy as a state machine from events to actions: what to broadcast when
//! the link comes up or the controller goes silent, and what to do with each
//! received datagram. The surrounding event loop owns the sockets and the
//! timer; it performs each action and hands the next event back.

use crate::led_state::{ActionView, LedState, LedStateView, OnMessageAction, spec_on_message};
use crate::pixel::Rgb;
use crate::proto::{
    Header, HEADER_SIZE, PONG_DATA_MAX, Ping, create_hello_msg, header_of_bytes, hello_datagram,
    ping_bytes, prepend_header, header_bytes, wrap_header,
};
use vstd::prelude::*;

verus! {

/// The message id that follows `id`, wrapping around at the top. Ids are a
/// continuation-matching token, not unique: wrap-around is safe.
pub open spec fn next_msg_id(id: i16) -> i16 {
    if id == i16::MAX {
        i16::MIN
    } else {
        (id + 1) as i16
    }
}

/// The liveness supervisor: the node's identity, the id its next outbound
/// message will carry, any pong payload awaiting a completed frame, and the
/// frame reassembly machine it feeds.
pub struct Supervisor {
    msg_id: i16,
    brain_id: String,
    next_pong_data: Option<Vec<u8>>,
    led_state: LedState,
}

/// The mathematical model of a supervisor.
pub ghost struct SupervisorView {
    pub msg_id: i16,
    pub brain_id: Seq<char>,
    pub pong: Option<Seq<u8>>,
    pub led: LedStateView,
}

impl View for Supervisor {
    type V = SupervisorView;

    closed spec fn view(&self) -> SupervisorView {
        SupervisorView {
            msg_id: self.msg_id,
            brain_id: self.brain_id@,
            pong: match self.next_pong_data {
                Some(d) => Some(d@),
                None => None,
            },
            led: self.led_state@,
        }
    }
}

impl SupervisorView {
    /// What every reachable supervisor satisfies: a well-formed reassembly
    /// state, an identity short enough for a hello datagram, and a stored
    /// pong within its cap.
    pub open spec fn wf(self) -> bool {
        &&& self.led.wf()
        &&& vstd::utf8::encode_utf8(self.brain_id).len() + 8 <= i16::MAX
        &&& (self.pong matches Some(d) ==> d.len() <= PONG_DATA_MAX)
    }

    /// The node's identity as the hello announcement carries it.
    pub open spec fn brain_id_bytes(self) -> Seq<u8> {
        vstd::utf8::encode_utf8(self.brain_id)
    }
}

/// What one received datagram obliges the caller to do.
pub struct DatagramOutcome {
    /// A completed frame to publish to the output context.
    pub frame: Option<Vec<Rgb>>,
    /// Bytes to send back to the datagram's sender: a hello when the sender
    /// asked who we are, or the pong echo once a frame that asked for one
    /// completes.
    pub reply: Option<Vec<u8>>,
    /// The URL of a firmware image the controller asked us to install.
    pub download: Option<String>,
}

/// The mathematical model of a datagram's outcome.
pub ghost struct DatagramOutcomeView {
    pub frame: Option<Seq<Rgb>>,
    pub reply: Option<Seq<u8>>,
    pub download: Option<Seq<char>>,
}

impl View for DatagramOutcome {
    type V = DatagramOutcomeView;

    closed spec fn view(&self) -> DatagramOutcomeView {
        DatagramOutcomeView {
            frame: match self.frame {
                Some(f) => Some(f@),
                None => None,
            },
            reply: match self.reply {
                Some(b) => Some(b@),
                None => None,
            },
            download: match self.download {
                Some(u) => Some(u@),
                None => None,
            },
        }
    }
}

/// The pong datagram echoing `data`: a header, then a ping marked as answer.
pub open spec fn pong_datagram(msg_id: i16, data: Seq<u8>) -> Seq<u8> {
    header_bytes(wrap_header(msg_id, ping_bytes(data, true).len() as int)) + ping_bytes(data, true)
}

/// What one received datagram leads to. A datagram too short for a header is
/// discarded. Otherwise the header is decoded, the next outbound id follows
/// the received one, and the fragment runs through the reassembly machine:
/// a completed frame is published (echoing at most one stored pong to the
/// sender), an identity request is answered with a hello, and a firmware
/// request hands out its URL.
pub open spec fn spec_on_datagram(pre: SupervisorView, packet: Seq<u8>) -> (
    SupervisorView,
    DatagramOutcomeView,
) {
    if packet.len() < HEADER_SIZE {
        (pre, DatagramOutcomeView { frame: None, reply: None, download: None })
    } else {
        let header = header_of_bytes(packet.take(HEADER_SIZE as int));
        let step = spec_on_message(pre.led, header, packet.skip(HEADER_SIZE as int));
        let s1 = SupervisorView {
            msg_id: next_msg_id(header.id),
            led: step.post,
            pong: if step.pong is Some {
                step.pong
            } else {
                pre.pong
            },
            ..pre
        };
        match step.action {
            ActionView::Nothing => (
                s1,
                DatagramOutcomeView { frame: None, reply: None, download: None },
            ),
            ActionView::WriteLeds => {
                let frame = Some(step.post.pixels());
                match s1.pong {
                    Some(d) => (
                        SupervisorView { pong: None, msg_id: next_msg_id(s1.msg_id), ..s1 },
                        DatagramOutcomeView {
                            frame,
                            reply: Some(pong_datagram(s1.msg_id, d)),
                            download: None,
                        },
                    ),
                    None => (s1, DatagramOutcomeView { frame, reply: None, download: None }),
                }
            },
            ActionView::SendBrainHello => (
                SupervisorView { msg_id: next_msg_id(s1.msg_id), ..s1 },
                DatagramOutcomeView {
                    frame: None,
                    reply: Some(hello_datagram(s1.msg_id, pre.brain_id_bytes())),
                    download: None,
                },
            ),
            ActionView::DownloadFirmware(url) => (
                s1,
                DatagramOutcomeView { frame: None, reply: None, download: Some(url) },
            ),
        }
    }
}

impl Supervisor {
    /// A fresh supervisor for a node of this identity driving `n_leds`
    /// pixels, counting outbound messages from zero.
    pub fn new(brain_id: String, n_leds: usize) -> (r: Supervisor)
        requires
            vstd::utf8::encode_utf8(brain_id@).len() + 8 <= i16::MAX,
            n_leds <= usize::MAX / 3,
        ensures
            r@.wf(),
            r@.msg_id == 0,
            r@.brain_id == brain_id@,
            r@.pong is None,
            r@.led.last_header is None,
    {
        Supervisor {
            msg_id: 0,
            brain_id,
            next_pong_data: None,
            led_state: LedState::new(n_leds),
        }
    }

    /// The hello datagram to broadcast now, announcing this node; each call
    /// sends a fresh message id.
    pub fn hello_broadcast(&mut self) -> (r: Vec<u8>)
        requires
            old(self)@.wf(),
        ensures
            r@ == hello_datagram(old(self)@.msg_id, old(self)@.brain_id_bytes()),
            final(self)@ == (SupervisorView { msg_id: next_msg_id(old(self)@.msg_id), ..old(
                self,
            )@ }),
            final(self)@.wf(),
    {
        let msg = create_hello_msg(self.msg_id, self.brain_id.as_str());
        self.msg_id = self.msg_id.wrapping_add(1);
        msg
    }

    /// The controller has been silent for a whole liveness window: escalate
    /// to a broadcast and announce this node again. Exactly one hello goes
    /// out per timeout, with a fresh message id.
    pub fn on_timeout(&mut self) -> (r: Vec<u8>)
        requires
            old(self)@.wf(),
        ensures
            r@ == hello_datagram(old(self)@.msg_id, old(self)@.brain_id_bytes()),
            final(self)@ == (SupervisorView { msg_id: next_msg_id(old(self)@.msg_id), ..old(
                self,
            )@ }),
            final(self)@.wf(),
    {
        self.hello_broadcast()
    }

    /// Feed one received datagram through the protocol: decode its header,
    /// run the reassembly machine, and return what to publish, send back and
    /// download.
    #[verifier::rlimit(100)]
    pub fn on_datagram(&mut self, packet: &[u8]) -> (r: DatagramOutcome)
        requires
            old(self)@.wf(),
        ensures
            ({
                let (post, outcome) = spec_on_datagram(old(self)@, packet@);
                &&& final(self)@ == post
                &&& final(self)@.wf()
                &&& r@ == outcome
            }),
    {
        let header = match Header::from_reader(packet) {
            Ok(h) => h,
            Err(_) => {
                return DatagramOutcome { frame: None, reply: None, download: None };
            },
        };
        self.msg_id = header.id.wrapping_add(1);
        let payload = vstd::slice::slice_subrange(packet, HEADER_SIZE, packet.len());
        assert(payload@ == packet@.skip(HEADER_SIZE as int));
        let ghost step = spec_on_message(
            self.led_state@,
            header,
            packet@.skip(HEADER_SIZE as int),
        );
        let res = self.led_state.on_message(header, payload);
        proof {
            crate::led_state::lemma_pong_capped(
                old(self)@.led,
                header,
                packet@.skip(HEADER_SIZE as int),
            );
        }
        if let Some(pong) = res.pong_data {
            self.next_pong_data = Some(pong);
        }
        let outcome = match res.action {
            OnMessageAction::Nothing => DatagramOutcome { frame: None, reply: None, download: None },
            OnMessageAction::WriteLeds => {
                let frame = Some(self.led_state.get_leds());
                match self.next_pong_data.take() {
                    Some(data) => {
                        let ping = Ping { data, is_pong: true };
                        let body = ping.to_vec();
                        let reply = prepend_header(self.msg_id, body);
                        self.msg_id = self.msg_id.wrapping_add(1);
                        DatagramOutcome { frame, reply: Some(reply), download: None }
                    },
                    None => DatagramOutcome { frame, reply: None, download: None },
                }
            },
            OnMessageAction::SendBrainHello => {
                let reply = create_hello_msg(self.msg_id, self.brain_id.as_str());
                self.msg_id = self.msg_id.wrapping_add(1);
                DatagramOutcome { frame: None, reply: Some(reply), download: None }
            },
            OnMessageAction::DownloadFirmware(url) => DatagramOutcome {
                frame: None,
                reply: None,
                download: Some(url),
            },
        };
        outcome
    }
}

} // verus!
