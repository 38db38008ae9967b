//! Frame reassembly: turning a stream of received fragments into completed
//! pixel buffers.
//!
//! The state machine starts idle, accepts a first fragment (offset zero),
//! accumulates contiguous continuations, and reports when the final byte of a
//! message lands. Anything malformed, non-contiguous or unsupported resets
//! the machine without touching the pixels already on display.

use crate::pixel::Rgb;
use crate::proto::{
    Header, MessageType, UseFirmware, msg_type_code, spec_msg_type_code, spec_parse_use_firmware,
    u16_from_be, u32_from_be, PONG_DATA_MAX,
};
use vstd::prelude::*;

verus! {

/// Reassembly state: the header and write position of the fragment last
/// consumed, the geometry of the message in progress, and the pixel buffer
/// itself. The buffer is allocated once and its length never changes; a reset
/// deliberately keeps its contents so a bad fragment never blanks the display.
pub struct LedState {
    last_header: Option<Header>,
    last_led_byte_idx: Option<usize>,
    pixel_count: Option<usize>,
    leds: Vec<u8>,
    palette: Option<Vec<u8>>,
}

/// The mathematical model of a reassembly state.
pub ghost struct LedStateView {
    pub last_header: Option<Header>,
    pub last_write: Option<int>,
    pub pixel_count: Option<int>,
    pub leds: Seq<u8>,
    pub palette: Option<Seq<u8>>,
}

impl View for LedState {
    type V = LedStateView;

    closed spec fn view(&self) -> LedStateView {
        LedStateView {
            last_header: self.last_header,
            last_write: match self.last_led_byte_idx {
                Some(i) => Some(i as int),
                None => None,
            },
            pixel_count: match self.pixel_count {
                Some(i) => Some(i as int),
                None => None,
            },
            leds: self.leds@,
            palette: match self.palette {
                Some(p) => Some(p@),
                None => None,
            },
        }
    }
}

impl LedStateView {
    /// What every reachable reassembly state satisfies: the buffer is whole
    /// RGB triples, a stored palette is exactly two 4-byte colours, and the
    /// stored positions fit the machine.
    pub open spec fn wf(self) -> bool {
        &&& self.leds.len() % 3 == 0
        &&& self.leds.len() <= usize::MAX
        &&& (self.palette matches Some(p) ==> p.len() == 8)
        &&& (self.last_write matches Some(w) ==> 0 <= w <= usize::MAX)
        &&& (self.pixel_count matches Some(c) ==> 0 <= c <= u16::MAX)
    }

    /// The state after a reset: framing forgotten, pixels kept.
    pub open spec fn reset(self) -> LedStateView {
        LedStateView { last_header: None, last_write: None, palette: None, ..self }
    }

    /// Where the next fragment's payload will be written.
    pub open spec fn write_offset(self) -> int {
        match self.last_write {
            Some(w) => w,
            None => 0,
        }
    }

    /// How many pixels of the buffer are on display: the declared pixel count
    /// of the message in progress, clipped to the buffer, or the whole buffer
    /// when no count was ever declared.
    pub open spec fn visible_count(self) -> int {
        match self.pixel_count {
            Some(c) => if c <= self.leds.len() / 3 {
                c
            } else {
                (self.leds.len() / 3) as int
            },
            None => (self.leds.len() / 3) as int,
        }
    }

    /// The pixels currently on display, as RGB triples.
    pub open spec fn pixels(self) -> Seq<Rgb> {
        Seq::new(
            self.visible_count() as nat,
            |i: int| Rgb { r: self.leds[3 * i], g: self.leds[3 * i + 1], b: self.leds[3 * i + 2] },
        )
    }
}

/// How many bytes a direct write copies: all of `data`, clipped at the end of
/// the buffer.
pub open spec fn direct_copy_len(cap: int, offset: int, n: int) -> int {
    if offset + n >= cap {
        if cap >= offset {
            cap - offset
        } else {
            0
        }
    } else {
        n
    }
}

/// The pixel buffer after a direct write: the payload bytes are raw RGB
/// triples, copied byte for byte at the write offset, clipped at the end of
/// the buffer.
pub open spec fn write_direct(leds: Seq<u8>, offset: int, data: Seq<u8>) -> Seq<u8> {
    Seq::new(
        leds.len(),
        |j: int|
            if offset <= j < offset + direct_copy_len(leds.len() as int, offset, data.len() as int) {
                data[j - offset]
            } else {
                leds[j]
            },
    )
}

/// The colour channel an indexed-2 bit selects: bit value 0 the first palette
/// colour, 1 the second. Palette entries are 4 bytes each whose first byte is
/// ignored.
pub open spec fn palette_channel(palette: Seq<u8>, bit: u8, channel: int) -> u8 {
    if bit == 0 {
        palette[1 + channel]
    } else {
        palette[5 + channel]
    }
}

/// The payload bit that drives one pixel, most significant bit first: pixel
/// `8k + m` of the stream is bit `7 - m` of payload byte `k`.
pub open spec fn indexed2_bit(data: Seq<u8>, offset: int, led_index: int) -> u8 {
    (data[led_index / 8 - offset] >> ((7 - led_index % 8) as u8)) & 1
}

/// The pixel buffer after an indexed-2 write over a whole-triple buffer: each
/// payload byte drives 8 pixels starting at pixel `offset * 8`, and each
/// driven pixel in range takes the 3 bytes of the palette colour its bit
/// selects. Pixels beyond the buffer are skipped.
pub open spec fn write_indexed2(
    leds: Seq<u8>,
    offset: int,
    data: Seq<u8>,
    palette: Seq<u8>,
) -> Seq<u8> {
    Seq::new(
        leds.len(),
        |j: int|
            if offset * 8 <= j / 3 < (offset + data.len()) * 8 {
                palette_channel(palette, indexed2_bit(data, offset, j / 3), j % 3)
            } else {
                leds[j]
            },
    )
}

/// The pixel buffer mid-way through an indexed-2 write: as `write_indexed2`,
/// but only pixels below `upto` have been driven yet.
spec fn write_indexed2_upto(
    leds: Seq<u8>,
    offset: int,
    data: Seq<u8>,
    palette: Seq<u8>,
    upto: int,
) -> Seq<u8> {
    Seq::new(
        leds.len(),
        |j: int|
            if offset * 8 <= j / 3 < (offset + data.len()) * 8 && j / 3 < upto {
                palette_channel(palette, indexed2_bit(data, offset, j / 3), j % 3)
            } else {
                leds[j]
            },
    )
}

proof fn lemma_div_mod3(j: int)
    requires
        0 <= j,
    ensures
        j == 3 * (j / 3) + (j % 3),
        0 <= j % 3 < 3,
        0 <= j / 3,
{
    vstd::arithmetic::div_mod::lemma_fundamental_div_mod(j, 3);
}

proof fn lemma_div3_bound(j: int, c: int)
    by (nonlinear_arith)
    requires
        0 <= j < 3 * c,
    ensures
        j / 3 < c,
{
}

proof fn lemma_mul8_div_mod(a: int, k: int)
    by (nonlinear_arith)
    requires
        0 <= a,
        0 <= k < 8,
    ensures
        (8 * a + k) / 8 == a,
        (8 * a + k) % 8 == k,
{
}

/// Drive pixels from an indexed-2 payload: each byte is 8 pixels, most
/// significant bit first, each bit choosing one of the two palette colours;
/// pixels beyond the buffer are skipped, never written.
fn paint_indexed2(leds: &mut Vec<u8>, offset: usize, data: &[u8], palette: &Vec<u8>)
    requires
        old(leds)@.len() % 3 == 0,
        palette@.len() == 8,
    ensures
        final(leds)@ == write_indexed2(old(leds)@, offset as int, data@, palette@),
{
    let ghost leds0 = leds@;
    let cap = leds.len();
    let cap_pixels = cap / 3;
    proof {
        vstd::arithmetic::div_mod::lemma_fundamental_div_mod(cap as int, 3);
        vstd::arithmetic::div_mod::lemma_fundamental_div_mod((cap_pixels + 7) as int, 8);
    }
    let lim_in = (cap_pixels + 7) / 8;
    if offset >= lim_in {
        assert forall|j: int| 0 <= j < leds0.len() implies !(offset * 8 <= #[trigger] (j / 3)
            < (offset + data@.len()) * 8) by {
            lemma_div3_bound(j, cap_pixels as int);
        }
        assert(leds@ =~= write_indexed2(leds0, offset as int, data@, palette@));
        return ;
    }
    let n_active: usize = if data.len() < lim_in - offset {
        data.len()
    } else {
        lim_in - offset
    };
    assert(leds@ =~= write_indexed2_upto(leds0, offset as int, data@, palette@, 8 * (offset as int)));
    let mut i: usize = 0;
    while i < n_active
        invariant
            0 <= i <= n_active,
            offset + n_active <= lim_in,
            8 * (lim_in as int) <= cap_pixels + 7,
            cap == leds@.len(),
            cap == 3 * cap_pixels,
            cap <= usize::MAX,
            leds0.len() == cap,
            n_active <= data@.len(),
            palette@.len() == 8,
            leds@ == write_indexed2_upto(
                leds0,
                offset as int,
                data@,
                palette@,
                8 * ((offset + i) as int),
            ),
        decreases n_active - i,
    {
        let byte = data[i];
        let mut k: usize = 0;
        while k < 8
            invariant
                0 <= k <= 8,
                0 <= i < n_active,
                offset + n_active <= lim_in,
                8 * (lim_in as int) <= cap_pixels + 7,
                cap == leds@.len(),
                cap == 3 * cap_pixels,
                cap <= usize::MAX,
                leds0.len() == cap,
                n_active <= data@.len(),
                palette@.len() == 8,
                byte == data@[i as int],
                leds@ == write_indexed2_upto(
                    leds0,
                    offset as int,
                    data@,
                    palette@,
                    8 * ((offset + i) as int) + k,
                ),
            decreases 8 - k,
        {
            let ghost upto = 8 * ((offset + i) as int) + k;
            let p = (offset + i) * 8 + k;
            proof {
                lemma_mul8_div_mod((offset + i) as int, k as int);
            }
            if p < cap_pixels {
                let bit = (byte >> ((7 - k) as u8)) & 1;
                let base: usize = if bit == 0 {
                    1
                } else {
                    5
                };
                let c0 = palette[base];
                let c1 = palette[base + 1];
                let c2 = palette[base + 2];
                let ghost before = leds@;
                leds[3 * p] = c0;
                leds[3 * p + 1] = c1;
                leds[3 * p + 2] = c2;
                proof {
                    let target = write_indexed2_upto(
                        leds0,
                        offset as int,
                        data@,
                        palette@,
                        upto + 1,
                    );
                    assert forall|j: int| 0 <= j < cap implies leds@[j] == target[j] by {
                        lemma_div_mod3(j);
                        if j / 3 == p {
                            assert(j == 3 * (p as int) + (j % 3));
                            assert(indexed2_bit(data@, offset as int, p as int) == bit);
                        } else {
                            assert(leds@[j] == before[j]);
                        }
                    }
                    assert(leds@ =~= target);
                }
            } else {
                proof {
                    let target = write_indexed2_upto(
                        leds0,
                        offset as int,
                        data@,
                        palette@,
                        upto + 1,
                    );
                    assert forall|j: int| 0 <= j < cap implies leds@[j] == target[j] by {
                        lemma_div3_bound(j, cap_pixels as int);
                    }
                    assert(leds@ =~= target);
                }
            }
            k += 1;
        }
        i += 1;
    }
    proof {
        let target = write_indexed2(leds0, offset as int, data@, palette@);
        assert forall|j: int| 0 <= j < cap implies leds@[j] == target[j] by {
            lemma_div3_bound(j, cap_pixels as int);
        }
        assert(leds@ =~= target);
    }
}

/// The write offset after consuming `n` payload bytes, pinned to the top of
/// the machine's range (far beyond any buffer) if it would pass it.
pub open spec fn advance_offset(offset: int, n: int) -> int {
    if offset + n <= usize::MAX {
        offset + n
    } else {
        usize::MAX as int
    }
}

/// What the caller must do after feeding one fragment to the reassembler.
pub enum OnMessageAction {
    /// Nothing: the fragment was consumed, ignored or rejected.
    Nothing,
    /// A frame completed: read the pixels out and hand them to the output
    /// context.
    WriteLeds,
    /// A peer asked who we are: announce ourselves to it.
    SendBrainHello,
    /// The controller asked us to install the firmware image at this URL.
    DownloadFirmware(String),
}

/// What one fragment produced: an action for the caller and, on a pixel
/// message that asked for one, the pong payload to echo once the frame is
/// fully reassembled.
pub struct OnMessageResult {
    pub pong_data: Option<Vec<u8>>,
    pub action: OnMessageAction,
}

/// The mathematical model of an action.
pub ghost enum ActionView {
    Nothing,
    WriteLeds,
    SendBrainHello,
    DownloadFirmware(Seq<char>),
}

impl View for OnMessageAction {
    type V = ActionView;

    open spec fn view(&self) -> ActionView {
        match self {
            OnMessageAction::Nothing => ActionView::Nothing,
            OnMessageAction::WriteLeds => ActionView::WriteLeds,
            OnMessageAction::SendBrainHello => ActionView::SendBrainHello,
            OnMessageAction::DownloadFirmware(url) => ActionView::DownloadFirmware(url@),
        }
    }
}

/// The state and outputs one fragment leads to.
pub ghost struct StepView {
    pub post: LedStateView,
    pub action: ActionView,
    pub pong: Option<Seq<u8>>,
}

/// Whether fragment `h` directly continues the last consumed fragment
/// `prev`: same logical message, starting exactly where `prev` ended.
pub open spec fn follows(prev: Header, h: Header) -> bool {
    prev.id == h.id && prev.frame_offset + prev.frame_size == h.frame_offset
}

/// Whether `h` carries the final byte of its logical message.
pub open spec fn completes(h: Header) -> bool {
    h.frame_offset + h.frame_size == h.msg_size
}

/// What the first fragment of a panel-shade message declares, once parsed.
pub ghost struct ShadeStart {
    /// Pong payload to echo, if asked for and within the cap.
    pub pong: Option<Seq<u8>>,
    /// The two-colour palette, for the indexed encoding only.
    pub palette: Option<Seq<u8>>,
    /// How many pixels the message paints.
    pub pixel_count: int,
    /// The pixel payload carried by this first fragment.
    pub pixel_data: Seq<u8>,
}

/// The outcome of parsing a panel-shade first fragment's body.
pub ghost enum ShadeParse {
    /// Truncated or inconsistent: reset and ignore.
    Malformed,
    /// Parsed, but the descriptor names an encoding the node does not
    /// support: reset and ignore, keeping the pong data and pixel count.
    Unsupported { pong: Option<Seq<u8>>, pixel_count: int },
    /// Parsed and supported.
    Start(ShadeStart),
}

/// Parse a panel-shade body from its descriptor on: descriptor length and
/// bytes, pixel count, and for the indexed encoding the 8-byte palette.
#[verifier::opaque]
pub open spec fn spec_parse_shade_desc(p: Seq<u8>, pong: Option<Seq<u8>>) -> ShadeParse {
    if p.len() < 4 {
        ShadeParse::Malformed
    } else {
        let dl = u32_from_be(p[0], p[1], p[2], p[3]) as int;
        if 4 + dl > p.len() {
            ShadeParse::Malformed
        } else {
            let desc = p.subrange(4, 4 + dl);
            let rest = p.skip(4 + dl);
            if rest.len() < 2 {
                ShadeParse::Malformed
            } else {
                let pixel_count = u16_from_be(rest[0], rest[1]) as int;
                let after_pc = rest.skip(2);
                if desc == seq![1u8, 2u8] {
                    if after_pc.len() < 8 {
                        ShadeParse::Malformed
                    } else {
                        ShadeParse::Start(
                            ShadeStart {
                                pong,
                                palette: Some(after_pc.take(8)),
                                pixel_count,
                                pixel_data: after_pc.skip(8),
                            },
                        )
                    }
                } else if desc == seq![1u8, 1u8] {
                    ShadeParse::Start(
                        ShadeStart { pong, palette: None, pixel_count, pixel_data: after_pc },
                    )
                } else {
                    ShadeParse::Unsupported { pong, pixel_count }
                }
            }
        }
    }
}

/// Parse a panel-shade body (everything after the type byte): the pong flag
/// and optional pong payload, then the descriptor and what follows it.
/// An oversized pong payload is dropped, not fatal.
#[verifier::opaque]
pub open spec fn spec_parse_shade(body: Seq<u8>) -> ShadeParse {
    if body.len() < 1 {
        ShadeParse::Malformed
    } else {
        let has_pong = body[0] > 0;
        let p = body.skip(1);
        if !has_pong {
            spec_parse_shade_desc(p, None)
        } else {
            if p.len() < 4 {
                ShadeParse::Malformed
            } else {
                let pl = u32_from_be(p[0], p[1], p[2], p[3]) as int;
                if 4 + pl > p.len() {
                    ShadeParse::Malformed
                } else {
                    let pong = if pl <= PONG_DATA_MAX {
                        Some(p.subrange(4, 4 + pl))
                    } else {
                        None
                    };
                    spec_parse_shade_desc(p.skip(4 + pl), pong)
                }
            }
        }
    }
}

/// The reassembly state after a fragment's pixel payload lands: the buffer
/// takes the payload in the current encoding at the current write offset,
/// the offset advances by the payload bytes consumed, and the fragment's
/// header becomes the one to continue from.
pub open spec fn spec_write_fragment(s: LedStateView, header: Header, data: Seq<u8>) -> LedStateView {
    match s.palette {
        Some(pal) => LedStateView {
            last_header: Some(header),
            last_write: Some(advance_offset(s.write_offset(), data.len() as int)),
            leds: write_indexed2(s.leds, s.write_offset(), data, pal),
            ..s
        },
        None => LedStateView {
            last_header: Some(header),
            last_write: Some(
                s.write_offset() + direct_copy_len(
                    s.leds.len() as int,
                    s.write_offset(),
                    data.len() as int,
                ),
            ),
            leds: write_direct(s.leds, s.write_offset(), data),
            ..s
        },
    }
}

/// What a panel-shade first fragment leads to, from an already-reset state
/// `s`: a malformed body is ignored; an unsupported descriptor is ignored
/// but keeps its pong data and pixel count; a supported one stores the
/// declared geometry and palette and writes its pixel payload.
pub open spec fn spec_apply_shade(s: LedStateView, header: Header, body: Seq<u8>) -> StepView {
    match spec_parse_shade(body) {
        ShadeParse::Malformed => StepView { post: s, action: ActionView::Nothing, pong: None },
        ShadeParse::Unsupported { pong, pixel_count } => StepView {
            post: LedStateView { pixel_count: Some(pixel_count), ..s },
            action: ActionView::Nothing,
            pong,
        },
        ShadeParse::Start(st) => {
            let s1 = LedStateView { pixel_count: Some(st.pixel_count), palette: st.palette, ..s };
            StepView {
                post: spec_write_fragment(s1, header, st.pixel_data),
                action: if completes(header) {
                    ActionView::WriteLeds
                } else {
                    ActionView::Nothing
                },
                pong: st.pong,
            }
        },
    }
}

/// One step of the reassembly state machine: what receiving `(header,
/// packet)` in state `pre` leads to.
///
/// A fragment at offset zero starts over: the state resets unconditionally
/// and the packet's first byte picks the message type. An identity request
/// asks for a hello; a firmware request with a well-formed URL asks for a
/// download; a panel shade is parsed and its pixel payload written; any
/// other or unparseable message is ignored. A fragment at a non-zero offset
/// is consumed only as a direct continuation of the last one; otherwise the
/// state resets and waits for a fresh start. A write reports completion
/// exactly when the fragment carries the final byte of its message.
#[verifier::opaque]
pub open spec fn spec_on_message(pre: LedStateView, header: Header, packet: Seq<u8>) -> StepView {
    if header.frame_offset == 0 {
        let s = pre.reset();
        if packet.len() < 1 {
            StepView { post: s, action: ActionView::Nothing, pong: None }
        } else {
            let t = packet[0];
            let body = packet.skip(1);
            if t == spec_msg_type_code(MessageType::BrainIdRequest) {
                StepView { post: s, action: ActionView::SendBrainHello, pong: None }
            } else if t == spec_msg_type_code(MessageType::UseFirmware) {
                match spec_parse_use_firmware(body) {
                    Ok(url) => StepView {
                        post: s,
                        action: ActionView::DownloadFirmware(url),
                        pong: None,
                    },
                    Err(_) => StepView { post: s, action: ActionView::Nothing, pong: None },
                }
            } else if t != spec_msg_type_code(MessageType::BrainPanelShade) {
                StepView { post: s, action: ActionView::Nothing, pong: None }
            } else {
                spec_apply_shade(s, header, body)
            }
        }
    } else {
        if pre.last_header matches Some(prev) && follows(prev, header) {
            StepView {
                post: spec_write_fragment(pre, header, packet),
                action: if completes(header) {
                    ActionView::WriteLeds
                } else {
                    ActionView::Nothing
                },
                pong: None,
            }
        } else {
            StepView { post: pre.reset(), action: ActionView::Nothing, pong: None }
        }
    }
}

/// Contiguity law: a fragment at a non-zero offset is accepted as a
/// continuation exactly when it directly follows the last consumed fragment:
/// the same message id, and the previous offset plus the previous size equal
/// to the new offset. On a violation the machine resets and reports nothing;
/// on acceptance the fragment is written and becomes the one to continue
/// from.
pub proof fn lemma_contiguity(pre: LedStateView, prev: Header, header: Header, packet: Seq<u8>)
    requires
        pre.last_header == Some(prev),
        header.frame_offset != 0,
    ensures
        follows(prev, header) <==> spec_on_message(pre, header, packet).post.last_header == Some(
            header,
        ),
        !follows(prev, header) ==> spec_on_message(pre, header, packet).post == pre.reset()
            && spec_on_message(pre, header, packet).action == ActionView::Nothing,
        follows(prev, header) ==> spec_on_message(pre, header, packet).post == spec_write_fragment(
            pre,
            header,
            packet,
        ),
{
    reveal(spec_on_message);
}

/// Without a fragment to continue from, every non-zero offset is rejected:
/// the machine resets and reports nothing.
pub proof fn lemma_no_continuation_without_start(pre: LedStateView, header: Header, packet: Seq<u8>)
    requires
        pre.last_header is None,
        header.frame_offset != 0,
    ensures
        spec_on_message(pre, header, packet).post == pre.reset(),
        spec_on_message(pre, header, packet).action == ActionView::Nothing,
{
    reveal(spec_on_message);
}

/// Completion law for continuations: an accepted continuation reports a
/// completed frame exactly when its offset plus its size reach the declared
/// message size.
pub proof fn lemma_completion_continuation(
    pre: LedStateView,
    prev: Header,
    header: Header,
    packet: Seq<u8>,
)
    requires
        pre.last_header == Some(prev),
        header.frame_offset != 0,
        follows(prev, header),
    ensures
        spec_on_message(pre, header, packet).action == if completes(header) {
            ActionView::WriteLeds
        } else {
            ActionView::Nothing
        },
{
    reveal(spec_on_message);
}

/// Completion law for first fragments: a supported panel-shade start reports
/// a completed frame exactly when its header already spans the whole
/// message, that is when its offset (zero) plus its size reach the declared
/// message size.
pub proof fn lemma_completion_start(pre: LedStateView, header: Header, packet: Seq<u8>)
    requires
        header.frame_offset == 0,
        packet.len() >= 1,
        packet[0] == spec_msg_type_code(MessageType::BrainPanelShade),
        spec_parse_shade(packet.skip(1)) is Start,
    ensures
        spec_on_message(pre, header, packet).action == if completes(header) {
            ActionView::WriteLeds
        } else {
            ActionView::Nothing
        },
{
    reveal(spec_on_message);
}

/// The converse of the completion laws: a completed frame is only ever
/// reported for a fragment that carries the final byte of its message,
/// whatever else the fragment holds.
pub proof fn lemma_write_only_on_completion(pre: LedStateView, header: Header, packet: Seq<u8>)
    ensures
        spec_on_message(pre, header, packet).action is WriteLeds ==> completes(header),
{
    reveal(spec_on_message);
}

/// Any pong payload a fragment yields fits the cap: oversized pong data is
/// dropped at capture.
pub proof fn lemma_pong_capped(pre: LedStateView, header: Header, packet: Seq<u8>)
    ensures
        spec_on_message(pre, header, packet).pong matches Some(d) ==> d.len() <= PONG_DATA_MAX,
{
    reveal(spec_on_message);
    reveal(spec_parse_shade);
    reveal(spec_parse_shade_desc);
}

/// Clipping law: no fragment ever changes the size of the pixel buffer;
/// payload bytes beyond its end are dropped, never written.
pub proof fn lemma_buffer_length_fixed(pre: LedStateView, header: Header, packet: Seq<u8>)
    ensures
        spec_on_message(pre, header, packet).post.leds.len() == pre.leds.len(),
{
    reveal(spec_on_message);
}

/// Copy raw RGB bytes into the buffer at `offset`, clipped at the end; give
/// back the write offset after the copy.
fn copy_direct(leds: &mut Vec<u8>, offset: usize, data: &[u8]) -> (new_offset: usize)
    ensures
        final(leds)@ == write_direct(old(leds)@, offset as int, data@),
        new_offset == offset + direct_copy_len(
            old(leds)@.len() as int,
            offset as int,
            data@.len() as int,
        ),
{
    let cap = leds.len();
    let n_copy: usize = if offset >= cap {
        0
    } else if data.len() >= cap - offset {
        cap - offset
    } else {
        data.len()
    };
    assert(n_copy == direct_copy_len(cap as int, offset as int, data@.len() as int));
    let ghost leds0 = leds@;
    let mut k: usize = 0;
    while k < n_copy
        invariant
            0 <= k <= n_copy,
            n_copy == 0 || offset + n_copy <= cap,
            n_copy <= data@.len(),
            leds@.len() == cap,
            leds0.len() == cap,
            forall|j: int|
                0 <= j < cap ==> leds@[j] == (if offset <= j < offset + k {
                    data@[j - offset]
                } else {
                    leds0[j]
                }),
        decreases n_copy - k,
    {
        let v = data[k];
        leds[offset + k] = v;
        k += 1;
    }
    assert(leds@ =~= write_direct(leds0, offset as int, data@));
    offset + n_copy
}

impl LedState {
    /// A fresh reassembly state sized for `n_leds` pixels, all dark.
    pub fn new(n_leds: usize) -> (r: LedState)
        requires
            n_leds <= usize::MAX / 3,
        ensures
            r@.wf(),
            r@.last_header == Option::<Header>::None,
            r@.last_write == Option::<int>::None,
            r@.pixel_count == Option::<int>::None,
            r@.palette == Option::<Seq<u8>>::None,
            r@.leds == Seq::new((3 * n_leds) as nat, |i: int| 0u8),
    {
        let mut leds: Vec<u8> = Vec::new();
        let mut i: usize = 0;
        let n = n_leds * 3;
        while i < n
            invariant
                0 <= i <= n,
                leds@.len() == i,
                forall|j: int| 0 <= j < i ==> leds@[j] == 0u8,
            decreases n - i,
        {
            leds.push(0u8);
            i += 1;
        }
        assert(leds@ =~= Seq::new((3 * n_leds) as nat, |j: int| 0u8));
        LedState {
            last_header: None,
            last_led_byte_idx: None,
            pixel_count: None,
            leds,
            palette: None,
        }
    }

    /// Forget the message in progress; keep the pixels on display.
    fn reset(&mut self)
        ensures
            final(self)@ == old(self)@.reset(),
    {
        self.last_header = None;
        self.last_led_byte_idx = None;
        self.palette = None;
    }

    /// The pixels currently on display, up to the declared pixel count.
    pub fn get_leds(&self) -> (r: Vec<Rgb>)
        requires
            self@.wf(),
        ensures
            r@ == self@.pixels(),
    {
        let count_limit = self.leds.len() / 3;
        let count = match self.pixel_count {
            Some(c) => if c <= count_limit {
                c
            } else {
                count_limit
            },
            None => count_limit,
        };
        proof {
            vstd::arithmetic::div_mod::lemma_fundamental_div_mod(self.leds@.len() as int, 3);
            assert(3 * count <= self.leds@.len());
        }
        let mut out: Vec<Rgb> = Vec::new();
        let mut i: usize = 0;
        while i < count
            invariant
                0 <= i <= count,
                count == self@.visible_count(),
                3 * count <= self.leds@.len(),
                self.leds@.len() <= usize::MAX,
                out@.len() == i,
                forall|j: int|
                    0 <= j < i ==> out@[j] == (Rgb {
                        r: self.leds@[3 * j],
                        g: self.leds@[3 * j + 1],
                        b: self.leds@[3 * j + 2],
                    }),
            decreases count - i,
        {
            out.push(
                Rgb { r: self.leds[3 * i], g: self.leds[3 * i + 1], b: self.leds[3 * i + 2] },
            );
            i += 1;
        }
        assert(out@ =~= self@.pixels());
        out
    }

    /// Write one fragment's pixel payload into the buffer and record the
    /// fragment as the one to continue from; report whether it completed its
    /// message.
    fn write_fragment(&mut self, header: Header, data: &[u8]) -> (complete: bool)
        requires
            old(self)@.wf(),
        ensures
            final(self)@ == spec_write_fragment(old(self)@, header, data@),
            final(self)@.wf(),
            complete == completes(header),
    {
        let offset = match self.last_led_byte_idx {
            Some(i) => i,
            None => 0,
        };
        match &self.palette {
            Some(pal) => {
                paint_indexed2(&mut self.leds, offset, data, pal);
                let new_off: usize = if offset <= usize::MAX - data.len() {
                    offset + data.len()
                } else {
                    usize::MAX
                };
                self.last_led_byte_idx = Some(new_off);
            },
            None => {
                let new_off = copy_direct(&mut self.leds, offset, data);
                self.last_led_byte_idx = Some(new_off);
            },
        }
        self.last_header = Some(header);
        (header.frame_offset as i64) + (header.frame_size as i64) == (header.msg_size as i64)
    }

    /// Consume the body of a panel-shade first fragment, already reset:
    /// parse the pong payload, descriptor, pixel count and palette, then
    /// write the fragment's pixel data.
    #[verifier::rlimit(100)]
    #[verifier::spinoff_prover]
    fn apply_shade(&mut self, header: Header, rx_packet: &[u8]) -> (r: OnMessageResult)
        requires
            old(self)@.wf(),
            old(self)@.last_header is None,
            old(self)@.last_write is None,
            old(self)@.palette is None,
            rx_packet@.len() >= 1,
        ensures
            ({
                let step = spec_apply_shade(old(self)@, header, rx_packet@.skip(1));
                &&& final(self)@ == step.post
                &&& final(self)@.wf()
                &&& r.action@ == step.action
                &&& (match (r.pong_data, step.pong) {
                    (Some(v), Some(s)) => v@ == s,
                    (None, None) => true,
                    _ => false,
                })
            }),
    {
        proof {
            reveal(spec_parse_shade);
            reveal(spec_parse_shade_desc);
        }
        let ghost body = rx_packet@.skip(1);
        if rx_packet.len() < 2 {
            return OnMessageResult { pong_data: None, action: OnMessageAction::Nothing };
        }
        let has_pong = rx_packet[1] > 0;
        let mut pos: usize = 2;
        let mut pong_data: Option<Vec<u8>> = None;
        let ghost pong_view: Option<Seq<u8>> = None;
        if has_pong {
            let ghost p = body.skip(1);
            assert(p =~= rx_packet@.skip(2));
            if rx_packet.len() - pos < 4 {
                return OnMessageResult { pong_data: None, action: OnMessageAction::Nothing };
            }
            let pl_wire = crate::proto::u32_from_be_exec(
                rx_packet[pos],
                rx_packet[pos + 1],
                rx_packet[pos + 2],
                rx_packet[pos + 3],
            );
            if (pl_wire as u64) > ((rx_packet.len() - pos - 4) as u64) {
                return OnMessageResult { pong_data: None, action: OnMessageAction::Nothing };
            }
            let pl = pl_wire as usize;
            pos = pos + 4;
            if pl <= PONG_DATA_MAX {
                let pong_bytes = vstd::slice::slice_to_vec(
                    vstd::slice::slice_subrange(rx_packet, pos, pos + pl),
                );
                assert(pong_bytes@ =~= p.subrange(4, 4 + pl as int));
                pong_data = Some(pong_bytes);
            }
            proof {
                pong_view = if pl <= PONG_DATA_MAX {
                    Some(p.subrange(4, 4 + pl as int))
                } else {
                    None
                };
            }
            pos = pos + pl;
            assert(rx_packet@.skip(pos as int) =~= p.skip(4 + pl as int));
        } else {
            assert(rx_packet@.skip(pos as int) =~= body.skip(1));
        }
        // From here `pos` stands at the descriptor length; the remainder of
        // the packet is what `spec_parse_shade_desc` sees.
        let ghost desc_input = rx_packet@.skip(pos as int);
        assert(spec_parse_shade(body) == spec_parse_shade_desc(desc_input, pong_view));
        if rx_packet.len() - pos < 4 {
            return OnMessageResult { pong_data: None, action: OnMessageAction::Nothing };
        }
        let dl_wire = crate::proto::u32_from_be_exec(
            rx_packet[pos],
            rx_packet[pos + 1],
            rx_packet[pos + 2],
            rx_packet[pos + 3],
        );
        if (dl_wire as u64) > ((rx_packet.len() - pos - 4) as u64) {
            return OnMessageResult { pong_data: None, action: OnMessageAction::Nothing };
        }
        let dl = dl_wire as usize;
        let desc_pos = pos + 4;
        pos = desc_pos + dl;
        let ghost desc = desc_input.subrange(4, 4 + dl as int);
        let desc_is_direct = dl == 2 && rx_packet[desc_pos] == 1 && rx_packet[desc_pos + 1] == 1;
        let desc_is_indexed2 = dl == 2 && rx_packet[desc_pos] == 1 && rx_packet[desc_pos + 1] == 2;
        proof {
            assert(desc_is_direct == (desc =~= seq![1u8, 1u8]));
            assert(desc_is_indexed2 == (desc =~= seq![1u8, 2u8]));
        }
        if rx_packet.len() - pos < 2 {
            return OnMessageResult { pong_data: None, action: OnMessageAction::Nothing };
        }
        let ghost rest = desc_input.skip(4 + dl as int);
        assert(rest =~= rx_packet@.skip(pos as int));
        let pc = crate::proto::u16_from_be_exec(rx_packet[pos], rx_packet[pos + 1]);
        pos = pos + 2;
        let ghost after_pc = rest.skip(2);
        assert(after_pc =~= rx_packet@.skip(pos as int));
        if desc_is_indexed2 {
            if rx_packet.len() - pos < 8 {
                return OnMessageResult { pong_data: None, action: OnMessageAction::Nothing };
            }
            self.pixel_count = Some(pc as usize);
            let palette = vstd::slice::slice_to_vec(
                vstd::slice::slice_subrange(rx_packet, pos, pos + 8),
            );
            assert(palette@ =~= after_pc.take(8));
            self.palette = Some(palette);
            pos = pos + 8;
        } else if desc_is_direct {
            self.pixel_count = Some(pc as usize);
            self.palette = None;
        } else {
            self.pixel_count = Some(pc as usize);
            return OnMessageResult { pong_data, action: OnMessageAction::Nothing };
        }
        let data = vstd::slice::slice_subrange(rx_packet, pos, rx_packet.len());
        let complete = self.write_fragment(header, data);
        proof {
            if desc_is_indexed2 {
                assert(data@ =~= after_pc.skip(8));
            } else {
                assert(data@ =~= after_pc);
            }
        }
        OnMessageResult {
            pong_data,
            action: if complete {
                OnMessageAction::WriteLeds
            } else {
                OnMessageAction::Nothing
            },
        }
    }

    /// Feed one received fragment to the state machine: `header` is its
    /// decoded wire header and `rx_packet` its payload. Returns the action
    /// the caller must take and any pong payload captured for later echo.
    pub fn on_message(&mut self, header: Header, rx_packet: &[u8]) -> (r: OnMessageResult)
        requires
            old(self)@.wf(),
        ensures
            ({
                let step = spec_on_message(old(self)@, header, rx_packet@);
                &&& final(self)@ == step.post
                &&& final(self)@.wf()
                &&& r.action@ == step.action
                &&& (match (r.pong_data, step.pong) {
                    (Some(v), Some(s)) => v@ == s,
                    (None, None) => true,
                    _ => false,
                })
            }),
    {
        proof {
            reveal(spec_on_message);
        }
        if header.frame_offset != 0 {
            let contiguous = match &self.last_header {
                Some(prev) => prev.id == header.id && (prev.frame_offset as i64) + (
                prev.frame_size as i64) == (header.frame_offset as i64),
                None => false,
            };
            if !contiguous {
                self.reset();
                return OnMessageResult { pong_data: None, action: OnMessageAction::Nothing };
            }
            let complete = self.write_fragment(header, rx_packet);
            return OnMessageResult {
                pong_data: None,
                action: if complete {
                    OnMessageAction::WriteLeds
                } else {
                    OnMessageAction::Nothing
                },
            };
        }
        // A fresh start: discard any unfinished message, whatever it was.
        self.reset();
        if rx_packet.len() < 1 {
            return OnMessageResult { pong_data: None, action: OnMessageAction::Nothing };
        }
        let msg_type = rx_packet[0];
        if msg_type == msg_type_code(MessageType::BrainIdRequest) {
            return OnMessageResult { pong_data: None, action: OnMessageAction::SendBrainHello };
        }
        if msg_type == msg_type_code(MessageType::UseFirmware) {
            let body = vstd::slice::slice_subrange(rx_packet, 1, rx_packet.len());
            assert(body@ == rx_packet@.skip(1));
            return match UseFirmware::parse(body) {
                Ok(fw) => OnMessageResult {
                    pong_data: None,
                    action: OnMessageAction::DownloadFirmware(fw.url),
                },
                Err(_) => OnMessageResult { pong_data: None, action: OnMessageAction::Nothing },
            };
        }
        if msg_type != msg_type_code(MessageType::BrainPanelShade) {
            return OnMessageResult { pong_data: None, action: OnMessageAction::Nothing };
        }
        self.apply_shade(header, rx_packet)
    }
}

} // verus!