//! Wire codec for the node's UDP protocol.
//!
//! Every message travels as one or more fragments, each led by a fixed
//! 12-byte header; all integers on the wire are big-endian. This module is
//! pure: it only maps between in-memory values and byte sequences.

use vstd::prelude::*;
use vstd::string::StringSliceAdditionalSpecFns;

verus! {

/// Fixed size of the wire header in bytes.
pub const HEADER_SIZE: usize = 12;

/// Largest datagram the node ever sends.
pub const FRAGMENT_MAX: usize = 1500;

/// Longest pong payload the node is willing to capture for a piggyback reply.
pub const PONG_DATA_MAX: usize = 16;

/// How a codec operation fails. Both cases are recoverable: the caller
/// discards the input and resets.
#[derive(Clone, Copy, Debug, PartialEq, Eq, Structural)]
pub enum ProtoError {
    /// Fewer bytes were available than a field requires.
    TruncatedInput,
    /// A declared length is inconsistent with the remaining buffer.
    MalformedMessage,
}

/// The unsigned reading of a signed 16-bit value (two's complement).
pub open spec fn u16_of_i16(x: i16) -> u16 {
    if x >= 0 {
        x as u16
    } else {
        (x + 0x10000) as u16
    }
}

/// The signed reading of an unsigned 16-bit value (two's complement).
pub open spec fn i16_of_u16(x: u16) -> i16 {
    if x < 0x8000 {
        x as i16
    } else {
        (x - 0x10000) as i16
    }
}

/// The unsigned reading of a signed 32-bit value (two's complement).
pub open spec fn u32_of_i32(x: i32) -> u32 {
    if x >= 0 {
        x as u32
    } else {
        (x + 0x1_0000_0000) as u32
    }
}

/// The signed reading of an unsigned 32-bit value (two's complement).
pub open spec fn i32_of_u32(x: u32) -> i32 {
    if x < 0x8000_0000 {
        x as i32
    } else {
        (x - 0x1_0000_0000) as i32
    }
}

/// Big-endian bytes of a 16-bit value.
pub open spec fn be16(x: u16) -> Seq<u8> {
    seq![(x / 0x100) as u8, (x % 0x100) as u8]
}

/// Big-endian bytes of a 32-bit value.
pub open spec fn be32(x: u32) -> Seq<u8> {
    seq![
        (x / 0x100_0000) as u8,
        ((x / 0x1_0000) % 0x100) as u8,
        ((x / 0x100) % 0x100) as u8,
        (x % 0x100) as u8,
    ]
}

/// The 16-bit value read big-endian from two bytes.
pub open spec fn u16_from_be(b0: u8, b1: u8) -> u16 {
    ((b0 as u16) * 0x100 + (b1 as u16)) as u16
}

/// The 32-bit value read big-endian from four bytes.
pub open spec fn u32_from_be(b0: u8, b1: u8, b2: u8, b3: u8) -> u32 {
    ((b0 as u32) * 0x100_0000 + (b1 as u32) * 0x1_0000 + (b2 as u32) * 0x100 + (b3 as u32)) as u32
}

pub proof fn lemma_be16_round_trip(x: u16)
    ensures
        u16_from_be(be16(x)[0], be16(x)[1]) == x,
        be16(x).len() == 2,
{
    assert(((x / 0x100) as u8) as u16 * 0x100 + ((x % 0x100) as u8) as u16 == x) by (bit_vector);
}

pub proof fn lemma_be32_round_trip(x: u32)
    ensures
        u32_from_be(be32(x)[0], be32(x)[1], be32(x)[2], be32(x)[3]) == x,
        be32(x).len() == 4,
{
    assert(((x / 0x100_0000) as u8) as u32 * 0x100_0000 + (((x / 0x1_0000) % 0x100) as u8) as u32
        * 0x1_0000 + (((x / 0x100) % 0x100) as u8) as u32 * 0x100 + ((x % 0x100) as u8) as u32
        == x) by (bit_vector);
}

pub proof fn lemma_i16_round_trip(x: i16)
    ensures
        i16_of_u16(u16_of_i16(x)) == x,
{
}

pub proof fn lemma_i32_round_trip(x: i32)
    ensures
        i32_of_u32(u32_of_i32(x)) == x,
{
}

fn i16_to_u16(x: i16) -> (r: u16)
    ensures
        r == u16_of_i16(x),
{
    if x >= 0 {
        x as u16
    } else {
        ((x as i32) + 0x10000) as u16
    }
}

fn u16_to_i16(x: u16) -> (r: i16)
    ensures
        r == i16_of_u16(x),
{
    if x < 0x8000 {
        x as i16
    } else {
        ((x as i32) - 0x10000) as i16
    }
}

fn i32_to_u32(x: i32) -> (r: u32)
    ensures
        r == u32_of_i32(x),
{
    if x >= 0 {
        x as u32
    } else {
        ((x as i64) + 0x1_0000_0000) as u32
    }
}

fn u32_to_i32(x: u32) -> (r: i32)
    ensures
        r == i32_of_u32(x),
{
    if x < 0x8000_0000 {
        x as i32
    } else {
        ((x as i64) - 0x1_0000_0000) as i32
    }
}

/// The fixed wire header leading every fragment.
#[derive(Clone, Copy, Debug, PartialEq, Eq, Structural)]
pub struct Header {
    /// Identifies the logical message this fragment belongs to.
    pub id: i16,
    /// Number of payload bytes in this fragment.
    pub frame_size: i16,
    /// Total size of the logical message across all fragments.
    pub msg_size: i32,
    /// Position of this fragment's payload within the logical message.
    pub frame_offset: i32,
}

/// The 12 bytes a header occupies on the wire.
pub open spec fn header_bytes(h: Header) -> Seq<u8> {
    be16(u16_of_i16(h.id)) + be16(u16_of_i16(h.frame_size)) + be32(u32_of_i32(h.msg_size)) + be32(
        u32_of_i32(h.frame_offset),
    )
}

/// The header read from the first 12 bytes of a fragment.
pub open spec fn header_of_bytes(b: Seq<u8>) -> Header {
    Header {
        id: i16_of_u16(u16_from_be(b[0], b[1])),
        frame_size: i16_of_u16(u16_from_be(b[2], b[3])),
        msg_size: i32_of_u32(u32_from_be(b[4], b[5], b[6], b[7])),
        frame_offset: i32_of_u32(u32_from_be(b[8], b[9], b[10], b[11])),
    }
}

/// Decoding the bytes of a header gives the header back.
pub proof fn lemma_header_round_trip(h: Header)
    ensures
        header_bytes(h).len() == HEADER_SIZE,
        header_of_bytes(header_bytes(h)) == h,
{
    lemma_be16_round_trip(u16_of_i16(h.id));
    lemma_be16_round_trip(u16_of_i16(h.frame_size));
    lemma_be32_round_trip(u32_of_i32(h.msg_size));
    lemma_be32_round_trip(u32_of_i32(h.frame_offset));
    lemma_i16_round_trip(h.id);
    lemma_i16_round_trip(h.frame_size);
    lemma_i32_round_trip(h.msg_size);
    lemma_i32_round_trip(h.frame_offset);
    assert(header_of_bytes(header_bytes(h)) == h);
}

impl Header {
    /// Encode this header as its 12 wire bytes.
    pub fn to_bytes(&self) -> (r: [u8; 12])
        ensures
            r@ == header_bytes(*self),
    {
        let id = i16_to_u16(self.id);
        let fs = i16_to_u16(self.frame_size);
        let ms = i32_to_u32(self.msg_size);
        let fo = i32_to_u32(self.frame_offset);
        let buf: [u8; 12] = [
            (id / 0x100) as u8,
            (id % 0x100) as u8,
            (fs / 0x100) as u8,
            (fs % 0x100) as u8,
            (ms / 0x100_0000) as u8,
            ((ms / 0x1_0000) % 0x100) as u8,
            ((ms / 0x100) % 0x100) as u8,
            (ms % 0x100) as u8,
            (fo / 0x100_0000) as u8,
            ((fo / 0x1_0000) % 0x100) as u8,
            ((fo / 0x100) % 0x100) as u8,
            (fo % 0x100) as u8,
        ];
        assert(buf@ =~= header_bytes(*self));
        buf
    }

    /// Decode a header from the front of a received fragment. Fails when
    /// fewer than 12 bytes are available.
    pub fn from_reader(bytes: &[u8]) -> (r: Result<Header, ProtoError>)
        ensures
            bytes@.len() >= HEADER_SIZE ==> r == Ok::<Header, ProtoError>(
                header_of_bytes(bytes@.take(HEADER_SIZE as int)),
            ),
            bytes@.len() < HEADER_SIZE ==> r == Err::<Header, ProtoError>(
                ProtoError::TruncatedInput,
            ),
    {
        if bytes.len() < HEADER_SIZE {
            return Err(ProtoError::TruncatedInput);
        }
        let id = u16_to_i16(u16_from_be_exec(bytes[0], bytes[1]));
        let frame_size = u16_to_i16(u16_from_be_exec(bytes[2], bytes[3]));
        let msg_size = u32_to_i32(u32_from_be_exec(bytes[4], bytes[5], bytes[6], bytes[7]));
        let frame_offset = u32_to_i32(u32_from_be_exec(bytes[8], bytes[9], bytes[10], bytes[11]));
        let h = Header { id, frame_size, msg_size, frame_offset };
        assert(h == header_of_bytes(bytes@.take(HEADER_SIZE as int)));
        Ok(h)
    }
}

/// The type discriminant carried in the first byte of a message.
#[derive(Clone, Copy, Debug, PartialEq, Eq, Structural)]
pub enum MessageType {
    /// Node announces itself to the controller or a mapper.
    BrainHello,
    /// Controller sends pixel data to the node.
    BrainPanelShade,
    /// Mapper announces itself to the controller.
    MapperHello,
    /// Mapper asks the node to identify itself.
    BrainIdRequest,
    BrainMapping,
    Ping,
    /// Controller asks the node to install a firmware image.
    UseFirmware,
}

/// The wire code of a message type.
pub open spec fn spec_msg_type_code(t: MessageType) -> u8 {
    match t {
        MessageType::BrainHello => 0,
        MessageType::BrainPanelShade => 1,
        MessageType::MapperHello => 2,
        MessageType::BrainIdRequest => 3,
        MessageType::BrainMapping => 4,
        MessageType::Ping => 5,
        MessageType::UseFirmware => 6,
    }
}

/// The wire code of a message type.
#[verifier::when_used_as_spec(spec_msg_type_code)]
pub fn msg_type_code(t: MessageType) -> (r: u8)
    ensures
        r == spec_msg_type_code(t),
{
    match t {
        MessageType::BrainHello => 0,
        MessageType::BrainPanelShade => 1,
        MessageType::MapperHello => 2,
        MessageType::BrainIdRequest => 3,
        MessageType::BrainMapping => 4,
        MessageType::Ping => 5,
        MessageType::UseFirmware => 6,
    }
}

/// Shader categories a panel-shade descriptor can name.
#[derive(Clone, Copy, Debug, PartialEq, Eq, Structural)]
pub enum ShaderType {
    Solid,
    Pixel,
}

/// The wire code of a shader category.
pub open spec fn spec_shader_code(t: ShaderType) -> u8 {
    match t {
        ShaderType::Solid => 0,
        ShaderType::Pixel => 1,
    }
}

/// The wire code of a shader category.
#[verifier::when_used_as_spec(spec_shader_code)]
pub fn shader_code(t: ShaderType) -> (r: u8)
    ensures
        r == spec_shader_code(t),
{
    match t {
        ShaderType::Solid => 0,
        ShaderType::Pixel => 1,
    }
}

/// Pixel encodings a panel-shade descriptor can name. Only `DirectRgb` and
/// `Indexed2` are supported; the others are recognised and rejected.
#[derive(Clone, Copy, Debug, PartialEq, Eq, Structural)]
pub enum Encoding {
    DirectArgb,
    /// Raw RGB triples, 3 bytes per pixel.
    DirectRgb,
    /// Palette of two colours, one bit per pixel, most significant bit first.
    Indexed2,
    Indexed4,
    Indexed16,
}

/// Pixel encodings as a shader names them; the same codes as [`Encoding`].
#[derive(Clone, Copy, Debug, PartialEq, Eq, Structural)]
pub enum PixelShaderEncoding {
    DirectArgb,
    DirectRgb,
    Indexed2,
    Indexed4,
    Indexed16,
}

/// The wire code of a pixel encoding.
pub open spec fn spec_encoding_code(e: Encoding) -> u8 {
    match e {
        Encoding::DirectArgb => 0,
        Encoding::DirectRgb => 1,
        Encoding::Indexed2 => 2,
        Encoding::Indexed4 => 3,
        Encoding::Indexed16 => 4,
    }
}

/// The wire code of a pixel encoding.
#[verifier::when_used_as_spec(spec_encoding_code)]
pub fn encoding_code(e: Encoding) -> (r: u8)
    ensures
        r == spec_encoding_code(e),
{
    match e {
        Encoding::DirectArgb => 0,
        Encoding::DirectRgb => 1,
        Encoding::Indexed2 => 2,
        Encoding::Indexed4 => 3,
        Encoding::Indexed16 => 4,
    }
}

/// Longest firmware URL the node accepts.
pub const URL_MAX: usize = 512;

/// A request to download and install a new firmware image.
pub struct UseFirmware {
    pub url: String,
}

/// The URL parsed from a firmware-request body: a 4-byte big-endian length,
/// then that many UTF-8 bytes, at most `URL_MAX` of them. `TruncatedInput`
/// when the length field itself is short, `MalformedMessage` when the
/// declared length overruns the buffer or the cap, or the bytes are not
/// UTF-8.
#[verifier::opaque]
pub open spec fn spec_parse_use_firmware(p: Seq<u8>) -> Result<Seq<char>, ProtoError> {
    if p.len() < 4 {
        Err(ProtoError::TruncatedInput)
    } else {
        let l = u32_from_be(p[0], p[1], p[2], p[3]) as int;
        if l > URL_MAX || 4 + l > p.len() {
            Err(ProtoError::MalformedMessage)
        } else if vstd::utf8::valid_utf8(p.subrange(4, 4 + l)) {
            Ok(vstd::utf8::decode_utf8(p.subrange(4, 4 + l)))
        } else {
            Err(ProtoError::MalformedMessage)
        }
    }
}

/// Relies on `String::from_utf8`: it returns the string of exactly the given
/// bytes when they are valid UTF-8, and refuses them otherwise.
#[verifier::external_body]
fn string_from_utf8(bytes: Vec<u8>) -> (r: Option<String>)
    ensures
        r matches Some(s) ==> vstd::utf8::valid_utf8(bytes@) && s@ == vstd::utf8::decode_utf8(
            bytes@,
        ),
        r is None ==> !vstd::utf8::valid_utf8(bytes@),
{
    String::from_utf8(bytes).ok()
}

impl UseFirmware {
    /// Parse a firmware request's body (everything after the type byte).
    pub fn parse(payload: &[u8]) -> (r: Result<UseFirmware, ProtoError>)
        ensures
            match spec_parse_use_firmware(payload@) {
                Ok(u) => r matches Ok(f) && f.url@ == u,
                Err(e) => r matches Err(e2) && e2 == e,
            },
    {
        proof {
            reveal(spec_parse_use_firmware);
        }
        if payload.len() < 4 {
            return Err(ProtoError::TruncatedInput);
        }
        let l_wire = u32_from_be_exec(payload[0], payload[1], payload[2], payload[3]);
        if l_wire > URL_MAX as u32 {
            return Err(ProtoError::MalformedMessage);
        }
        let l = l_wire as usize;
        if l > payload.len() - 4 {
            return Err(ProtoError::MalformedMessage);
        }
        let url_bytes = vstd::slice::slice_to_vec(vstd::slice::slice_subrange(payload, 4, 4 + l));
        assert(url_bytes@ == payload@.subrange(4, 4 + l as int));
        match string_from_utf8(url_bytes) {
            Some(url) => Ok(UseFirmware { url }),
            None => Err(ProtoError::MalformedMessage),
        }
    }
}

/// Accumulates the bytes of an outbound message.
pub struct VecWriter {
    pub buffer: Vec<u8>,
}

impl VecWriter {
    /// An empty writer.
    pub fn new() -> (r: VecWriter)
        ensures
            r.buffer@ == Seq::<u8>::empty(),
    {
        VecWriter { buffer: Vec::new() }
    }

    /// Append every byte of `data`.
    pub fn write_all(&mut self, data: &[u8])
        ensures
            final(self).buffer@ == old(self).buffer@ + data@,
    {
        self.buffer.extend_from_slice(data);
    }
}

/// The one byte a boolean occupies on the wire.
pub open spec fn bool_byte(b: bool) -> u8 {
    if b {
        1
    } else {
        0
    }
}

/// A byte string as it travels: a 4-byte big-endian length, then the bytes.
pub open spec fn length_prefixed(s: Seq<u8>) -> Seq<u8> {
    be32(s.len() as u32) + s
}

/// An optional string as it travels: a presence byte, then the string if
/// present.
pub open spec fn opt_str_bytes(s: Option<Seq<u8>>) -> Seq<u8> {
    match s {
        Some(b) => seq![1u8] + length_prefixed(b),
        None => seq![0u8],
    }
}

/// Append a boolean as one byte.
pub fn write_bool(w: &mut VecWriter, b: bool)
    ensures
        final(w).buffer@ == old(w).buffer@ + seq![bool_byte(b)],
{
    let byte: u8 = if b {
        1
    } else {
        0
    };
    let arr: [u8; 1] = [byte];
    w.write_all(arr.as_slice());
    assert(final(w).buffer@ =~= old(w).buffer@ + seq![bool_byte(b)]);
}

/// Append a length-prefixed byte string.
pub fn write_bytes(w: &mut VecWriter, s: &[u8])
    requires
        s@.len() <= u32::MAX,
    ensures
        final(w).buffer@ == old(w).buffer@ + length_prefixed(s@),
{
    let len = s.len() as u32;
    let len_bytes: [u8; 4] = [
        (len / 0x100_0000) as u8,
        ((len / 0x1_0000) % 0x100) as u8,
        ((len / 0x100) % 0x100) as u8,
        (len % 0x100) as u8,
    ];
    assert(len_bytes@ =~= be32(s@.len() as u32));
    w.write_all(len_bytes.as_slice());
    w.write_all(s);
    assert(final(w).buffer@ =~= old(w).buffer@ + length_prefixed(s@));
}

/// Append a length-prefixed UTF-8 string.
pub fn write_str(w: &mut VecWriter, s: &str)
    requires
        s.spec_bytes().len() <= u32::MAX,
    ensures
        final(w).buffer@ == old(w).buffer@ + length_prefixed(s.spec_bytes()),
{
    write_bytes(w, s.as_bytes());
}

/// Append an optional string: a presence byte, then the string if present.
pub fn write_str_opt(w: &mut VecWriter, s: Option<&str>)
    requires
        s matches Some(x) ==> x.spec_bytes().len() <= u32::MAX,
    ensures
        final(w).buffer@ == old(w).buffer@ + opt_str_bytes(
            match s {
                Some(x) => Some(x.spec_bytes()),
                None => None,
            },
        ),
{
    match s {
        Some(x) => {
            let arr: [u8; 1] = [1];
            w.write_all(arr.as_slice());
            write_str(w, x);
            assert(final(w).buffer@ =~= old(w).buffer@ + opt_str_bytes(Some(x.spec_bytes())));
        },
        None => {
            let arr: [u8; 1] = [0];
            w.write_all(arr.as_slice());
            assert(final(w).buffer@ =~= old(w).buffer@ + opt_str_bytes(
                Option::<Seq<u8>>::None,
            ));
        },
    }
}

/// The body of a hello announcement: the type byte, the node's id, and three
/// optional strings naming the panel and the firmware versions.
pub open spec fn hello_bytes(
    brain_id: Seq<u8>,
    panel_name: Option<Seq<u8>>,
    firmware_version: Option<Seq<u8>>,
    idf_version: Option<Seq<u8>>,
) -> Seq<u8> {
    seq![spec_msg_type_code(MessageType::BrainHello)] + length_prefixed(brain_id) + opt_str_bytes(
        panel_name,
    ) + opt_str_bytes(firmware_version) + opt_str_bytes(idf_version)
}

/// A hello announcement: who this node is, and optionally what it is called
/// and what firmware it runs.
pub struct BrainHello {
    pub brain_id: String,
    pub panel_name: Option<String>,
    pub firmware_version: Option<String>,
    pub idf_version: Option<String>,
}

/// The bytes of an optional owned string.
pub open spec fn opt_string_bytes(s: Option<String>) -> Option<Seq<u8>> {
    match s {
        Some(x) => Some(vstd::utf8::encode_utf8(x@)),
        None => None,
    }
}

/// Whether an optional string is short enough for its length prefix.
pub open spec fn opt_string_fits(s: Option<String>) -> bool {
    match s {
        Some(x) => vstd::utf8::encode_utf8(x@).len() <= u32::MAX,
        None => true,
    }
}

impl BrainHello {
    /// Encode this announcement's body.
    pub fn to_vec(&self) -> (r: Vec<u8>)
        requires
            vstd::utf8::encode_utf8(self.brain_id@).len() <= u32::MAX,
            opt_string_fits(self.panel_name),
            opt_string_fits(self.firmware_version),
            opt_string_fits(self.idf_version),
        ensures
            r@ == hello_bytes(
                vstd::utf8::encode_utf8(self.brain_id@),
                opt_string_bytes(self.panel_name),
                opt_string_bytes(self.firmware_version),
                opt_string_bytes(self.idf_version),
            ),
    {
        let mut w = VecWriter::new();
        let arr: [u8; 1] = [msg_type_code(MessageType::BrainHello)];
        w.write_all(arr.as_slice());
        write_str(&mut w, self.brain_id.as_str());
        write_str_opt(
            &mut w,
            match &self.panel_name {
                Some(x) => Some(x.as_str()),
                None => None,
            },
        );
        write_str_opt(
            &mut w,
            match &self.firmware_version {
                Some(x) => Some(x.as_str()),
                None => None,
            },
        );
        write_str_opt(
            &mut w,
            match &self.idf_version {
                Some(x) => Some(x.as_str()),
                None => None,
            },
        );
        assert(w.buffer@ =~= hello_bytes(
            vstd::utf8::encode_utf8(self.brain_id@),
            opt_string_bytes(self.panel_name),
            opt_string_bytes(self.firmware_version),
            opt_string_bytes(self.idf_version),
        ));
        w.buffer
    }
}

/// The body of a ping or pong: the type byte, whether it answers a ping, and
/// its opaque payload.
pub open spec fn ping_bytes(data: Seq<u8>, is_pong: bool) -> Seq<u8> {
    seq![spec_msg_type_code(MessageType::Ping)] + seq![bool_byte(is_pong)] + length_prefixed(data)
}

/// A ping, or the pong answering it, with an opaque payload the peer chose.
pub struct Ping {
    pub data: Vec<u8>,
    pub is_pong: bool,
}

impl Ping {
    /// Encode this ping's body.
    pub fn to_vec(&self) -> (r: Vec<u8>)
        requires
            self.data@.len() <= PONG_DATA_MAX,
        ensures
            r@ == ping_bytes(self.data@, self.is_pong),
    {
        let mut w = VecWriter::new();
        let arr: [u8; 1] = [msg_type_code(MessageType::Ping)];
        w.write_all(arr.as_slice());
        write_bool(&mut w, self.is_pong);
        write_bytes(&mut w, self.data.as_slice());
        assert(w.buffer@ =~= ping_bytes(self.data@, self.is_pong));
        w.buffer
    }
}

/// The header that frames a whole message sent as one fragment: it starts at
/// offset zero and spans the whole payload. The node never fragments what it
/// sends.
pub open spec fn wrap_header(id: i16, len: int) -> Header {
    Header { id, frame_size: len as i16, msg_size: len as i32, frame_offset: 0 }
}

impl Header {
    /// The header for sending `msg` whole, as one fragment.
    pub fn from_payload(id: i16, msg: &[u8]) -> (r: Header)
        requires
            msg@.len() <= i16::MAX,
        ensures
            r == wrap_header(id, msg@.len() as int),
    {
        Header {
            id,
            frame_size: msg.len() as i16,
            msg_size: msg.len() as i32,
            frame_offset: 0,
        }
    }
}

/// Frame a whole message: the 12 header bytes, then the payload.
pub fn prepend_header(msg_id: i16, payload: Vec<u8>) -> (r: Vec<u8>)
    requires
        payload@.len() <= i16::MAX,
    ensures
        r@ == header_bytes(wrap_header(msg_id, payload@.len() as int)) + payload@,
{
    let header = Header::from_payload(msg_id, payload.as_slice());
    let hb = header.to_bytes();
    let mut out: Vec<u8> = Vec::new();
    out.extend_from_slice(hb.as_slice());
    out.extend_from_slice(payload.as_slice());
    assert(out@ =~= header_bytes(wrap_header(msg_id, payload@.len() as int)) + payload@);
    out
}

/// The hello announcement the node broadcasts: its id and no optional
/// strings.
pub open spec fn hello_msg_bytes(brain_id: Seq<u8>) -> Seq<u8> {
    hello_bytes(brain_id, None, None, None)
}

/// A complete hello datagram: header, then the announcement naming this node.
pub open spec fn hello_datagram(msg_id: i16, brain_id: Seq<u8>) -> Seq<u8> {
    header_bytes(wrap_header(msg_id, hello_msg_bytes(brain_id).len() as int)) + hello_msg_bytes(
        brain_id,
    )
}

/// The hello datagram carries its message id in its header: announcements
/// sent with different ids are distinguishable on the wire.
pub proof fn lemma_hello_datagram_id(msg_id: i16, brain_id: Seq<u8>)
    requires
        brain_id.len() + 8 <= i16::MAX,
    ensures
        hello_datagram(msg_id, brain_id).len() >= HEADER_SIZE,
        header_of_bytes(hello_datagram(msg_id, brain_id).take(HEADER_SIZE as int)).id == msg_id,
{
    let h = wrap_header(msg_id, hello_msg_bytes(brain_id).len() as int);
    lemma_header_round_trip(h);
    assert(hello_datagram(msg_id, brain_id).take(HEADER_SIZE as int) =~= header_bytes(h));
}

/// Append a hello announcement naming this node, with no optional strings.
pub fn write_hello_msg(w: &mut VecWriter, brain_id: &str)
    requires
        brain_id.spec_bytes().len() <= u32::MAX,
    ensures
        final(w).buffer@ == old(w).buffer@ + hello_msg_bytes(brain_id.spec_bytes()),
{
    let arr: [u8; 1] = [msg_type_code(MessageType::BrainHello)];
    w.write_all(arr.as_slice());
    write_str(w, brain_id);
    write_str_opt(w, None);
    write_str_opt(w, None);
    write_str_opt(w, None);
    assert(final(w).buffer@ =~= old(w).buffer@ + hello_msg_bytes(brain_id.spec_bytes()));
}

/// Build the complete hello datagram: header, then the announcement.
pub fn create_hello_msg(msg_id: i16, brain_id: &str) -> (r: Vec<u8>)
    requires
        brain_id.spec_bytes().len() + 8 <= i16::MAX,
    ensures
        r@ == hello_datagram(msg_id, brain_id.spec_bytes()),
{
    let mut out = VecWriter::new();
    write_hello_msg(&mut out, brain_id);
    prepend_header(msg_id, out.buffer)
}

#[verifier::when_used_as_spec(u16_from_be)]
pub(crate) fn u16_from_be_exec(b0: u8, b1: u8) -> (r: u16)
    ensures
        r == u16_from_be(b0, b1),
{
    (b0 as u16) * 0x100 + (b1 as u16)
}

#[verifier::when_used_as_spec(u32_from_be)]
pub(crate) fn u32_from_be_exec(b0: u8, b1: u8, b2: u8, b3: u8) -> (r: u32)
    ensures
        r == u32_from_be(b0, b1, b2, b3),
{
    (b0 as u32) * 0x100_0000 + (b1 as u32) * 0x1_0000 + (b2 as u32) * 0x100 + (b3 as u32)
}

} // verus!
