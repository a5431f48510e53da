//! The RakNet "Unconnected Pong" packet: the record behind it and its
//! byte-exact encoder.
//!
//! A Pong is one byte of message id, eight bytes of elapsed milliseconds,
//! eight bytes of server GUID, the fixed 16-byte offline-message magic, and a
//! length-prefixed, semicolon-delimited descriptor string. Everything but the
//! elapsed-time field is a pure function of the [`Pong`] value.

use rand::Rng;
use vstd::prelude::*;
use vstd::string::StrSliceExecFns;
use vstd::string::StringExecFns;
use vstd::utf8::encode_scalar;
use vstd::utf8::encode_utf8;

use crate::config::server_properties::{
    spec_gamemode_name, spec_has_semi, spec_props_check, spec_props_level, spec_props_name,
    Gamemode, ServerProperties,
};

verus! {

/// Message id of an Unconnected Pong.
pub const PONG_ID: u8 = 0x1c;

/// The ASCII semicolon delimiting the descriptor's fields.
pub const SEMI: u8 = 0x3b;

/// `std::time::Instant`, held opaquely: the codec only ever turns it into an
/// elapsed-milliseconds reading.
#[verifier::external_type_specification]
#[verifier::external_body]
pub struct ExInstant(std::time::Instant);

/// Relies on `std::time::Instant::now`: a reading of the monotonic clock.
/// Nothing is assumed about its value.
pub assume_specification[ std::time::Instant::now ]() -> std::time::Instant;

/// Relies on `std::time::Instant::elapsed`: the time passed since the
/// reading. Nothing is assumed about its value.
pub assume_specification[ std::time::Instant::elapsed ](
    t: &std::time::Instant,
) -> std::time::Duration;

/// Relies on `core::time::Duration::as_millis`: the duration in whole
/// milliseconds. Nothing is assumed about its value.
pub assume_specification[ core::time::Duration::as_millis ](d: &std::time::Duration) -> u128;

/// Relies on `rand::thread_rng` and `rand::Rng::gen`: one `u64` drawn from
/// the thread-local generator. Nothing is assumed about its value.
#[verifier::external_body]
fn random_u64() -> u64 {
    rand::thread_rng().gen()
}

/// The decimal ASCII rendering of `n`, most significant digit first, no sign
/// and no leading zeros (a single `0` for zero).
pub open spec fn spec_dec_digits(n: nat) -> Seq<u8>
    decreases n,
{
    if n < 10 {
        seq![(0x30 + n) as u8]
    } else {
        spec_dec_digits(n / 10).push((0x30 + n % 10) as u8)
    }
}

/// The two bytes of `v` in big-endian order.
pub open spec fn spec_u16_be(v: u16) -> Seq<u8> {
    seq![(v / 0x100) as u8, (v % 0x100) as u8]
}

/// The eight bytes of `v` in big-endian order.
pub open spec fn spec_u64_be(v: u64) -> Seq<u8> {
    seq![
        (v / 0x100000000000000) as u8,
        ((v / 0x1000000000000) % 0x100) as u8,
        ((v / 0x10000000000) % 0x100) as u8,
        ((v / 0x100000000) % 0x100) as u8,
        ((v / 0x1000000) % 0x100) as u8,
        ((v / 0x10000) % 0x100) as u8,
        ((v / 0x100) % 0x100) as u8,
        (v % 0x100) as u8,
    ]
}

/// The fixed 16-byte offline-message "magic" by which a client recognizes
/// the datagram as a RakNet unconnected message.
pub open spec fn spec_magic() -> Seq<u8> {
    seq![
        0x00u8,
        0xff,
        0xff,
        0x00,
        0xfe,
        0xfe,
        0xfe,
        0xfe,
        0xfd,
        0xfd,
        0xfd,
        0xfd,
        0x12,
        0x34,
        0x56,
        0x78,
    ]
}

/// The fixed descriptor run `;0;1;999;` between the version string and the
/// description: placeholder current-player count, placeholder flag, and the
/// stand-in max-player count.
pub open spec fn spec_fixed_mid() -> Seq<u8> {
    seq![SEMI, 0x30u8, SEMI, 0x31, SEMI, 0x39, 0x39, 0x39, SEMI]
}

/// The fixed descriptor run `;1;` between the game mode and the IPv4 port.
pub open spec fn spec_fixed_gm_tail() -> Seq<u8> {
    seq![SEMI, 0x31u8, SEMI]
}

/// The fixed descriptor tail `;0;` after the IPv6 port.
pub open spec fn spec_fixed_end() -> Seq<u8> {
    seq![SEMI, 0x30u8, SEMI]
}

/// The mathematical content of a [`Pong`]: every field the encoder renders.
/// The clock reading has no mathematical value; the elapsed-time field is
/// quantified instead wherever encodings are described.
pub ghost struct PongView {
    /// Server GUID.
    pub guid: u64,
    /// The user-agent-like tag, always `MCPE`.
    pub server_type: Seq<char>,
    /// First line of the client's list entry.
    pub title: Seq<char>,
    /// Second line of the client's list entry.
    pub description: Seq<char>,
    /// Protocol number, e.g. 560.
    pub protocol_number: u64,
    /// Dotted protocol version text, e.g. `1.19.51`.
    pub protocol_version: Seq<char>,
    /// Advertised game mode.
    pub gamemode: Gamemode,
    /// The real server's IPv4 port.
    pub port4: u16,
    /// The real server's IPv6 port.
    pub port6: u16,
}

/// The semicolon-delimited descriptor a client parses into its list entry:
/// `{type};{title};{protocol};{version};0;1;999;{description};{gamemode};1;{port4};{port6};0;`
/// as UTF-8 bytes, the game mode in lowercase.
pub open spec fn spec_descriptor(p: PongView) -> Seq<u8> {
    encode_utf8(p.server_type) + seq![SEMI] + encode_utf8(p.title) + seq![SEMI] + spec_dec_digits(
        p.protocol_number as nat,
    ) + seq![SEMI] + encode_utf8(p.protocol_version) + spec_fixed_mid() + encode_utf8(
        p.description,
    ) + seq![SEMI] + encode_utf8(spec_gamemode_name(p.gamemode)) + spec_fixed_gm_tail()
        + spec_dec_digits(p.port4 as nat) + seq![SEMI] + spec_dec_digits(p.port6 as nat)
        + spec_fixed_end()
}

/// The full Unconnected Pong packet: id byte, elapsed milliseconds
/// (big-endian), GUID (big-endian), the magic, the two-byte big-endian
/// descriptor length, then the descriptor itself.
pub open spec fn spec_pong_bytes(elapsed: u64, guid: u64, desc: Seq<u8>) -> Seq<u8> {
    seq![PONG_ID] + spec_u64_be(elapsed) + spec_u64_be(guid) + spec_magic() + spec_u16_be(
        desc.len() as u16,
    ) + desc
}

/// Renders `v` in decimal ASCII, most significant digit first.
pub fn dec_u64(v: u64) -> (r: Vec<u8>)
    ensures
        r@ == spec_dec_digits(v as nat),
    decreases v,
{
    if v < 10 {
        let mut r: Vec<u8> = Vec::new();
        r.push(0x30 + v as u8);
        proof {
            assert(r@ =~= seq![(0x30 + v as nat) as u8]);
        }
        r
    } else {
        let mut r = dec_u64(v / 10);
        r.push(0x30 + (v % 10) as u8);
        r
    }
}

/// The two big-endian bytes of `v`.
pub fn u16_be_bytes(v: u16) -> (r: Vec<u8>)
    ensures
        r@ == spec_u16_be(v),
{
    let mut r: Vec<u8> = Vec::new();
    r.push((v / 0x100) as u8);
    r.push((v % 0x100) as u8);
    proof {
        assert(r@ =~= spec_u16_be(v));
    }
    r
}

/// The eight big-endian bytes of `v`.
pub fn u64_be_bytes(v: u64) -> (r: Vec<u8>)
    ensures
        r@ == spec_u64_be(v),
{
    let mut r: Vec<u8> = Vec::new();
    r.push((v / 0x100000000000000) as u8);
    r.push(((v / 0x1000000000000) % 0x100) as u8);
    r.push(((v / 0x10000000000) % 0x100) as u8);
    r.push(((v / 0x100000000) % 0x100) as u8);
    r.push(((v / 0x1000000) % 0x100) as u8);
    r.push(((v / 0x10000) % 0x100) as u8);
    r.push(((v / 0x100) % 0x100) as u8);
    r.push((v % 0x100) as u8);
    proof {
        assert(r@ =~= spec_u64_be(v));
    }
    r
}

/// The sixteen magic bytes.
pub fn magic_bytes() -> (r: Vec<u8>)
    ensures
        r@ == spec_magic(),
{
    let mut r: Vec<u8> = Vec::new();
    r.push(0x00);
    r.push(0xff);
    r.push(0xff);
    r.push(0x00);
    r.push(0xfe);
    r.push(0xfe);
    r.push(0xfe);
    r.push(0xfe);
    r.push(0xfd);
    r.push(0xfd);
    r.push(0xfd);
    r.push(0xfd);
    r.push(0x12);
    r.push(0x34);
    r.push(0x56);
    r.push(0x78);
    proof {
        assert(r@ =~= spec_magic());
    }
    r
}

/// Appends the one-byte field separator.
fn push_sep(out: &mut Vec<u8>)
    ensures
        final (out)@ == old(out)@ + seq![SEMI],
{
    out.push(SEMI);
    proof {
        assert(out@ =~= old(out)@ + seq![SEMI]);
    }
}

/// Appends the fixed run `;0;1;999;`.
fn push_fixed_mid(out: &mut Vec<u8>)
    ensures
        final (out)@ == old(out)@ + spec_fixed_mid(),
{
    out.push(SEMI);
    out.push(0x30);
    out.push(SEMI);
    out.push(0x31);
    out.push(SEMI);
    out.push(0x39);
    out.push(0x39);
    out.push(0x39);
    out.push(SEMI);
    proof {
        assert(out@ =~= old(out)@ + spec_fixed_mid());
    }
}

/// Appends the fixed run `;1;`.
fn push_fixed_gm_tail(out: &mut Vec<u8>)
    ensures
        final (out)@ == old(out)@ + spec_fixed_gm_tail(),
{
    out.push(SEMI);
    out.push(0x31);
    out.push(SEMI);
    proof {
        assert(out@ =~= old(out)@ + spec_fixed_gm_tail());
    }
}

/// Appends the fixed tail `;0;`.
fn push_fixed_end(out: &mut Vec<u8>)
    ensures
        final (out)@ == old(out)@ + spec_fixed_end(),
{
    out.push(SEMI);
    out.push(0x30);
    out.push(SEMI);
    proof {
        assert(out@ =~= old(out)@ + spec_fixed_end());
    }
}

/// An Unconnected Pong, ready to be rendered.
///
/// `init_time` and `guid` are fixed at construction and stay fixed for the
/// value's lifetime: the client-visible elapsed-time field is always measured
/// against the one `init_time`, and every rendering carries the one `guid`.
/// Regenerating either between requests would make the client-visible timing
/// behave inconsistently, so no method replaces them.
pub struct Pong {
    /// Monotonic clock reading taken at construction; the encoder emits the
    /// milliseconds elapsed since it.
    init_time: std::time::Instant,
    /// Server GUID, drawn at random once and then stable for this value.
    guid: u64,
    /// The user-agent-like tag, always `MCPE`.
    server_type: String,
    /// First line of the client's list entry.
    pub title: String,
    /// Second line of the client's list entry.
    pub description: String,
    /// Protocol number and dotted version text, e.g. `(560, "1.19.51")`.
    pub protocol: (u64, String),
    /// Advertised game mode.
    pub gamemode: Gamemode,
    /// The real server's IPv4 port.
    pub port4: u16,
    /// The real server's IPv6 port.
    pub port6: u16,
}

impl View for Pong {
    type V = PongView;

    closed spec fn view(&self) -> PongView {
        PongView {
            guid: self.guid,
            server_type: self.server_type@,
            title: self.title@,
            description: self.description@,
            protocol_number: self.protocol.0,
            protocol_version: self.protocol.1@,
            gamemode: self.gamemode,
            port4: self.port4,
            port6: self.port6,
        }
    }
}

impl Pong {
    /// Builds a Pong from a parsed `server.properties` record; every field
    /// the record does not carry keeps its default.
    pub fn from(props: ServerProperties) -> (r: Pong)
        ensures
            r@.title == props.server_name@,
            r@.description == props.level_name@,
            r@.gamemode == props.gamemode,
            r@.port4 == props.port4,
            r@.port6 == props.port6,
            r@.server_type == "MCPE"@,
            r@.protocol_number == 560,
            r@.protocol_version == "1.19.51"@,
    {
        let mut r = Pong::default();
        r.title = props.server_name;
        r.description = props.level_name;
        r.gamemode = props.gamemode;
        r.port4 = props.port4;
        r.port6 = props.port6;
        r
    }

    /// Builds the Pong a Synthesize run advertises: the `server.properties`
    /// record plus the operator-supplied protocol pair, which the file cannot
    /// provide.
    pub fn from_with_protocol(props: ServerProperties, numeric: u64, version: String) -> (r: Pong)
        ensures
            r@.title == props.server_name@,
            r@.description == props.level_name@,
            r@.gamemode == props.gamemode,
            r@.port4 == props.port4,
            r@.port6 == props.port6,
            r@.server_type == "MCPE"@,
            r@.protocol_number == numeric,
            r@.protocol_version == version@,
    {
        let mut r = Pong::from(props);
        r.protocol = (numeric, version);
        r
    }

    /// The descriptor string of this value, as UTF-8 bytes.
    pub fn descriptor_bytes(&self) -> (r: Vec<u8>)
        ensures
            r@ == spec_descriptor(self@),
    {
        let mut out = self.server_type.as_str().as_bytes_vec();
        push_sep(&mut out);
        let mut piece = self.title.as_str().as_bytes_vec();
        out.append(&mut piece);
        push_sep(&mut out);
        let mut piece = dec_u64(self.protocol.0);
        out.append(&mut piece);
        push_sep(&mut out);
        let mut piece = self.protocol.1.as_str().as_bytes_vec();
        out.append(&mut piece);
        push_fixed_mid(&mut out);
        let mut piece = self.description.as_str().as_bytes_vec();
        out.append(&mut piece);
        push_sep(&mut out);
        let gm = self.gamemode.to_string();
        let mut piece = gm.as_str().as_bytes_vec();
        out.append(&mut piece);
        push_fixed_gm_tail(&mut out);
        let mut piece = dec_u64(self.port4 as u64);
        out.append(&mut piece);
        push_sep(&mut out);
        let mut piece = dec_u64(self.port6 as u64);
        out.append(&mut piece);
        push_fixed_end(&mut out);
        proof {
            assert(out@ =~= spec_descriptor(self@));
        }
        out
    }

    /// Renders the packet.
    ///
    /// The elapsed-time field is the low 64 bits of the whole milliseconds
    /// since `init_time`; successive renderings of one value differ only
    /// there. The descriptor must fit the format's two-byte length prefix;
    /// [`Pong::try_as_bytes`] checks that at run time.
    pub fn as_bytes(&self) -> (r: Vec<u8>)
        requires
            spec_descriptor(self@).len() <= 0xFFFF,
        ensures
            exists|t: u64| r@ == spec_pong_bytes(t, self@.guid, spec_descriptor(self@)),
    {
        let descriptor = self.descriptor_bytes();
        let ms: u128 = self.init_time.elapsed().as_millis();
        let t: u64 = (ms % 0x10000000000000000) as u64;
        let r = render(t, self.guid, descriptor);
        proof {
            assert(r@ == spec_pong_bytes(t, self@.guid, spec_descriptor(self@)));
        }
        r
    }

    /// Renders the packet if the descriptor fits the format's two-byte length
    /// prefix, and reports that it does not otherwise.
    pub fn try_as_bytes(&self) -> (r: Option<Vec<u8>>)
        ensures
            r is Some <==> spec_descriptor(self@).len() <= 0xFFFF,
            r matches Some(b) ==> exists|t: u64|
                b@ == spec_pong_bytes(t, self@.guid, spec_descriptor(self@)),
    {
        let descriptor = self.descriptor_bytes();
        if descriptor.len() <= 0xFFFF {
            Some(self.as_bytes())
        } else {
            None
        }
    }
}

impl Default for Pong {
    /// Defaults mirroring a stock Bedrock dedicated server: GUID drawn at
    /// random, clock started now.
    fn default() -> (r: Pong)
        ensures
            r@.server_type == "MCPE"@,
            r@.title == "Minecraft server"@,
            r@.description == "Bedrock level"@,
            r@.protocol_number == 560,
            r@.protocol_version == "1.19.51"@,
            r@.gamemode == Gamemode::Creative,
            r@.port4 == 19132,
            r@.port6 == 19133,
    {
        Pong {
            init_time: std::time::Instant::now(),
            guid: random_u64(),
            server_type: String::from_str("MCPE"),
            title: String::from_str("Minecraft server"),
            description: String::from_str("Bedrock level"),
            protocol: (560, String::from_str("1.19.51")),
            gamemode: Gamemode::Creative,
            port4: 19132,
            port6: 19133,
        }
    }
}

/// Renders the packet around an already-built descriptor.
fn render(elapsed: u64, guid: u64, descriptor: Vec<u8>) -> (r: Vec<u8>)
    requires
        descriptor@.len() <= 0xFFFF,
    ensures
        r@ == spec_pong_bytes(elapsed, guid, descriptor@),
{
    let mut out: Vec<u8> = Vec::new();
    out.push(PONG_ID);
    proof {
        assert(out@ =~= seq![PONG_ID]);
    }
    let mut piece = u64_be_bytes(elapsed);
    out.append(&mut piece);
    let mut piece = u64_be_bytes(guid);
    out.append(&mut piece);
    let mut piece = magic_bytes();
    out.append(&mut piece);
    let mut piece = u16_be_bytes(descriptor.len() as u16);
    out.append(&mut piece);
    let mut descriptor = descriptor;
    out.append(&mut descriptor);
    out
}

/// Where each field of an encoded Pong lies: the whole layout of
/// [`spec_pong_bytes`], one field per clause.
pub proof fn lemma_pong_layout(elapsed: u64, guid: u64, desc: Seq<u8>)
    requires
        desc.len() <= 0xFFFF,
    ensures
        ({
            let r = spec_pong_bytes(elapsed, guid, desc);
            &&& r.len() == 35 + desc.len()
            &&& r[0] == PONG_ID
            &&& r.subrange(1, 9) == spec_u64_be(elapsed)
            &&& r.subrange(9, 17) == spec_u64_be(guid)
            &&& r.subrange(17, 33) == spec_magic()
            &&& r.subrange(33, 35) == spec_u16_be(desc.len() as u16)
            &&& r.subrange(35, r.len() as int) == desc
        }),
{
    let r = spec_pong_bytes(elapsed, guid, desc);
    assert(r.subrange(1, 9) =~= spec_u64_be(elapsed));
    assert(r.subrange(9, 17) =~= spec_u64_be(guid));
    assert(r.subrange(17, 33) =~= spec_magic());
    assert(r.subrange(33, 35) =~= spec_u16_be(desc.len() as u16));
    assert(r.subrange(35, r.len() as int) =~= desc);
}

/// Law: in any encoded Pong, the two-byte big-endian length prefix reads
/// back as exactly the byte length of the descriptor that follows it.
pub proof fn lemma_length_prefix_matches(elapsed: u64, guid: u64, desc: Seq<u8>)
    requires
        desc.len() <= 0xFFFF,
    ensures
        ({
            let r = spec_pong_bytes(elapsed, guid, desc);
            &&& 0x100 * (r[33] as nat) + (r[34] as nat) == desc.len()
            &&& r.subrange(35, r.len() as int) == desc
            &&& r.len() == 35 + desc.len()
        }),
{
    lemma_pong_layout(elapsed, guid, desc);
    let r = spec_pong_bytes(elapsed, guid, desc);
    let n = desc.len() as u16;
    assert(r[33] == spec_u16_be(n)[0] && r[34] == spec_u16_be(n)[1]);
    assert(0x100 * ((n / 0x100) as nat) + ((n % 0x100) as nat) == n as nat);
}

/// Law: every encoded Pong begins with the Pong message id, and the sixteen
/// bytes after the elapsed-time and GUID fields are the fixed magic.
pub proof fn lemma_id_and_magic(elapsed: u64, guid: u64, desc: Seq<u8>)
    requires
        desc.len() <= 0xFFFF,
    ensures
        spec_pong_bytes(elapsed, guid, desc)[0] == PONG_ID,
        spec_pong_bytes(elapsed, guid, desc).subrange(17, 33) == spec_magic(),
{
    lemma_pong_layout(elapsed, guid, desc);
}

/// The first index of `b` in `s`, if any.
pub open spec fn spec_find_byte(s: Seq<u8>, b: u8) -> Option<int>
    decreases s.len(),
{
    if s.len() == 0 {
        None
    } else if s[0] == b {
        Some(0)
    } else {
        match spec_find_byte(s.drop_first(), b) {
            Some(i) => Some(i + 1),
            None => None,
        }
    }
}

/// What [`spec_find_byte`] returns: the least index holding `b`, if any.
pub proof fn lemma_find_byte(s: Seq<u8>, b: u8)
    ensures
        match spec_find_byte(s, b) {
            Some(i) => 0 <= i < s.len() && s[i] == b && (forall|j: int| 0 <= j < i ==> s[j] != b),
            None => forall|j: int| 0 <= j < s.len() ==> s[j] != b,
        },
    decreases s.len(),
{
    if s.len() == 0 {
    } else if s[0] == b {
    } else {
        lemma_find_byte(s.drop_first(), b);
        assert(forall|j: int| 1 <= j < s.len() ==> s[j] == s.drop_first()[j - 1]);
    }
}

/// The least index fixes [`spec_find_byte`]'s value.
proof fn lemma_find_byte_at(s: Seq<u8>, b: u8, i: int)
    requires
        0 <= i < s.len(),
        s[i] == b,
        forall|j: int| 0 <= j < i ==> s[j] != b,
    ensures
        spec_find_byte(s, b) == Some(i),
{
    lemma_find_byte(s, b);
    match spec_find_byte(s, b) {
        Some(k) => {
            if k < i {
                assert(s[k] != b);
            }
            if k > i {
                assert(s[i] != b);
            }
        },
        None => {
            assert(s[i] != b);
        },
    }
}

/// The semicolon-delimited chunks of `s`: what a client's split at the
/// separator yields. A trailing separator opens one final empty chunk.
pub open spec fn spec_split_semi(s: Seq<u8>) -> Seq<Seq<u8>>
    decreases s.len(),
{
    match spec_find_byte(s, SEMI) {
        Some(i) => if 0 <= i < s.len() {
            seq![s.take(i)] + spec_split_semi(s.skip(i + 1))
        } else {
            seq![s]
        },
        None => seq![s],
    }
}

/// Whether `s` is free of the separator byte.
pub open spec fn spec_semi_free(s: Seq<u8>) -> bool {
    forall|k: int| 0 <= k < s.len() ==> s[k] != SEMI
}

/// The thirteen fields of the descriptor, in wire order, separators left
/// out: server type, title, protocol number, version text, the three fixed
/// placeholders, description, game mode, one more fixed placeholder, the two
/// ports, and the fixed trailing zero.
pub open spec fn spec_descriptor_fields(p: PongView) -> Seq<Seq<u8>> {
    seq![
        encode_utf8(p.server_type),
        encode_utf8(p.title),
        spec_dec_digits(p.protocol_number as nat),
        encode_utf8(p.protocol_version),
        seq![0x30u8],
        seq![0x31u8],
        seq![0x39u8, 0x39, 0x39],
        encode_utf8(p.description),
        encode_utf8(spec_gamemode_name(p.gamemode)),
        seq![0x31u8],
        spec_dec_digits(p.port4 as nat),
        spec_dec_digits(p.port6 as nat),
        seq![0x30u8],
    ]
}

/// No byte of the UTF-8 encoding of one character other than the semicolon
/// is the separator byte: an ASCII byte encodes only itself, and every byte
/// of a multi-byte encoding is at least `0x80`.
proof fn lemma_char_semi_free(ch: char)
    requires
        ch != ';',
    ensures
        spec_semi_free(encode_scalar(ch as u32)),
{
    let c = ch as u32;
    assert(c != 0x3b);
    assert(c <= 0x7f && c != 0x3b ==> (c & 0x7f) as u8 != 0x3b) by (bit_vector);
    assert((0xc0u8 | ((c >> 6) & 0x1f) as u8) != 0x3b) by (bit_vector);
    assert((0xe0u8 | ((c >> 12) & 0x0f) as u8) != 0x3b) by (bit_vector);
    assert((0xf0u8 | ((c >> 18) & 0x7) as u8) != 0x3b) by (bit_vector);
    assert((0x80u8 | (c & 0x3f) as u8) != 0x3b) by (bit_vector);
    assert((0x80u8 | ((c >> 6) & 0x3f) as u8) != 0x3b) by (bit_vector);
    assert((0x80u8 | ((c >> 12) & 0x3f) as u8) != 0x3b) by (bit_vector);
}

/// No byte of the UTF-8 encoding of a semicolon-free text is the separator
/// byte.
pub proof fn lemma_utf8_semi_free(s: Seq<char>)
    requires
        !spec_has_semi(s),
    ensures
        spec_semi_free(encode_utf8(s)),
    decreases s.len(),
{
    if s.len() > 0 {
        assert(s[0] != ';');
        lemma_char_semi_free(s[0]);
        assert(forall|j: int| 0 <= j < s.drop_first().len() ==> s.drop_first()[j] == s[j + 1]);
        lemma_utf8_semi_free(s.drop_first());
    }
}

/// Decimal digit bytes are never the separator byte.
pub proof fn lemma_dec_digits_semi_free(n: nat)
    ensures
        spec_semi_free(spec_dec_digits(n)),
    decreases n,
{
    if n >= 10 {
        lemma_dec_digits_semi_free(n / 10);
    }
}

/// Splitting takes a semicolon-free field off the front, at the separator
/// that follows it.
proof fn lemma_split_prefix(field: Seq<u8>, rest: Seq<u8>)
    requires
        spec_semi_free(field),
    ensures
        spec_split_semi(field + seq![SEMI] + rest) == seq![field] + spec_split_semi(rest),
{
    let joined = field + seq![SEMI] + rest;
    assert(joined[field.len() as int] == SEMI);
    assert(forall|j: int| 0 <= j < field.len() ==> joined[j] == field[j]);
    lemma_find_byte_at(joined, SEMI, field.len() as int);
    assert(joined.take(field.len() as int) =~= field);
    assert(joined.skip(field.len() as int + 1) =~= rest);
}

/// The descriptor's flat form regrouped around each separator: the same
/// bytes, with every field heading its own tail. The tails are handed in as
/// `r13` up to `r0`, each one field and one separator longer than the last.
#[verifier::rlimit(100)]
proof fn lemma_descriptor_regrouped(
    ty: Seq<u8>,
    ti: Seq<u8>,
    pn: Seq<u8>,
    pv: Seq<u8>,
    de: Seq<u8>,
    gm: Seq<u8>,
    p4: Seq<u8>,
    p6: Seq<u8>,
    r13: Seq<u8>,
    r12: Seq<u8>,
    r11: Seq<u8>,
    r10: Seq<u8>,
    r9: Seq<u8>,
    r8: Seq<u8>,
    r7: Seq<u8>,
    r6: Seq<u8>,
    r5: Seq<u8>,
    r4: Seq<u8>,
    r3: Seq<u8>,
    r2: Seq<u8>,
    r1: Seq<u8>,
    r0: Seq<u8>,
)
    requires
        r13 == Seq::<u8>::empty(),
        r12 == seq![0x30u8] + seq![SEMI] + r13,
        r11 == p6 + seq![SEMI] + r12,
        r10 == p4 + seq![SEMI] + r11,
        r9 == seq![0x31u8] + seq![SEMI] + r10,
        r8 == gm + seq![SEMI] + r9,
        r7 == de + seq![SEMI] + r8,
        r6 == seq![0x39u8, 0x39, 0x39] + seq![SEMI] + r7,
        r5 == seq![0x31u8] + seq![SEMI] + r6,
        r4 == seq![0x30u8] + seq![SEMI] + r5,
        r3 == pv + seq![SEMI] + r4,
        r2 == pn + seq![SEMI] + r3,
        r1 == ti + seq![SEMI] + r2,
        r0 == ty + seq![SEMI] + r1,
    ensures
        ty + seq![SEMI] + ti + seq![SEMI] + pn + seq![SEMI] + pv + spec_fixed_mid() + de
            + seq![SEMI] + gm + spec_fixed_gm_tail() + p4 + seq![SEMI] + p6 + spec_fixed_end()
            == r0,
{
    let flat = ty + seq![SEMI] + ti + seq![SEMI] + pn + seq![SEMI] + pv + spec_fixed_mid() + de
        + seq![SEMI] + gm + spec_fixed_gm_tail() + p4 + seq![SEMI] + p6 + spec_fixed_end();
    assert(flat =~= r0);
}

/// Law: a client splits the descriptor at semicolons; for a Pong whose
/// server type, title, version text and description are free of semicolons —
/// which parser-built records guarantee — that split recovers exactly the
/// thirteen fields of the format (and the empty chunk after the trailing
/// separator). No valid field can desynchronize the client's parsing.
#[verifier::rlimit(100)]
pub proof fn lemma_descriptor_splits_cleanly(p: PongView)
    requires
        !spec_has_semi(p.server_type),
        !spec_has_semi(p.title),
        !spec_has_semi(p.protocol_version),
        !spec_has_semi(p.description),
    ensures
        spec_split_semi(spec_descriptor(p)) == spec_descriptor_fields(p).push(Seq::empty()),
{
    lemma_utf8_semi_free(p.server_type);
    lemma_utf8_semi_free(p.title);
    lemma_utf8_semi_free(p.protocol_version);
    lemma_utf8_semi_free(p.description);
    crate::config::server_properties::lemma_gamemode_name_semi_free(p.gamemode);
    lemma_utf8_semi_free(spec_gamemode_name(p.gamemode));
    lemma_dec_digits_semi_free(p.protocol_number as nat);
    lemma_dec_digits_semi_free(p.port4 as nat);
    lemma_dec_digits_semi_free(p.port6 as nat);
    let f = spec_descriptor_fields(p);
    assert forall|i: int| 0 <= i < f.len() implies spec_semi_free(#[trigger] f[i]) by {
        if i == 4 || i == 5 || i == 9 || i == 12 {
            assert(f[i].len() == 1);
        }
        if i == 6 {
            assert(f[i].len() == 3);
        }
    }
    let r13 = Seq::<u8>::empty();
    let r12 = f[12] + seq![SEMI] + r13;
    let r11 = f[11] + seq![SEMI] + r12;
    let r10 = f[10] + seq![SEMI] + r11;
    let r9 = f[9] + seq![SEMI] + r10;
    let r8 = f[8] + seq![SEMI] + r9;
    let r7 = f[7] + seq![SEMI] + r8;
    let r6 = f[6] + seq![SEMI] + r7;
    let r5 = f[5] + seq![SEMI] + r6;
    let r4 = f[4] + seq![SEMI] + r5;
    let r3 = f[3] + seq![SEMI] + r4;
    let r2 = f[2] + seq![SEMI] + r3;
    let r1 = f[1] + seq![SEMI] + r2;
    let r0 = f[0] + seq![SEMI] + r1;
    assert(spec_find_byte(r13, SEMI) is None);
    assert(spec_split_semi(r13) == seq![Seq::<u8>::empty()]);
    lemma_split_prefix(f[12], r13);
    lemma_split_prefix(f[11], r12);
    lemma_split_prefix(f[10], r11);
    lemma_split_prefix(f[9], r10);
    lemma_split_prefix(f[8], r9);
    lemma_split_prefix(f[7], r8);
    lemma_split_prefix(f[6], r7);
    lemma_split_prefix(f[5], r6);
    lemma_split_prefix(f[4], r5);
    lemma_split_prefix(f[3], r4);
    lemma_split_prefix(f[2], r3);
    lemma_split_prefix(f[1], r2);
    lemma_split_prefix(f[0], r1);
    lemma_descriptor_regrouped(
        encode_utf8(p.server_type),
        encode_utf8(p.title),
        spec_dec_digits(p.protocol_number as nat),
        encode_utf8(p.protocol_version),
        encode_utf8(p.description),
        encode_utf8(spec_gamemode_name(p.gamemode)),
        spec_dec_digits(p.port4 as nat),
        spec_dec_digits(p.port6 as nat),
        r13,
        r12,
        r11,
        r10,
        r9,
        r8,
        r7,
        r6,
        r5,
        r4,
        r3,
        r2,
        r1,
        r0,
    );
    assert(spec_descriptor(p) == r0);
    assert(spec_split_semi(r0) =~= f.push(Seq::<u8>::empty()));
}

/// Law: a record the parser accepted cannot desynchronize a client. A Pong
/// whose title and description come from an accepted `server.properties`
/// text, whose server type is the fixed `MCPE`, and whose operator-supplied
/// version text is free of semicolons splits its descriptor into exactly the
/// thirteen fields of the format.
pub proof fn lemma_parsed_record_splits_cleanly(config: Seq<char>, p: PongView)
    requires
        spec_props_check(config) is Ok,
        p.title == spec_props_name(config),
        p.description == spec_props_level(config),
        p.server_type == "MCPE"@,
        !spec_has_semi(p.protocol_version),
    ensures
        spec_split_semi(spec_descriptor(p)) == spec_descriptor_fields(p).push(Seq::empty()),
{
    reveal_strlit("MCPE");
    assert forall|i: int| 0 <= i < p.server_type.len() implies p.server_type[i] != ';' by {
        assert("MCPE"@[i] != ';');
    }
    lemma_descriptor_splits_cleanly(p);
}

/// Law: two renderings of one [`Pong`] value carry identical GUID bytes,
/// and agree on every byte outside the elapsed-time field.
pub proof fn lemma_guid_stable(p: PongView, b1: Seq<u8>, b2: Seq<u8>)
    requires
        spec_descriptor(p).len() <= 0xFFFF,
        exists|t: u64| b1 == spec_pong_bytes(t, p.guid, spec_descriptor(p)),
        exists|t: u64| b2 == spec_pong_bytes(t, p.guid, spec_descriptor(p)),
    ensures
        b1.len() == b2.len(),
        b1.subrange(9, 17) == spec_u64_be(p.guid),
        b2.subrange(9, 17) == spec_u64_be(p.guid),
        forall|i: int| 0 <= i < b1.len() && !(1 <= i < 9) ==> b1[i] == b2[i],
{
    let t1 = choose|t: u64| b1 == spec_pong_bytes(t, p.guid, spec_descriptor(p));
    let t2 = choose|t: u64| b2 == spec_pong_bytes(t, p.guid, spec_descriptor(p));
    lemma_pong_layout(t1, p.guid, spec_descriptor(p));
    lemma_pong_layout(t2, p.guid, spec_descriptor(p));
}

} // verus!
