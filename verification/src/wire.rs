//! Kiosk display-socket wire protocol v1 (all integers little-endian).
//!
//! On connect the server writes a HELLO: the 8-byte magic `NIXLOCK1`, then
//! `width: u32`, `height: u32`, `scale: u32`; `0,0,0` means "no kiosk output".
//! The client then sends FRAMES: `width: u32`, `height: u32`, then exactly
//! `width * height * 4` bytes of premultiplied RGBA. A frame header whose
//! implied payload is zero or above [`MAX_FRAME_BYTES`] is refused before any
//! payload is read.
//!
//! The magic names the wire, not the program, and stays `NIXLOCK1`; the
//! server socket file stays `nixlock.sock` (clients dial `clck.sock` first).

use vstd::prelude::*;

verus! {

/// Deployed wire magic. It names the wire, not the program.
pub const MAGIC: &'static str = "NIXLOCK1";

/// Same magic as bytes (`N I X L O C K 1`), for framing without a UTF-8 round trip.
pub const MAGIC_BYTES: &'static [u8; 8] = &[0x4e, 0x49, 0x58, 0x4c, 0x4f, 0x43, 0x4b, 0x31];

/// HELLO length: 8 magic bytes + 3 little-endian `u32` geometry fields.
pub const HELLO_LEN: usize = 20;

/// Defensive backstop on a frame payload: never legitimate for a real display.
pub const MAX_FRAME_BYTES: usize = 67108864;

/// Socket file the server listens on inside the runtime directory (`nixlock.sock`).
pub const SERVER_SOCKET_FILE: &'static [u8; 12] = &[
    0x6e, 0x69, 0x78, 0x6c, 0x6f, 0x63, 0x6b, 0x2e, 0x73, 0x6f, 0x63, 0x6b,
];

/// Socket file a client tries first inside the runtime directory (`clck.sock`).
pub const CLIENT_SOCKET_FILE: &'static [u8; 9] = &[0x63, 0x6c, 0x63, 0x6b, 0x2e, 0x73, 0x6f, 0x63, 0x6b];

/// Kiosk output geometry from a HELLO. `(0, 0, 0)` means "no kiosk output".
#[derive(Clone, Copy, Debug, PartialEq, Eq, Structural)]
pub struct Geometry {
    pub width: u32,
    pub height: u32,
    pub scale: u32,
}

/// The magic as a byte sequence.
pub open spec fn magic_seq() -> Seq<u8> {
    MAGIC_BYTES@
}

/// Little-endian encoding of a 32-bit value: least significant byte first.
pub open spec fn le_bytes(x: u32) -> Seq<u8> {
    seq![
        (x % 256) as u8,
        ((x / 256) % 256) as u8,
        ((x / 65536) % 256) as u8,
        (x / 16777216) as u8,
    ]
}

/// The value of four little-endian bytes.
pub open spec fn le_value(b: Seq<u8>) -> int
    recommends
        b.len() == 4,
{
    b[0] + 256 * b[1] + 65536 * b[2] + 16777216 * b[3]
}

/// The 20 bytes of a HELLO for `g`.
pub open spec fn hello_bytes(g: Geometry) -> Seq<u8> {
    magic_seq() + le_bytes(g.width) + le_bytes(g.height) + le_bytes(g.scale)
}

/// What a HELLO decodes to: `None` when shorter than [`HELLO_LEN`] or when the
/// magic does not match; bytes after the first twenty are ignored.
pub open spec fn hello_geometry(b: Seq<u8>) -> Option<Geometry> {
    if b.len() < HELLO_LEN || b.subrange(0, 8) != magic_seq() {
        None
    } else {
        Some(
            Geometry {
                width: le_value(b.subrange(8, 12)) as u32,
                height: le_value(b.subrange(12, 16)) as u32,
                scale: le_value(b.subrange(16, 20)) as u32,
            },
        )
    }
}

/// The 8 bytes of a frame header for `width` x `height`.
pub open spec fn frame_header_bytes(width: u32, height: u32) -> Seq<u8> {
    le_bytes(width) + le_bytes(height)
}

/// RGBA payload length implied by a frame geometry.
pub open spec fn payload_len(width: u32, height: u32) -> int {
    width * height * 4
}

/// A payload length the server accepts: nonzero and at most [`MAX_FRAME_BYTES`].
pub open spec fn plausible_payload(len: int) -> bool {
    0 < len <= MAX_FRAME_BYTES
}

/// What a frame header decodes to: `(width, height, payload_len)`, or `None`
/// for an implausible payload length.
pub open spec fn frame_header_fields(b: Seq<u8>) -> Option<(u32, u32, usize)>
    recommends
        b.len() == 8,
{
    let width = le_value(b.subrange(0, 4)) as u32;
    let height = le_value(b.subrange(4, 8)) as u32;
    if plausible_payload(payload_len(width, height)) {
        Some((width, height, payload_len(width, height) as usize))
    } else {
        None
    }
}

/// Law: [`MAGIC`] and [`MAGIC_BYTES`] spell the same eight ASCII characters.
pub proof fn lemma_magic_text_matches_bytes()
    ensures
        MAGIC@.len() == 8,
        forall|i: int| 0 <= i < 8 ==> #[trigger] MAGIC@[i] as u32 == MAGIC_BYTES@[i] as u32,
{
    reveal_strlit("NIXLOCK1");
}

/// Decoding four little-endian bytes of `x` gives back `x`.
proof fn lemma_le_value_of_bytes(x: u32)
    ensures
        le_value(le_bytes(x)) == x,
{
    let b = le_bytes(x);
    assert(b[0] == x % 256 && b[1] == (x / 256) % 256 && b[2] == (x / 65536) % 256 && b[3] == x
        / 16777216);
    assert(x == (x % 256) + 256 * ((x / 256) % 256) + 65536 * ((x / 65536) % 256) + 16777216 * (x
        / 16777216)) by (bit_vector);
}

/// Encoding the value of four bytes gives back those bytes.
proof fn lemma_le_bytes_of_value(b: Seq<u8>)
    requires
        b.len() == 4,
    ensures
        0 <= le_value(b) <= u32::MAX,
        le_bytes(le_value(b) as u32) == b,
{
    let (b0, b1, b2, b3) = (b[0], b[1], b[2], b[3]);
    let v = le_value(b);
    assert(0 <= b0 + 256 * b1 + 65536 * b2 + 16777216 * b3 <= 0xffff_ffff) by (bit_vector);
    let x = v as u32;
    assert(x == b0 + 256 * b1 + 65536 * b2 + 16777216 * b3);
    assert(x == b0 + 256 * b1 + 65536 * b2 + 16777216 * b3 ==> (x % 256 == b0 && (x / 256) % 256
        == b1 && (x / 65536) % 256 == b2 && x / 16777216 == b3)) by (bit_vector);
    assert(le_bytes(x) =~= b);
}

/// Law: a HELLO decodes to exactly the geometry it was encoded from.
pub proof fn lemma_hello_roundtrip(g: Geometry)
    ensures
        hello_geometry(hello_bytes(g)) == Some(g),
{
    let b = hello_bytes(g);
    assert(b.subrange(0, 8) =~= magic_seq());
    assert(b.subrange(8, 12) =~= le_bytes(g.width));
    assert(b.subrange(12, 16) =~= le_bytes(g.height));
    assert(b.subrange(16, 20) =~= le_bytes(g.scale));
    lemma_le_value_of_bytes(g.width);
    lemma_le_value_of_bytes(g.height);
    lemma_le_value_of_bytes(g.scale);
}

/// Law: a HELLO that decodes is, in its first [`HELLO_LEN`] bytes, exactly the
/// encoding of what it decodes to (no two HELLOs decode alike).
pub proof fn lemma_hello_decoding_is_exact(b: Seq<u8>)
    requires
        hello_geometry(b) is Some,
    ensures
        hello_bytes(hello_geometry(b)->0) == b.subrange(0, HELLO_LEN as int),
{
    let g = hello_geometry(b)->0;
    lemma_le_bytes_of_value(b.subrange(8, 12));
    lemma_le_bytes_of_value(b.subrange(12, 16));
    lemma_le_bytes_of_value(b.subrange(16, 20));
    assert(hello_bytes(g) =~= b.subrange(0, HELLO_LEN as int));
}

/// Law: bytes after the first [`HELLO_LEN`] never change how a HELLO decodes.
pub proof fn lemma_hello_ignores_trailing_bytes(b: Seq<u8>, extra: Seq<u8>)
    requires
        b.len() >= HELLO_LEN,
    ensures
        hello_geometry(b + extra) == hello_geometry(b),
{
    let c = b + extra;
    assert(c.subrange(0, 8) =~= b.subrange(0, 8));
    assert(c.subrange(8, 12) =~= b.subrange(8, 12));
    assert(c.subrange(12, 16) =~= b.subrange(12, 16));
    assert(c.subrange(16, 20) =~= b.subrange(16, 20));
}

/// Law: a frame header decodes to the geometry it was encoded from, with the
/// implied payload length, exactly when that length is plausible.
pub proof fn lemma_frame_header_roundtrip(width: u32, height: u32)
    ensures
        frame_header_fields(frame_header_bytes(width, height)) == (if plausible_payload(
            payload_len(width, height),
        ) {
            Some((width, height, payload_len(width, height) as usize))
        } else {
            None
        }),
{
    let b = frame_header_bytes(width, height);
    assert(b.subrange(0, 4) =~= le_bytes(width));
    assert(b.subrange(4, 8) =~= le_bytes(height));
    lemma_le_value_of_bytes(width);
    lemma_le_value_of_bytes(height);
}

/// Law: a frame header that decodes is exactly the encoding of the geometry it
/// decodes to.
pub proof fn lemma_frame_header_decoding_is_exact(b: Seq<u8>)
    requires
        b.len() == 8,
    ensures
        frame_header_fields(b) matches Some((w, h, _)) ==> frame_header_bytes(w, h) == b,
{
    lemma_le_bytes_of_value(b.subrange(0, 4));
    lemma_le_bytes_of_value(b.subrange(4, 8));
    let w = le_value(b.subrange(0, 4)) as u32;
    let h = le_value(b.subrange(4, 8)) as u32;
    assert(frame_header_bytes(w, h) =~= b);
}

/// Law: the HELLO layout on the wire. Bytes 0..8 are `N I X L O C K 1`, then
/// the width, the height and the scale follow as little-endian `u32`s at bytes
/// 8..12, 12..16 and 16..20.
pub proof fn lemma_hello_layout(g: Geometry)
    ensures
        hello_bytes(g).len() == 20,
        hello_bytes(g)[0] == 0x4e && hello_bytes(g)[1] == 0x49 && hello_bytes(g)[2] == 0x58
            && hello_bytes(g)[3] == 0x4c && hello_bytes(g)[4] == 0x4f && hello_bytes(g)[5] == 0x43
            && hello_bytes(g)[6] == 0x4b && hello_bytes(g)[7] == 0x31,
        hello_bytes(g)[8] == g.width % 256 && hello_bytes(g)[9] == (g.width / 256) % 256
            && hello_bytes(g)[10] == (g.width / 65536) % 256 && hello_bytes(g)[11] == g.width
            / 16777216,
        hello_bytes(g)[12] == g.height % 256 && hello_bytes(g)[13] == (g.height / 256) % 256
            && hello_bytes(g)[14] == (g.height / 65536) % 256 && hello_bytes(g)[15] == g.height
            / 16777216,
        hello_bytes(g)[16] == g.scale % 256 && hello_bytes(g)[17] == (g.scale / 256) % 256
            && hello_bytes(g)[18] == (g.scale / 65536) % 256 && hello_bytes(g)[19] == g.scale
            / 16777216,
{
    assert(hello_bytes(g)[8] == le_bytes(g.width)[0]);
    assert(hello_bytes(g)[12] == le_bytes(g.height)[0]);
    assert(hello_bytes(g)[16] == le_bytes(g.scale)[0]);
}

/// Law: how any byte string decodes as a HELLO, byte by byte. It decodes
/// exactly when it holds at least 20 bytes and starts with `N I X L O C K 1`;
/// the width is then the little-endian value of bytes 8..12, the height that of
/// bytes 12..16 and the scale that of bytes 16..20.
pub proof fn lemma_hello_decoding_layout(b: Seq<u8>)
    ensures
        hello_geometry(b) is Some <==> b.len() >= 20 && b[0] == 0x4e && b[1] == 0x49 && b[2]
            == 0x58 && b[3] == 0x4c && b[4] == 0x4f && b[5] == 0x43 && b[6] == 0x4b && b[7]
            == 0x31,
        hello_geometry(b) matches Some(g) ==> {
            &&& g.width == b[8] + 256 * b[9] + 65536 * b[10] + 16777216 * b[11]
            &&& g.height == b[12] + 256 * b[13] + 65536 * b[14] + 16777216 * b[15]
            &&& g.scale == b[16] + 256 * b[17] + 65536 * b[18] + 16777216 * b[19]
        },
{
    if b.len() >= 20 {
        if b[0] == 0x4e && b[1] == 0x49 && b[2] == 0x58 && b[3] == 0x4c && b[4] == 0x4f && b[5]
            == 0x43 && b[6] == 0x4b && b[7] == 0x31 {
            assert(b.subrange(0, 8) =~= magic_seq());
        } else {
            assert(b.subrange(0, 8)[0] == b[0]);
            assert(b.subrange(0, 8)[1] == b[1]);
            assert(b.subrange(0, 8)[2] == b[2]);
            assert(b.subrange(0, 8)[3] == b[3]);
            assert(b.subrange(0, 8)[4] == b[4]);
            assert(b.subrange(0, 8)[5] == b[5]);
            assert(b.subrange(0, 8)[6] == b[6]);
            assert(b.subrange(0, 8)[7] == b[7]);
        }
        lemma_le_bytes_of_value(b.subrange(8, 12));
        lemma_le_bytes_of_value(b.subrange(12, 16));
        lemma_le_bytes_of_value(b.subrange(16, 20));
    }
}

/// Law: the frame header layout on the wire: the width as a little-endian
/// `u32` at bytes 0..4, then the height at bytes 4..8.
pub proof fn lemma_frame_header_layout(width: u32, height: u32)
    ensures
        frame_header_bytes(width, height).len() == 8,
        frame_header_bytes(width, height)[0] == width % 256 && frame_header_bytes(width, height)[1]
            == (width / 256) % 256 && frame_header_bytes(width, height)[2] == (width / 65536) % 256
            && frame_header_bytes(width, height)[3] == width / 16777216,
        frame_header_bytes(width, height)[4] == height % 256 && frame_header_bytes(width, height)[5]
            == (height / 256) % 256 && frame_header_bytes(width, height)[6] == (height / 65536)
            % 256 && frame_header_bytes(width, height)[7] == height / 16777216,
{
    assert(frame_header_bytes(width, height)[4] == le_bytes(height)[0]);
}

/// Law: how any 8-byte frame header decodes, byte by byte. With `w` the
/// little-endian value of bytes 0..4 and `h` that of bytes 4..8, it decodes
/// exactly when `0 < w * h * 4 <= MAX_FRAME_BYTES`, and then to `(w, h, w * h * 4)`.
pub proof fn lemma_frame_header_decoding_layout(b: Seq<u8>)
    requires
        b.len() == 8,
    ensures
        ({
            let w = b[0] + 256 * b[1] + 65536 * b[2] + 16777216 * b[3];
            let h = b[4] + 256 * b[5] + 65536 * b[6] + 16777216 * b[7];
            &&& frame_header_fields(b) is Some <==> 0 < w * h * 4 <= MAX_FRAME_BYTES
            &&& frame_header_fields(b) matches Some((fw, fh, len)) ==> fw == w && fh == h && len
                == w * h * 4
        }),
{
    lemma_le_bytes_of_value(b.subrange(0, 4));
    lemma_le_bytes_of_value(b.subrange(4, 8));
}

/// Law: the bytes of the two socket file names: `nixlock.sock` for the server
/// and `clck.sock` for a client, in ASCII.
pub proof fn lemma_socket_file_names()
    ensures
        SERVER_SOCKET_FILE@ == seq![0x6eu8, 0x69, 0x78, 0x6c, 0x6f, 0x63, 0x6b, 0x2e, 0x73, 0x6f, 0x63, 0x6b],
        CLIENT_SOCKET_FILE@ == seq![0x63u8, 0x6c, 0x63, 0x6b, 0x2e, 0x73, 0x6f, 0x63, 0x6b],
{
    assert(SERVER_SOCKET_FILE@ =~= seq![0x6eu8, 0x69, 0x78, 0x6c, 0x6f, 0x63, 0x6b, 0x2e, 0x73, 0x6f, 0x63, 0x6b]);
    assert(CLIENT_SOCKET_FILE@ =~= seq![0x63u8, 0x6c, 0x63, 0x6b, 0x2e, 0x73, 0x6f, 0x63, 0x6b]);
}

/// A runtime directory joined with a socket file name, as `Path::join` does on
/// Unix for a relative name: a `/` is put between them unless the directory is
/// empty or already ends in `/`.
pub open spec fn join_file_name(dir: Seq<u8>, name: Seq<u8>) -> Seq<u8> {
    if dir.len() == 0 || dir.last() == 0x2fu8 {
        dir + name
    } else {
        dir + seq![0x2fu8] + name
    }
}

/// Law: a socket path in a directory starts with the directory's bytes, ends
/// with the file name's bytes, and has exactly one `/` between them unless the
/// directory is empty or already ends in `/`, in which case nothing is between.
pub proof fn lemma_join_file_name_layout(dir: Seq<u8>, name: Seq<u8>)
    ensures
        ({
            let p = join_file_name(dir, name);
            let sep: int = if dir.len() == 0 || dir.last() == 0x2fu8 {
                0
            } else {
                1
            };
            &&& p.len() == dir.len() + sep + name.len()
            &&& p.subrange(0, dir.len() as int) == dir
            &&& p.subrange(dir.len() + sep, p.len() as int) == name
            &&& sep == 1 ==> p[dir.len() as int] == 0x2fu8
        }),
{
    let p = join_file_name(dir, name);
    if dir.len() == 0 || dir.last() == 0x2fu8 {
        assert(p.subrange(0, dir.len() as int) =~= dir);
        assert(p.subrange(dir.len() as int, p.len() as int) =~= name);
    } else {
        assert(p.subrange(0, dir.len() as int) =~= dir);
        assert(p.subrange(dir.len() + 1int, p.len() as int) =~= name);
    }
}

/// Where the server listens: the configured path, else `nixlock.sock` in the
/// runtime directory, else nowhere.
pub open spec fn server_path(configured: Option<Seq<u8>>, runtime_dir: Option<Seq<u8>>) -> Option<
    Seq<u8>,
> {
    match configured {
        Some(p) => Some(p),
        None => match runtime_dir {
            Some(d) => Some(join_file_name(d, SERVER_SOCKET_FILE@)),
            None => None,
        },
    }
}

/// Where a client dials: the configured path, then the `CLCK_SOCKET` value,
/// then the `NIXLOCK_SOCKET` value, then `clck.sock` in the runtime directory
/// when that file exists, else `nixlock.sock` there; nowhere without any of these.
pub open spec fn client_path(
    configured: Option<Seq<u8>>,
    clck_socket: Option<Seq<u8>>,
    nixlock_socket: Option<Seq<u8>>,
    runtime_dir: Option<Seq<u8>>,
    clck_sock_exists: bool,
) -> Option<Seq<u8>> {
    if configured is Some {
        configured
    } else if clck_socket is Some {
        clck_socket
    } else if nixlock_socket is Some {
        nixlock_socket
    } else {
        match runtime_dir {
            Some(d) => Some(
                if clck_sock_exists {
                    join_file_name(d, CLIENT_SOCKET_FILE@)
                } else {
                    join_file_name(d, SERVER_SOCKET_FILE@)
                },
            ),
            None => None,
        }
    }
}

/// Law: the server listens on the configured path when there is one, else on
/// `nixlock.sock` in the runtime directory, else nowhere.
pub proof fn lemma_server_path_order(configured: Option<Seq<u8>>, runtime_dir: Option<Seq<u8>>)
    ensures
        configured matches Some(c) ==> server_path(configured, runtime_dir) == Some(c),
        configured is None ==> (runtime_dir matches Some(d) ==> server_path(
            configured,
            runtime_dir,
        ) == Some(join_file_name(d, SERVER_SOCKET_FILE@))),
        configured is None && runtime_dir is None ==> server_path(configured, runtime_dir) is None,
{
}

/// Law: the client dial order. The configured path wins whatever else is set;
/// then the `CLCK_SOCKET` value wins over everything after it, whatever the
/// runtime directory holds; then the `NIXLOCK_SOCKET` value; only then the
/// runtime directory, with `clck.sock` when it exists and `nixlock.sock` else.
pub proof fn lemma_client_dial_order(
    configured: Option<Seq<u8>>,
    clck_socket: Option<Seq<u8>>,
    nixlock_socket: Option<Seq<u8>>,
    runtime_dir: Option<Seq<u8>>,
    clck_sock_exists: bool,
)
    ensures
        ({
            let r = client_path(configured, clck_socket, nixlock_socket, runtime_dir, clck_sock_exists);
            &&& configured matches Some(c) ==> r == Some(c)
            &&& configured is None ==> (clck_socket matches Some(c) ==> r == Some(c))
            &&& configured is None && clck_socket is None ==> (nixlock_socket matches Some(c)
                ==> r == Some(c))
            &&& configured is None && clck_socket is None && nixlock_socket is None ==> (
            runtime_dir matches Some(d) ==> r == Some(
                join_file_name(
                    d,
                    if clck_sock_exists {
                        CLIENT_SOCKET_FILE@
                    } else {
                        SERVER_SOCKET_FILE@
                    },
                ),
            ))
            &&& r is None <==> configured is None && clck_socket is None && nixlock_socket is None
                && runtime_dir is None
        }),
{
}

impl Geometry {
    /// True while there is nothing to render to (unconfigured output or the
    /// pre-configure startup race). The client reconnects with backoff.
    pub fn is_pending(self) -> (pending: bool)
        ensures
            pending == (self.width == 0 || self.height == 0),
    {
        self.width == 0 || self.height == 0
    }
}

/// Four little-endian bytes of `x`.
fn u32_le_bytes(x: u32) -> (b: [u8; 4])
    ensures
        b@ == le_bytes(x),
{
    let b = [(x % 256) as u8, ((x / 256) % 256) as u8, ((x / 65536) % 256) as u8, (x / 16777216) as u8];
    assert(b@ =~= le_bytes(x));
    b
}

/// The `u32` held in four little-endian bytes.
fn u32_from_le(b0: u8, b1: u8, b2: u8, b3: u8) -> (x: u32)
    ensures
        x == le_value(seq![b0, b1, b2, b3]),
{
    b0 as u32 + (b1 as u32) * 256 + (b2 as u32) * 65536 + (b3 as u32) * 16777216
}

/// Encode a server HELLO (magic + geometry).
pub fn encode_hello(geometry: Geometry) -> (out: [u8; HELLO_LEN])
    ensures
        out@ == hello_bytes(geometry),
        out@.subrange(0, 8) == MAGIC_BYTES@,
        out@[8] + 256 * out@[9] + 65536 * out@[10] + 16777216 * out@[11] == geometry.width,
        out@[12] + 256 * out@[13] + 65536 * out@[14] + 16777216 * out@[15] == geometry.height,
        out@[16] + 256 * out@[17] + 65536 * out@[18] + 16777216 * out@[19] == geometry.scale,
{
    proof {
        lemma_hello_roundtrip(geometry);
        lemma_hello_decoding_layout(hello_bytes(geometry));
        assert(hello_bytes(geometry).subrange(0, 8) =~= MAGIC_BYTES@);
    }
    let m = MAGIC_BYTES;
    let w = u32_le_bytes(geometry.width);
    let h = u32_le_bytes(geometry.height);
    let s = u32_le_bytes(geometry.scale);
    let out: [u8; HELLO_LEN] = [
        m[0], m[1], m[2], m[3], m[4], m[5], m[6], m[7],
        w[0], w[1], w[2], w[3],
        h[0], h[1], h[2], h[3],
        s[0], s[1], s[2], s[3],
    ];
    assert(out@ =~= hello_bytes(geometry));
    out
}

/// Decode and validate a server HELLO. `None` on short input or magic mismatch.
pub fn decode_hello(bytes: &[u8]) -> (decoded: Option<Geometry>)
    ensures
        decoded == hello_geometry(bytes@),
        decoded is Some <==> bytes@.len() >= HELLO_LEN && bytes@.subrange(0, 8) == MAGIC_BYTES@,
        decoded matches Some(g) ==> {
            &&& g.width == bytes@[8] + 256 * bytes@[9] + 65536 * bytes@[10] + 16777216 * bytes@[11]
            &&& g.height == bytes@[12] + 256 * bytes@[13] + 65536 * bytes@[14] + 16777216
                * bytes@[15]
            &&& g.scale == bytes@[16] + 256 * bytes@[17] + 65536 * bytes@[18] + 16777216
                * bytes@[19]
        },
{
    proof {
        lemma_hello_decoding_layout(bytes@);
    }
    if bytes.len() < HELLO_LEN {
        return None;
    }
    let mut i: usize = 0;
    while i < 8
        invariant
            HELLO_LEN <= bytes@.len(),
            i <= 8,
            forall|j: int| 0 <= j < i ==> bytes@[j] == magic_seq()[j],
        decreases 8 - i,
    {
        if bytes[i] != MAGIC_BYTES[i] {
            assert(bytes@.subrange(0, 8)[i as int] != magic_seq()[i as int]);
            return None;
        }
        i = i + 1;
    }
    assert(bytes@.subrange(0, 8) =~= magic_seq());
    let width = u32_from_le(bytes[8], bytes[9], bytes[10], bytes[11]);
    let height = u32_from_le(bytes[12], bytes[13], bytes[14], bytes[15]);
    let scale = u32_from_le(bytes[16], bytes[17], bytes[18], bytes[19]);
    assert(bytes@.subrange(8, 12) =~= seq![bytes@[8], bytes@[9], bytes@[10], bytes@[11]]);
    assert(bytes@.subrange(12, 16) =~= seq![bytes@[12], bytes@[13], bytes@[14], bytes@[15]]);
    assert(bytes@.subrange(16, 20) =~= seq![bytes@[16], bytes@[17], bytes@[18], bytes@[19]]);
    Some(Geometry { width, height, scale })
}

/// Encode a client frame header (geometry prefix before the RGBA payload).
pub fn encode_frame_header(width: u32, height: u32) -> (out: [u8; 8])
    ensures
        out@ == frame_header_bytes(width, height),
        out@[0] + 256 * out@[1] + 65536 * out@[2] + 16777216 * out@[3] == width,
        out@[4] + 256 * out@[5] + 65536 * out@[6] + 16777216 * out@[7] == height,
{
    proof {
        lemma_frame_header_layout(width, height);
        lemma_le_value_of_bytes(width);
        lemma_le_value_of_bytes(height);
        assert(frame_header_bytes(width, height)[4] == le_bytes(height)[0]);
        assert(frame_header_bytes(width, height)[5] == le_bytes(height)[1]);
        assert(frame_header_bytes(width, height)[6] == le_bytes(height)[2]);
        assert(frame_header_bytes(width, height)[7] == le_bytes(height)[3]);
    }
    let w = u32_le_bytes(width);
    let h = u32_le_bytes(height);
    let out: [u8; 8] = [w[0], w[1], w[2], w[3], h[0], h[1], h[2], h[3]];
    assert(out@ =~= frame_header_bytes(width, height));
    out
}

/// Decode a client frame header and validate the implied payload size.
/// Returns `(width, height, payload_len)`, or `None` for an implausible size
/// (zero or above [`MAX_FRAME_BYTES`]); the caller must then close the
/// connection without reading a payload.
pub fn decode_frame_header(bytes: &[u8; 8]) -> (decoded: Option<(u32, u32, usize)>)
    ensures
        decoded == frame_header_fields(bytes@),
        decoded matches Some((w, h, len)) ==> len == payload_len(w, h) && plausible_payload(
            len as int,
        ),
        ({
            let w = bytes@[0] + 256 * bytes@[1] + 65536 * bytes@[2] + 16777216 * bytes@[3];
            let h = bytes@[4] + 256 * bytes@[5] + 65536 * bytes@[6] + 16777216 * bytes@[7];
            &&& decoded is Some <==> 0 < w * h * 4 <= MAX_FRAME_BYTES
            &&& decoded matches Some((dw, dh, len)) ==> dw == w && dh == h && len == w * h * 4
        }),
{
    proof {
        lemma_frame_header_decoding_layout(bytes@);
    }
    let width = u32_from_le(bytes[0], bytes[1], bytes[2], bytes[3]);
    let height = u32_from_le(bytes[4], bytes[5], bytes[6], bytes[7]);
    assert(bytes@.subrange(0, 4) =~= seq![bytes@[0], bytes@[1], bytes@[2], bytes@[3]]);
    assert(bytes@.subrange(4, 8) =~= seq![bytes@[4], bytes@[5], bytes@[6], bytes@[7]]);
    assert((width as int) * (height as int) <= 0xffff_ffff_ffff_ffff) by (nonlinear_arith)
        requires
            width <= 0xffff_ffff,
            height <= 0xffff_ffff,
    ;
    let area: u64 = (width as u64) * (height as u64);
    if area == 0 || area > (MAX_FRAME_BYTES / 4) as u64 {
        return None;
    }
    let expect: usize = (area as usize) * 4;
    Some((width, height, expect))
}

/// Appends `more` to `out`.
fn append_bytes(out: &mut Vec<u8>, more: &[u8])
    ensures
        final(out)@ == old(out)@ + more@,
{
    let mut i: usize = 0;
    while i < more.len()
        invariant
            i <= more@.len(),
            out@ == old(out)@ + more@.subrange(0, i as int),
        decreases more@.len() - i,
    {
        out.push(more[i]);
        i = i + 1;
        assert(out@ =~= old(out)@ + more@.subrange(0, i as int));
    }
    assert(more@.subrange(0, i as int) =~= more@);
}

/// An owned copy of `bytes`.
fn owned_bytes(bytes: &[u8]) -> (out: Vec<u8>)
    ensures
        out@ == bytes@,
{
    let mut out: Vec<u8> = Vec::new();
    append_bytes(&mut out, bytes);
    assert(out@ =~= bytes@);
    out
}

/// `dir` joined with the relative file name `name` (see [`join_file_name`]).
pub fn socket_in_dir(dir: &[u8], name: &[u8]) -> (path: Vec<u8>)
    ensures
        path@ == join_file_name(dir@, name@),
{
    let mut path = owned_bytes(dir);
    if dir.len() > 0 && dir[dir.len() - 1] != 0x2f {
        path.push(0x2f);
    }
    append_bytes(&mut path, name);
    path
}

/// Resolve the server socket path from the configured value and the value of
/// `XDG_RUNTIME_DIR`: the configured path, else `nixlock.sock` in the runtime
/// directory. `None` when neither is available; the caller then skips the
/// socket server (a display feature must never block the lock itself).
pub fn resolve_server_path(configured: Option<&[u8]>, runtime_dir: Option<&[u8]>) -> (path: Option<
    Vec<u8>,
>)
    ensures
        path.deep_view() == server_path(configured.deep_view(), runtime_dir.deep_view()),
        path is None <==> configured is None && runtime_dir is None,
        configured matches Some(c) ==> path matches Some(p) && p@ == c@,
        configured is None ==> (runtime_dir matches Some(d) ==> path matches Some(p) && p@
            == join_file_name(d@, SERVER_SOCKET_FILE@)),
{
    match configured {
        Some(p) => Some(owned_bytes(p)),
        None => match runtime_dir {
            Some(d) => Some(socket_in_dir(d, SERVER_SOCKET_FILE)),
            None => None,
        },
    }
}

/// Client dial order from the explicit value and the values of `CLCK_SOCKET`,
/// `NIXLOCK_SOCKET` and `XDG_RUNTIME_DIR`: explicit value first, then
/// `CLCK_SOCKET`, then `NIXLOCK_SOCKET` (migration fallback), then `clck.sock`
/// in the runtime directory when it exists (`clck_sock_exists`), else
/// `nixlock.sock` there. `None` only when no candidate can be constructed.
pub fn resolve_client_path(
    configured: Option<&[u8]>,
    clck_socket: Option<&[u8]>,
    nixlock_socket: Option<&[u8]>,
    runtime_dir: Option<&[u8]>,
    clck_sock_exists: bool,
) -> (path: Option<Vec<u8>>)
    ensures
        path.deep_view() == client_path(
            configured.deep_view(),
            clck_socket.deep_view(),
            nixlock_socket.deep_view(),
            runtime_dir.deep_view(),
            clck_sock_exists,
        ),
        path is None <==> configured is None && clck_socket is None && nixlock_socket is None
            && runtime_dir is None,
        configured matches Some(c) ==> path matches Some(p) && p@ == c@,
        configured is None ==> (clck_socket matches Some(c) ==> path matches Some(p) && p@
            == c@),
        configured is None && clck_socket is None ==> (nixlock_socket matches Some(c)
            ==> path matches Some(p) && p@ == c@),
        configured is None && clck_socket is None && nixlock_socket is None ==> (
        runtime_dir matches Some(d) ==> path matches Some(p) && p@ == join_file_name(
            d@,
            if clck_sock_exists {
                CLIENT_SOCKET_FILE@
            } else {
                SERVER_SOCKET_FILE@
            },
        )),
{
    if let Some(p) = configured {
        return Some(owned_bytes(p));
    }
    if let Some(p) = clck_socket {
        return Some(owned_bytes(p));
    }
    if let Some(p) = nixlock_socket {
        return Some(owned_bytes(p));
    }
    match runtime_dir {
        Some(d) => {
            if clck_sock_exists {
                Some(socket_in_dir(d, CLIENT_SOCKET_FILE))
            } else {
                Some(socket_in_dir(d, SERVER_SOCKET_FILE))
            }
        },
        None => None,
    }
}

} // verus!
