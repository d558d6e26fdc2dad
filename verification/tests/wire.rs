use cmln::wire::{
    resolve_client_path, resolve_server_path, socket_in_dir, CLIENT_SOCKET_FILE,
    SERVER_SOCKET_FILE,
};
use cmln::{
    decode_frame_header, decode_hello, encode_frame_header, encode_hello, Geometry, HELLO_LEN,
    MAGIC, MAGIC_BYTES, MAX_FRAME_BYTES,
};

#[test]
fn hello_roundtrips_magic_and_geometry() {
    let g = Geometry {
        width: 3840,
        height: 2160,
        scale: 2,
    };
    let bytes = encode_hello(g);
    assert_eq!(bytes.len(), HELLO_LEN);
    assert_eq!(&bytes[0..8], MAGIC_BYTES);
    assert_eq!(decode_hello(&bytes), Some(g));
}

#[test]
fn hello_reports_zero_geometry_when_there_is_no_kiosk_output() {
    let g = Geometry {
        width: 0,
        height: 0,
        scale: 0,
    };
    assert!(g.is_pending());
    let bytes = encode_hello(g);
    assert_eq!(&bytes[8..20], &[0u8; 12]);
    assert_eq!(decode_hello(&bytes), Some(g));
}

#[test]
fn hello_rejects_a_wrong_magic() {
    let mut bytes = encode_hello(Geometry {
        width: 4,
        height: 2,
        scale: 1,
    });
    bytes[0] = b'X';
    assert_eq!(decode_hello(&bytes), None);
}

#[test]
fn hello_rejects_short_input() {
    assert_eq!(decode_hello(&[0u8; 7]), None);
}

#[test]
fn frame_header_roundtrips_a_plausible_size() {
    let header = encode_frame_header(4, 2);
    assert_eq!(decode_frame_header(&header), Some((4, 2, 4 * 2 * 4)));
}

#[test]
fn frame_header_rejects_zero_and_huge_sizes() {
    assert_eq!(decode_frame_header(&[0u8; 8]), None);
    // Just past the cap: 4097 x 4096 x 4 > 64 MiB.
    let mut huge = [0u8; 8];
    huge[0..4].copy_from_slice(&4097u32.to_le_bytes());
    huge[4..8].copy_from_slice(&4096u32.to_le_bytes());
    assert_eq!(decode_frame_header(&huge), None);
}

#[test]
fn server_path_prefers_config_then_xdg_then_gives_up() {
    let configured = b"/run/custom/nixlock.sock".as_slice();
    let runtime_dir = b"/run/user/1000".as_slice();
    assert_eq!(
        resolve_server_path(Some(configured), Some(runtime_dir)).unwrap(),
        configured
    );
    assert_eq!(
        resolve_server_path(None, Some(runtime_dir)).unwrap(),
        b"/run/user/1000/nixlock.sock".to_vec()
    );
    assert!(resolve_server_path(None, None).is_none());
    assert_eq!(resolve_server_path(Some(configured), None).unwrap(), configured);
}

#[test]
fn magic_constants_name_the_wire() {
    assert_eq!(MAGIC, "NIXLOCK1");
    assert_eq!(MAGIC_BYTES, b"NIXLOCK1");
    assert_eq!(MAGIC.as_bytes(), MAGIC_BYTES);
    assert_eq!(MAX_FRAME_BYTES, 64 * 1024 * 1024);
    assert_eq!(SERVER_SOCKET_FILE, b"nixlock.sock");
    assert_eq!(CLIENT_SOCKET_FILE, b"clck.sock");
}

#[test]
fn hello_bytes_are_little_endian_after_the_magic() {
    let bytes = encode_hello(Geometry {
        width: 0x0403_0201,
        height: 0x0807_0605,
        scale: 0x0c0b_0a09,
    });
    assert_eq!(&bytes[0..8], b"NIXLOCK1");
    assert_eq!(&bytes[8..20], &[1, 2, 3, 4, 5, 6, 7, 8, 9, 10, 11, 12]);
}

#[test]
fn hello_decoding_ignores_trailing_bytes() {
    let g = Geometry {
        width: 800,
        height: 600,
        scale: 3,
    };
    let mut long = encode_hello(g).to_vec();
    long.extend_from_slice(&[0xff; 9]);
    assert_eq!(decode_hello(&long), Some(g));
    assert_eq!(decode_hello(&long[..HELLO_LEN - 1]), None);
}

#[test]
fn hello_decoding_reads_back_arbitrary_bytes_exactly() {
    let mut bytes = b"NIXLOCK1".to_vec();
    bytes.extend_from_slice(&[0xde, 0xad, 0xbe, 0xef, 0, 0, 0, 0x80, 7, 0, 0, 0]);
    let g = decode_hello(&bytes).unwrap();
    assert_eq!(g.width, 0xefbe_adde);
    assert_eq!(g.height, 0x8000_0000);
    assert_eq!(g.scale, 7);
    assert_eq!(encode_hello(g).to_vec(), bytes);
}

#[test]
fn pending_means_a_zero_dimension() {
    assert!(Geometry { width: 0, height: 5, scale: 1 }.is_pending());
    assert!(Geometry { width: 5, height: 0, scale: 1 }.is_pending());
    assert!(!Geometry { width: 5, height: 5, scale: 0 }.is_pending());
}

#[test]
fn frame_header_accepts_exactly_the_cap() {
    // 4096 x 4096 x 4 is exactly 64 MiB.
    let header = encode_frame_header(4096, 4096);
    assert_eq!(&header, &[0, 0x10, 0, 0, 0, 0x10, 0, 0]);
    assert_eq!(
        decode_frame_header(&header),
        Some((4096, 4096, MAX_FRAME_BYTES))
    );
    assert_eq!(decode_frame_header(&encode_frame_header(0, 7)), None);
    assert_eq!(decode_frame_header(&encode_frame_header(7, 0)), None);
    assert_eq!(decode_frame_header(&encode_frame_header(u32::MAX, u32::MAX)), None);
    assert_eq!(decode_frame_header(&encode_frame_header(1, 1)), Some((1, 1, 4)));
}

#[test]
fn socket_names_join_like_paths() {
    assert_eq!(socket_in_dir(b"/run/user/1000", b"x.sock"), b"/run/user/1000/x.sock".to_vec());
    assert_eq!(socket_in_dir(b"/run/user/1000/", b"x.sock"), b"/run/user/1000/x.sock".to_vec());
    assert_eq!(socket_in_dir(b"", b"x.sock"), b"x.sock".to_vec());
}

#[test]
fn client_path_follows_the_dial_order() {
    let dir = b"/run/user/7".as_slice();
    let cfg = b"/cfg.sock".as_slice();
    let clck = b"/clck-env.sock".as_slice();
    let nix = b"/nix-env.sock".as_slice();
    assert_eq!(
        resolve_client_path(Some(cfg), Some(clck), Some(nix), Some(dir), true).unwrap(),
        cfg
    );
    assert_eq!(
        resolve_client_path(None, Some(clck), Some(nix), Some(dir), true).unwrap(),
        clck
    );
    assert_eq!(
        resolve_client_path(None, None, Some(nix), Some(dir), true).unwrap(),
        nix
    );
    assert_eq!(
        resolve_client_path(None, None, None, Some(dir), true).unwrap(),
        b"/run/user/7/clck.sock".to_vec()
    );
    assert_eq!(
        resolve_client_path(None, None, None, Some(dir), false).unwrap(),
        b"/run/user/7/nixlock.sock".to_vec()
    );
    assert!(resolve_client_path(None, None, None, None, true).is_none());
}
