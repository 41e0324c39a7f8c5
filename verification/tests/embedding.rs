use ledhost::error::FatalError;
use ledhost::sandbox::Sandbox;
use ledhost::sandbox::copy_frame_bytes;

// A minimal guest module exporting `init`, `update` and its memory, built
// byte by byte: `update` returns the host buffer offset it was passed.
fn guest_host_buffer() -> Vec<u8> {
    let mut m = vec![
        0x00, 0x61, 0x73, 0x6D, 0x01, 0x00, 0x00, 0x00, // magic, version
    ];
    // Type section: () -> () and (i64, i64, i32) -> i32.
    m.extend([0x01, 0x0B, 0x02, 0x60, 0x00, 0x00, 0x60, 0x03, 0x7E, 0x7E, 0x7F, 0x01, 0x7F]);
    // Function section: two functions using those types.
    m.extend([0x03, 0x03, 0x02, 0x00, 0x01]);
    // Memory section: one memory, at least one page.
    m.extend([0x05, 0x03, 0x01, 0x00, 0x01]);
    // Export section: "init", "update", "memory".
    m.extend([0x07, 0x1A, 0x03]);
    m.extend([0x04, b'i', b'n', b'i', b't', 0x00, 0x00]);
    m.extend([0x06, b'u', b'p', b'd', b'a', b't', b'e', 0x00, 0x01]);
    m.extend([0x06, b'm', b'e', b'm', b'o', b'r', b'y', 0x02, 0x00]);
    // Code section: `init` is empty; `update` returns its third parameter.
    m.extend([0x0A, 0x09, 0x02, 0x02, 0x00, 0x0B, 0x04, 0x00, 0x20, 0x02, 0x0B]);
    m
}

// A guest whose `update` returns offset 0: the guest-owned buffer variant.
fn guest_owned_buffer() -> Vec<u8> {
    let mut m = guest_host_buffer();
    // Swap the code section for one whose `update` body is `i32.const 0`.
    let code_at = m.len() - 11;
    m.truncate(code_at);
    m.extend([0x0A, 0x09, 0x02, 0x02, 0x00, 0x0B, 0x04, 0x00, 0x41, 0x00, 0x0B]);
    m
}

// A guest whose `update` returns an offset far outside its memory.
fn guest_bad_offset() -> Vec<u8> {
    let mut m = guest_host_buffer();
    let code_at = m.len() - 11;
    m.truncate(code_at);
    m.extend([
        0x0A, 0x0D, 0x02, 0x02, 0x00, 0x0B, 0x08, 0x00, 0x41, 0xFF, 0xFF, 0xFF, 0xFF, 0x07,
        0x0B,
    ]);
    m
}

// A guest that exports no `update` function.
fn guest_missing_update() -> Vec<u8> {
    let mut m = vec![0x00, 0x61, 0x73, 0x6D, 0x01, 0x00, 0x00, 0x00];
    m.extend([0x01, 0x0B, 0x02, 0x60, 0x00, 0x00, 0x60, 0x03, 0x7E, 0x7E, 0x7F, 0x01, 0x7F]);
    m.extend([0x03, 0x02, 0x01, 0x00]);
    m.extend([0x05, 0x03, 0x01, 0x00, 0x01]);
    m.extend([0x07, 0x11, 0x02]);
    m.extend([0x04, b'i', b'n', b'i', b't', 0x00, 0x00]);
    m.extend([0x06, b'm', b'e', b'm', b'o', b'r', b'y', 0x02, 0x00]);
    m.extend([0x0A, 0x04, 0x01, 0x02, 0x00, 0x0B]);
    m
}

#[test]
fn test_sandbox_renders_host_buffer_guest() {
    let wasm = guest_host_buffer();
    let mut sandbox = Sandbox::load(&wasm).expect("well-formed guest loads");
    // The reservation starts at the old top of memory: one 64 KiB page.
    assert_eq!(sandbox.host_base(), 65536);
    let frame = sandbox.frame(0, 0).expect("in-bounds offset");
    assert_eq!(frame.len(), 768);
    assert!(frame.iter().all(|&b| b == 0));
}

#[test]
fn test_sandbox_renders_guest_owned_buffer() {
    let wasm = guest_owned_buffer();
    let mut sandbox = Sandbox::load(&wasm).expect("well-formed guest loads");
    let frame = sandbox.frame(7, 3).expect("offset 0 is in bounds");
    assert_eq!(frame.len(), 768);
}

#[test]
fn test_sandbox_rejects_out_of_bounds_offset() {
    let wasm = guest_bad_offset();
    let mut sandbox = Sandbox::load(&wasm).expect("well-formed guest loads");
    assert_eq!(sandbox.frame(0, 0).err(), Some(FatalError::BoundsViolation));
}

#[test]
fn test_sandbox_rejects_missing_export() {
    let wasm = guest_missing_update();
    assert!(matches!(
        Sandbox::load(&wasm).err(),
        Some(FatalError::Configuration)
    ));
}

#[test]
fn test_sandbox_rejects_garbage_module() {
    let wasm = vec![0xDE, 0xAD, 0xBE, 0xEF];
    assert!(matches!(
        Sandbox::load(&wasm).err(),
        Some(FatalError::Configuration)
    ));
}

#[test]
fn test_copy_frame_bytes_validates_first() {
    let bytes = vec![5u8; 1000];
    let frame = copy_frame_bytes(&bytes, 100).expect("100 + 768 fits in 1000");
    assert_eq!(frame.len(), 768);
    assert!(frame.iter().all(|&b| b == 5));
    assert_eq!(
        copy_frame_bytes(&bytes, 233).err(),
        Some(FatalError::BoundsViolation)
    );
    let short = vec![0u8; 10];
    assert_eq!(
        copy_frame_bytes(&short, 0).err(),
        Some(FatalError::BoundsViolation)
    );
}
