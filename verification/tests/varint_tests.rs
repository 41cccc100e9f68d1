use mcproto::utils::varint::{self, VarIntError};
use mcproto::utils::varlong;
use mcproto::utils::CodecError;
use rand::RngExt;

// Each speed run below takes its iteration count from what fits in the time a
// single test is given.
const ITERATIONS: u64 = 200_000;

fn report(label: &str, start: std::time::Instant, iterations: u64) {
    let secs = start.elapsed().as_nanos() as f64 / 1_000_000_000.0;
    let speed = iterations as f64 / secs;
    println!("Time: {:.3}s", secs);
    println!("{}: {:.0}/s", label, speed);
}

#[test]
fn test_encode() {
    println!("Encode varint test started");
    let mut rng = rand::rng();
    let mut buf = Vec::new();
    let start = std::time::Instant::now();
    for _ in 0..ITERATIONS {
        let n: i32 = rng.random();
        varint::encode(n, &mut buf).expect("encode failed");
        buf.clear();
    }
    report("Encode speed", start, ITERATIONS);
}

#[test]
fn test_both() {
    println!("Encode & Decode(Both) varint test started");
    let mut rng = rand::rng();
    let mut buf = Vec::new();
    let start = std::time::Instant::now();
    for _ in 0..ITERATIONS {
        let n: i32 = rng.random();
        varint::encode(n, &mut buf).expect("encode failed");
        let back = varint::decode(&mut buf.as_slice()).expect("decode failed");
        assert_eq!(back, n);
        buf.clear();
    }
    report("Encode & Decode speed", start, ITERATIONS);
}

#[test]
fn test_encode_speed() {
    println!("Encode varint test started");
    let mut rng = rand::rng();
    let mut buf = Vec::new();
    let start = std::time::Instant::now();
    for _ in 0..ITERATIONS {
        let n: i32 = rng.random();
        varint::encode(n, &mut buf).unwrap();
        buf.clear();
    }
    report("Encode speed", start, ITERATIONS);
}

#[test]
fn tests_test_encode_varlong() {
    println!("Encode varlong test started");
    let mut rng = rand::rng();
    let mut buf = Vec::new();
    let start = std::time::Instant::now();
    for _ in 0..ITERATIONS {
        let n: i64 = rng.random();
        varlong::encode(n, &mut buf).expect("encode failed");
        buf.clear();
    }
    report("Encode speed", start, ITERATIONS);
}

#[test]
fn tests_test_both_varlong() {
    println!("Encode & Decode(Both) varlong test started");
    let mut rng = rand::rng();
    let mut buf = Vec::new();
    let start = std::time::Instant::now();
    for _ in 0..ITERATIONS {
        let n: i64 = rng.random();
        varlong::encode(n, &mut buf).expect("encode failed");
        let back = varlong::decode(&mut buf.as_slice()).expect("decode failed");
        assert_eq!(back, n);
        buf.clear();
    }
    report("Encode & Decode speed", start, ITERATIONS);
}

#[test]
fn varlong_test_encode_varlong() {
    println!("Encode varlong test started");
    let mut rng = rand::rng();
    let mut buf = Vec::new();
    let start = std::time::Instant::now();
    for _ in 0..ITERATIONS {
        let n: i64 = rng.random();
        varlong::encode(n, &mut buf).expect("encode failed");
        buf.clear();
    }
    report("Encode speed", start, ITERATIONS);
}

#[test]
fn varlong_test_both_varlong() {
    println!("Encode & Decode(Both) varlong test started");
    let mut rng = rand::rng();
    let mut buf = Vec::new();
    let start = std::time::Instant::now();
    for _ in 0..ITERATIONS {
        let n: i64 = rng.random();
        varlong::encode(n, &mut buf).expect("encode failed");
        let back = varlong::decode(&mut buf.as_slice()).expect("decode failed");
        assert_eq!(back, n);
        buf.clear();
    }
    report("Encode & Decode speed", start, ITERATIONS);
}

fn varint_of(n: i32) -> Vec<u8> {
    let mut buf = Vec::new();
    varint::encode(n, &mut buf).unwrap();
    buf
}

fn varlong_of(n: i64) -> Vec<u8> {
    let mut buf = Vec::new();
    varlong::encode(n, &mut buf).unwrap();
    buf
}

#[test]
fn varint_known_encodings() {
    let cases: Vec<(i32, Vec<u8>)> = vec![
        (0, vec![0x00]),
        (1, vec![0x01]),
        (2, vec![0x02]),
        (127, vec![0x7f]),
        (128, vec![0x80, 0x01]),
        (255, vec![0xff, 0x01]),
        (25565, vec![0xdd, 0xc7, 0x01]),
        (2097151, vec![0xff, 0xff, 0x7f]),
        (2147483647, vec![0xff, 0xff, 0xff, 0xff, 0x07]),
        (-1, vec![0xff, 0xff, 0xff, 0xff, 0x0f]),
        (-2147483648, vec![0x80, 0x80, 0x80, 0x80, 0x08]),
    ];
    for (n, bytes) in cases {
        assert_eq!(varint_of(n), bytes);
        let mut s: &[u8] = &bytes;
        assert_eq!(varint::decode(&mut s).unwrap(), n);
        assert!(s.is_empty());
    }
}

#[test]
fn varint_decode_leaves_the_rest() {
    let bytes = vec![0xdd, 0xc7, 0x01, 0x42, 0x43];
    let mut s: &[u8] = &bytes;
    assert_eq!(varint::decode(&mut s).unwrap(), 25565);
    assert_eq!(s, &[0x42, 0x43]);
}

#[test]
fn varint_decode_errors() {
    let mut empty: &[u8] = &[];
    assert!(matches!(varint::decode(&mut empty), Err(VarIntError::Io)));
    let mut cut: &[u8] = &[0x80, 0x80];
    assert!(matches!(varint::decode(&mut cut), Err(VarIntError::Io)));
    let mut long: &[u8] = &[0xff, 0xff, 0xff, 0xff, 0xff, 0x01];
    assert!(matches!(varint::decode(&mut long), Err(VarIntError::TooLarge(_))));
}

#[test]
fn varlong_known_encodings() {
    let cases: Vec<(i64, Vec<u8>)> = vec![
        (0, vec![0x00]),
        (1, vec![0x01]),
        (127, vec![0x7f]),
        (128, vec![0x80, 0x01]),
        (255, vec![0xff, 0x01]),
        (2147483647, vec![0xff, 0xff, 0xff, 0xff, 0x07]),
        (9223372036854775807, vec![0xff, 0xff, 0xff, 0xff, 0xff, 0xff, 0xff, 0xff, 0x7f]),
        (-1, vec![0xff, 0xff, 0xff, 0xff, 0xff, 0xff, 0xff, 0xff, 0xff, 0x01]),
        (-2147483648, vec![0x80, 0x80, 0x80, 0x80, 0xf8, 0xff, 0xff, 0xff, 0xff, 0x01]),
        (-9223372036854775808, vec![0x80, 0x80, 0x80, 0x80, 0x80, 0x80, 0x80, 0x80, 0x80, 0x01]),
    ];
    for (n, bytes) in cases {
        assert_eq!(varlong_of(n), bytes);
        let mut s: &[u8] = &bytes;
        assert_eq!(varlong::decode(&mut s).unwrap(), n);
        assert!(s.is_empty());
    }
}

#[test]
fn varlong_decode_errors() {
    let mut empty: &[u8] = &[];
    assert!(matches!(varlong::decode(&mut empty), Err(CodecError::Io)));
    let mut long: &[u8] = &[0xff; 11];
    assert!(matches!(varlong::decode(&mut long), Err(CodecError::VarTooLarge)));
}

#[test]
fn overlong_reads_leave_the_rest() {
    let mut bytes = vec![0xffu8; 10];
    bytes.push(0x42);
    let mut s: &[u8] = &bytes;
    assert!(matches!(varlong::decode(&mut s), Err(CodecError::VarTooLarge)));
    assert_eq!(s, &[0x42]);
    let mut t: &[u8] = &[0xff, 0xff, 0xff, 0xff, 0xff, 0x42];
    assert!(matches!(varint::decode(&mut t), Err(VarIntError::TooLarge(_))));
    assert_eq!(t, &[0x42]);
}
