use mcproto::utils::{CodecError, PacketCodec};

// The library's packet traits carry specifications, so a type outside the
// library gives itself the same two methods that the packet derive writes:
// the id, and the fields written in order.

#[test]
fn create_struct() {
    struct Test {
        a: i32,
        b: String,
        c: i64,
    }
    impl Test {
        fn packet_id(&self) -> i32 {
            0x00
        }
        fn encode(&self, buf: &mut Vec<u8>) -> Result<(), CodecError> {
            self.a.encode(buf)?;
            self.b.encode(buf)?;
            self.c.encode(buf)?;
            Ok(())
        }
    }
    let t = Test { a: 1, b: "x".to_string(), c: 2 };
    assert_eq!(t.packet_id(), 0x00);
    let mut buf = Vec::new();
    t.encode(&mut buf).unwrap();
    assert_eq!(buf, vec![0x01, 0x01, b'x', 0x02]);
}

#[test]
fn serverbound_packet_test() {
    #[derive(Debug)]
    struct Test {
        int: i32,
        str: String,
        long: i64,
        boolean: bool,
        byte: i8,
        ubyte: u8,
        short: i16,
        ushort: u16,
        float: f32,
        double: f64,
        array: Vec<u8>,
    }
    impl Test {
        fn packet_id(&self) -> i32 {
            0x00
        }
        fn encode(&self, buf: &mut Vec<u8>) -> Result<(), CodecError> {
            self.int.encode(buf)?;
            self.str.encode(buf)?;
            self.long.encode(buf)?;
            self.boolean.encode(buf)?;
            self.byte.encode(buf)?;
            self.ubyte.encode(buf)?;
            self.short.encode(buf)?;
            self.ushort.encode(buf)?;
            self.float.to_bits().encode(buf)?;
            self.double.to_bits().encode(buf)?;
            self.array.encode(buf)?;
            Ok(())
        }
    }
    println!("Successfully create a serverbound packet struct");
    let test = Test {
        int: 123456789,
        str: "666 This person is hack".to_string(),
        long: 1234567890123456789,
        boolean: true,
        byte: -128,
        ubyte: 255,
        short: -32768,
        ushort: 65535,
        float: 1.23456789f32,
        double: 1.1145141919354836f64,
        array: vec![1, 2, 3, 4, 5],
    };
    let mut buf = Vec::new();
    test.encode(&mut buf).unwrap();
    println!("{:?}", &buf);
    println!("{:?}", &test);
    let mut expected: Vec<u8> = vec![0x95, 0x9a, 0xef, 0x3a];
    expected.push(23);
    expected.extend_from_slice(b"666 This person is hack");
    expected.extend_from_slice(&[0x95, 0x82, 0xa6, 0xef, 0xc7, 0x9e, 0x84, 0x91, 0x11]);
    expected.extend_from_slice(&[0x01, 0x80, 0xff, 0x80, 0x00, 0xff, 0xff]);
    expected.extend_from_slice(&1.23456789f32.to_bits().to_be_bytes());
    expected.extend_from_slice(&1.1145141919354836f64.to_bits().to_be_bytes());
    expected.extend_from_slice(&[0x05, 1, 2, 3, 4, 5]);
    assert_eq!(buf, expected);
    println!("Passed the test including encode packet.");
}
