use acs::bit_reader::BitReader;

#[test]
fn test_read_bits() {
    let input = [0b10110111, 0b01111011, 0b11101111, 0b11011111, 0b11011111, 0b11100000];

    {
        let mut reader = BitReader::new(&input);
        assert_eq!(true, reader.read_bit());
    }

    {
        let mut reader = BitReader::new(&input);
        assert_eq!(0b110111, reader.read_bits(6));
    }

    {
        let mut reader = BitReader::new(&input);
        assert_eq!(0b110110111, reader.read_bits(9));
    }

    {
        let mut reader = BitReader::new(&input);
        assert_eq!(0b101110110111, reader.read_bits(12));
    }

    {
        let mut reader = BitReader::new(&input);
        assert_eq!(0b11110111101110110111, reader.read_bits(20));
    }
}

#[test]
fn test_read_bits2() {
    let input = [0b01101110, 0b11110111, 0b11011110, 0b10111111, 0b10111111, 0b11000001];

    {
        let mut reader = BitReader::new(&input);
        reader.read_bit();
        assert_eq!(true, reader.read_bit());
    }

    {
        let mut reader = BitReader::new(&input);
        reader.read_bit();
        assert_eq!(0b110111, reader.read_bits(6));
    }

    {
        let mut reader = BitReader::new(&input);
        reader.read_bit();
        assert_eq!(0b110110111, reader.read_bits(9));
    }

    {
        let mut reader = BitReader::new(&input);
        reader.read_bit();
        assert_eq!(0b101110110111, reader.read_bits(12));
    }

    {
        let mut reader = BitReader::new(&input);
        reader.read_bit();
        assert_eq!(0b11110111101110110111, reader.read_bits(20));
    }
}

#[test]
fn single_bits_assemble_to_multi_bit_read() {
    let input = [0x5A, 0xC3, 0x0F, 0xF0, 0x99, 0x66, 0x12, 0x34, 0x56, 0x78, 0x9A];
    for skip in 0..40u32 {
        for n in 1..=31u8 {
            let mut whole = BitReader::new(&input);
            let mut single = BitReader::new(&input);
            for _ in 0..skip {
                whole.read_bit();
                single.read_bit();
            }
            let expected = whole.read_bits(n);
            let mut assembled: u32 = 0;
            for j in 0..n {
                if single.read_bit() {
                    assembled |= 1 << j;
                }
            }
            assert_eq!(expected, assembled, "skip {skip}, width {n}");
        }
    }
}

#[test]
fn reads_cross_the_window_border() {
    let input = [0u8, 0, 0, 0, 0, 0, 0, 0x80, 0x01];
    let mut reader = BitReader::new(&input);
    assert_eq!(0, reader.read_bits(31));
    assert_eq!(0, reader.read_bits(31));
    assert_eq!(0b10, reader.read_bits(2));
    assert!(reader.read_bit());
    let mut reader = BitReader::new(&input);
    reader.read_bits(30);
    reader.read_bits(30);
    assert_eq!(0b11000, reader.read_bits(6));
}

#[test]
fn reads_past_the_end_give_zero_bits() {
    let input = [0xFFu8];
    let mut reader = BitReader::new(&input);
    assert_eq!(0xFF, reader.read_bits(8));
    assert_eq!(0, reader.read_bits(31));
    assert_eq!(0, reader.read_bits(31));
    assert!(!reader.read_bit());
    let empty: [u8; 0] = [];
    let mut reader = BitReader::new(&empty);
    assert_eq!(0, reader.read_bits(20));
}
