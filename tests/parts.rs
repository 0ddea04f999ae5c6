use kriek::{
    word_name_from_str, Alloc, AllocBuffer, Allocs, AuxStack, Cell, DefinedWord, KrkErr, LexiconWord, Literal,
    ReturnStack, Stack, CEP, DEFINITION_SIZE, NAME_SIZE, TIB,
};

fn classify(token: &str) -> Option<Literal> {
    let (name, len) = word_name_from_str(token);
    Cell::number(name, len)
}

#[test]
fn name_from_str_keeps_at_most_the_capacity() {
    let (name, len) = word_name_from_str("Root");
    assert_eq!(len, 4);
    assert_eq!(&name[..4], b"Root");
    assert!(name[4..].iter().all(|b| *b == 0));
    let long = "abcdefghijklmnopqrstuvwxyz0123456789";
    let (name, len) = word_name_from_str(long);
    assert_eq!(len as usize, NAME_SIZE);
    assert_eq!(&name[..], &long.as_bytes()[..NAME_SIZE]);
    let (name, len) = word_name_from_str("");
    assert_eq!(len, 0);
    assert_eq!(name, [0u8; NAME_SIZE]);
}

#[test]
fn tokenizer_splits_on_delimiters() {
    let mut tib = TIB::new(b"  ab,cd\n\t,,ef".to_vec());
    let (name, len) = tib.next_word();
    assert_eq!(&name[..len as usize], b"ab");
    let (name, len) = tib.next_word();
    assert_eq!(&name[..len as usize], b"cd");
    let (name, len) = tib.next_word();
    assert_eq!(&name[..len as usize], b"ef");
    let (_, len) = tib.next_word();
    assert_eq!(len, 0);
    let (_, len) = tib.next_word();
    assert_eq!(len, 0);
}

#[test]
fn tokenizer_truncates_long_tokens() {
    let long = "x".repeat(40);
    let mut tib = TIB::new(format!("{} next", long).into_bytes());
    let (name, len) = tib.next_word();
    assert_eq!(len as usize, NAME_SIZE);
    assert!(name.iter().all(|b| *b == b'x'));
    let (name, len) = tib.next_word();
    assert_eq!(&name[..len as usize], b"next");
}

#[test]
fn tokenizer_on_empty_or_blank_input() {
    let mut tib = TIB::new(Vec::new());
    assert_eq!(tib.next_word().1, 0);
    let mut tib = TIB::new(b" , \x01 ".to_vec());
    assert_eq!(tib.next_word().1, 0);
}

#[test]
fn classification_of_tokens() {
    assert_eq!(classify("42"), Some(Literal::Integer(42)));
    assert_eq!(classify("-7"), Some(Literal::Integer(-7)));
    assert_eq!(classify("+5"), Some(Literal::Integer(5)));
    assert_eq!(classify("007"), Some(Literal::Integer(7)));
    assert_eq!(classify("-9223372036854775808"), Some(Literal::Integer(i64::MIN)));
    assert_eq!(classify("9223372036854775807"), Some(Literal::Integer(i64::MAX)));
    assert_eq!(classify("9223372036854775808"), Some(Literal::Float));
    assert_eq!(classify("5.5"), Some(Literal::Float));
    assert_eq!(classify("1e10"), Some(Literal::Float));
    assert_eq!(classify("-2.5E-3"), Some(Literal::Float));
    assert_eq!(classify(".5"), Some(Literal::Float));
    assert_eq!(classify("5."), Some(Literal::Float));
    assert_eq!(classify("inf"), Some(Literal::Float));
    assert_eq!(classify("-Infinity"), Some(Literal::Float));
    assert_eq!(classify("NaN"), Some(Literal::Float));
    assert_eq!(classify("42x"), None);
    assert_eq!(classify("-"), None);
    assert_eq!(classify("+"), None);
    assert_eq!(classify("."), None);
    assert_eq!(classify("e5"), None);
    assert_eq!(classify("1e"), None);
    assert_eq!(classify("1e+"), None);
    assert_eq!(classify("1.2.3"), None);
    assert_eq!(classify("suma"), None);
    assert_eq!(classify(""), None);
}

#[test]
fn classification_agrees_with_std_parsing() {
    let tokens = [
        "0", "-0", "+0", "1", "12345", "-98765", "+1", "1.", ".1", "1.5e3", "1.5e+3", "1.5e-3", "1E5", "+.5",
        "-.5", "nan", "NAN", "inF", "infinity", "-inf", "+nan", "in", "infinit", "na", "e", "E1", "1e1.5",
        "1..2", "--1", "+-1", "1-", "0x10", "1_000", " 1", "abc", "{", "}", "(", ")", "+", "-", "*", "/",
        "%", "<", "=", "99999999999999999999", "-99999999999999999999", "1e400", "123456789012345678901234567890",
    ];
    for t in tokens.iter() {
        let expected = if let Ok(n) = t.parse::<i64>() {
            Some(Literal::Integer(n))
        } else if t.parse::<f64>().is_ok() {
            Some(Literal::Float)
        } else {
            None
        };
        assert_eq!(classify(t), expected, "token {:?}", t);
    }
}

#[test]
fn cell_helpers() {
    assert!(Cell::Integer(3).is_number());
    assert!(Cell::Float(0).is_number());
    assert!(!Cell::Empty.is_number());
    assert!(!Cell::AllocRef(1, 2).is_number());
    assert_eq!(Cell::Integer(-4).as_integer(), -4);
    assert_eq!(Cell::WordRef(9, 1).as_integer(), 9);
    assert_eq!(Cell::AllocRef(3, 0).as_integer(), 3);
    assert_eq!(Cell::Empty.as_integer(), 0);
    assert_eq!(Cell::Float((-2.75f64).to_bits()).as_integer(), -2);
}

#[test]
fn float_conversion_matches_as() {
    let values = [
        0.0f64, -0.0, 0.5, -0.9, 1.0, -1.0, 1.5, 2.75, -2.75, 123456.789, -98765.4321, 4503599627370496.0,
        4503599627370497.0, 9007199254740993.0, 1e15 + 0.3, 1e18, -1e18, 9.2e18, -9.2e18, 9223372036854775807.0,
        -9223372036854775808.0, 1e19, -1e19, 1e300, -1e300, f64::MIN_POSITIVE, 5e-324, -5e-324, f64::MAX, f64::MIN,
        f64::INFINITY, f64::NEG_INFINITY, f64::NAN, -f64::NAN, 0.999999999999, 1023.999,
    ];
    for v in values.iter() {
        assert_eq!(kriek::cell::float_bits_to_int(v.to_bits()), *v as i64, "value {:?}", v);
        assert_eq!(Cell::Float(v.to_bits()).as_integer(), *v as i64, "value {:?}", v);
    }
    for e in 0..2048u64 {
        let bits = (e << 52) | 0x000A_BCDE_F012_3456;
        assert_eq!(kriek::cell::float_bits_to_int(bits), f64::from_bits(bits) as i64, "bits {:x}", bits);
        let neg = bits | (1u64 << 63);
        assert_eq!(kriek::cell::float_bits_to_int(neg), f64::from_bits(neg) as i64, "bits {:x}", neg);
    }
}

#[test]
fn stack_frames_balance() {
    let mut s = Stack::new();
    s.push(Cell::Integer(1));
    s.start_stack();
    assert_eq!(s.size(), 0);
    s.push(Cell::Integer(2));
    s.push(Cell::Integer(3));
    assert_eq!(s.size(), 2);
    assert_eq!(s.pop(), Some(Cell::Integer(3)));
    assert_eq!(s.pop(), Some(Cell::Integer(2)));
    assert_eq!(s.pop(), None);
    assert_eq!(s.end_stack(), Some(0));
    assert_eq!(s.size(), 1);
    assert_eq!(s.end_stack(), None);
    assert_eq!(s.pop(), Some(Cell::Integer(1)));
    assert_eq!(s.pop(), None);
}

#[test]
fn end_stack_without_start_fails() {
    let mut s = Stack::new();
    assert_eq!(s.end_stack(), None);
    assert_eq!(s.size(), 0);
}

#[test]
fn aux_and_return_stacks() {
    let mut a = AuxStack::new();
    assert_eq!(a.pop(), None);
    a.push(Cell::Integer(1));
    a.push(Cell::Integer(2));
    assert_eq!(a.pop(), Some(Cell::Integer(2)));
    assert_eq!(a.pop(), Some(Cell::Integer(1)));
    assert_eq!(a.pop(), None);
    let mut r = ReturnStack::new();
    assert!(r.pop().is_none());
    r.push(CEP::new(4));
    r.push(CEP::new(5));
    let top = r.pop().unwrap();
    assert_eq!(top.word_index(), 5);
    assert_eq!(top.cell_index(), 0);
    assert_eq!(r.pop().unwrap().word_index(), 4);
    assert!(r.pop().is_none());
}

#[test]
fn definition_capacity() {
    let mut d = DefinedWord::new();
    for i in 0..20 {
        assert!(d.compile_code(Cell::Integer(i)));
    }
    for i in 0..12 {
        assert!(d.compile_data(Cell::Integer(100 + i)));
    }
    assert_eq!(d.code_len() as usize + d.data_len() as usize, DEFINITION_SIZE);
    assert!(!d.compile_code(Cell::Integer(99)));
    assert!(!d.compile_data(Cell::Integer(99)));
    assert_eq!(d.code_len(), 20);
    assert_eq!(d.data_len(), 12);
    assert_eq!(d.definition()[19], Cell::Integer(19));
    assert_eq!(d.definition()[DEFINITION_SIZE - 1], Cell::Integer(100));
    assert_eq!(d.data_at(0), Some(Cell::Integer(100)));
    assert_eq!(d.data_at(11), Some(Cell::Integer(111)));
    assert_eq!(d.data_at(12), None);
}

#[test]
fn lexicon_last_write_wins() {
    let mut lex = LexiconWord::new();
    let (a, _) = word_name_from_str("a");
    let (b, _) = word_name_from_str("b");
    assert_eq!(lex.find_word(&a), None);
    lex.add_word(a, 3);
    assert_eq!(lex.find_word(&a), Some(3));
    assert_eq!(lex.find_word(&b), None);
    lex.add_word(a, 8);
    assert_eq!(lex.find_word(&a), Some(8));
}

#[test]
fn allocation_reuse() {
    let mut allocs = Allocs::new();
    let first = allocs.allocate(4);
    assert_eq!(first, 0);
    assert_eq!(allocs.allocate(2), 1);
    assert!(allocs.release(first).is_ok());
    assert!(matches!(allocs.alloc_at(first).unwrap().buffer(), AllocBuffer::Empty));
    let again = allocs.balloc(3);
    assert_eq!(again, first);
    assert_eq!(allocs.alloc_at(again).unwrap().ref_count(), 1);
    assert!(matches!(allocs.alloc_at(again).unwrap().buffer(), AllocBuffer::ByteBuffer(b) if b.len() == 3));
    assert_eq!(allocs.allocate(1), 2);
}

#[test]
fn allocation_errors() {
    let mut allocs = Allocs::new();
    assert!(matches!(allocs.release(5), Err(KrkErr::BufferNotFound)));
    assert!(!allocs.acquire(0));
    let i = allocs.allocate(2);
    assert!(allocs.acquire(i));
    assert_eq!(allocs.alloc_at(i).unwrap().ref_count(), 2);
    assert!(matches!(allocs.release(i), Err(KrkErr::CouldNotFree)));
    assert_eq!(allocs.alloc_at(i).unwrap().ref_count(), 2);
    let j = allocs.allocate(1);
    assert!(allocs.release(j).is_ok());
    assert!(matches!(allocs.release(j), Err(KrkErr::BufferNotFound)));
    assert!(matches!(allocs.fetch(j, 0), Err(KrkErr::WrongBuffer)));
    assert!(matches!(allocs.fetch(i, 2), Err(KrkErr::IndexOutOfBounds)));
    assert!(matches!(allocs.fetch(9, 0), Err(KrkErr::BufferNotFound)));
    assert!(matches!(allocs.store(i, 0, Cell::WordRef(1, 0)), Err(KrkErr::WrongType)));
}

#[test]
fn byte_buffers_hold_low_bytes() {
    let mut allocs = Allocs::new();
    let i = allocs.balloc(2);
    assert!(allocs.store(i, 1, Cell::Integer(0x1ff)).is_ok());
    assert_eq!(allocs.fetch(i, 1).unwrap(), Cell::Integer(0xff));
    assert_eq!(allocs.fetch(i, 0).unwrap(), Cell::Integer(0));
    assert!(allocs.store(i, 0, Cell::Float(300.7f64.to_bits())).is_ok());
    assert_eq!(allocs.fetch(i, 0).unwrap(), Cell::Integer(300.7f64 as i64 as u8 as i64));
    assert_eq!(allocs.fetch(i, 0).unwrap(), Cell::Integer(44));
    assert!(matches!(allocs.store(i, 0, Cell::AllocRef(0, 0)), Err(KrkErr::WrongType)));
    assert!(matches!(allocs.store(i, 2, Cell::Integer(1)), Err(KrkErr::IndexOutOfBounds)));
}

#[test]
fn new_allocations_hold_zeros() {
    let a = Alloc::new_alloc(3);
    assert_eq!(a.ref_count(), 1);
    match a.buffer() {
        AllocBuffer::DataBuffer(v) => assert_eq!(v, &vec![Cell::Integer(0); 3]),
        other => panic!("{:?}", other),
    }
    let e = Alloc::new_empty();
    assert_eq!(e.ref_count(), 0);
    assert!(matches!(e.buffer(), AllocBuffer::Empty));
}
