use kriek::{
    ArithOp, Cell, CompareOp, FloatReply, FloatRequest, Interpreter, KrkErr, LinkWord, Primitive, Step, Word,
    WordFlavor,
};

fn answer(request: FloatRequest) -> FloatReply {
    match request {
        FloatRequest::Literal(name, len) => {
            let text = std::str::from_utf8(&name[..len as usize]).unwrap();
            FloatReply::Value(text.parse::<f64>().unwrap().to_bits())
        }
        FloatRequest::Arith(op, a, b) => {
            let (x, y) = (f64::from_bits(a), f64::from_bits(b));
            let v = match op {
                ArithOp::Add => x + y,
                ArithOp::Sub => x - y,
                ArithOp::Mul => x * y,
                ArithOp::Div => x / y,
                ArithOp::Rem => x % y,
            };
            FloatReply::Value(v.to_bits())
        }
        FloatRequest::Compare(op, a, b) => {
            let (x, y) = (f64::from_bits(a), f64::from_bits(b));
            FloatReply::Truth(match op {
                CompareOp::Less => x < y,
                CompareOp::Equal => x == y,
            })
        }
    }
}

fn drive(it: &mut Interpreter) -> Result<(), KrkErr> {
    loop {
        match it.run_step()? {
            Step::Ran => {}
            Step::Finished => return Ok(()),
            Step::Float(request) => it.resume_float(answer(request))?,
            Step::Host(id) => panic!("no host primitive {}", id),
        }
    }
}

fn run(source: &str) -> (Interpreter, Result<(), KrkErr>) {
    let mut it = Interpreter::new(source.bytes().collect());
    let r = drive(&mut it);
    (it, r)
}

fn ints(it: &Interpreter) -> Vec<i64> {
    it.stack
        .cells()
        .iter()
        .map(|c| match c {
            Cell::Integer(n) => *n,
            other => panic!("not an integer: {:?}", other),
        })
        .collect()
}

#[test]
fn adds_two_integers() {
    let (it, r) = run("10 20 +");
    assert!(r.is_ok());
    assert_eq!(it.stack.cells(), &vec![Cell::Integer(30)]);
}

#[test]
fn adds_two_floats() {
    let (it, r) = run("5.5 1.1 +");
    assert!(r.is_ok());
    assert_eq!(it.stack.cells().len(), 1);
    match it.stack.cells()[0] {
        Cell::Float(bits) => assert_eq!(f64::from_bits(bits), 6.6),
        other => panic!("not a float: {:?}", other),
    }
}

#[test]
fn defines_and_runs_a_word() {
    let (it, r) = run("{ suma 10 20 + } suma");
    assert!(r.is_ok());
    assert_eq!(it.stack.cells(), &vec![Cell::Integer(30)]);
}

#[test]
fn compares_integers() {
    let (it, r) = run("1 2 <");
    assert!(r.is_ok());
    assert_eq!(it.stack.cells(), &vec![Cell::Integer(-1)]);
    let (it, r) = run("2 1 <");
    assert!(r.is_ok());
    assert_eq!(it.stack.cells(), &vec![Cell::Integer(0)]);
}

#[test]
fn flush_empties_only_the_frame() {
    let mut it = Interpreter::new("( 1 2 + flush )".bytes().collect());
    for _ in 0..5 {
        assert!(matches!(it.run_step(), Ok(Step::Ran)));
    }
    assert_eq!(it.stack.size(), 0);
    assert!(matches!(it.run_step(), Ok(Step::Ran)));
    assert!(matches!(it.run_step(), Ok(Step::Finished)));
    assert_eq!(it.stack.cells().len(), 0);

    let (it, r) = run("7 ( 1 2 + flush )");
    assert!(r.is_ok());
    assert_eq!(it.stack.cells(), &vec![Cell::Integer(7)]);
}

#[test]
fn unknown_name_stops_with_stack_kept() {
    let (it, r) = run("frobnicate");
    assert!(matches!(r, Err(KrkErr::WordNotFound)));
    assert_eq!(it.stack.cells().len(), 0);
    let (it, r) = run("1 2 frobnicate 3");
    assert!(matches!(r, Err(KrkErr::WordNotFound)));
    assert_eq!(ints(&it), vec![1, 2]);
}

#[test]
fn plus_on_empty_stack_underflows() {
    let (_, r) = run("+");
    assert!(matches!(r, Err(KrkErr::StackUnderun)));
}

#[test]
fn redefinition_resolves_to_the_later_word() {
    let (it, r) = run("{ x 1 } { x 2 } x");
    assert!(r.is_ok());
    assert_eq!(ints(&it), vec![2]);
}

#[test]
fn frames_count_only_their_own_cells() {
    let (it, r) = run("1 2 ( 3 4 5 size");
    assert!(r.is_ok());
    assert_eq!(it.stack.size(), 4);
    assert_eq!(ints(&it), vec![1, 2, 3, 4, 5, 3]);
    let (_, r) = run(")");
    assert!(matches!(r, Err(KrkErr::LevelStackUnderun)));
    let (it, r) = run("1 ( 2 ) size");
    assert!(r.is_ok());
    assert_eq!(ints(&it), vec![1, 2, 2]);
}

#[test]
fn frame_hides_cells_below_its_base() {
    let (it, r) = run("1 ( +");
    assert!(matches!(r, Err(KrkErr::StackUnderun)));
    assert_eq!(ints(&it), vec![1]);
}

#[test]
fn full_definition_rejects_more_code() {
    let mut source = String::from("{ long");
    for i in 0..32 {
        source.push_str(&format!(" {}", i));
    }
    source.push_str(" }");
    let (it, r) = run(&source);
    assert!(r.is_ok());
    assert_eq!(it.words.len(), 24);
    source = source.replace(" }", " 32 }");
    let (_, r) = run(&source);
    assert!(matches!(r, Err(KrkErr::IndexOutOfBounds)));
}

#[test]
fn integer_arithmetic() {
    let (it, r) = run("9223372036854775807 1 + 7 2 / -7 2 / -7 2 % 6 3 and 6 3 or 0 not 3 4 * 3 4 - 5 5 =");
    assert!(r.is_ok());
    assert_eq!(ints(&it), vec![i64::MIN, 3, -3, -1, 2, 7, -1, 12, -1, -1]);
}

#[test]
fn division_by_zero_fails() {
    let (it, r) = run("1 0 /");
    match r {
        Err(KrkErr::Other(_, code)) => assert_eq!(code, 5),
        other => panic!("{:?}", other),
    }
    assert_eq!(it.stack.cells().len(), 0);
}

#[test]
fn mixed_kinds_are_wrong_type_and_consume_both() {
    let (it, r) = run("9 1.5 2 +");
    assert!(matches!(r, Err(KrkErr::WrongType)));
    assert_eq!(ints(&it), vec![9]);
}

#[test]
fn float_comparison_and_definition_with_float() {
    let (it, r) = run("1.5 2.5 < { f 0.25 } f f +");
    assert!(r.is_ok());
    assert_eq!(it.stack.cells()[0], Cell::Integer(-1));
    assert_eq!(it.stack.cells()[1], Cell::Float(0.5f64.to_bits()));
}

#[test]
fn aux_stack_moves_cells() {
    let (it, r) = run("1 2 ->aux 3 aux->");
    assert!(r.is_ok());
    assert_eq!(ints(&it), vec![1, 3, 2]);
    let (_, r) = run("aux->");
    assert!(matches!(r, Err(KrkErr::AuxStackUnderun)));
    let (_, r) = run("->aux");
    assert!(matches!(r, Err(KrkErr::StackUnderun)));
}

#[test]
fn curly_errors() {
    let (_, r) = run("{");
    assert!(matches!(r, Err(KrkErr::EmptyTib)));
    let (_, r) = run("}");
    assert!(matches!(r, Err(KrkErr::NotCompiling)));
    let (_, r) = run("{ w nothing }");
    assert!(matches!(r, Err(KrkErr::WordNotFound)));
}

#[test]
fn nested_calls_and_reference_counts() {
    let (it, r) = run("{ a 1 } { b a a + } b");
    assert!(r.is_ok());
    assert_eq!(ints(&it), vec![2]);
    assert_eq!(it.words.word_at(23).unwrap().ref_count, 3);
    assert_eq!(it.words.word_at(24).unwrap().ref_count, 1);
}

#[test]
fn root_pushes_itself() {
    let (it, r) = run("Root");
    assert!(r.is_ok());
    assert_eq!(it.stack.cells(), &vec![Cell::WordRef(0, 0)]);
}

#[test]
fn bootstrap_registers_core_words() {
    let it = Interpreter::new(Vec::new());
    assert_eq!(it.words.len(), 23);
    let root = it.words.word_at(0).unwrap();
    assert_eq!(&root.name[..root.name_len as usize], b"Root");
    assert!(matches!(root.flavor, WordFlavor::Lexicon(_)));
    let close = it.words.word_at(12).unwrap();
    assert_eq!(&close.name[..close.name_len as usize], b"}");
    assert!(close.immediate);
    let last = it.words.word_at(22).unwrap();
    assert_eq!(&last.name[..last.name_len as usize], b"alloc");
}

#[test]
fn memory_store_and_fetch() {
    let (it, r) = run("5 alloc ->aux 42 2 aux-> offset ! 5 alloc @");
    assert!(r.is_ok());
    assert_eq!(it.allocs.fetch(0, 2).unwrap(), Cell::Integer(42));
    assert_eq!(ints(&it), vec![0]);
    let (_, r) = run("5 3 alloc offset @");
    assert!(matches!(r, Err(KrkErr::IndexOutOfBounds)));
    let (_, r) = run("0 alloc");
    assert!(matches!(r, Err(KrkErr::WrongSize)));
    let (_, r) = run("7 1 !");
    assert!(matches!(r, Err(KrkErr::WrongType)));
}

#[test]
fn flush_releases_allocations_for_reuse() {
    let (it, r) = run("( 5 alloc 6 alloc flush ) 3 alloc");
    assert!(r.is_ok());
    assert_eq!(it.stack.cells(), &vec![Cell::AllocRef(0, 0)]);
    assert_eq!(it.allocs.alloc_at(0).unwrap().ref_count(), 1);
    assert!(matches!(it.allocs.alloc_at(1).unwrap().buffer(), kriek::AllocBuffer::Empty));
}

#[test]
fn host_primitive_is_reported() {
    let mut it = Interpreter::new("5 dup".bytes().collect());
    let index = it.define_primitive(0, "dup", false, Primitive::Host(7));
    assert_eq!(index, 23);
    assert!(matches!(it.run_step(), Ok(Step::Ran)));
    assert!(matches!(it.run_step(), Ok(Step::Host(7))));
    assert_eq!(ints(&it), vec![5]);
}

#[test]
fn float_request_must_be_answered() {
    let mut it = Interpreter::new("2.5 1".bytes().collect());
    assert!(matches!(it.run_step(), Ok(Step::Float(FloatRequest::Literal(_, 3)))));
    assert!(matches!(it.run_step(), Err(KrkErr::Other(_, 1))));
    assert!(matches!(it.resume_float(FloatReply::Truth(true)), Err(KrkErr::Other(_, 2))));
    assert!(it.resume_float(FloatReply::Value(2.5f64.to_bits())).is_ok());
    assert!(matches!(it.resume_float(FloatReply::Value(0)), Err(KrkErr::Other(_, 2))));
    assert!(drive(&mut it).is_ok());
    assert_eq!(it.stack.cells(), &vec![Cell::Float(2.5f64.to_bits()), Cell::Integer(1)]);
}

#[test]
fn link_words_fail_clearly() {
    let mut it = Interpreter::new("ln".bytes().collect());
    let (name, len) = kriek::word_name_from_str("ln");
    let index = it.words.add_word(Word::new(name, len, false, WordFlavor::Link(LinkWord { index: 1 })));
    it.words.add_to_lexicon(0, name, index);
    assert!(matches!(it.run_step(), Err(KrkErr::Other(_, 3))));
}

fn add_definition(it: &mut Interpreter, name: &str, code: &[Cell], data: &[Cell]) -> usize {
    let mut d = kriek::DefinedWord::new();
    for c in code {
        assert!(d.compile_code(*c));
    }
    for c in data {
        assert!(d.compile_data(*c));
    }
    let (word_name, len) = kriek::word_name_from_str(name);
    let index = it.words.add_word(Word::new(word_name, len, false, WordFlavor::Defined(d)));
    it.words.add_to_lexicon(0, word_name, index);
    index
}

#[test]
fn word_data_store_and_fetch() {
    let mut it = Interpreter::new(Vec::new());
    let w = add_definition(&mut it, "table", &[], &[Cell::Integer(9), Cell::Integer(8)]);
    it.stack.push(Cell::WordRef(w, 1));
    assert!(kriek::mem_at(&mut it).is_ok());
    assert_eq!(it.stack.cells(), &vec![Cell::Integer(8)]);
    it.stack.push(Cell::Integer(5));
    it.stack.push(Cell::WordRef(w, 0));
    assert!(kriek::mem_exlam(&mut it).is_ok());
    match &it.words.word_at(w).unwrap().flavor {
        WordFlavor::Defined(d) => assert_eq!(d.data_at(0), Some(Cell::Integer(5))),
        _ => panic!("not a definition"),
    }
    it.stack.push(Cell::WordRef(w, 2));
    assert!(matches!(kriek::mem_at(&mut it), Err(KrkErr::IndexOutOfBounds)));
    it.stack.push(Cell::WordRef(0, 0));
    assert!(matches!(kriek::mem_at(&mut it), Err(KrkErr::WrongType)));
    it.stack.push(Cell::WordRef(500, 0));
    assert!(matches!(kriek::mem_at(&mut it), Err(KrkErr::WordNotFound)));
}

#[test]
fn storing_over_a_reference_releases_it() {
    let mut it = Interpreter::new(Vec::new());
    let a = it.allocs.allocate(2);
    let w = add_definition(&mut it, "holder", &[], &[Cell::AllocRef(a, 0)]);
    it.stack.push(Cell::Integer(1));
    it.stack.push(Cell::WordRef(w, 0));
    assert!(kriek::mem_exlam(&mut it).is_ok());
    assert!(matches!(it.allocs.alloc_at(a).unwrap().buffer(), kriek::AllocBuffer::Empty));
}

#[test]
fn empty_and_dangling_cells_fail() {
    let mut it = Interpreter::new("bad dangling".bytes().collect());
    add_definition(&mut it, "bad", &[Cell::Empty], &[]);
    add_definition(&mut it, "dangling", &[Cell::WordRef(900, 0)], &[]);
    assert!(matches!(it.run_step(), Ok(Step::Ran)));
    assert!(matches!(it.run_step(), Err(KrkErr::Other(_, 4))));
    let mut it = Interpreter::new("dangling".bytes().collect());
    add_definition(&mut it, "dangling", &[Cell::WordRef(900, 0)], &[]);
    assert!(matches!(it.run_step(), Ok(Step::Ran)));
    assert!(matches!(it.run_step(), Err(KrkErr::WordNotFound)));
}

#[test]
fn definition_of_a_word_is_reachable() {
    let mut it = Interpreter::new(Vec::new());
    let w = add_definition(&mut it, "w", &[Cell::Integer(1)], &[]);
    let mut word = Word::new([0u8; kriek::NAME_SIZE], 0, false, WordFlavor::Defined(kriek::DefinedWord::new()));
    assert!(word.as_defined().compile_code(Cell::Integer(3)));
    assert_eq!(word.as_defined().code_len(), 1);
    assert_eq!(it.words.word_at(w).unwrap().ref_count, 1);
}

#[test]
fn lexicon_value_runs_inside_definitions() {
    let (it, r) = run("{ r Root } r");
    assert!(r.is_ok());
    assert_eq!(it.stack.cells(), &vec![Cell::WordRef(0, 0)]);
}

#[test]
fn float_stored_into_a_byte_buffer_is_converted() {
    let mut it = Interpreter::new(Vec::new());
    let b = it.allocs.balloc(4);
    it.stack.push(Cell::Float(513.9f64.to_bits()));
    it.stack.push(Cell::AllocRef(b, 3));
    assert!(matches!(kriek::mem_exlam(&mut it), Ok(Step::Ran)));
    assert_eq!(it.allocs.fetch(b, 3).unwrap(), Cell::Integer(1));
    assert_eq!(it.stack.cells().len(), 0);
}

#[test]
fn bootstrap_name_lengths_and_unknown_names() {
    let it = Interpreter::new(Vec::new());
    assert_eq!(it.words.word_at(0).unwrap().name_len, 4);
    assert_eq!(it.words.word_at(17).unwrap().name_len, 5);
    let (frob, _) = kriek::word_name_from_str("frobnicate");
    assert_eq!(it.words.lexicon_at(0).find_word(&frob), None);
    let (root, _) = kriek::word_name_from_str("Root");
    assert_eq!(it.words.lexicon_at(0).find_word(&root), Some(0));
}
