//! The interpreter: its state, its model, and bootstrap.
use vstd::prelude::*;
use vstd::string::StringSliceAdditionalSpecFns;
use vstd::string::group_string_axioms;

use crate::cell::Cell;
use crate::error::KrkErr;
use crate::memory::{Allocs, AllocsModel};
use crate::name::{kept_len, name_buffer, word_name_from_str, WordName};
use crate::stack::{AuxStack, ReturnStack, Stack, StackModel, CEP};
use crate::tib::TIB;
use crate::word::{
    is_lexicon_at, lexicon_entries, words_wf, DefinedWord, DefinitionModel, LexiconWord, Primitive,
    PrimitiveWord, Word, WordFlavor, Words,
};

verus! {

broadcast use group_string_axioms;

/// An arithmetic operation.
#[derive(Clone, Copy, Debug, PartialEq, Eq, Structural)]
pub enum ArithOp {
    Add,
    Sub,
    Mul,
    Div,
    Rem,
}

/// A comparison.
#[derive(Clone, Copy, Debug, PartialEq, Eq, Structural)]
pub enum CompareOp {
    Less,
    Equal,
}

/// Float work that the host performs; floats travel as their bit patterns.
#[derive(Clone, Copy, Debug)]
pub enum FloatRequest {
    /// Read the token `name[..len]` as a float; answer with its value.
    Literal(WordName, u8),
    /// Compute `a op b`; answer with its value.
    Arith(ArithOp, u64, u64),
    /// Compare `a` with `b`; answer with the truth.
    Compare(CompareOp, u64, u64),
}

/// The host's answer to a float request.
#[derive(Clone, Copy, Debug, PartialEq, Eq, Structural)]
pub enum FloatReply {
    Value(u64),
    Truth(bool),
}

/// What one step did.
#[derive(Clone, Copy, Debug)]
pub enum Step {
    /// One unit of work was done.
    Ran,
    /// The input is exhausted and no definition runs.
    Finished,
    /// The step waits for the host to answer this float request.
    Float(FloatRequest),
    /// The host must run its primitive with this number.
    Host(usize),
}

/// A definition under construction: its name and its cells so far.
pub struct Builder {
    pub name: WordName,
    pub name_len: u8,
    pub definition: DefinedWord,
}

/// What a builder holds.
pub struct BuilderModel {
    pub name: WordName,
    pub name_len: u8,
    pub def: DefinitionModel,
}

/// Executing tokens, or compiling them into a new definition.
pub enum Mode {
    Executing,
    Compiling(Builder),
}

/// The whole interpreter state.
pub struct Interpreter {
    pub tib: TIB,
    pub words: Words,
    pub allocs: Allocs,
    pub stack: Stack,
    pub aux: AuxStack,
    pub ret: ReturnStack,
    pub current_cep: Option<CEP>,
    pub lex_in_use: usize,
    pub root_lex: usize,
    pub mode: Mode,
    pub pending: Option<FloatRequest>,
}

/// What the interpreter holds.
pub struct InterpModel {
    pub source: Seq<u8>,
    pub position: int,
    pub words: Seq<Word>,
    pub allocs: AllocsModel,
    pub stack: StackModel,
    pub aux: Seq<Cell>,
    pub ret: Seq<CEP>,
    pub cep: Option<CEP>,
    pub lex_in_use: usize,
    pub root_lex: usize,
    pub compiling: Option<BuilderModel>,
    pub pending: Option<FloatRequest>,
}

impl View for Interpreter {
    type V = InterpModel;

    open spec fn view(&self) -> InterpModel {
        InterpModel {
            source: self.tib.source(),
            position: self.tib.position(),
            words: self.words@,
            allocs: self.allocs@,
            stack: self.stack@,
            aux: self.aux@,
            ret: self.ret@,
            cep: self.current_cep,
            lex_in_use: self.lex_in_use,
            root_lex: self.root_lex,
            compiling: match &self.mode {
                Mode::Executing => None,
                Mode::Compiling(b) => Some(BuilderModel { name: b.name, name_len: b.name_len, def: b.definition@ }),
            },
            pending: self.pending,
        }
    }
}

/// The primitive registered at index `k` of the word store at bootstrap.
pub open spec fn core_primitive(k: int) -> Primitive {
    if k == 1 { Primitive::Plus }
    else if k == 2 { Primitive::Minus }
    else if k == 3 { Primitive::Star }
    else if k == 4 { Primitive::Slash }
    else if k == 5 { Primitive::Percent }
    else if k == 6 { Primitive::Smaller }
    else if k == 7 { Primitive::Equal }
    else if k == 8 { Primitive::And }
    else if k == 9 { Primitive::Or }
    else if k == 10 { Primitive::Not }
    else if k == 11 { Primitive::OpenCurly }
    else if k == 12 { Primitive::CloseCurly }
    else if k == 13 { Primitive::OpenParenth }
    else if k == 14 { Primitive::CloseParenth }
    else if k == 15 { Primitive::Flush }
    else if k == 16 { Primitive::Size }
    else if k == 17 { Primitive::ToAux }
    else if k == 18 { Primitive::FromAux }
    else if k == 19 { Primitive::Store }
    else if k == 20 { Primitive::Fetch }
    else if k == 21 { Primitive::Offset }
    else { Primitive::Allocate }
}

/// The name under which the primitive at index `k` is registered at bootstrap.
pub open spec fn core_name(k: int) -> &'static str {
    if k == 1 { "+" }
    else if k == 2 { "-" }
    else if k == 3 { "*" }
    else if k == 4 { "/" }
    else if k == 5 { "%" }
    else if k == 6 { "<" }
    else if k == 7 { "=" }
    else if k == 8 { "and" }
    else if k == 9 { "or" }
    else if k == 10 { "not" }
    else if k == 11 { "{" }
    else if k == 12 { "}" }
    else if k == 13 { "(" }
    else if k == 14 { ")" }
    else if k == 15 { "flush" }
    else if k == 16 { "size" }
    else if k == 17 { "->aux" }
    else if k == 18 { "aux->" }
    else if k == 19 { "!" }
    else if k == 20 { "@" }
    else if k == 21 { "offset" }
    else { "alloc" }
}

/// `n` is the name of one of the 23 words registered at bootstrap.
pub open spec fn is_bootstrap_name(ws: Seq<Word>, n: WordName) -> bool {
    exists|k: int| 0 <= k < 23 && (#[trigger] ws[k]).name == n
}

impl InterpModel {
    /// The stacks, the allocator and every definition are well formed.
    pub open spec fn wf(self) -> bool {
        &&& self.stack.wf()
        &&& self.allocs.wf()
        &&& words_wf(self.words)
        &&& (self.compiling matches Some(b) ==> b.def.wf())
        &&& 0 <= self.position <= self.source.len()
    }

    /// The lexicon in use resolves `name`; failing that, and when it is not
    /// the root, the root lexicon does.
    pub open spec fn resolve(self, name: WordName) -> Option<usize> {
        if is_lexicon_at(self.words, self.lex_in_use as int) && lexicon_entries(
            self.words,
            self.lex_in_use as int,
        ).contains_key(name) {
            Some(lexicon_entries(self.words, self.lex_in_use as int)[name])
        } else if self.lex_in_use != self.root_lex && is_lexicon_at(self.words, self.root_lex as int)
            && lexicon_entries(self.words, self.root_lex as int).contains_key(name) {
            Some(lexicon_entries(self.words, self.root_lex as int)[name])
        } else {
            None
        }
    }

    /// Executing tokens: no definition is being compiled.
    pub open spec fn executing(self) -> bool {
        self.compiling is None
    }
}

/// The error of a step taken while a float request waits for its answer.
pub open spec fn pending_error() -> KrkErr {
    KrkErr::Other("a float request waits for its answer", 1)
}

/// The error of an answer given when no float request waits, or of the wrong kind.
pub open spec fn reply_error() -> KrkErr {
    KrkErr::Other("no float request waits for this answer", 2)
}

/// The error of running a link word.
pub open spec fn link_error() -> KrkErr {
    KrkErr::Other("link words are not supported", 3)
}

/// The error of running an empty cell.
pub open spec fn empty_cell_error() -> KrkErr {
    KrkErr::Other("an empty cell cannot run", 4)
}

/// The error of a division by zero, or of one whose quotient overflows.
pub open spec fn division_error() -> KrkErr {
    KrkErr::Other("division by zero or overflow", 5)
}

pub(crate) fn new_pending_error() -> (r: KrkErr)
    ensures
        r == pending_error(),
{
    KrkErr::Other("a float request waits for its answer", 1)
}

pub(crate) fn new_reply_error() -> (r: KrkErr)
    ensures
        r == reply_error(),
{
    KrkErr::Other("no float request waits for this answer", 2)
}

pub(crate) fn new_link_error() -> (r: KrkErr)
    ensures
        r == link_error(),
{
    KrkErr::Other("link words are not supported", 3)
}

pub(crate) fn new_empty_cell_error() -> (r: KrkErr)
    ensures
        r == empty_cell_error(),
{
    KrkErr::Other("an empty cell cannot run", 4)
}

pub(crate) fn new_division_error() -> (r: KrkErr)
    ensures
        r == division_error(),
{
    KrkErr::Other("division by zero or overflow", 5)
}

impl Interpreter {
    /// The state is well formed.
    pub open spec fn wf(&self) -> bool {
        self@.wf()
    }

    /// An interpreter that reads `reader`, with the root lexicon at index 0
    /// (holding itself under the name `Root`) and the bootstrap primitives
    /// `+ - * / % < = and or not { } ( ) flush size ->aux aux-> ! @ offset alloc`
    /// at indices 1 to 22, all registered in the root lexicon; `}` is immediate.
    pub fn new(reader: Vec<u8>) -> (r: Self)
        ensures
            r@.source == reader@,
            r@.position == 0,
            r@.stack.cells.len() == 0,
            r@.stack.base == 0,
            r@.stack.saved.len() == 0,
            r@.aux.len() == 0,
            r@.ret.len() == 0,
            r@.cep is None,
            r@.lex_in_use == 0,
            r@.root_lex == 0,
            r@.compiling is None,
            r@.pending is None,
            r@.allocs.slots.len() == 0,
            r@.allocs.free.len() == 0,
            r@.words.len() == 23,
            is_lexicon_at(r@.words, 0),
            r@.words[0].name@ == name_buffer("Root".spec_bytes()),
            r@.words[0].name_len == kept_len("Root".spec_bytes()),
            r@.words[0].name_len == 4,
            forall|n: WordName|
                #[trigger] lexicon_entries(r@.words, 0).contains_key(n) <==> is_bootstrap_name(r@.words, n),
            lexicon_entries(r@.words, 0).contains_key(r@.words[0].name),
            lexicon_entries(r@.words, 0)[r@.words[0].name] == 0,
            forall|k: int|
                1 <= k < 23 ==> (#[trigger] r@.words[k]).flavor == WordFlavor::Primitive(
                    PrimitiveWord { function: core_primitive(k) },
                ) && r@.words[k].immediate == (k == 12) && r@.words[k].name@ == name_buffer(
                    core_name(k).spec_bytes(),
                ) && r@.words[k].name_len == kept_len(core_name(k).spec_bytes()) && lexicon_entries(r@.words, 0).contains_key(r@.words[k].name) && lexicon_entries(
                    r@.words,
                    0,
                )[r@.words[k].name] == k,
            r.wf(),
    {
        let mut s = Self {
            tib: TIB::new(reader),
            words: Words::new(),
            allocs: Allocs::new(),
            stack: Stack::new(),
            aux: AuxStack::new(),
            ret: ReturnStack::new(),
            current_cep: None,
            lex_in_use: 0,
            root_lex: 0,
            mode: Mode::Executing,
            pending: None,
        };
        proof {
            reveal_strlit("Root");
            reveal_strlit("+");
            reveal_strlit("-");
            reveal_strlit("*");
            reveal_strlit("/");
            reveal_strlit("%");
            reveal_strlit("<");
            reveal_strlit("=");
            reveal_strlit("and");
            reveal_strlit("or");
            reveal_strlit("not");
            reveal_strlit("{");
            reveal_strlit("}");
            reveal_strlit("(");
            reveal_strlit(")");
            reveal_strlit("flush");
            reveal_strlit("size");
            reveal_strlit("->aux");
            reveal_strlit("aux->");
            reveal_strlit("!");
            reveal_strlit("@");
            reveal_strlit("offset");
            reveal_strlit("alloc");
        }
        assert(vstd::string::is_ascii("Root"));
        assert("Root".spec_bytes() =~= seq![82u8, 111, 111, 116]);
        assert(vstd::string::is_ascii("+"));
        assert("+".spec_bytes() =~= seq![43u8]);
        assert(vstd::string::is_ascii("-"));
        assert("-".spec_bytes() =~= seq![45u8]);
        assert(vstd::string::is_ascii("*"));
        assert("*".spec_bytes() =~= seq![42u8]);
        assert(vstd::string::is_ascii("/"));
        assert("/".spec_bytes() =~= seq![47u8]);
        assert(vstd::string::is_ascii("%"));
        assert("%".spec_bytes() =~= seq![37u8]);
        assert(vstd::string::is_ascii("<"));
        assert("<".spec_bytes() =~= seq![60u8]);
        assert(vstd::string::is_ascii("="));
        assert("=".spec_bytes() =~= seq![61u8]);
        assert(vstd::string::is_ascii("and"));
        assert("and".spec_bytes() =~= seq![97u8, 110, 100]);
        assert(vstd::string::is_ascii("or"));
        assert("or".spec_bytes() =~= seq![111u8, 114]);
        assert(vstd::string::is_ascii("not"));
        assert("not".spec_bytes() =~= seq![110u8, 111, 116]);
        assert(vstd::string::is_ascii("{"));
        assert("{".spec_bytes() =~= seq![123u8]);
        assert(vstd::string::is_ascii("}"));
        assert("}".spec_bytes() =~= seq![125u8]);
        assert(vstd::string::is_ascii("("));
        assert("(".spec_bytes() =~= seq![40u8]);
        assert(vstd::string::is_ascii(")"));
        assert(")".spec_bytes() =~= seq![41u8]);
        assert(vstd::string::is_ascii("flush"));
        assert("flush".spec_bytes() =~= seq![102u8, 108, 117, 115, 104]);
        assert(vstd::string::is_ascii("size"));
        assert("size".spec_bytes() =~= seq![115u8, 105, 122, 101]);
        assert(vstd::string::is_ascii("->aux"));
        assert("->aux".spec_bytes() =~= seq![45u8, 62, 97, 117, 120]);
        assert(vstd::string::is_ascii("aux->"));
        assert("aux->".spec_bytes() =~= seq![97u8, 117, 120, 45, 62]);
        assert(vstd::string::is_ascii("!"));
        assert("!".spec_bytes() =~= seq![33u8]);
        assert(vstd::string::is_ascii("@"));
        assert("@".spec_bytes() =~= seq![64u8]);
        assert(vstd::string::is_ascii("offset"));
        assert("offset".spec_bytes() =~= seq![111u8, 102, 102, 115, 101, 116]);
        assert(vstd::string::is_ascii("alloc"));
        assert("alloc".spec_bytes() =~= seq![97u8, 108, 108, 111, 99]);
        let (name, name_len) = word_name_from_str("Root");
        let root = s.words.add_word(Word::new(name, name_len, false, WordFlavor::Lexicon(LexiconWord::new())));
        s.words.add_to_lexicon(root, name, root);
        assert(words_wf(s@.words));
        s.define_primitive(0, "+", false, Primitive::Plus);
        s.define_primitive(0, "-", false, Primitive::Minus);
        s.define_primitive(0, "*", false, Primitive::Star);
        s.define_primitive(0, "/", false, Primitive::Slash);
        s.define_primitive(0, "%", false, Primitive::Percent);
        s.define_primitive(0, "<", false, Primitive::Smaller);
        s.define_primitive(0, "=", false, Primitive::Equal);
        s.define_primitive(0, "and", false, Primitive::And);
        s.define_primitive(0, "or", false, Primitive::Or);
        s.define_primitive(0, "not", false, Primitive::Not);
        s.define_primitive(0, "{", false, Primitive::OpenCurly);
        s.define_primitive(0, "}", true, Primitive::CloseCurly);
        s.define_primitive(0, "(", false, Primitive::OpenParenth);
        s.define_primitive(0, ")", false, Primitive::CloseParenth);
        s.define_primitive(0, "flush", false, Primitive::Flush);
        s.define_primitive(0, "size", false, Primitive::Size);
        s.define_primitive(0, "->aux", false, Primitive::ToAux);
        s.define_primitive(0, "aux->", false, Primitive::FromAux);
        s.define_primitive(0, "!", false, Primitive::Store);
        s.define_primitive(0, "@", false, Primitive::Fetch);
        s.define_primitive(0, "offset", false, Primitive::Offset);
        s.define_primitive(0, "alloc", false, Primitive::Allocate);
        assert(s@.words[0].name@[0] == 82u8 && s@.words[0].name@[1] == 111u8);
        assert(s@.words[1].name@[0] == 43u8 && s@.words[1].name@[1] == 0u8);
        assert(s@.words[2].name@[0] == 45u8 && s@.words[2].name@[1] == 0u8);
        assert(s@.words[3].name@[0] == 42u8 && s@.words[3].name@[1] == 0u8);
        assert(s@.words[4].name@[0] == 47u8 && s@.words[4].name@[1] == 0u8);
        assert(s@.words[5].name@[0] == 37u8 && s@.words[5].name@[1] == 0u8);
        assert(s@.words[6].name@[0] == 60u8 && s@.words[6].name@[1] == 0u8);
        assert(s@.words[7].name@[0] == 61u8 && s@.words[7].name@[1] == 0u8);
        assert(s@.words[8].name@[0] == 97u8 && s@.words[8].name@[1] == 110u8);
        assert(s@.words[9].name@[0] == 111u8 && s@.words[9].name@[1] == 114u8);
        assert(s@.words[10].name@[0] == 110u8 && s@.words[10].name@[1] == 111u8);
        assert(s@.words[11].name@[0] == 123u8 && s@.words[11].name@[1] == 0u8);
        assert(s@.words[12].name@[0] == 125u8 && s@.words[12].name@[1] == 0u8);
        assert(s@.words[13].name@[0] == 40u8 && s@.words[13].name@[1] == 0u8);
        assert(s@.words[14].name@[0] == 41u8 && s@.words[14].name@[1] == 0u8);
        assert(s@.words[15].name@[0] == 102u8 && s@.words[15].name@[1] == 108u8);
        assert(s@.words[16].name@[0] == 115u8 && s@.words[16].name@[1] == 105u8);
        assert(s@.words[17].name@[0] == 45u8 && s@.words[17].name@[1] == 62u8);
        assert(s@.words[18].name@[0] == 97u8 && s@.words[18].name@[1] == 117u8);
        assert(s@.words[19].name@[0] == 33u8 && s@.words[19].name@[1] == 0u8);
        assert(s@.words[20].name@[0] == 64u8 && s@.words[20].name@[1] == 0u8);
        assert(s@.words[21].name@[0] == 111u8 && s@.words[21].name@[1] == 102u8);
        assert(s@.words[22].name@[0] == 97u8 && s@.words[22].name@[1] == 108u8);
        proof {
            let ws = s@.words;
            let d = lexicon_entries(ws, 0);
            assert forall|n: WordName| #[trigger] d.contains_key(n) implies is_bootstrap_name(ws, n) by {
                if n == ws[0].name {
                    assert(ws[0].name == n);
                }
                else if n == ws[1].name {
                    assert(ws[1].name == n);
                }
                else if n == ws[2].name {
                    assert(ws[2].name == n);
                }
                else if n == ws[3].name {
                    assert(ws[3].name == n);
                }
                else if n == ws[4].name {
                    assert(ws[4].name == n);
                }
                else if n == ws[5].name {
                    assert(ws[5].name == n);
                }
                else if n == ws[6].name {
                    assert(ws[6].name == n);
                }
                else if n == ws[7].name {
                    assert(ws[7].name == n);
                }
                else if n == ws[8].name {
                    assert(ws[8].name == n);
                }
                else if n == ws[9].name {
                    assert(ws[9].name == n);
                }
                else if n == ws[10].name {
                    assert(ws[10].name == n);
                }
                else if n == ws[11].name {
                    assert(ws[11].name == n);
                }
                else if n == ws[12].name {
                    assert(ws[12].name == n);
                }
                else if n == ws[13].name {
                    assert(ws[13].name == n);
                }
                else if n == ws[14].name {
                    assert(ws[14].name == n);
                }
                else if n == ws[15].name {
                    assert(ws[15].name == n);
                }
                else if n == ws[16].name {
                    assert(ws[16].name == n);
                }
                else if n == ws[17].name {
                    assert(ws[17].name == n);
                }
                else if n == ws[18].name {
                    assert(ws[18].name == n);
                }
                else if n == ws[19].name {
                    assert(ws[19].name == n);
                }
                else if n == ws[20].name {
                    assert(ws[20].name == n);
                }
                else if n == ws[21].name {
                    assert(ws[21].name == n);
                }
                else if n == ws[22].name {
                    assert(ws[22].name == n);
                }
            }
        }
        s
    }

    /// Registers a primitive under `word_name` in the lexicon at `lexicon`,
    /// which must be one, and returns the new word's index.
    pub fn define_primitive(&mut self, lexicon: usize, word_name: &str, immediate: bool, function: Primitive) -> (r: usize)
        requires
            is_lexicon_at(old(self)@.words, lexicon as int),
            old(self).wf(),
        ensures
            r == old(self)@.words.len(),
            final(self)@.words.len() == old(self)@.words.len() + 1,
            forall|j: int| 0 <= j < old(self)@.words.len() && j != lexicon ==> final(self)@.words[j] == old(self)@.words[j],
            is_lexicon_at(final(self)@.words, lexicon as int),
            lexicon_entries(final(self)@.words, lexicon as int) == lexicon_entries(old(self)@.words, lexicon as int).insert(
                final(self)@.words[r as int].name,
                r,
            ),
            final(self)@.words[lexicon as int].name == old(self)@.words[lexicon as int].name,
            final(self)@.words[lexicon as int].name_len == old(self)@.words[lexicon as int].name_len,
            final(self)@.words[r as int].name@ == name_buffer(word_name.spec_bytes()),
            final(self)@.words[r as int].name_len == kept_len(word_name.spec_bytes()),
            final(self)@.words[r as int].immediate == immediate,
            final(self)@.words[r as int].ref_count == 1,
            final(self)@.words[r as int].flavor == WordFlavor::Primitive(PrimitiveWord { function }),
            final(self)@ == (InterpModel { words: final(self)@.words, ..old(self)@ }),
            final(self).wf(),
    {
        let (name, name_len) = word_name_from_str(word_name);
        let word_index = self.words.add_word(
            Word::new(name, name_len, immediate, WordFlavor::Primitive(PrimitiveWord::new(function))),
        );
        self.words.add_to_lexicon(lexicon, name, word_index);
        proof {
            assert forall|i: int| crate::word::is_defined_at(self@.words, i) implies (
            #[trigger] self@.words[i]).flavor->Defined_0@.wf() by {
                assert(crate::word::is_defined_at(old(self)@.words, i));
            }
        }
        word_index
    }
}

} // verus!
