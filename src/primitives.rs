//! The bootstrap primitives: arithmetic, comparison, bitwise logic, frames,
//! the auxiliary stack and memory access.
use vstd::prelude::*;

use crate::cell::{Cell, KrkInt};
use crate::error::KrkErr;
use crate::interp::{
    division_error, new_division_error, ArithOp, CompareOp, FloatRequest, InterpModel, Interpreter, Step,
};
use crate::stack::StackModel;

verus! {

/// A bitwise operation.
#[derive(Clone, Copy, Debug, PartialEq, Eq, Structural)]
pub enum BitOp {
    And,
    Or,
}

/// The stack after two pops; a frame of one cell loses that cell.
pub open spec fn two_popped(s: StackModel) -> StackModel {
    if s.size() >= 2 {
        s.drop_top().drop_top()
    } else if s.size() == 1 {
        s.drop_top()
    } else {
        s
    }
}

/// The top cell.
pub open spec fn top(s: StackModel) -> Cell {
    s.cells[s.cells.len() - 1]
}

/// The cell under the top one.
pub open spec fn second(s: StackModel) -> Cell {
    s.cells[s.cells.len() - 2]
}

/// Integer arithmetic: wrapping for `+ - *`; `/` and `%` truncate toward
/// zero and give nothing on a zero divisor or an overflowing quotient.
pub open spec fn int_arith(op: ArithOp, a: i64, b: i64) -> Option<i64> {
    match op {
        ArithOp::Add => Some(a.wrapping_add(b)),
        ArithOp::Sub => Some(a.wrapping_sub(b)),
        ArithOp::Mul => Some(a.wrapping_mul(b)),
        ArithOp::Div => a.checked_div(b),
        ArithOp::Rem => a.checked_rem(b),
    }
}

/// The truth of an integer comparison.
pub open spec fn int_compare(op: CompareOp, a: i64, b: i64) -> bool {
    match op {
        CompareOp::Less => a < b,
        CompareOp::Equal => a == b,
    }
}

/// The integer that stands for a truth: -1 for true, 0 for false.
pub open spec fn flag(b: bool) -> i64 {
    if b {
        -1i64
    } else {
        0i64
    }
}

/// The interpreter with only its stack replaced.
pub open spec fn with_stack(m: InterpModel, s: StackModel) -> InterpModel {
    InterpModel { stack: s, ..m }
}

/// A binary arithmetic primitive: pops `b`, then `a` (both, before any
/// check), and pushes `a op b` for two integers, or asks the host for it for
/// two floats.
pub open spec fn arith_post(op: ArithOp, m: InterpModel, m2: InterpModel, r: Result<Step, KrkErr>) -> bool {
    let s = m.stack;
    let p = two_popped(s);
    if s.size() < 2 {
        r == Err::<Step, KrkErr>(KrkErr::StackUnderun) && m2 == with_stack(m, p)
    } else {
        match (second(s), top(s)) {
            (Cell::Integer(a), Cell::Integer(b)) => match int_arith(op, a, b) {
                Some(v) => r == Ok::<Step, KrkErr>(Step::Ran) && m2 == with_stack(m, p.push(Cell::Integer(v))),
                None => r == Err::<Step, KrkErr>(division_error()) && m2 == with_stack(m, p),
            },
            (Cell::Float(a), Cell::Float(b)) => r == Ok::<Step, KrkErr>(Step::Float(FloatRequest::Arith(op, a, b)))
                && m2 == InterpModel { stack: p, pending: Some(FloatRequest::Arith(op, a, b)), ..m },
            _ => r == Err::<Step, KrkErr>(KrkErr::WrongType) && m2 == with_stack(m, p),
        }
    }
}

/// A comparison primitive: pops `b`, then `a`, and pushes the flag of
/// `a op b` for two integers, or asks the host for it for two floats.
pub open spec fn compare_post(op: CompareOp, m: InterpModel, m2: InterpModel, r: Result<Step, KrkErr>) -> bool {
    let s = m.stack;
    let p = two_popped(s);
    if s.size() < 2 {
        r == Err::<Step, KrkErr>(KrkErr::StackUnderun) && m2 == with_stack(m, p)
    } else {
        match (second(s), top(s)) {
            (Cell::Integer(a), Cell::Integer(b)) => r == Ok::<Step, KrkErr>(Step::Ran) && m2 == with_stack(
                m,
                p.push(Cell::Integer(flag(int_compare(op, a, b)))),
            ),
            (Cell::Float(a), Cell::Float(b)) => r == Ok::<Step, KrkErr>(Step::Float(FloatRequest::Compare(op, a, b)))
                && m2 == InterpModel { stack: p, pending: Some(FloatRequest::Compare(op, a, b)), ..m },
            _ => r == Err::<Step, KrkErr>(KrkErr::WrongType) && m2 == with_stack(m, p),
        }
    }
}

/// A bitwise primitive: pops `b`, then `a`, and pushes `a op b` for two integers.
pub open spec fn bit_post(op: BitOp, m: InterpModel, m2: InterpModel, r: Result<Step, KrkErr>) -> bool {
    let s = m.stack;
    let p = two_popped(s);
    if s.size() < 2 {
        r == Err::<Step, KrkErr>(KrkErr::StackUnderun) && m2 == with_stack(m, p)
    } else {
        match (second(s), top(s)) {
            (Cell::Integer(a), Cell::Integer(b)) => r == Ok::<Step, KrkErr>(Step::Ran) && m2 == with_stack(
                m,
                p.push(Cell::Integer(match op {
                    BitOp::And => a & b,
                    BitOp::Or => a | b,
                })),
            ),
            _ => r == Err::<Step, KrkErr>(KrkErr::WrongType) && m2 == with_stack(m, p),
        }
    }
}

/// `not`: pops an integer and pushes its bitwise complement.
pub open spec fn not_post(m: InterpModel, m2: InterpModel, r: Result<Step, KrkErr>) -> bool {
    let s = m.stack;
    if s.size() == 0 {
        r == Err::<Step, KrkErr>(KrkErr::StackUnderun) && m2 == m
    } else {
        match top(s) {
            Cell::Integer(a) => r == Ok::<Step, KrkErr>(Step::Ran) && m2 == with_stack(
                m,
                s.drop_top().push(Cell::Integer(!a)),
            ),
            _ => r == Err::<Step, KrkErr>(KrkErr::WrongType) && m2 == with_stack(m, s.drop_top()),
        }
    }
}

fn int_arith_exec(op: ArithOp, a: i64, b: i64) -> (r: Option<i64>)
    ensures
        r == int_arith(op, a, b),
{
    match op {
        ArithOp::Add => Some(a.wrapping_add(b)),
        ArithOp::Sub => Some(a.wrapping_sub(b)),
        ArithOp::Mul => Some(a.wrapping_mul(b)),
        ArithOp::Div => a.checked_div(b),
        ArithOp::Rem => a.checked_rem(b),
    }
}

/// Pops two cells, top first; both pops happen whatever the first gives.
fn pop_two(context: &mut Interpreter) -> (r: (Option<Cell>, Option<Cell>))
    requires
        old(context).wf(),
    ensures
        final(context)@ == with_stack(old(context)@, two_popped(old(context)@.stack)),
        old(context)@.stack.size() >= 2 <==> r.0 is Some && r.1 is Some,
        old(context)@.stack.size() >= 2 ==> r.0 == Some(top(old(context)@.stack)) && r.1 == Some(
            second(old(context)@.stack),
        ),
        final(context).wf(),
{
    let b = context.stack.pop();
    let a = context.stack.pop();
    proof {
        let s = old(context)@.stack;
        if s.size() >= 2 {
            assert(s.drop_top().cells.last() == second(s));
        }
    }
    (b, a)
}

/// The binary arithmetic primitive for `op`.
pub fn two_num_op_template(context: &mut Interpreter, op: ArithOp) -> (r: Result<Step, KrkErr>)
    requires
        old(context).wf(),
    ensures
        arith_post(op, old(context)@, final(context)@, r),
        final(context).wf(),
{
    let (b_cell, a_cell) = pop_two(context);
    if let (Some(b_cell), Some(a_cell)) = (b_cell, a_cell) {
        match (a_cell, b_cell) {
            (Cell::Integer(a), Cell::Integer(b)) => {
                match int_arith_exec(op, a, b) {
                    Some(v) => {
                        context.stack.push(Cell::Integer(v));
                        Ok(Step::Ran)
                    },
                    None => Err(new_division_error()),
                }
            },
            (Cell::Float(a), Cell::Float(b)) => {
                let request = FloatRequest::Arith(op, a, b);
                context.pending = Some(request);
                Ok(Step::Float(request))
            },
            _ => Err(KrkErr::WrongType),
        }
    } else {
        Err(KrkErr::StackUnderun)
    }
}

/// `+`
pub fn plus(context: &mut Interpreter) -> (r: Result<Step, KrkErr>)
    requires
        old(context).wf(),
    ensures
        arith_post(ArithOp::Add, old(context)@, final(context)@, r),
        final(context).wf(),
{
    two_num_op_template(context, ArithOp::Add)
}

/// `-`
pub fn minus(context: &mut Interpreter) -> (r: Result<Step, KrkErr>)
    requires
        old(context).wf(),
    ensures
        arith_post(ArithOp::Sub, old(context)@, final(context)@, r),
        final(context).wf(),
{
    two_num_op_template(context, ArithOp::Sub)
}

/// `*`
pub fn star(context: &mut Interpreter) -> (r: Result<Step, KrkErr>)
    requires
        old(context).wf(),
    ensures
        arith_post(ArithOp::Mul, old(context)@, final(context)@, r),
        final(context).wf(),
{
    two_num_op_template(context, ArithOp::Mul)
}

/// `/`
pub fn slash(context: &mut Interpreter) -> (r: Result<Step, KrkErr>)
    requires
        old(context).wf(),
    ensures
        arith_post(ArithOp::Div, old(context)@, final(context)@, r),
        final(context).wf(),
{
    two_num_op_template(context, ArithOp::Div)
}

/// `%`
pub fn percent(context: &mut Interpreter) -> (r: Result<Step, KrkErr>)
    requires
        old(context).wf(),
    ensures
        arith_post(ArithOp::Rem, old(context)@, final(context)@, r),
        final(context).wf(),
{
    two_num_op_template(context, ArithOp::Rem)
}

/// The comparison primitive for `op`.
pub fn two_num_comp_template(context: &mut Interpreter, op: CompareOp) -> (r: Result<Step, KrkErr>)
    requires
        old(context).wf(),
    ensures
        compare_post(op, old(context)@, final(context)@, r),
        final(context).wf(),
{
    let (b_cell, a_cell) = pop_two(context);
    if let (Some(b_cell), Some(a_cell)) = (b_cell, a_cell) {
        match (a_cell, b_cell) {
            (Cell::Integer(a), Cell::Integer(b)) => {
                let holds = match op {
                    CompareOp::Less => a < b,
                    CompareOp::Equal => a == b,
                };
                context.stack.push(Cell::Integer(if holds { -1 } else { 0 }));
                Ok(Step::Ran)
            },
            (Cell::Float(a), Cell::Float(b)) => {
                let request = FloatRequest::Compare(op, a, b);
                context.pending = Some(request);
                Ok(Step::Float(request))
            },
            _ => Err(KrkErr::WrongType),
        }
    } else {
        Err(KrkErr::StackUnderun)
    }
}

/// `<`
pub fn smaller(context: &mut Interpreter) -> (r: Result<Step, KrkErr>)
    requires
        old(context).wf(),
    ensures
        compare_post(CompareOp::Less, old(context)@, final(context)@, r),
        final(context).wf(),
{
    two_num_comp_template(context, CompareOp::Less)
}

/// `=`
pub fn equal(context: &mut Interpreter) -> (r: Result<Step, KrkErr>)
    requires
        old(context).wf(),
    ensures
        compare_post(CompareOp::Equal, old(context)@, final(context)@, r),
        final(context).wf(),
{
    two_num_comp_template(context, CompareOp::Equal)
}

/// The bitwise primitive for `op`.
pub fn two_int_op_template(context: &mut Interpreter, op: BitOp) -> (r: Result<Step, KrkErr>)
    requires
        old(context).wf(),
    ensures
        bit_post(op, old(context)@, final(context)@, r),
        final(context).wf(),
{
    let (b_cell, a_cell) = pop_two(context);
    if let (Some(b_cell), Some(a_cell)) = (b_cell, a_cell) {
        match (a_cell, b_cell) {
            (Cell::Integer(a), Cell::Integer(b)) => {
                let v: KrkInt = match op {
                    BitOp::And => a & b,
                    BitOp::Or => a | b,
                };
                context.stack.push(Cell::Integer(v));
                Ok(Step::Ran)
            },
            _ => Err(KrkErr::WrongType),
        }
    } else {
        Err(KrkErr::StackUnderun)
    }
}

/// `and`
pub fn and(context: &mut Interpreter) -> (r: Result<Step, KrkErr>)
    requires
        old(context).wf(),
    ensures
        bit_post(BitOp::And, old(context)@, final(context)@, r),
        final(context).wf(),
{
    two_int_op_template(context, BitOp::And)
}

/// `or`
pub fn or(context: &mut Interpreter) -> (r: Result<Step, KrkErr>)
    requires
        old(context).wf(),
    ensures
        bit_post(BitOp::Or, old(context)@, final(context)@, r),
        final(context).wf(),
{
    two_int_op_template(context, BitOp::Or)
}

/// `not`
pub fn not(context: &mut Interpreter) -> (r: Result<Step, KrkErr>)
    requires
        old(context).wf(),
    ensures
        not_post(old(context)@, final(context)@, r),
        final(context).wf(),
{
    if let Some(a_cell) = context.stack.pop() {
        if let Cell::Integer(a) = a_cell {
            context.stack.push(Cell::Integer(!a));
            Ok(Step::Ran)
        } else {
            Err(KrkErr::WrongType)
        }
    } else {
        Err(KrkErr::StackUnderun)
    }
}

} // verus!
