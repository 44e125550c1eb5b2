//! A reverse-Polish stack calculator: numbers are pushed on a stack, and each
//! operator replaces the two topmost numbers by its result.
use vstd::prelude::*;

verus! {

/// The four arithmetic operations.
#[derive(Debug, Clone, Copy, PartialEq, Eq, Structural)]
pub enum Operation {
    Add,
    Sub,
    Mul,
    Div,
}

/// The calculator's state: the numbers entered and not yet consumed.
#[derive(Debug, Clone)]
pub struct Calculator {
    pub stack: Vec<i64>,
}

/// Why an operation was refused; the stack is then left unchanged.
#[derive(Debug, Clone, Copy, PartialEq, Eq, Structural)]
pub enum CalcError {
    /// An operation needs two numbers on the stack.
    StackTooSmall,
    /// The divisor was zero.
    DivideByZero,
}

/// `y op x`, where `x` is the topmost number and `y` the one below it, or `None`
/// where the result is not an `i64` (or the divisor is zero).
pub open spec fn operate(op: Operation, y: i64, x: i64) -> Option<i64> {
    match op {
        Operation::Add => y.checked_add(x),
        Operation::Sub => y.checked_sub(x),
        Operation::Mul => y.checked_mul(x),
        Operation::Div => y.checked_div(x),
    }
}

/// An operator can be pressed on `stack` without overflowing `i64`.
pub open spec fn operator_fits(stack: Seq<i64>, op: Operation) -> bool {
    stack.len() >= 2 && !(op == Operation::Div && stack.last() == 0) ==> operate(
        op,
        stack[stack.len() - 2],
        stack.last(),
    ) is Some
}

impl Calculator {
    /// A calculator with an empty stack.
    pub fn new() -> (r: Calculator)
        ensures
            r.stack@ == Seq::<i64>::empty(),
    {
        Calculator { stack: Vec::new() }
    }

    /// Empties the stack.
    pub fn clear(&mut self)
        ensures
            final(self).stack@ == Seq::<i64>::empty(),
    {
        self.stack.clear();
    }

    /// Pushes a number onto the stack.
    pub fn press_number(&mut self, number: i64)
        ensures
            final(self).stack@ == old(self).stack@.push(number),
    {
        self.stack.push(number);
    }

    /// Applies `operation` to the two topmost numbers, `y op x` with `x` on top, and
    /// replaces them by the result, which is also returned. With fewer than two
    /// numbers, or a zero divisor, the stack is left unchanged and an error returned.
    pub fn press_operator(&mut self, operation: &Operation) -> (r: Result<i64, CalcError>)
        requires
            operator_fits(old(self).stack@, *operation),
        ensures
            ({
                let s = old(self).stack@;
                if s.len() < 2 {
                    r == Err::<i64, CalcError>(CalcError::StackTooSmall) && final(self).stack@ == s
                } else if *operation == Operation::Div && s.last() == 0 {
                    r == Err::<i64, CalcError>(CalcError::DivideByZero) && final(self).stack@ == s
                } else {
                    let v = operate(*operation, s[s.len() - 2], s.last())->Some_0;
                    r == Ok::<i64, CalcError>(v) && final(self).stack@ == s.drop_last().drop_last().push(v)
                }
            }),
    {
        let ghost s = self.stack@;
        if let Some(x) = self.stack.pop() {
            if let Some(y) = self.stack.pop() {
                proof {
                    assert(s[s.len() - 2] == y);
                }
                let result = match operation {
                    Operation::Add => y.checked_add(x),
                    Operation::Mul => y.checked_mul(x),
                    Operation::Sub => y.checked_sub(x),
                    Operation::Div => {
                        if x != 0 {
                            y.checked_div(x)
                        } else {
                            self.stack.push(y);
                            self.stack.push(x);
                            proof {
                                assert(self.stack@ =~= s);
                            }
                            return Err(CalcError::DivideByZero);
                        }
                    },
                };
                let v = result.unwrap();
                self.stack.push(v);
                Ok(v)
            } else {
                self.stack.push(x);
                proof {
                    assert(self.stack@ =~= s);
                }
                Err(CalcError::StackTooSmall)
            }
        } else {
            Err(CalcError::StackTooSmall)
        }
    }
}

impl Operation {
    /// The operation a key stands for, if any.
    pub fn from_char(c: char) -> (r: Option<Operation>)
        ensures
            r == (if c == '+' {
                Some(Operation::Add)
            } else if c == '-' {
                Some(Operation::Sub)
            } else if c == '*' {
                Some(Operation::Mul)
            } else if c == '/' {
                Some(Operation::Div)
            } else {
                None::<Operation>
            }),
    {
        match c {
            '+' => Some(Operation::Add),
            '-' => Some(Operation::Sub),
            '*' => Some(Operation::Mul),
            '/' => Some(Operation::Div),
            _ => None,
        }
    }
}

/// The value of a decimal digit, e.g. `number_from_digit('1') == Some(1)`.
pub fn number_from_digit(c: char) -> (r: Option<i64>)
    ensures
        r == (if '0' <= c <= '9' {
            Some((c as u32 - '0' as u32) as i64)
        } else {
            None::<i64>
        }),
{
    if '0' <= c && c <= '9' {
        Some((c as u32 - '0' as u32) as i64)
    } else {
        None
    }
}

} // verus!
