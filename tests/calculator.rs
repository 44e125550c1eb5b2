use shell::calculator::CalcError::{DivideByZero, StackTooSmall};
use shell::calculator::Operation::{Add, Div, Mul, Sub};
use shell::calculator::{number_from_digit, Calculator, Operation};

/// When any operator is called on a calculator with the empty stack, it
/// should be a `StackTooSmall` error.
#[test]
fn calc_op_on_empty() {
    for op in &[Add, Mul, Div, Sub] {
        let mut c = Calculator::new();
        let result = c.press_operator(op);
        assert_eq!(c.stack, vec![],
                   "Operator {:?} changed the empty stack to the stack {:?} when it should have left it unchanged",
                   op, c.stack);
        assert_eq!(result, Err(StackTooSmall),
                   "Operator {:?} did not return 'Err(StackTooSmall)' when called on empty stack", op);
    }
}

/// When any operator is called on a calculator with a stack of size one, it
/// should be a `StackTooSmall` error.
#[test]
fn calc_op_on_one() {
    for op in &[Add, Mul, Div, Sub] {
        let mut c = Calculator::new();
        c.press_number(1);
        let result = c.press_operator(op);
        assert_eq!(result, Err(StackTooSmall),
                   "Operator {:?} did not return 'Err(StackTooSmall)' when called on stack {:?}",
                   op, c.stack);
        assert_eq!(c.stack, vec![1],
                   "Operator {:?} changed the stack [1] to the stack {:?} when it should have left it unchanged",
                   c.stack, op);
    }
}

/// When any operator is called on a stack of size 2, it should be a
/// success, and should reduce the size of the stack by one.
#[test]
fn calc_successful_op() {
    for op in &[Add, Mul, Div, Sub] {
        let mut c = Calculator::new();
        c.press_number(1);
        c.press_number(2);
        let result = c.press_operator(op);
        assert!(result.is_ok(),
                "Operation {:?} returned {:?} on the stack {:?} when it should have been successful",
                op, result, c.stack);
        assert_eq!(c.stack, vec![result.unwrap()],
                   "Stack {:?} is not one element after operation starting from two elements", c.stack);
    }
}

/// '2 1 -' should give the result 1, not -1.
#[test]
fn calc_sub() {
    let mut c = Calculator::new();
    c.press_number(2);
    c.press_number(1);
    let result = c.press_operator(&Sub);
    assert_eq!(result, Ok(1),
               "Subtraction might be backwards (what should '2 1 -' return?)");
}

/// '4 2 /' should give the result 2, not 0.
#[test]
fn calc_div() {
    let mut c = Calculator::new();
    c.press_number(4);
    c.press_number(2);
    let result = c.press_operator(&Div);
    assert_eq!(result, Ok(2),
               "Division might be backwards (what should '4 2 /' return?)");
}

/// Division by zero should be properly caught and returned as
/// `Err(DivideByZero)`.
#[test]
fn calc_div_zero() {
    let mut c = Calculator::new();
    c.press_number(2);
    c.press_number(0);
    let result = c.press_operator(&Div);
    assert_eq!(c.stack, vec![2,0],
               "Division by zero changes the stack when it should leave it alone");
    assert_eq!(result, Err(DivideByZero),
               "Division by zero returns {:?} when it should return Err(DivideByZero)", result);
}

#[test]
fn calc_chain_and_clear() {
    let mut c = Calculator::new();
    c.press_number(1);
    c.press_number(2);
    c.press_operator(&Add).unwrap();
    c.press_number(3);
    assert_eq!(c.press_operator(&Mul), Ok(9));
    c.press_number(-7);
    c.press_number(2);
    assert_eq!(c.press_operator(&Div), Ok(-3));
    assert_eq!(c.stack, vec![9, -3]);
    c.clear();
    assert!(c.stack.is_empty());
}

#[test]
fn calc_keys() {
    assert_eq!(Operation::from_char('+'), Some(Add));
    assert_eq!(Operation::from_char('-'), Some(Sub));
    assert_eq!(Operation::from_char('*'), Some(Mul));
    assert_eq!(Operation::from_char('/'), Some(Div));
    assert_eq!(Operation::from_char('x'), None);
    assert_eq!(number_from_digit('0'), Some(0));
    assert_eq!(number_from_digit('1'), Some(1));
    assert_eq!(number_from_digit('9'), Some(9));
    assert_eq!(number_from_digit('a'), None);
    assert_eq!(number_from_digit('/'), None);
}
