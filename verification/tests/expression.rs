use std::sync::Arc;

use math_battle::expression::Expression;
use math_battle::operation::Operation;

#[test]
fn expression_to_string_flat() {
    let expr = {
        let a = Arc::new(Expression::Leaf(1));
        let b = Arc::new(Expression::Leaf(2));
        let operation = Operation::Add;
        let result = a.result() + b.result();

        Expression::Branch {
            a,
            b,
            operation,
            result,
        }
    };

    assert_eq!("1 + 2".to_string(), expr.to_string());
}

#[test]
fn expression_to_string_nest() {
    let expr = {
        let a = {
            let a = Arc::new(Expression::Leaf(1));
            let b = Arc::new(Expression::Leaf(2));
            let operation = Operation::Add;
            let result = a.result() + b.result();

            Arc::new(Expression::Branch {
                a,
                b,
                operation,
                result,
            })
        };
        let b = Arc::new(Expression::Leaf(3));
        let operation = Operation::Mul;
        let result = a.result() + b.result();

        Expression::Branch {
            a,
            b,
            operation,
            result,
        }
    };

    assert_eq!("(1 + 2) * 3".to_string(), expr.to_string());
}

#[test]
fn expression_text_of_negative_and_nested_operands() {
    let a = Arc::new(Expression::Leaf(-12));
    let inner = Arc::new(Expression::Branch {
        a: Arc::new(Expression::Leaf(40)),
        b: Arc::new(Expression::Leaf(8)),
        operation: Operation::Div,
        result: 5,
    });
    let expr = Expression::Branch {
        a,
        b: inner,
        operation: Operation::Sub,
        result: -17,
    };
    assert_eq!(expr.to_string(), "-12 - (40 / 8)");
    assert_eq!(*expr.result(), -17);
}

#[test]
fn expression_leaf_text_of_extremes() {
    assert_eq!(Expression::Leaf(i32::MIN).to_string(), "-2147483648");
    assert_eq!(Expression::Leaf(0).to_string(), "0");
    assert_eq!(Expression::Leaf(1234567).to_string(), "1234567");
}

#[test]
fn operation_signs_and_order() {
    let all = Operation::all();
    assert_eq!(all, [Operation::Add, Operation::Sub, Operation::Mul, Operation::Div]);
    let signs: Vec<String> = all.iter().map(|op| op.to_string()).collect();
    assert_eq!(signs, vec!["+", "-", "*", "/"]);
}

#[test]
fn operation_from_array_picks_given_or_fails() {
    assert_eq!(
        Operation::from_array(&[]),
        Err(math_battle::operation::OperationError::NoOperations)
    );
    for _ in 0..20 {
        let op = Operation::from_array(&[Operation::Mul, Operation::Div]).unwrap();
        assert!(op == Operation::Mul || op == Operation::Div);
    }
    assert_eq!(Operation::from_array(&[Operation::Sub]), Ok(Operation::Sub));
}

#[test]
fn expression_laid_out_with_leaf_texts() {
    let inner = Expression::Branch {
        a: Arc::new(Expression::Leaf(1)),
        b: Arc::new(Expression::Leaf(-2)),
        operation: Operation::Sub,
        result: 3,
    };
    let expr = Expression::Branch {
        a: Arc::new(Expression::Leaf(7)),
        b: Arc::new(inner),
        operation: Operation::Div,
        result: 0,
    };
    assert_eq!(expr.leaves(), vec![7, 1, -2]);
    let texts = vec!["7.5".to_string(), "1".to_string(), "-2.25".to_string()];
    assert_eq!(expr.text_with_leaves(&texts), "7.5 / (1 - -2.25)");
    let own: Vec<String> = expr.leaves().iter().map(|x| x.to_string()).collect();
    assert_eq!(expr.text_with_leaves(&own), expr.to_string());
}
