use cicada::calculator::{calculate, eval_int, run_calculator, CalcTree};

fn eval_float(t: &CalcTree) -> f64 {
    match t {
        CalcTree::Num(s) => s.parse::<f64>().unwrap(),
        CalcTree::Op(c, a, b) => {
            let (x, y) = (eval_float(a), eval_float(b));
            match c {
                '+' => x + y,
                '-' => x - y,
                '*' => x * y,
                '/' => x / y,
                _ => x.powf(y),
            }
        }
    }
}

#[test]
fn test_run_calculator() {
    let tree = calculate("(1 + 2 * 3.0 - 1.5) / 0.2").unwrap();
    assert_eq!(format!("{}", eval_float(&tree)), "27.5".to_string());
    assert_eq!(
        run_calculator("(5 + 2 * 3 - 4) / 3"),
        Ok("2".to_string())
    );
    assert_eq!(
        run_calculator("((2 ^ 35) + (3^7) - 9740555) / 10000000"),
        Ok("3435".to_string())
    );
}

#[test]
fn calculator_precedence_and_associativity() {
    assert_eq!(run_calculator("1 + 2 * 3"), Ok("7".to_string()));
    assert_eq!(run_calculator("10 - 3 - 2"), Ok("5".to_string()));
    assert_eq!(run_calculator("2 ^ 3 ^ 2"), Ok("512".to_string()));
    assert_eq!(run_calculator("100 / 10 / 5"), Ok("2".to_string()));
    assert_eq!(run_calculator("\t( 2+3 )*4 "), Ok("20".to_string()));
    assert_eq!(run_calculator("1 - -2"), Ok("3".to_string()));
    assert_eq!(run_calculator("-7 / 2"), Ok("-3".to_string()));
}

#[test]
fn calculator_division_by_zero_and_wrapping() {
    assert_eq!(run_calculator("5 / 0"), Ok(i64::MAX.to_string()));
    assert_eq!(run_calculator("-5 / 0"), Ok(i64::MIN.to_string()));
    assert_eq!(run_calculator("0 / 0"), Ok("0".to_string()));
    assert_eq!(run_calculator("9223372036854775807 + 1"), Ok(i64::MIN.to_string()));
    assert_eq!(run_calculator("-9223372036854775808 / -1"), Ok(i64::MIN.to_string()));
}

#[test]
fn calculator_syntax_errors() {
    assert_eq!(run_calculator(""), Err("syntax error"));
    assert_eq!(run_calculator("1 +"), Err("syntax error"));
    assert_eq!(run_calculator("(1 + 2"), Err("syntax error"));
    assert_eq!(run_calculator("1 2"), Err("syntax error"));
    assert_eq!(run_calculator("ls -l"), Err("syntax error"));
}

#[test]
fn calculator_failing_evaluations() {
    let overflow = calculate("2 ^ 64").unwrap();
    assert_eq!(eval_int(&overflow), None);
    let exponent = calculate("2e3 + 1").unwrap();
    assert_eq!(eval_int(&exponent), None);
    let small = calculate("(-1) ^ 3 + 0 ^ 0").unwrap();
    assert_eq!(eval_int(&small), Some(0));
}
