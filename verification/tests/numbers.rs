use serene::double::{double_of_integer, doubles_equal, integer_equals_double};
use serene::{Expr, Expression, Number};

fn float(value: f64) -> Number {
    Number::Float(value.to_bits())
}

fn sample_integers() -> Vec<i64> {
    let mut out = vec![
        0,
        1,
        -1,
        2,
        -2,
        3,
        7,
        -7,
        1000,
        -1000,
        i64::MAX,
        i64::MAX - 1,
        i64::MAX - 255,
        i64::MAX - 256,
        i64::MAX - 511,
        i64::MAX - 512,
        i64::MAX - 513,
        i64::MAX - 1024,
        i64::MIN,
        i64::MIN + 1,
        i64::MIN + 511,
        i64::MIN + 512,
        i64::MIN + 513,
        i64::MIN + 1024,
        i64::MIN + 1025,
    ];
    let bases: [i64; 6] = [1 << 52, 1 << 53, 1 << 54, 1 << 55, 1 << 60, 1 << 62];
    for base in bases {
        let mut delta: i64 = -9;
        while delta <= 9 {
            out.push(base + delta);
            out.push(-(base + delta));
            delta += 1;
        }
        out.push(base + 127);
        out.push(base + 128);
        out.push(base + 129);
        out.push(base + 255);
        out.push(base + 256);
        out.push(base + 257);
        out.push(base + 383);
        out.push(base + 384);
        out.push(base + 385);
        out.push(base - 129);
        out.push(base - 128);
        out.push(base - 127);
    }
    out
}

fn sample_floats() -> Vec<f64> {
    let mut out = vec![
        0.0,
        -0.0,
        1.0,
        -1.0,
        2.0,
        2.5,
        3.5,
        0.5,
        -0.5,
        1e-310,
        5e-324,
        -5e-324,
        f64::MIN_POSITIVE,
        f64::MAX,
        f64::MIN,
        f64::INFINITY,
        f64::NEG_INFINITY,
        f64::NAN,
        -f64::NAN,
        f64::EPSILON,
        9007199254740992.0,
        -9007199254740992.0,
        9007199254740994.0,
        9223372036854775808.0,
        -9223372036854775808.0,
        18446744073709551616.0,
        9223372036854774784.0,
        4503599627370496.5,
        1e300,
    ];
    for x in sample_integers() {
        let near = x as f64;
        out.push(near);
        out.push(f64::from_bits(near.to_bits() + 1));
        out.push(f64::from_bits(near.to_bits().wrapping_sub(1)));
        out.push(-near);
    }
    out
}

#[test]
fn integer_equality_follows_the_integers() {
    let values = sample_integers();
    for &x in &values {
        for &y in &values {
            assert_eq!(Number::Integer(x) == Number::Integer(y), x == y);
        }
    }
    assert!(Number::Integer(42) == Number::Integer(42));
    assert!(Number::Integer(42) != Number::Integer(-42));
}

#[test]
fn float_equality_is_native() {
    let values = sample_floats();
    for &a in &values {
        for &b in &values {
            assert_eq!(float(a) == float(b), a == b, "{:?} against {:?}", a, b);
            assert_eq!(doubles_equal(a.to_bits(), b.to_bits()), a == b);
        }
    }
}

#[test]
fn nan_is_not_equal_to_itself() {
    let nan = float(f64::NAN);
    assert!(nan != nan);
    assert!(Number::Float(0x7ff8_0000_0000_0001) != Number::Float(0x7ff8_0000_0000_0001));
    assert!(Number::Float(0xfff0_0000_0000_0001) != Number::Float(0xfff0_0000_0000_0001));
}

#[test]
fn the_two_zeros_are_equal() {
    assert!(float(0.0) == float(-0.0));
    assert!(float(-0.0) == float(0.0));
    assert!(Number::Integer(0) == float(-0.0));
    assert!(float(-0.0) == Number::Integer(0));
}

#[test]
fn infinities_equal_only_themselves() {
    assert!(float(f64::INFINITY) == float(f64::INFINITY));
    assert!(float(f64::INFINITY) != float(f64::NEG_INFINITY));
    assert!(Number::Integer(i64::MAX) != float(f64::INFINITY));
    assert!(Number::Integer(i64::MIN) != float(f64::NEG_INFINITY));
}

#[test]
fn integer_equals_float_by_conversion() {
    let integers = sample_integers();
    let floats = sample_floats();
    for &x in &integers {
        for &y in &floats {
            let native = (x as f64) == y;
            assert_eq!(Number::Integer(x) == float(y), native, "{} against {:?}", x, y);
            assert_eq!(integer_equals_double(x, y.to_bits()), native);
        }
    }
}

#[test]
fn conversion_gives_the_bits_of_the_hardware() {
    for x in sample_integers() {
        assert_eq!(double_of_integer(x), (x as f64).to_bits(), "{}", x);
    }
    assert_eq!(double_of_integer(0), 0);
    assert_eq!(double_of_integer(1), 0x3ff0_0000_0000_0000);
    assert_eq!(double_of_integer(-2), 0xc000_0000_0000_0000);
    assert_eq!(double_of_integer(i64::MAX), 0x43e0_0000_0000_0000);
    assert_eq!(double_of_integer(i64::MIN), 0xc3e0_0000_0000_0000);
    let mut state: u64 = 0xd0b1e;
    for _ in 0..100000 {
        let shift = next(&mut state) % 64;
        let x = (next(&mut state) as i64) >> shift;
        assert_eq!(double_of_integer(x), (x as f64).to_bits(), "{}", x);
    }
}

#[test]
fn conversion_rounds_ties_to_even() {
    // 2^53 + 1 lies half way between two doubles; the even one is 2^53.
    assert!(Number::Integer(9007199254740993) == float(9007199254740992.0));
    assert!(Number::Integer(9007199254740993) != float(9007199254740994.0));
    // 2^53 + 3 lies half way too; the even one is 2^53 + 4.
    assert!(Number::Integer(9007199254740995) == float(9007199254740996.0));
    assert!(Number::Integer(9007199254740995) != float(9007199254740994.0));
    // The largest integer rounds up to 2^63.
    assert!(Number::Integer(i64::MAX) == float(9223372036854775808.0));
    assert!(Number::Integer(i64::MIN) == float(-9223372036854775808.0));
}

#[test]
fn cross_tag_equality_is_symmetric() {
    let integers = sample_integers();
    let floats = sample_floats();
    for &x in &integers {
        for &y in &floats {
            assert_eq!(Number::Integer(x) == float(y), float(y) == Number::Integer(x));
        }
    }
    assert!(Number::Integer(2) == float(2.0));
    assert!(float(2.0) == Number::Integer(2));
    assert!(Number::Integer(2) != float(2.5));
    assert!(float(2.5) != Number::Integer(2));
}

#[test]
fn integer_text_is_that_of_the_bare_integer() {
    for n in sample_integers() {
        assert_eq!(Number::Integer(n).to_text(), Some(n.to_string()));
        assert_eq!(Number::Integer(n).to_text(), Some(format!("{}", n)));
    }
    assert_eq!(Number::Integer(0).to_text(), Some(String::from("0")));
    assert_eq!(Number::Integer(-12).to_text(), Some(String::from("-12")));
    assert_eq!(
        Number::Integer(i64::MIN).to_text(),
        Some(String::from("-9223372036854775808"))
    );
}

#[test]
fn float_has_no_text_in_the_library() {
    assert_eq!(float(3.5).to_text(), None);
    assert_eq!(float(f64::NAN).to_text(), None);
}

#[test]
fn number_evaluates_to_itself() {
    let runtime = ();
    let scope = ();
    for n in [Number::Integer(5), Number::Integer(-5), float(3.5), float(-0.0)] {
        match n.eval(&runtime, &scope) {
            Ok(Expr::Num(value)) => match (n, value) {
                (Number::Integer(a), Number::Integer(b)) => assert_eq!(a, b),
                (Number::Float(a), Number::Float(b)) => assert_eq!(a, b),
                _ => panic!("the tag changed"),
            },
            Err(e) => panic!("evaluation failed: {}", e.message),
        }
    }
}

#[test]
fn nan_evaluates_to_the_same_bits() {
    let nan = Number::Float(0x7ff8_0000_0000_0123);
    match nan.eval(&(), &()) {
        Ok(Expr::Num(Number::Float(bits))) => assert_eq!(bits, 0x7ff8_0000_0000_0123),
        _ => panic!("not the same float"),
    }
}

#[test]
fn evaluating_twice_is_stable() {
    let n = Number::Integer(17);
    let once = n.eval(&(), &()).unwrap();
    let twice = once.eval(&(), &()).unwrap();
    match (once, twice) {
        (Expr::Num(a), Expr::Num(b)) => {
            assert!(a == b);
            assert!(a == n);
        }
    }
}

/// A small generator of well-spread 64-bit values.
fn next(state: &mut u64) -> u64 {
    *state = state
        .wrapping_mul(6364136223846793005)
        .wrapping_add(1442695040888963407);
    let mut z = *state;
    z ^= z >> 33;
    z = z.wrapping_mul(0xff51afd7ed558ccd);
    z ^= z >> 33;
    z
}

#[test]
fn many_pairs_agree_with_the_hardware() {
    let mut state: u64 = 0x5eed;
    let mut equal_pairs = 0;
    for _ in 0..40000 {
        let shift = next(&mut state) % 64;
        let x = (next(&mut state) as i64) >> shift;
        let near = x as f64;
        let step = next(&mut state) % 3;
        let candidates = [
            near,
            f64::from_bits(near.to_bits().wrapping_add(step)),
            f64::from_bits(near.to_bits().wrapping_sub(step)),
            -near,
            f64::from_bits(next(&mut state)),
        ];
        for y in candidates {
            let native = (x as f64) == y;
            if native {
                equal_pairs += 1;
            }
            assert_eq!(integer_equals_double(x, y.to_bits()), native, "{} against {:?}", x, y);
            assert_eq!(doubles_equal(near.to_bits(), y.to_bits()), near == y);
        }
        let a = f64::from_bits(next(&mut state));
        let b = f64::from_bits(next(&mut state));
        assert_eq!(doubles_equal(a.to_bits(), b.to_bits()), a == b);
        assert_eq!(doubles_equal(a.to_bits(), a.to_bits()), a == a);
    }
    assert!(equal_pairs > 40000);
}
