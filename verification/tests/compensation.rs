use golem_rust::transaction::compfn::{call_compensation_function, compensate_sum};

#[test]
fn compensation_without_arguments() {
    let r: Result<(), (String,)> = call_compensation_function(|| -> Result<(), String> { Ok(()) }, (), ());
    assert!(r.is_ok());
    let r: Result<(), (String,)> =
        call_compensation_function(|| -> Result<(), String> { Err("failed".to_string()) }, 7u8, "ignored");
    assert_eq!(r, Err(("failed".to_string(),)));
}

#[test]
fn compensation_with_result() {
    let r: Result<(), (u32,)> =
        call_compensation_function(|out: u32| -> Result<(), u32> { Err(out + 1) }, (41u32,), ());
    assert_eq!(r, Err((42,)));
}

#[test]
fn compensation_with_result_and_inputs() {
    let r: Result<(), (String,)> = call_compensation_function(
        |out: u32, a: u32, b: String| -> Result<(), String> {
            if out == a { Ok(()) } else { Err(format!("{out} {a} {b}")) }
        },
        (1u32,),
        (2u32, "x".to_string()),
    );
    assert_eq!(r, Err(("1 2 x".to_string(),)));
    let ok: Result<(), (String,)> =
        call_compensation_function(|out: u8, a: u8| -> Result<(), String> { if out == a { Ok(()) } else { Err(String::new()) } }, (3u8,), (3u8,));
    assert!(ok.is_ok());
}

#[test]
fn compensation_with_three_inputs() {
    let r: Result<(), (String,)> = call_compensation_function(
        |out: u8, a: u8, b: u8, c: String| -> Result<(), String> { Err(format!("{out}{a}{b}{c}")) },
        (1u8,),
        (2u8, 3u8, "4".to_string()),
    );
    assert_eq!(r, Err(("1234".to_string(),)));
}

#[test]
fn compensation_with_four_and_five_inputs() {
    let r: Result<(), (u32,)> = call_compensation_function(
        |out: u32, a: u32, b: u32, c: u32, d: u32| -> Result<(), u32> { Err(out * 10000 + a * 1000 + b * 100 + c * 10 + d) },
        (1u32,),
        (2u32, 3u32, 4u32, 5u32),
    );
    assert_eq!(r, Err((12345,)));
    let r: Result<(), (u32,)> = call_compensation_function(
        |out: u32, a: u32, b: u32, c: u32, d: u32, e: u32| -> Result<(), u32> {
            if out + a + b + c + d + e == 21 { Ok(()) } else { Err(0) }
        },
        (1u32,),
        (2u32, 3u32, 4u32, 5u32, 6u32),
    );
    assert!(r.is_ok());
}

#[test]
fn compensation_with_six_inputs() {
    let r: Result<(), (String,)> = call_compensation_function(
        |out: char, a: char, b: char, c: char, d: char, e: char, g: char| -> Result<(), String> {
            Err([out, a, b, c, d, e, g].iter().collect())
        },
        ('a',),
        ('b', 'c', 'd', 'e', 'f', 'g'),
    );
    assert_eq!(r, Err(("abcdefg".to_string(),)));
}

#[test]
fn sum_compensation_checks_result_against_inputs() {
    assert_eq!(compensate_sum(5, 2, 3), Ok(()));
    assert_eq!(compensate_sum(6, 2, 3), Err((6,)));
    assert_eq!(compensate_sum(u32::MAX, u32::MAX, 1), Err((u32::MAX,)));
    assert_eq!(compensate_sum(u32::MAX, u32::MAX, 0), Ok(()));
}
