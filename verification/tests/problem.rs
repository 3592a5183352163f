use simari::text::{read_i32, render_i32};
use simari::{
    check_input_num, SAField, SAGeneratorOptions, SAOperation, SAProblem, SAProblemInputBuffer,
    SAValidity,
};

fn problem(number: i32, a: i32, b: i32, operation: SAOperation) -> SAProblem {
    SAProblem { number, constant1: a, constant2: b, operation, result: operation.apply(a, b).unwrap() }
}

#[test]
fn new_problem_is_blank() {
    let p = SAProblem::new();
    assert_eq!(
        p,
        SAProblem { number: 0, constant1: 0, constant2: 0, operation: SAOperation::Addition, result: 0 }
    );
    assert_eq!(SAProblem::default(), p);
}

#[test]
fn student_line_of_addition() {
    let p = problem(1, 5, 37, SAOperation::Addition);
    assert_eq!(p.student_string(), "Problem A1: 5 + 37 = \n");
}

#[test]
fn instructor_line_of_addition() {
    let p = problem(1, 5, 37, SAOperation::Addition);
    assert_eq!(p.instructor_string(), "Problem A1: 5 + 37 = 42\n");
}

#[test]
fn lines_of_each_operation() {
    let s = problem(12, 250, 3, SAOperation::Subtraction);
    assert_eq!(s.student_string(), "Problem S12: 250 - 3 = \n");
    assert_eq!(s.instructor_string(), "Problem S12: 250 - 3 = 247\n");
    let m = problem(3, 12, 11, SAOperation::Multiplication);
    assert_eq!(m.student_string(), "Problem M3: 12 * 11 = \n");
    assert_eq!(m.instructor_string(), "Problem M3: 12 * 11 = 132\n");
    let d = problem(100, 19, 4, SAOperation::Division);
    assert_eq!(d.student_string(), "Problem D100: 19 / 4 = \n");
    assert_eq!(d.instructor_string(), "Problem D100: 19 / 4 = 4\n");
}

#[test]
fn lines_with_negative_numbers() {
    let p = problem(2, -7, -30, SAOperation::Subtraction);
    assert_eq!(p.student_string(), "Problem S2: -7 - -30 = \n");
    assert_eq!(p.instructor_string(), "Problem S2: -7 - -30 = 23\n");
    let q = problem(4, -8, 3, SAOperation::Multiplication);
    assert_eq!(q.instructor_string(), "Problem M4: -8 * 3 = -24\n");
}

#[test]
fn lines_agree_with_std_formatting() {
    let values = [0, 1, -1, 9, 10, 99, 100, 12345, -12345, i32::MAX, i32::MIN];
    for &a in &values {
        let p = SAProblem { number: a, constant1: a, constant2: a, operation: SAOperation::Addition, result: a };
        assert_eq!(p.student_string(), format!("Problem A{0}: {0} + {0} = \n", a));
        assert_eq!(p.instructor_string(), format!("Problem A{0}: {0} + {0} = {0}\n", a));
    }
}

#[test]
fn render_i32_writes_decimal() {
    assert_eq!(render_i32(0), "0");
    assert_eq!(render_i32(7), "7");
    assert_eq!(render_i32(-7), "-7");
    assert_eq!(render_i32(1000), "1000");
    assert_eq!(render_i32(i32::MAX), "2147483647");
    assert_eq!(render_i32(i32::MIN), "-2147483648");
}

#[test]
fn read_i32_reads_decimal() {
    assert_eq!(read_i32("0"), Some(0));
    assert_eq!(read_i32("42"), Some(42));
    assert_eq!(read_i32("-42"), Some(-42));
    assert_eq!(read_i32("+42"), Some(42));
    assert_eq!(read_i32("0042"), Some(42));
    assert_eq!(read_i32("-0"), Some(0));
    assert_eq!(read_i32("2147483647"), Some(i32::MAX));
    assert_eq!(read_i32("-2147483648"), Some(i32::MIN));
}

#[test]
fn read_i32_rejects_what_is_no_number() {
    assert_eq!(read_i32(""), None);
    assert_eq!(read_i32("-"), None);
    assert_eq!(read_i32("+"), None);
    assert_eq!(read_i32("+-5"), None);
    assert_eq!(read_i32("--5"), None);
    assert_eq!(read_i32(" 5"), None);
    assert_eq!(read_i32("5 "), None);
    assert_eq!(read_i32("1_000"), None);
    assert_eq!(read_i32("12a"), None);
    assert_eq!(read_i32("1.5"), None);
    assert_eq!(read_i32("٣"), None);
    assert_eq!(read_i32("5é"), None);
    assert_eq!(read_i32("2147483648"), None);
    assert_eq!(read_i32("-2147483649"), None);
    assert_eq!(read_i32("99999999999999999999999999"), None);
    assert_eq!(read_i32("0000000000000000000000000000012"), Some(12));
}

#[test]
fn read_i32_agrees_with_std() {
    let inputs = [
        "", "0", "-0", "+0", "1", "-1", "+1", "10", "250", "-250", "007", "+", "-", "++1", "+-1",
        "1+", "1-1", " 1", "1 ", "a", "1a", "a1", "0x10", "1e3", "2147483647", "2147483648",
        "-2147483648", "-2147483649", "4294967296", "00000000002147483647", "١٢", "1\n",
    ];
    for text in inputs {
        assert_eq!(read_i32(text), text.parse::<i32>().ok(), "input {:?}", text);
    }
}

#[test]
fn read_renders_back() {
    for v in [0, 5, -5, 10, 99, 100, -100, 123456, i32::MAX, i32::MIN] {
        assert_eq!(read_i32(render_i32(v).as_str()), Some(v));
    }
}

#[test]
fn check_input_num_tells_numbers_from_other_text() {
    assert_eq!(check_input_num("10"), SAValidity::ValidNumber(10));
    assert_eq!(check_input_num("-3"), SAValidity::ValidNumber(-3));
    assert_eq!(check_input_num("ten"), SAValidity::InvalidNumber);
    assert_eq!(check_input_num(""), SAValidity::InvalidNumber);
    assert_eq!(check_input_num("3000000000"), SAValidity::InvalidNumber);
}

#[test]
fn new_buffer_is_empty() {
    let b = SAProblemInputBuffer::new();
    assert_eq!(b.num_of_problems, "");
    assert_eq!(b.floor, "");
    assert_eq!(b.ceiling, "");
    let d = SAProblemInputBuffer::default();
    assert_eq!(d.num_of_problems, "");
    assert_eq!(d.floor, "");
    assert_eq!(d.ceiling, "");
}

#[test]
fn commit_enters_valid_numbers() {
    let buffer = SAProblemInputBuffer {
        num_of_problems: "12".to_string(),
        floor: "-5".to_string(),
        ceiling: "400".to_string(),
    };
    let mut options = SAGeneratorOptions::from(10, 250, 2, false, SAOperation::Division);
    assert_eq!(buffer.commit(SAField::NumOfProblems, &mut options), SAValidity::ValidNumber(12));
    assert_eq!(options, SAGeneratorOptions::from(12, 250, 2, false, SAOperation::Division));
    assert_eq!(buffer.commit(SAField::Floor, &mut options), SAValidity::ValidNumber(-5));
    assert_eq!(options, SAGeneratorOptions::from(12, 250, -5, false, SAOperation::Division));
    assert_eq!(buffer.commit(SAField::Ceiling, &mut options), SAValidity::ValidNumber(400));
    assert_eq!(options, SAGeneratorOptions::from(12, 400, -5, false, SAOperation::Division));
}

#[test]
fn commit_keeps_prior_value_on_invalid_entry() {
    let buffer = SAProblemInputBuffer {
        num_of_problems: "many".to_string(),
        floor: "".to_string(),
        ceiling: "2 50".to_string(),
    };
    let before = SAGeneratorOptions::from(10, 250, 2, true, SAOperation::Addition);
    let mut options = before;
    assert_eq!(buffer.commit(SAField::NumOfProblems, &mut options), SAValidity::InvalidNumber);
    assert_eq!(buffer.commit(SAField::Floor, &mut options), SAValidity::InvalidNumber);
    assert_eq!(buffer.commit(SAField::Ceiling, &mut options), SAValidity::InvalidNumber);
    assert_eq!(options, before);
}

#[test]
fn student_line_reads_back_to_instructor_answer() {
    let cases = [
        problem(1, 5, 37, SAOperation::Addition),
        problem(2, 5, 37, SAOperation::Subtraction),
        problem(3, -5, 37, SAOperation::Multiplication),
        problem(4, 37, 5, SAOperation::Division),
        problem(5, -37, 5, SAOperation::Division),
        problem(6, -37, -5, SAOperation::Subtraction),
    ];
    for p in cases {
        let student = p.student_string();
        let words: Vec<&str> = student.split(' ').collect();
        let a = words[2].parse::<i32>().unwrap();
        let b = words[4].parse::<i32>().unwrap();
        let operation = match words[3] {
            "+" => SAOperation::Addition,
            "-" => SAOperation::Subtraction,
            "*" => SAOperation::Multiplication,
            "/" => SAOperation::Division,
            other => panic!("no symbol: {:?}", other),
        };
        assert_eq!((operation, a, b), (p.operation, p.constant1, p.constant2));
        let instructor = p.instructor_string();
        let answer_words: Vec<&str> = instructor.split(' ').collect();
        let answer = answer_words[6].trim_end_matches('\n').parse::<i32>().unwrap();
        assert_eq!(operation.apply(a, b), Some(answer));
        assert_eq!(answer, p.result);
    }
}
