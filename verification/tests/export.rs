use chrono::Datelike;
use simari::{
    sa_export, sa_export_tag, sa_export_with, SADate, SAOperation, SAProblem, SA_KEY_LENGTH,
};

fn problem(number: i32, a: i32, b: i32, operation: SAOperation) -> SAProblem {
    SAProblem { number, constant1: a, constant2: b, operation, result: operation.apply(a, b).unwrap() }
}

fn additions() -> Vec<SAProblem> {
    vec![
        problem(1, 5, 30, SAOperation::Addition),
        problem(2, 100, 200, SAOperation::Addition),
        problem(3, 60, 241, SAOperation::Addition),
    ]
}

#[test]
fn tag_is_the_shared_operation() {
    assert_eq!(sa_export_tag(&additions()), "Addition");
    assert_eq!(sa_export_tag(&vec![problem(1, 9, 3, SAOperation::Division)]), "Division");
    assert_eq!(
        sa_export_tag(&vec![
            problem(1, 9, 3, SAOperation::Subtraction),
            problem(2, 19, 3, SAOperation::Subtraction)
        ]),
        "Subtraction"
    );
}

#[test]
fn tag_is_mixed_when_operations_differ() {
    let mut data = additions();
    data.push(problem(4, 9, 3, SAOperation::Multiplication));
    assert_eq!(sa_export_tag(&data), "Mixed");
    let two = vec![problem(1, 9, 3, SAOperation::Division), problem(2, 9, 3, SAOperation::Addition)];
    assert_eq!(sa_export_tag(&two), "Mixed");
}

#[test]
fn export_names_both_files() {
    let date = SADate { year: 2024, month: 3, day: 7 };
    let export = sa_export_with(&additions(), &date, "aB3dE");
    assert_eq!(export.student_filename, "SimAri_Student_03-07-2024_Addition_aB3dE.txt");
    assert_eq!(export.instructor_filename, "SimAri_Instructor_03-07-2024_Addition_aB3dE.txt");
}

#[test]
fn export_names_mixed_worksheets() {
    let date = SADate { year: 1999, month: 12, day: 31 };
    let data = vec![problem(1, 9, 3, SAOperation::Division), problem(2, 9, 3, SAOperation::Addition)];
    let export = sa_export_with(&data, &date, "00000");
    assert_eq!(export.student_filename, "SimAri_Student_12-31-1999_Mixed_00000.txt");
    assert_eq!(export.instructor_filename, "SimAri_Instructor_12-31-1999_Mixed_00000.txt");
}

#[test]
fn export_holds_one_line_for_each_problem_in_order() {
    let date = SADate { year: 2024, month: 3, day: 7 };
    let export = sa_export_with(&additions(), &date, "aB3dE");
    assert_eq!(
        export.student_text,
        "Problem A1: 5 + 30 = \nProblem A2: 100 + 200 = \nProblem A3: 60 + 241 = \n"
    );
    assert_eq!(
        export.instructor_text,
        "Problem A1: 5 + 30 = 35\nProblem A2: 100 + 200 = 300\nProblem A3: 60 + 241 = 301\n"
    );
}

#[test]
fn export_text_is_the_lines_joined() {
    let data = vec![
        problem(1, 9, 3, SAOperation::Division),
        problem(2, -9, 3, SAOperation::Multiplication),
        problem(3, 9, -3, SAOperation::Subtraction),
    ];
    let date = SADate { year: 2024, month: 3, day: 7 };
    let export = sa_export_with(&data, &date, "key");
    let student: String = data.iter().map(|p| p.student_string()).collect();
    let instructor: String = data.iter().map(|p| p.instructor_string()).collect();
    assert_eq!(export.student_text, student);
    assert_eq!(export.instructor_text, instructor);
    assert_eq!(export.student_text.lines().count(), 3);
}

#[test]
fn stamp_is_month_day_year() {
    assert_eq!(SADate { year: 2024, month: 3, day: 7 }.stamp(), "03-07-2024");
    assert_eq!(SADate { year: 2026, month: 10, day: 28 }.stamp(), "10-28-2026");
    assert_eq!(SADate { year: 987, month: 1, day: 1 }.stamp(), "01-01-0987");
    assert_eq!(SADate { year: 0, month: 12, day: 31 }.stamp(), "12-31-0000");
    assert_eq!(SADate { year: 10000, month: 1, day: 2 }.stamp(), "01-02-+10000");
    assert_eq!(SADate { year: -44, month: 3, day: 15 }.stamp(), "03-15--0044");
    assert_eq!(SADate { year: -12345, month: 3, day: 15 }.stamp(), "03-15--12345");
}

#[test]
fn stamp_agrees_with_chrono() {
    let dates = [
        (2024, 3, 7),
        (2024, 2, 29),
        (1970, 1, 1),
        (9999, 12, 31),
        (1000, 10, 10),
        (999, 9, 9),
        (1, 1, 1),
        (0, 6, 30),
        (10000, 1, 1),
        (262142, 12, 31),
        (-1, 12, 31),
        (-999, 5, 5),
        (-1000, 5, 5),
        (-9999, 5, 5),
        (-10000, 5, 5),
        (-262143, 1, 1),
    ];
    for (year, month, day) in dates {
        let date = chrono::NaiveDate::from_ymd_opt(year, month, day).unwrap();
        let expected = date.format("%m-%d-%Y").to_string();
        let stamp = SADate { year: date.year(), month: date.month(), day: date.day() }.stamp();
        assert_eq!(stamp, expected);
    }
}

#[test]
fn key_length_is_five() {
    assert_eq!(SA_KEY_LENGTH, 5);
}

#[test]
fn export_of_today_follows_the_pattern() {
    let data = additions();
    let before = chrono::offset::Local::now().date_naive().format("%m-%d-%Y").to_string();
    let export = sa_export(data.clone());
    let after = chrono::offset::Local::now().date_naive().format("%m-%d-%Y").to_string();
    let name = export.student_filename.clone();
    assert!(name.ends_with(".txt"));
    let stem = &name[..name.len() - 4];
    let parts: Vec<&str> = stem.split('_').collect();
    assert_eq!(parts.len(), 5);
    assert_eq!(parts[0], "SimAri");
    assert_eq!(parts[1], "Student");
    assert!(parts[2] == before || parts[2] == after);
    assert_eq!(parts[3], "Addition");
    assert_eq!(parts[4].chars().count(), 5);
    assert!(parts[4].chars().all(|c| c.is_ascii_alphanumeric()));
    assert_eq!(
        export.instructor_filename,
        format!("SimAri_Instructor_{}_{}_{}.txt", parts[2], parts[3], parts[4])
    );
    let with = sa_export_with(&data, &SADate { year: 2024, month: 3, day: 7 }, parts[4]);
    assert_eq!(export.student_text, with.student_text);
    assert_eq!(export.instructor_text, with.instructor_text);
}

#[test]
fn keys_vary() {
    let first = sa_export(additions()).student_filename;
    let mut differs = false;
    for _ in 0..20 {
        differs = differs || sa_export(additions()).student_filename != first;
    }
    assert!(differs);
}
