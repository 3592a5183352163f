//! The two sheets of a worksheet: what the student file and the instructor
//! file are called and what they hold.

use crate::operation::SAOperation;
use crate::problem::SAProblem;
use crate::text::{digit_char, digit_str, nat_text, render_nat};
use chrono::Datelike;
use rand::distributions::{Alphanumeric, DistString};
use vstd::prelude::*;

verus! {

/// The length of the random key in a file name.
pub const SA_KEY_LENGTH: usize = 5;

/// A calendar date.
#[derive(Copy, Clone, Debug, PartialEq, Eq, Structural)]
pub struct SADate {
    pub year: i32,
    pub month: u32,
    pub day: u32,
}

/// The names and the contents of the two files of an export.
#[derive(Debug)]
pub struct SAExport {
    pub student_filename: String,
    pub instructor_filename: String,
    pub student_text: String,
    pub instructor_text: String,
}

/// `n` in two decimal digits.
pub open spec fn two_digits(n: int) -> Seq<char> {
    seq![digit_char(n / 10), digit_char(n % 10)]
}

/// `n` in four decimal digits.
pub open spec fn four_digits(n: int) -> Seq<char> {
    seq![
        digit_char(n / 1000),
        digit_char(n / 100 % 10),
        digit_char(n / 10 % 10),
        digit_char(n % 10),
    ]
}

/// The year as a date stamp shows it: four digits for the years 0 to 9999;
/// any other year with its sign and at least four digits.
pub open spec fn year_text(year: int) -> Seq<char> {
    if 0 <= year <= 9999 {
        four_digits(year)
    } else if year > 9999 {
        seq!['+'] + nat_text(year as nat)
    } else if year > -1000 {
        seq!['-'] + four_digits(-year)
    } else {
        seq!['-'] + nat_text((-year) as nat)
    }
}

/// Whether `c` is an ASCII letter or digit.
pub open spec fn is_alphanumeric(c: char) -> bool {
    ('A' <= c <= 'Z') || ('a' <= c <= 'z') || ('0' <= c <= '9')
}

/// Whether `key` is a key of a file name: `SA_KEY_LENGTH` ASCII letters and
/// digits.
pub open spec fn is_export_key(key: Seq<char>) -> bool {
    &&& key.len() == SA_KEY_LENGTH
    &&& forall|i: int| 0 <= i < key.len() ==> is_alphanumeric(#[trigger] key[i])
}

/// Whether all problems of `data` have one operation.
pub open spec fn single_operation(data: Seq<SAProblem>) -> bool {
    forall|i: int| 0 <= i < data.len() ==> (#[trigger] data[i]).operation == data[0].operation
}

/// The tag of an export: the name of the operation that all problems share,
/// or `Mixed`.
pub open spec fn export_tag(data: Seq<SAProblem>) -> Seq<char> {
    if single_operation(data) {
        data[0].operation.spec_name()
    } else {
        "Mixed"@
    }
}

/// The name of the file for `role`.
pub open spec fn export_filename(
    role: Seq<char>,
    stamp: Seq<char>,
    tag: Seq<char>,
    key: Seq<char>,
) -> Seq<char> {
    "SimAri_"@ + role + "_"@ + stamp + "_"@ + tag + "_"@ + key + ".txt"@
}

/// The student sheet: the student lines of the problems in order.
pub open spec fn student_sheet(data: Seq<SAProblem>) -> Seq<char>
    decreases data.len(),
{
    if data.len() == 0 {
        Seq::empty()
    } else {
        student_sheet(data.drop_last()) + data.last().spec_student_line()
    }
}

/// The instructor sheet: the instructor lines of the problems in order.
pub open spec fn instructor_sheet(data: Seq<SAProblem>) -> Seq<char>
    decreases data.len(),
{
    if data.len() == 0 {
        Seq::empty()
    } else {
        instructor_sheet(data.drop_last()) + data.last().spec_instructor_line()
    }
}

impl SADate {
    /// Month and day are in the range of a calendar.
    pub open spec fn valid(self) -> bool {
        1 <= self.month <= 12 && 1 <= self.day <= 31
    }

    /// The date as a file name shows it: month, day and year, with hyphens
    /// between them.
    pub open spec fn spec_stamp(self) -> Seq<char> {
        two_digits(self.month as int) + "-"@ + two_digits(self.day as int) + "-"@ + year_text(
            self.year as int,
        )
    }

    /// Writes the date as a file name shows it.
    pub fn stamp(&self) -> (text: String)
        requires
            self.valid(),
        ensures
            text@ == self.spec_stamp(),
    {
        let mut text = String::from_str(digit_str((self.month / 10) as u8));
        text.append(digit_str((self.month % 10) as u8));
        text.append("-");
        text.append(digit_str((self.day / 10) as u8));
        text.append(digit_str((self.day % 10) as u8));
        text.append("-");
        assert(text@ =~= two_digits(self.month as int) + "-"@ + two_digits(self.day as int) + "-"@);
        let year: i64 = self.year as i64;
        let magnitude: i64 = if year < 0 { -year } else { year };
        if year < 0 {
            text.append("-");
        } else if year > 9999 {
            text.append("+");
        }
        proof {
            reveal_strlit("-");
            reveal_strlit("+");
        }
        if magnitude <= 9999 && year > -1000 {
            text.append(digit_str((magnitude / 1000) as u8));
            text.append(digit_str((magnitude / 100 % 10) as u8));
            text.append(digit_str((magnitude / 10 % 10) as u8));
            text.append(digit_str((magnitude % 10) as u8));
        } else {
            text.append(render_nat(magnitude as u64).as_str());
        }
        assert(text@ =~= self.spec_stamp());
        text
    }
}

/// Whether `export` is the export of `data` on `date` under `key`.
pub open spec fn is_export_of(
    export: SAExport,
    data: Seq<SAProblem>,
    date: SADate,
    key: Seq<char>,
) -> bool {
    &&& export.student_filename@ == export_filename(
        "Student"@,
        date.spec_stamp(),
        export_tag(data),
        key,
    )
    &&& export.instructor_filename@ == export_filename(
        "Instructor"@,
        date.spec_stamp(),
        export_tag(data),
        key,
    )
    &&& export.student_text@ == student_sheet(data)
    &&& export.instructor_text@ == instructor_sheet(data)
}

/// Reads the local date from the system clock: `chrono::offset::Local::now`,
/// then `date_naive`, then `year`, `month` and `day` of `chrono::Datelike`.
/// The contract claims only the ranges that `Datelike` documents: a month
/// from 1 to 12 and a day from 1 to 31.
#[verifier::external_body]
fn local_today() -> (date: SADate)
    ensures
        date.valid(),
{
    let today = chrono::offset::Local::now().date_naive();
    SADate { year: today.year(), month: today.month(), day: today.day() }
}

/// Draws a key: `sample_string` of `rand::distributions::Alphanumeric` with
/// the generator of the calling thread. The contract claims that the key has
/// `length` characters, each an ASCII letter or digit.
#[verifier::external_body]
fn random_key(length: usize) -> (key: String)
    ensures
        key@.len() == length,
        forall|i: int| 0 <= i < key@.len() ==> is_alphanumeric(#[trigger] key@[i]),
{
    Alphanumeric.sample_string(&mut rand::thread_rng(), length)
}

/// Writes the tag of an export.
pub fn sa_export_tag(data: &Vec<SAProblem>) -> (tag: String)
    requires
        data.len() > 0,
    ensures
        tag@ == export_tag(data@),
{
    let first: SAOperation = data[0].operation;
    let mut i: usize = 1;
    while i < data.len()
        invariant
            1 <= i <= data.len(),
            first == data@[0].operation,
            forall|j: int| 0 <= j < i ==> (#[trigger] data@[j]).operation == first,
        decreases data.len() - i,
    {
        if data[i].operation != first {
            return "Mixed".to_owned();
        }
        i += 1;
    }
    first.as_string()
}

/// Writes the name of the file for `role`.
fn filename(role: &str, stamp: &str, tag: &str, key: &str) -> (name: String)
    ensures
        name@ == export_filename(role@, stamp@, tag@, key@),
{
    let mut name = String::from_str("SimAri_");
    name.append(role);
    name.append("_");
    name.append(stamp);
    name.append("_");
    name.append(tag);
    name.append("_");
    name.append(key);
    name.append(".txt");
    name
}

/// Renders the export of `data` on `date` under `key`: the two file names,
/// which differ in the role only, and the two sheets, one line for each
/// problem in order.
pub fn sa_export_with(data: &Vec<SAProblem>, date: &SADate, key: &str) -> (export: SAExport)
    requires
        data.len() > 0,
        date.valid(),
    ensures
        is_export_of(export, data@, *date, key@),
{
    let tag = sa_export_tag(data);
    let stamp = date.stamp();
    let student_filename = filename("Student", stamp.as_str(), tag.as_str(), key);
    let instructor_filename = filename("Instructor", stamp.as_str(), tag.as_str(), key);
    let mut student_text = String::new();
    let mut instructor_text = String::new();
    let mut i: usize = 0;
    while i < data.len()
        invariant
            i <= data.len(),
            student_text@ == student_sheet(data@.take(i as int)),
            instructor_text@ == instructor_sheet(data@.take(i as int)),
        decreases data.len() - i,
    {
        proof {
            assert(data@.take(i + 1).drop_last() =~= data@.take(i as int));
        }
        student_text.append(data[i].student_string().as_str());
        instructor_text.append(data[i].instructor_string().as_str());
        i += 1;
    }
    assert(data@.take(data.len() as int) =~= data@);
    SAExport { student_filename, instructor_filename, student_text, instructor_text }
}

/// Prepares the export of `data` for today under a fresh random key.
/// Whatever the clock and the generator give, the result is the export of
/// `data` on some calendar date under some key.
pub fn sa_export(data: Vec<SAProblem>) -> (export: SAExport)
    requires
        data.len() > 0,
    ensures
        exists|date: SADate, key: Seq<char>|
            date.valid() && is_export_key(key) && #[trigger] is_export_of(
                export,
                data@,
                date,
                key,
            ),
{
    let key = random_key(SA_KEY_LENGTH);
    let date = local_today();
    let export = sa_export_with(&data, &date, key.as_str());
    assert(is_export_of(export, data@, date, key@));
    export
}

} // verus!
