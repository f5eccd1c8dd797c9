//! The messages that callers and the service exchange.

use vstd::prelude::*;

verus! {

/// A student record.
///
/// The grade point average is held as the bits of an IEEE 754 double (`f64::to_bits` makes
/// them, `f64::from_bits` reads them), so that every value a caller can send is kept as sent.
#[derive(Debug, PartialEq)]
pub struct Student {
    /// Unique within a store. Left empty on a create, it is generated by the service.
    pub id: String,
    pub name: String,
    pub email: String,
    pub age: i32,
    pub major: String,
    pub gpa_bits: u64,
}

/// What a `Student` holds, as mathematical values.
pub struct StudentView {
    pub id: Seq<char>,
    pub name: Seq<char>,
    pub email: Seq<char>,
    pub age: int,
    pub major: Seq<char>,
    pub gpa_bits: u64,
}

impl View for Student {
    type V = StudentView;

    open spec fn view(&self) -> StudentView {
        StudentView {
            id: self.id@,
            name: self.name@,
            email: self.email@,
            age: self.age as int,
            major: self.major@,
            gpa_bits: self.gpa_bits,
        }
    }
}

impl Clone for Student {
    fn clone(&self) -> (copy: Self)
        ensures
            copy@ == self@,
    {
        Student {
            id: self.id.clone(),
            name: self.name.clone(),
            email: self.email.clone(),
            age: self.age,
            major: self.major.clone(),
            gpa_bits: self.gpa_bits,
        }
    }
}

/// The views of a sequence of students, in the same order.
pub open spec fn views(students: Seq<Student>) -> Seq<StudentView> {
    Seq::new(students.len(), |i: int| students[i]@)
}

/// Asks the service to store a new record.
#[derive(Debug, PartialEq)]
pub struct CreateStudentRequest {
    pub student: Option<Student>,
}

/// Answers a create with the record as stored, its id filled in.
#[derive(Debug, PartialEq)]
pub struct CreateStudentResponse {
    pub student: Option<Student>,
}

/// Asks for the record with an id.
#[derive(Debug, PartialEq)]
pub struct GetStudentRequest {
    pub id: String,
}

/// Answers a get with the record found.
#[derive(Debug, PartialEq)]
pub struct GetStudentResponse {
    pub student: Option<Student>,
}

/// Asks the service to replace the record that has the id of the one sent.
#[derive(Debug, PartialEq)]
pub struct UpdateStudentRequest {
    pub student: Option<Student>,
}

/// Answers an update with the record as stored.
#[derive(Debug, PartialEq)]
pub struct UpdateStudentResponse {
    pub student: Option<Student>,
}

/// Asks the service to remove the record with an id.
#[derive(Debug, PartialEq)]
pub struct DeleteStudentRequest {
    pub id: String,
}

/// Confirms a removal, naming the student that was removed.
#[derive(Debug, PartialEq)]
pub struct DeleteStudentResponse {
    pub success: bool,
    pub message: String,
}

/// Asks for one page of the records, in id order.
#[derive(Debug, PartialEq)]
pub struct ListStudentsRequest {
    /// How many records to return at most; zero or less asks for the default.
    pub page_size: i32,
    /// Empty for the first page, else the `next_page_token` of the page before.
    pub page_token: String,
}

/// One page of the records.
#[derive(Debug, PartialEq)]
pub struct ListStudentsResponse {
    pub students: Vec<Student>,
    /// Empty on the last page.
    pub next_page_token: String,
    /// How many records the store held when the page was taken.
    pub total_count: usize,
}

} // verus!
