//! What each request does, as functions of the records held before it.

use vstd::prelude::*;
use crate::error::ServiceError;
use crate::gpa::gpa_in_range;
use crate::proto::{Student, StudentView};
use crate::store::{listing, Records};
use crate::text::is_blank;
use crate::token::{decimal_digits, token_offset};

verus! {

/// A record may be stored: name and email are not blank, the age is from 0 to 150 and the
/// grade point average from 0.0 to 4.0.
pub open spec fn is_valid(student: StudentView) -> bool {
    &&& !is_blank(student.name)
    &&& !is_blank(student.email)
    &&& 0 <= student.age <= 150
    &&& gpa_in_range(student.gpa_bits)
}

/// The first rule that a record breaks, in the order name, email, age, grade point average.
pub open spec fn first_violation(student: StudentView) -> Option<ServiceError> {
    if is_blank(student.name) {
        Some(ServiceError::BlankName)
    } else if is_blank(student.email) {
        Some(ServiceError::BlankEmail)
    } else if !(0 <= student.age <= 150) {
        Some(ServiceError::AgeOutOfRange)
    } else if !gpa_in_range(student.gpa_bits) {
        Some(ServiceError::GpaOutOfRange)
    } else {
        None
    }
}

/// What a request carries as its record, if it carries one.
pub open spec fn payload(student: Option<Student>) -> Option<StudentView> {
    match student {
        Some(student) => Some(student@),
        None => None,
    }
}

/// A response carries exactly `record`.
pub open spec fn carries(student: Option<Student>, record: StudentView) -> bool {
    student matches Some(student) && student@ == record
}

/// The record under the id that a create gives it: its own, or `fresh_id` where it has none.
pub open spec fn with_assigned_id(student: StudentView, fresh_id: Seq<char>) -> StudentView {
    if student.id.len() == 0 {
        StudentView { id: fresh_id, ..student }
    } else {
        student
    }
}

/// A create has to generate an id: it carries a valid record whose id is empty.
pub open spec fn needs_generated_id(student: Option<StudentView>) -> bool {
    student matches Some(student) && is_valid(student) && student.id.len() == 0
}

/// What a create answers: the record as stored, or why it was refused.
pub open spec fn create_result(
    records: Records,
    student: Option<StudentView>,
    fresh_id: Seq<char>,
) -> Result<StudentView, ServiceError> {
    match student {
        None => Err(ServiceError::MissingStudent),
        Some(student) => match first_violation(student) {
            Some(violation) => Err(violation),
            None => {
                let record = with_assigned_id(student, fresh_id);
                if records.contains_key(record.id) {
                    Err(ServiceError::AlreadyExists)
                } else {
                    Ok(record)
                }
            },
        },
    }
}

/// The records after a create: one more where it succeeds, the same where it is refused.
pub open spec fn create_records(
    records: Records,
    student: Option<StudentView>,
    fresh_id: Seq<char>,
) -> Records {
    match create_result(records, student, fresh_id) {
        Ok(record) => records.insert(record.id, record),
        Err(_) => records,
    }
}

/// What a get answers.
pub open spec fn get_result(records: Records, id: Seq<char>) -> Result<StudentView, ServiceError> {
    if is_blank(id) {
        Err(ServiceError::BlankId)
    } else if !records.contains_key(id) {
        Err(ServiceError::NotFound)
    } else {
        Ok(records[id])
    }
}

/// What an update answers: the record sent, or why it was refused.
pub open spec fn update_result(records: Records, student: Option<StudentView>) -> Result<
    StudentView,
    ServiceError,
> {
    match student {
        None => Err(ServiceError::MissingStudent),
        Some(student) => if is_blank(student.id) {
            Err(ServiceError::BlankId)
        } else {
            match first_violation(student) {
                Some(violation) => Err(violation),
                None => if records.contains_key(student.id) {
                    Ok(student)
                } else {
                    Err(ServiceError::NotFound)
                },
            }
        },
    }
}

/// The records after an update: the record sent in place of the one that had its id.
pub open spec fn update_records(records: Records, student: Option<StudentView>) -> Records {
    match update_result(records, student) {
        Ok(record) => records.insert(record.id, record),
        Err(_) => records,
    }
}

/// The text that confirms the removal of the student called `name`.
pub open spec fn deletion_message(name: Seq<char>) -> Seq<char> {
    "Student "@ + name + " deleted successfully"@
}

/// What a delete answers: the record it removed, or why it was refused.
pub open spec fn delete_result(records: Records, id: Seq<char>) -> Result<
    StudentView,
    ServiceError,
> {
    get_result(records, id)
}

/// The records after a delete.
pub open spec fn delete_records(records: Records, id: Seq<char>) -> Records {
    match delete_result(records, id) {
        Ok(_) => records.remove(id),
        Err(_) => records,
    }
}

/// The size of a page where none is asked for.
pub const DEFAULT_PAGE_SIZE: usize = 10;

/// How many records a page holds at most: what was asked for, if more than zero, else the
/// default.
pub open spec fn effective_page_size(page_size: i32) -> nat {
    if page_size > 0 {
        page_size as nat
    } else {
        DEFAULT_PAGE_SIZE as nat
    }
}

/// Where in a listing of `count` records the page of `page_token` starts: at the token's
/// offset, or at the end where the offset lies beyond it.
pub open spec fn page_start(page_token: Seq<char>, count: nat) -> nat {
    if token_offset(page_token) < count {
        token_offset(page_token)
    } else {
        count
    }
}

/// Where the page ends: a page size after its start, or at the end of the listing.
pub open spec fn page_end(page_size: i32, page_token: Seq<char>, count: nat) -> nat {
    let end = page_start(page_token, count) + effective_page_size(page_size);
    if end < count {
        end
    } else {
        count
    }
}

/// One page of a listing, as mathematical values.
pub struct PageView {
    pub students: Seq<StudentView>,
    pub next_page_token: Seq<char>,
    pub total_count: nat,
}

/// What a list answers: the records of the listing from the page's start to its end, the
/// end as the next token unless the listing ends there, and the number of all records.
pub open spec fn list_result(records: Records, page_size: i32, page_token: Seq<char>) -> PageView {
    let all = listing(records);
    let start = page_start(page_token, all.len());
    let end = page_end(page_size, page_token, all.len());
    PageView {
        students: all.subrange(start as int, end as int),
        next_page_token: if end < all.len() {
            decimal_digits(end)
        } else {
            Seq::empty()
        },
        total_count: all.len(),
    }
}

} // verus!
