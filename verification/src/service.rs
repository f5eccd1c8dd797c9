//! The record service: validation, id generation and the five requests.

use vstd::prelude::*;
use crate::error::ServiceError;
use crate::gpa::gpa_bits_in_range;
use crate::ident::{generate_id, is_generated_id};
use crate::model::{
    carries, create_records, create_result, delete_records, delete_result, deletion_message,
    first_violation, get_result, is_valid, list_result, needs_generated_id, payload,
    update_records, update_result, DEFAULT_PAGE_SIZE,
};
use crate::proto::{
    views, CreateStudentRequest, CreateStudentResponse, DeleteStudentRequest,
    DeleteStudentResponse, GetStudentRequest, GetStudentResponse, ListStudentsRequest,
    ListStudentsResponse, Student, StudentView, UpdateStudentRequest, UpdateStudentResponse,
};
use crate::store::{has_listing, Records, StudentStore};
use crate::text::str_is_blank;
use crate::token::{format_offset, parse_offset};

verus! {

/// The service over one store of its own. Two services never share records.
#[derive(Debug)]
pub struct StudentServiceImpl {
    store: StudentStore,
}

impl View for StudentServiceImpl {
    type V = Records;

    /// The records held, each under its id.
    closed spec fn view(&self) -> Records {
        self.store@
    }
}

impl StudentServiceImpl {
    /// A service over an empty store.
    pub fn new() -> (service: Self)
        ensures
            service@ == Map::<Seq<char>, StudentView>::empty(),
    {
        StudentServiceImpl { store: StudentStore::new() }
    }

    /// A service over `store`, with the records it holds.
    pub fn with_store(store: StudentStore) -> (service: Self)
        ensures
            service@ == store@,
    {
        StudentServiceImpl { store }
    }

    /// The store behind the service.
    pub fn store(&self) -> (store: &StudentStore)
        ensures
            store@ == self@,
    {
        &self.store
    }

    /// Checks a record against the rules for stored records and reports the first one it
    /// breaks, in the order name, email, age, grade point average.
    pub fn validate_student(&self, student: &Student) -> (result: Result<(), ServiceError>)
        ensures
            result is Ok == is_valid(student@),
            result matches Err(violation) ==> first_violation(student@) == Some(violation),
    {
        if str_is_blank(student.name.as_str()) {
            return Err(ServiceError::BlankName);
        }
        if str_is_blank(student.email.as_str()) {
            return Err(ServiceError::BlankEmail);
        }
        if student.age < 0 || student.age > 150 {
            return Err(ServiceError::AgeOutOfRange);
        }
        if !gpa_bits_in_range(student.gpa_bits) {
            return Err(ServiceError::GpaOutOfRange);
        }
        Ok(())
    }

    /// The record of a create or update request, once it has passed validation.
    fn accept(&self, student: Option<Student>) -> (result: Result<Student, ServiceError>)
        ensures
            match result {
                Ok(accepted) => payload(student) == Some(accepted@) && is_valid(accepted@),
                Err(error) => match payload(student) {
                    None => error == ServiceError::MissingStudent,
                    Some(sent) => first_violation(sent) == Some(error),
                },
            },
    {
        let student = match student {
            Some(student) => student,
            None => {
                return Err(ServiceError::MissingStudent);
            },
        };
        match self.validate_student(&student) {
            Ok(()) => Ok(student),
            Err(violation) => Err(violation),
        }
    }

    /// Stores a record that no record shares its id with, and answers with it.
    fn store_new(&mut self, student: Student) -> (result: Result<
        CreateStudentResponse,
        ServiceError,
    >)
        ensures
            match result {
                Ok(response) => {
                    &&& !old(self)@.contains_key(student@.id)
                    &&& carries(response.student, student@)
                    &&& final(self)@ == old(self)@.insert(student@.id, student@)
                },
                Err(error) => {
                    &&& old(self)@.contains_key(student@.id)
                    &&& error == ServiceError::AlreadyExists
                    &&& final(self)@ == old(self)@
                },
            },
    {
        let stored = student.clone();
        if !self.store.insert_if_absent(student) {
            return Err(ServiceError::AlreadyExists);
        }
        Ok(CreateStudentResponse { student: Some(stored) })
    }

    /// Stores a new record. One that comes with an empty id gets `fresh_id`; one with an id of
    /// its own keeps it, and is refused where the store holds that id already. A record that
    /// breaks a rule is refused before anything is stored.
    pub fn create_student_with_id(
        &mut self,
        request: CreateStudentRequest,
        fresh_id: String,
    ) -> (result: Result<CreateStudentResponse, ServiceError>)
        ensures
            final(self)@ == create_records(old(self)@, payload(request.student), fresh_id@),
            match result {
                Ok(response) => {
                    let expected = create_result(
                        old(self)@,
                        payload(request.student),
                        fresh_id@,
                    );
                    expected is Ok && carries(response.student, expected->Ok_0)
                },
                Err(error) => create_result(old(self)@, payload(request.student), fresh_id@)
                    == Err::<StudentView, ServiceError>(error),
            },
    {
        let mut student = match self.accept(request.student) {
            Ok(student) => student,
            Err(error) => {
                return Err(error);
            },
        };
        if student.id.as_str().is_empty() {
            student.id = fresh_id;
        }
        self.store_new(student)
    }

    /// Stores a new record, under a freshly generated id where it comes with an empty one:
    /// `create_student_with_id` with an id drawn at random. No id is drawn for a request that
    /// needs none.
    pub fn create_student(&mut self, request: CreateStudentRequest) -> (result: Result<
        CreateStudentResponse,
        ServiceError,
    >)
        ensures
            exists|fresh_id: Seq<char>|
                {
                    &&& needs_generated_id(payload(request.student)) ==> is_generated_id(fresh_id)
                    &&& final(self)@ == #[trigger] create_records(
                        old(self)@,
                        payload(request.student),
                        fresh_id,
                    )
                    &&& match result {
                        Ok(response) => {
                            let expected = create_result(
                                old(self)@,
                                payload(request.student),
                                fresh_id,
                            );
                            expected is Ok && carries(response.student, expected->Ok_0)
                        },
                        Err(error) => create_result(old(self)@, payload(request.student), fresh_id)
                            == Err::<StudentView, ServiceError>(error),
                    }
                },
    {
        let mut student = match self.accept(request.student) {
            Ok(student) => student,
            Err(error) => {
                assert(create_records(old(self)@, payload(request.student), Seq::empty())
                    == old(self)@);
                return Err(error);
            },
        };
        let ghost fresh_id = Seq::<char>::empty();
        if student.id.as_str().is_empty() {
            student.id = generate_id();
            proof {
                fresh_id = student.id@;
            }
        }
        let result = self.store_new(student);
        assert(self@ == create_records(old(self)@, payload(request.student), fresh_id));
        result
    }

    /// Looks a record up by its id.
    pub fn get_student(&self, request: GetStudentRequest) -> (result: Result<
        GetStudentResponse,
        ServiceError,
    >)
        ensures
            match result {
                Ok(response) => {
                    let expected = get_result(self@, request.id@);
                    expected is Ok && carries(response.student, expected->Ok_0)
                },
                Err(error) => get_result(self@, request.id@) == Err::<StudentView, ServiceError>(
                    error,
                ),
            },
    {
        if str_is_blank(request.id.as_str()) {
            return Err(ServiceError::BlankId);
        }
        match self.store.get(request.id.as_str()) {
            Some(student) => Ok(GetStudentResponse { student: Some(student.clone()) }),
            None => Err(ServiceError::NotFound),
        }
    }

    /// Puts the record sent in place of the stored record that has its id: every field is
    /// overwritten, and the record stays under the same id.
    pub fn update_student(&mut self, request: UpdateStudentRequest) -> (result: Result<
        UpdateStudentResponse,
        ServiceError,
    >)
        ensures
            final(self)@ == update_records(old(self)@, payload(request.student)),
            match result {
                Ok(response) => {
                    let expected = update_result(old(self)@, payload(request.student));
                    expected is Ok && carries(response.student, expected->Ok_0)
                },
                Err(error) => update_result(old(self)@, payload(request.student)) == Err::<
                    StudentView,
                    ServiceError,
                >(error),
            },
    {
        let student = match request.student {
            Some(student) => student,
            None => {
                return Err(ServiceError::MissingStudent);
            },
        };
        if str_is_blank(student.id.as_str()) {
            return Err(ServiceError::BlankId);
        }
        match self.validate_student(&student) {
            Ok(()) => {},
            Err(violation) => {
                return Err(violation);
            },
        }
        let stored = student.clone();
        if !self.store.replace(student) {
            return Err(ServiceError::NotFound);
        }
        Ok(UpdateStudentResponse { student: Some(stored) })
    }

    /// Removes the record with an id and confirms it by the student's name.
    pub fn delete_student(&mut self, request: DeleteStudentRequest) -> (result: Result<
        DeleteStudentResponse,
        ServiceError,
    >)
        ensures
            final(self)@ == delete_records(old(self)@, request.id@),
            match result {
                Ok(response) => {
                    let expected = delete_result(old(self)@, request.id@);
                    &&& expected is Ok
                    &&& response.success
                    &&& response.message@ == deletion_message(expected->Ok_0.name)
                },
                Err(error) => delete_result(old(self)@, request.id@) == Err::<
                    StudentView,
                    ServiceError,
                >(error),
            },
    {
        if str_is_blank(request.id.as_str()) {
            return Err(ServiceError::BlankId);
        }
        match self.store.remove(request.id.as_str()) {
            Some(student) => {
                let mut message = String::from_str("Student ");
                message.append(student.name.as_str());
                message.append(" deleted successfully");
                Ok(DeleteStudentResponse { success: true, message })
            },
            None => Err(ServiceError::NotFound),
        }
    }

    /// Returns one page of the records in ascending id order. A list never fails: a page size
    /// of zero or less asks for the default, and a token that is not well formed asks for the
    /// first page.
    pub fn list_students(&self, request: ListStudentsRequest) -> (result: Result<
        ListStudentsResponse,
        ServiceError,
    >)
        ensures
            result matches Ok(response) && {
                let expected = list_result(self@, request.page_size, request.page_token@);
                &&& views(response.students@) == expected.students
                &&& response.next_page_token@ == expected.next_page_token
                &&& response.total_count == expected.total_count
            },
            has_listing(self@),
    {
        let page_size: usize = if request.page_size <= 0 {
            DEFAULT_PAGE_SIZE
        } else {
            request.page_size as usize
        };
        let mut students = self.store.snapshot();
        let ghost all = students@;
        let total_count = students.len();
        let offset = parse_offset(request.page_token.as_str());
        let start = if offset < total_count {
            offset
        } else {
            total_count
        };
        let end = if page_size < total_count - start {
            start + page_size
        } else {
            total_count
        };
        students.truncate(end);
        let page = students.split_off(start);
        let next_page_token = if end < total_count {
            format_offset(end)
        } else {
            String::new()
        };
        assert(views(page@) =~= views(all).subrange(start as int, end as int));
        Ok(ListStudentsResponse { students: page, next_page_token, total_count })
    }
}

} // verus!
