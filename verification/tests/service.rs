use student_service::error::{ErrorKind, ServiceError};
use student_service::proto::{
    CreateStudentRequest, DeleteStudentRequest, DeleteStudentResponse, GetStudentRequest,
    ListStudentsRequest, Student, UpdateStudentRequest,
};
use student_service::service::StudentServiceImpl;
use student_service::store::StudentStore;

fn student(id: &str, name: &str, age: i32, gpa: f64) -> Student {
    Student {
        id: id.to_string(),
        name: name.to_string(),
        email: format!("{}@university.edu", name.to_lowercase()),
        age,
        major: "Computer Science".to_string(),
        gpa_bits: gpa.to_bits(),
    }
}

fn create(service: &mut StudentServiceImpl, s: Student) -> Result<Student, ServiceError> {
    service
        .create_student(CreateStudentRequest { student: Some(s) })
        .map(|response| response.student.unwrap())
}

fn get(service: &StudentServiceImpl, id: &str) -> Result<Student, ServiceError> {
    service
        .get_student(GetStudentRequest { id: id.to_string() })
        .map(|response| response.student.unwrap())
}

fn update(service: &mut StudentServiceImpl, s: Student) -> Result<Student, ServiceError> {
    service
        .update_student(UpdateStudentRequest { student: Some(s) })
        .map(|response| response.student.unwrap())
}

fn delete(service: &mut StudentServiceImpl, id: &str) -> Result<DeleteStudentResponse, ServiceError> {
    service.delete_student(DeleteStudentRequest { id: id.to_string() })
}

fn is_generated(id: &str) -> bool {
    let bytes = id.as_bytes();
    if bytes.len() != 36 {
        return false;
    }
    for (i, b) in bytes.iter().enumerate() {
        let ok = if i == 8 || i == 13 || i == 18 || i == 23 {
            *b == b'-'
        } else {
            b.is_ascii_digit() || (b'a'..=b'f').contains(b)
        };
        if !ok {
            return false;
        }
    }
    bytes[14] == b'4' && matches!(bytes[19], b'8' | b'9' | b'a' | b'b')
}

#[test]
fn new_service_holds_nothing() {
    let service = StudentServiceImpl::new();
    assert_eq!(service.store().len(), 0);
    let page = service
        .list_students(ListStudentsRequest { page_size: 10, page_token: String::new() })
        .unwrap();
    assert!(page.students.is_empty());
    assert_eq!(page.next_page_token, "");
    assert_eq!(page.total_count, 0);
}

#[test]
fn services_do_not_share_records() {
    let mut one = StudentServiceImpl::new();
    let two = StudentServiceImpl::new();
    create(&mut one, student("s1", "Alice", 20, 3.8)).unwrap();
    assert_eq!(one.store().len(), 1);
    assert_eq!(two.store().len(), 0);
    assert_eq!(get(&two, "s1"), Err(ServiceError::NotFound));
}

#[test]
fn with_store_serves_the_records_given() {
    let mut store = StudentStore::new();
    assert!(store.insert_if_absent(student("s1", "Alice", 20, 3.8)));
    let service = StudentServiceImpl::with_store(store);
    assert_eq!(get(&service, "s1"), Ok(student("s1", "Alice", 20, 3.8)));
}

#[test]
fn create_with_empty_id_generates_one() {
    let mut service = StudentServiceImpl::new();
    let created = create(&mut service, student("", "Alice", 20, 3.8)).unwrap();
    assert!(!created.id.is_empty());
    assert!(is_generated(&created.id), "{}", created.id);
    assert_eq!(created, student(&created.id, "Alice", 20, 3.8));
}

#[test]
fn generated_ids_are_distinct_over_many_creates() {
    let mut service = StudentServiceImpl::new();
    let mut seen = std::collections::HashSet::new();
    for i in 0..1000 {
        let created = create(&mut service, student("", &format!("Student{}", i), 20, 3.0)).unwrap();
        assert!(!created.id.is_empty());
        assert!(seen.insert(created.id));
    }
    assert_eq!(seen.len(), 1000);
    assert_eq!(service.store().len(), 1000);
}

#[test]
fn create_with_id_uses_the_id_handed_in() {
    let mut service = StudentServiceImpl::new();
    let response = service
        .create_student_with_id(
            CreateStudentRequest { student: Some(student("", "Alice", 20, 3.8)) },
            "fresh-1".to_string(),
        )
        .unwrap();
    assert_eq!(response.student, Some(student("fresh-1", "Alice", 20, 3.8)));
    assert_eq!(get(&service, "fresh-1"), Ok(student("fresh-1", "Alice", 20, 3.8)));
}

#[test]
fn create_with_id_keeps_an_id_that_was_sent() {
    let mut service = StudentServiceImpl::new();
    let response = service
        .create_student_with_id(
            CreateStudentRequest { student: Some(student("mine", "Alice", 20, 3.8)) },
            "fresh-1".to_string(),
        )
        .unwrap();
    assert_eq!(response.student, Some(student("mine", "Alice", 20, 3.8)));
    assert_eq!(get(&service, "fresh-1"), Err(ServiceError::NotFound));
}

#[test]
fn create_with_id_refuses_a_generated_id_that_is_taken() {
    let mut service = StudentServiceImpl::new();
    create(&mut service, student("taken", "Alice", 20, 3.8)).unwrap();
    let result = service.create_student_with_id(
        CreateStudentRequest { student: Some(student("", "Bob", 22, 3.6)) },
        "taken".to_string(),
    );
    assert_eq!(result, Err(ServiceError::AlreadyExists));
    assert_eq!(get(&service, "taken"), Ok(student("taken", "Alice", 20, 3.8)));
    assert_eq!(service.store().len(), 1);
}

#[test]
fn create_then_get_returns_the_record() {
    let mut service = StudentServiceImpl::new();
    let created = create(&mut service, student("", "Alice", 20, 3.8)).unwrap();
    assert_eq!(get(&service, &created.id), Ok(created));
    let explicit = create(&mut service, student("s-7", "Bob", 22, 3.6)).unwrap();
    assert_eq!(explicit, student("s-7", "Bob", 22, 3.6));
    assert_eq!(get(&service, "s-7"), Ok(student("s-7", "Bob", 22, 3.6)));
}

#[test]
fn create_with_an_id_that_exists_fails() {
    let mut service = StudentServiceImpl::new();
    create(&mut service, student("s1", "Alice", 20, 3.8)).unwrap();
    let again = create(&mut service, student("s1", "Bob", 22, 3.6));
    assert_eq!(again, Err(ServiceError::AlreadyExists));
    assert_eq!(again.unwrap_err().kind(), ErrorKind::AlreadyExists);
    assert_eq!(get(&service, "s1"), Ok(student("s1", "Alice", 20, 3.8)));
}

#[test]
fn create_without_a_record_fails() {
    let mut service = StudentServiceImpl::new();
    let result = service.create_student(CreateStudentRequest { student: None });
    assert_eq!(result, Err(ServiceError::MissingStudent));
    assert_eq!(ServiceError::MissingStudent.kind(), ErrorKind::InvalidArgument);
    assert_eq!(service.store().len(), 0);
}

#[test]
fn create_stores_a_blank_id_as_sent() {
    let mut service = StudentServiceImpl::new();
    let created = create(&mut service, student(" ", "Alice", 20, 3.8)).unwrap();
    assert_eq!(created.id, " ");
    assert_eq!(get(&service, " "), Err(ServiceError::BlankId));
    assert_eq!(service.store().len(), 1);
}

#[test]
fn an_invalid_record_is_refused_before_anything_is_stored() {
    let mut service = StudentServiceImpl::new();
    assert_eq!(create(&mut service, student("s1", "  ", 20, 3.8)), Err(ServiceError::BlankName));
    assert_eq!(create(&mut service, student("s1", "Alice", -1, 3.8)), Err(ServiceError::AgeOutOfRange));
    assert_eq!(create(&mut service, student("s1", "Alice", 20, 4.5)), Err(ServiceError::GpaOutOfRange));
    let mut no_email = student("s1", "Alice", 20, 3.8);
    no_email.email = "\t".to_string();
    assert_eq!(create(&mut service, no_email), Err(ServiceError::BlankEmail));
    assert_eq!(service.store().len(), 0);
}

#[test]
fn get_with_a_blank_id_fails() {
    let service = StudentServiceImpl::new();
    assert_eq!(get(&service, ""), Err(ServiceError::BlankId));
    assert_eq!(get(&service, "   "), Err(ServiceError::BlankId));
    assert_eq!(get(&service, "\u{a0}\t"), Err(ServiceError::BlankId));
    assert_eq!(ServiceError::BlankId.kind(), ErrorKind::InvalidArgument);
}

#[test]
fn get_of_an_unknown_id_fails() {
    let mut service = StudentServiceImpl::new();
    create(&mut service, student("s1", "Alice", 20, 3.8)).unwrap();
    let result = get(&service, "s2");
    assert_eq!(result, Err(ServiceError::NotFound));
    assert_eq!(result.unwrap_err().kind(), ErrorKind::NotFound);
}

#[test]
fn update_of_an_unknown_id_fails() {
    let mut service = StudentServiceImpl::new();
    create(&mut service, student("s1", "Alice", 20, 3.8)).unwrap();
    assert_eq!(update(&mut service, student("s2", "Bob", 22, 3.6)), Err(ServiceError::NotFound));
    assert_eq!(service.store().len(), 1);
    assert_eq!(get(&service, "s1"), Ok(student("s1", "Alice", 20, 3.8)));
}

#[test]
fn update_replaces_every_field_but_the_id() {
    let mut service = StudentServiceImpl::new();
    let created = create(&mut service, student("", "Bob", 22, 3.6)).unwrap();
    create(&mut service, student("other", "Carol", 19, 3.9)).unwrap();
    let revised = Student {
        id: created.id.clone(),
        name: "Robert Smith".to_string(),
        email: "robert@university.edu".to_string(),
        age: 23,
        major: "Computer Engineering".to_string(),
        gpa_bits: 3.95f64.to_bits(),
    };
    assert_eq!(update(&mut service, revised.clone()), Ok(revised.clone()));
    let stored = get(&service, &created.id).unwrap();
    assert_eq!(stored, revised);
    assert_eq!(stored.id, created.id);
    assert_eq!(get(&service, "other"), Ok(student("other", "Carol", 19, 3.9)));
    assert_eq!(service.store().len(), 2);
}

#[test]
fn update_checks_the_id_then_the_record() {
    let mut service = StudentServiceImpl::new();
    create(&mut service, student("s1", "Alice", 20, 3.8)).unwrap();
    assert_eq!(
        service.update_student(UpdateStudentRequest { student: None }),
        Err(ServiceError::MissingStudent)
    );
    assert_eq!(update(&mut service, student("", "Alice", 20, 3.8)), Err(ServiceError::BlankId));
    assert_eq!(update(&mut service, student("  ", "", 200, 9.0)), Err(ServiceError::BlankId));
    assert_eq!(update(&mut service, student("s1", "", 200, 9.0)), Err(ServiceError::BlankName));
    assert_eq!(update(&mut service, student("s1", "Alice", 151, 3.8)), Err(ServiceError::AgeOutOfRange));
    assert_eq!(update(&mut service, student("s1", "Alice", 20, -0.5)), Err(ServiceError::GpaOutOfRange));
    assert_eq!(update(&mut service, student("nobody", "Alice", 151, 3.8)), Err(ServiceError::AgeOutOfRange));
    assert_eq!(get(&service, "s1"), Ok(student("s1", "Alice", 20, 3.8)));
}

#[test]
fn delete_then_get_fails() {
    let mut service = StudentServiceImpl::new();
    let created = create(&mut service, student("", "Alice", 20, 3.8)).unwrap();
    let response = delete(&mut service, &created.id).unwrap();
    assert!(response.success);
    assert_eq!(response.message, "Student Alice deleted successfully");
    assert_eq!(get(&service, &created.id), Err(ServiceError::NotFound));
}

#[test]
fn delete_twice_fails_the_second_time() {
    let mut service = StudentServiceImpl::new();
    create(&mut service, student("s1", "Alice", 20, 3.8)).unwrap();
    create(&mut service, student("s2", "Bob", 22, 3.6)).unwrap();
    assert!(delete(&mut service, "s1").is_ok());
    let second = delete(&mut service, "s1");
    assert_eq!(second, Err(ServiceError::NotFound));
    assert_eq!(second.unwrap_err().kind(), ErrorKind::NotFound);
    assert_eq!(service.store().len(), 1);
    assert_eq!(get(&service, "s2"), Ok(student("s2", "Bob", 22, 3.6)));
}

#[test]
fn delete_with_a_blank_id_fails() {
    let mut service = StudentServiceImpl::new();
    assert_eq!(delete(&mut service, ""), Err(ServiceError::BlankId));
    assert_eq!(delete(&mut service, " \n"), Err(ServiceError::BlankId));
}

#[test]
fn delete_names_the_student_removed() {
    let mut service = StudentServiceImpl::new();
    create(&mut service, student("s3", "Carol Davis", 19, 3.9)).unwrap();
    assert_eq!(
        delete(&mut service, "s3"),
        Ok(DeleteStudentResponse {
            success: true,
            message: "Student Carol Davis deleted successfully".to_string(),
        })
    );
}

#[test]
fn validation_boundaries() {
    let service = StudentServiceImpl::new();
    assert_eq!(service.validate_student(&student("", "A", 0, 3.0)), Ok(()));
    assert_eq!(service.validate_student(&student("", "A", 150, 3.0)), Ok(()));
    assert_eq!(service.validate_student(&student("", "A", -1, 3.0)), Err(ServiceError::AgeOutOfRange));
    assert_eq!(service.validate_student(&student("", "A", 151, 3.0)), Err(ServiceError::AgeOutOfRange));
    assert_eq!(service.validate_student(&student("", "A", i32::MIN, 3.0)), Err(ServiceError::AgeOutOfRange));
    assert_eq!(service.validate_student(&student("", "A", i32::MAX, 3.0)), Err(ServiceError::AgeOutOfRange));
    assert_eq!(service.validate_student(&student("", "A", 20, 0.0)), Ok(()));
    assert_eq!(service.validate_student(&student("", "A", 20, 4.0)), Ok(()));
    assert_eq!(service.validate_student(&student("", "A", 20, 4.01)), Err(ServiceError::GpaOutOfRange));
    assert_eq!(service.validate_student(&student("", "A", 20, -0.01)), Err(ServiceError::GpaOutOfRange));
    assert_eq!(service.validate_student(&student("", "A", 20, f64::NAN)), Err(ServiceError::GpaOutOfRange));
}

#[test]
fn validation_reports_the_first_violation() {
    let service = StudentServiceImpl::new();
    let mut bad = student("", " ", -5, 7.0);
    bad.email = String::new();
    assert_eq!(service.validate_student(&bad), Err(ServiceError::BlankName));
    bad.name = "Alice".to_string();
    assert_eq!(service.validate_student(&bad), Err(ServiceError::BlankEmail));
    bad.email = "alice@university.edu".to_string();
    assert_eq!(service.validate_student(&bad), Err(ServiceError::AgeOutOfRange));
    bad.age = 20;
    assert_eq!(service.validate_student(&bad), Err(ServiceError::GpaOutOfRange));
    bad.gpa_bits = 3.8f64.to_bits();
    assert_eq!(service.validate_student(&bad), Ok(()));
    bad.major = String::new();
    assert_eq!(service.validate_student(&bad), Ok(()));
}

#[test]
fn alice_and_bob() {
    let mut service = StudentServiceImpl::new();
    let alice = create(&mut service, student("", "Alice", 20, 3.8)).unwrap();
    let bob = create(&mut service, student("", "Bob", 22, 3.6)).unwrap();
    let page = service
        .list_students(ListStudentsRequest { page_size: 10, page_token: String::new() })
        .unwrap();
    assert_eq!(page.students.len(), 2);
    assert!(page.students.contains(&alice));
    assert!(page.students.contains(&bob));
    assert_eq!(page.total_count, 2);
    assert_eq!(page.next_page_token, "");
    assert!(delete(&mut service, &bob.id).unwrap().success);
    assert_eq!(get(&service, &bob.id), Err(ServiceError::NotFound));
    let page = service
        .list_students(ListStudentsRequest { page_size: 10, page_token: String::new() })
        .unwrap();
    assert_eq!(page.total_count, 1);
    assert_eq!(page.students, vec![alice]);
}
