use uni_grading::Handle;
use uni_grading::UniGradingError;
use uni_grading::classroom::add_student;
use uni_grading::classroom::get_classroom_info;
use uni_grading::classroom::get_student_list;
use uni_grading::classroom::initialize_classroom;
use uni_grading::classroom::remove_student;
use uni_grading::gradebook::assign_grade;
use uni_grading::gradebook::delete_grade;
use uni_grading::gradebook::get_student_grades;
use uni_grading::users::User;
use uni_grading::users::UserRole;
use uni_grading::users::deactivate_user;
use uni_grading::users::get_user_info;
use uni_grading::users::register_user;
use uni_grading::users::update_user_profile;

fn teacher() -> Handle {
    Handle { id: 1 }
}

fn no_user() -> Option<User> {
    None
}

#[test]
fn register_sets_all_fields() {
    let u = register_user(teacher(), "ann".to_string(), UserRole::Teacher, 42).unwrap();
    assert_eq!(u.authority, teacher());
    assert_eq!(u.username, "ann");
    assert_eq!(u.role, UserRole::Teacher);
    assert_eq!(u.created_at, 42);
    assert!(u.is_active);
}

#[test]
fn register_rejects_empty_username() {
    let r = register_user(teacher(), String::new(), UserRole::Student, 0);
    assert_eq!(r.err().unwrap(), UniGradingError::InvalidUsername);
}

#[test]
fn register_rejects_long_username() {
    let r = register_user(teacher(), "x".repeat(51), UserRole::Student, 0);
    assert_eq!(r.err().unwrap(), UniGradingError::UsernameTooLong);
    let ok = register_user(teacher(), "x".repeat(50), UserRole::Student, 0);
    assert!(ok.is_ok());
}

#[test]
fn update_profile_by_stranger_fails_unchanged() {
    let mut u = register_user(teacher(), "ann".to_string(), UserRole::Teacher, 0).unwrap();
    let r = update_user_profile(Handle { id: 99 }, &mut u, "mallory".to_string());
    assert_eq!(r.err().unwrap(), UniGradingError::Unauthorized);
    assert_eq!(u.username, "ann");
}

#[test]
fn update_profile_by_owner_renames() {
    let mut u = register_user(teacher(), "ann".to_string(), UserRole::Teacher, 0).unwrap();
    update_user_profile(teacher(), &mut u, "anne".to_string()).unwrap();
    assert_eq!(u.username, "anne");
    let r = update_user_profile(teacher(), &mut u, String::new());
    assert_eq!(r.err().unwrap(), UniGradingError::InvalidUsername);
    assert_eq!(u.username, "anne");
}

#[test]
fn deactivate_is_owner_only_and_idempotent() {
    let mut u = register_user(teacher(), "ann".to_string(), UserRole::Teacher, 0).unwrap();
    let r = deactivate_user(Handle { id: 2 }, &mut u);
    assert_eq!(r.err().unwrap(), UniGradingError::Unauthorized);
    assert!(u.is_active);
    deactivate_user(teacher(), &mut u).unwrap();
    assert!(!u.is_active);
    deactivate_user(teacher(), &mut u).unwrap();
    assert!(!u.is_active);
    assert_eq!(get_user_info(&u).err().unwrap(), UniGradingError::UserDeactivated);
}

#[test]
fn get_user_info_gates_on_activity() {
    let u = register_user(teacher(), "ann".to_string(), UserRole::Student, 0).unwrap();
    assert!(get_user_info(&u).is_ok());
}

#[test]
fn classroom_requires_names() {
    let r = initialize_classroom(teacher(), &no_user(), String::new(), "Algo".to_string());
    assert_eq!(r.err().unwrap(), UniGradingError::InvalidUsername);
    let r = initialize_classroom(teacher(), &no_user(), "CS101".to_string(), String::new());
    assert_eq!(r.err().unwrap(), UniGradingError::InvalidUsername);
}

#[test]
fn classroom_role_gate_checks_supplied_record() {
    let student_user = register_user(Handle { id: 5 }, "stu".to_string(), UserRole::Student, 0).unwrap();
    let r = initialize_classroom(
        teacher(),
        &Some(student_user),
        "CS101".to_string(),
        "Algo".to_string(),
    );
    assert_eq!(r.err().unwrap(), UniGradingError::OnlyTeachers);

    let mut teacher_user = register_user(teacher(), "ann".to_string(), UserRole::Teacher, 0).unwrap();
    deactivate_user(teacher(), &mut teacher_user).unwrap();
    let r = initialize_classroom(
        teacher(),
        &Some(teacher_user),
        "CS101".to_string(),
        "Algo".to_string(),
    );
    assert_eq!(r.err().unwrap(), UniGradingError::UserDeactivated);
}

#[test]
fn classroom_info_reflects_creation() {
    let c = initialize_classroom(teacher(), &no_user(), "CS101".to_string(), "Algo".to_string())
        .unwrap();
    let (name, course, owner) = get_classroom_info(&c);
    assert_eq!(name, "CS101");
    assert_eq!(course, "Algo");
    assert_eq!(owner, teacher());
    assert!(get_student_list(&c).is_empty());
}

#[test]
fn add_student_appends_one_roster_entry() {
    let mut c = initialize_classroom(teacher(), &no_user(), "CS101".to_string(), "Algo".to_string())
        .unwrap();
    let ck = Handle { id: 10 };
    let sk = Handle { id: 11 };
    let s = add_student(teacher(), &mut c, ck, sk, "Alice".to_string(), "S001".to_string()).unwrap();
    assert_eq!(s.classroom, ck);
    assert_eq!(s.name, "Alice");
    assert_eq!(s.id, "S001");
    assert!(s.grades.is_empty());
    let roster = get_student_list(&c);
    assert_eq!(roster.len(), 1);
    assert_eq!(roster[0].pubkey, sk);
    assert_eq!(roster[0].name, "Alice");
    assert_eq!(roster.iter().filter(|r| r.pubkey == sk).count(), 1);
}

#[test]
fn add_student_rejects_duplicate_handle_unchanged() {
    let mut c = initialize_classroom(teacher(), &no_user(), "CS101".to_string(), "Algo".to_string())
        .unwrap();
    let ck = Handle { id: 10 };
    let sk = Handle { id: 11 };
    add_student(teacher(), &mut c, ck, sk, "Alice".to_string(), "S001".to_string()).unwrap();
    let r = add_student(teacher(), &mut c, ck, sk, "Alice2".to_string(), "S002".to_string());
    assert_eq!(r.err().unwrap(), UniGradingError::StudentAlreadyExists);
    let roster = get_student_list(&c);
    assert_eq!(roster.len(), 1);
    assert_eq!(roster[0].name, "Alice");
}

#[test]
fn add_student_checks_teacher_and_names() {
    let mut c = initialize_classroom(teacher(), &no_user(), "CS101".to_string(), "Algo".to_string())
        .unwrap();
    let ck = Handle { id: 10 };
    let sk = Handle { id: 11 };
    let r = add_student(Handle { id: 99 }, &mut c, ck, sk, "Alice".to_string(), "S001".to_string());
    assert_eq!(r.err().unwrap(), UniGradingError::OnlyTeachers);
    let r = add_student(teacher(), &mut c, ck, sk, String::new(), "S001".to_string());
    assert_eq!(r.err().unwrap(), UniGradingError::InvalidUsername);
    let r = add_student(teacher(), &mut c, ck, sk, "Alice".to_string(), String::new());
    assert_eq!(r.err().unwrap(), UniGradingError::InvalidUsername);
    assert!(get_student_list(&c).is_empty());
}

#[test]
fn remove_student_strikes_the_entry() {
    let mut c = initialize_classroom(teacher(), &no_user(), "CS101".to_string(), "Algo".to_string())
        .unwrap();
    let ck = Handle { id: 10 };
    let a = Handle { id: 11 };
    let b = Handle { id: 12 };
    add_student(teacher(), &mut c, ck, a, "Alice".to_string(), "S001".to_string()).unwrap();
    add_student(teacher(), &mut c, ck, b, "Bob".to_string(), "S002".to_string()).unwrap();
    remove_student(teacher(), &mut c, a).unwrap();
    let roster = get_student_list(&c);
    assert_eq!(roster.len(), 1);
    assert_eq!(roster[0].pubkey, b);
}

#[test]
fn remove_student_absent_is_noop() {
    let mut c = initialize_classroom(teacher(), &no_user(), "CS101".to_string(), "Algo".to_string())
        .unwrap();
    let ck = Handle { id: 10 };
    let sk = Handle { id: 11 };
    add_student(teacher(), &mut c, ck, sk, "Alice".to_string(), "S001".to_string()).unwrap();
    remove_student(teacher(), &mut c, Handle { id: 404 }).unwrap();
    let roster = get_student_list(&c);
    assert_eq!(roster.len(), 1);
    assert_eq!(roster[0].pubkey, sk);
    assert_eq!(roster[0].name, "Alice");
}

#[test]
fn remove_student_requires_teacher() {
    let mut c = initialize_classroom(teacher(), &no_user(), "CS101".to_string(), "Algo".to_string())
        .unwrap();
    let ck = Handle { id: 10 };
    let sk = Handle { id: 11 };
    add_student(teacher(), &mut c, ck, sk, "Alice".to_string(), "S001".to_string()).unwrap();
    let r = remove_student(Handle { id: 99 }, &mut c, sk);
    assert_eq!(r.err().unwrap(), UniGradingError::OnlyTeachers);
    assert_eq!(get_student_list(&c).len(), 1);
}

fn fresh_student(ck: Handle, sk: Handle) -> uni_grading::gradebook::Student {
    let mut c = initialize_classroom(teacher(), &no_user(), "CS101".to_string(), "Algo".to_string())
        .unwrap();
    add_student(teacher(), &mut c, ck, sk, "Alice".to_string(), "S001".to_string()).unwrap()
}

#[test]
fn assign_grade_validates_inputs() {
    let mut s = fresh_student(Handle { id: 10 }, Handle { id: 11 });
    let r = assign_grade(teacher(), &mut s, &no_user(), String::new(), 5, 10, 0);
    assert_eq!(r.err().unwrap(), UniGradingError::InvalidAssignmentName);
    let r = assign_grade(teacher(), &mut s, &no_user(), "a".repeat(51), 5, 10, 0);
    assert_eq!(r.err().unwrap(), UniGradingError::AssignmentNameTooLong);
    let r = assign_grade(teacher(), &mut s, &no_user(), "hw1".to_string(), 11, 10, 0);
    assert_eq!(r.err().unwrap(), UniGradingError::InvalidGrade);
    let r = assign_grade(teacher(), &mut s, &no_user(), "hw1".to_string(), 0, 0, 0);
    assert_eq!(r.err().unwrap(), UniGradingError::InvalidMaxGrade);
    assert!(s.grades.is_empty());
    let r = assign_grade(teacher(), &mut s, &no_user(), "a".repeat(50), 10, 10, 0);
    assert!(r.is_ok());
}

#[test]
fn assign_grade_role_gate() {
    let mut s = fresh_student(Handle { id: 10 }, Handle { id: 11 });
    let student_user = register_user(Handle { id: 5 }, "stu".to_string(), UserRole::Student, 0).unwrap();
    let r = assign_grade(teacher(), &mut s, &Some(student_user), "hw1".to_string(), 5, 10, 0);
    assert_eq!(r.err().unwrap(), UniGradingError::OnlyTeachers);
    let mut tu = register_user(teacher(), "ann".to_string(), UserRole::Teacher, 0).unwrap();
    deactivate_user(teacher(), &mut tu).unwrap();
    let r = assign_grade(teacher(), &mut s, &Some(tu), "hw1".to_string(), 5, 10, 0);
    assert_eq!(r.err().unwrap(), UniGradingError::UserDeactivated);
    assert!(s.grades.is_empty());
}

#[test]
fn assign_grade_records_entry_within_bounds() {
    let mut s = fresh_student(Handle { id: 10 }, Handle { id: 11 });
    assign_grade(teacher(), &mut s, &no_user(), "hw1".to_string(), 9, 10, 77).unwrap();
    let grades = get_student_grades(&s);
    assert_eq!(grades.len(), 1);
    assert_eq!(grades[0].assignment_name, "hw1");
    assert_eq!(grades[0].grade, 9);
    assert_eq!(grades[0].max_grade, 10);
    assert_eq!(grades[0].timestamp, 77);
    assert_eq!(grades[0].graded_by, teacher());
    assert!(grades[0].grade <= grades[0].max_grade && grades[0].max_grade > 0);
}

#[test]
fn regrade_overwrites_in_place() {
    let mut s = fresh_student(Handle { id: 10 }, Handle { id: 11 });
    assign_grade(teacher(), &mut s, &no_user(), "midterm".to_string(), 70, 100, 1).unwrap();
    assign_grade(teacher(), &mut s, &no_user(), "final".to_string(), 50, 100, 2).unwrap();
    assign_grade(teacher(), &mut s, &no_user(), "midterm".to_string(), 85, 100, 3).unwrap();
    let grades = get_student_grades(&s);
    assert_eq!(grades.len(), 2);
    assert_eq!(grades[0].assignment_name, "midterm");
    assert_eq!(grades[0].grade, 85);
    assert_eq!(grades[0].max_grade, 100);
    assert_eq!(grades[0].timestamp, 3);
    assert_eq!(grades[1].assignment_name, "final");
    assert_eq!(grades[1].grade, 50);
    assert_eq!(
        grades.iter().filter(|g| g.assignment_name == "midterm").count(),
        1
    );
}

#[test]
fn delete_grade_removes_matching_only() {
    let mut s = fresh_student(Handle { id: 10 }, Handle { id: 11 });
    assign_grade(teacher(), &mut s, &no_user(), "hw1".to_string(), 9, 10, 1).unwrap();
    assign_grade(teacher(), &mut s, &no_user(), "hw2".to_string(), 8, 10, 2).unwrap();
    delete_grade(teacher(), &mut s, &no_user(), "hw1".to_string()).unwrap();
    let grades = get_student_grades(&s);
    assert_eq!(grades.len(), 1);
    assert_eq!(grades[0].assignment_name, "hw2");
}

#[test]
fn delete_grade_absent_is_noop() {
    let mut s = fresh_student(Handle { id: 10 }, Handle { id: 11 });
    assign_grade(teacher(), &mut s, &no_user(), "hw1".to_string(), 9, 10, 1).unwrap();
    delete_grade(teacher(), &mut s, &no_user(), "ghost".to_string()).unwrap();
    assert_eq!(get_student_grades(&s).len(), 1);
    let r = delete_grade(teacher(), &mut s, &no_user(), String::new());
    assert_eq!(r.err().unwrap(), UniGradingError::InvalidAssignmentName);
}

#[test]
fn end_to_end_grading_scenario() {
    let t = teacher();
    let teacher_user = register_user(t, "prof".to_string(), UserRole::Teacher, 100).unwrap();
    let mut classroom = initialize_classroom(
        t,
        &Some(teacher_user),
        "CS101".to_string(),
        "Algorithms".to_string(),
    )
    .unwrap();
    let ck = Handle { id: 20 };
    let sk = Handle { id: 21 };
    let mut alice =
        add_student(t, &mut classroom, ck, sk, "Alice".to_string(), "S001".to_string()).unwrap();
    assign_grade(t, &mut alice, &no_user(), "hw1".to_string(), 9, 10, 101).unwrap();
    let grades = get_student_grades(&alice);
    assert_eq!(grades.len(), 1);
    assert_eq!(grades[0].assignment_name, "hw1");
    assert_eq!(grades[0].grade, 9);
    assert_eq!(grades[0].max_grade, 10);
    assert_eq!(grades[0].graded_by, t);
    delete_grade(t, &mut alice, &no_user(), "hw1".to_string()).unwrap();
    assert!(get_student_grades(&alice).is_empty());
}
