//! The gradebook: assigning (upsert-by-name), deleting and listing the
//! grades of a student record.

use vstd::prelude::*;
use vstd::string::StrSliceExecFns;

use crate::Handle;
use crate::UniGradingError;
use crate::model::GradeView;
use crate::model::MAX_NAME_LEN;
use crate::model::StudentView;
use crate::model::grades_wf;
use crate::model::has_grade;
use crate::model::lemma_first_grade_index_of_match;
use crate::model::nonempty;
use crate::model::role_gate;
use crate::model::upsert_grade;
use crate::model::valid_name;
use crate::model::without_grade;
use crate::model::lemma_without_grade_push;
use crate::users::User;
use crate::users::UserRole;
use crate::users::opt_user_view;

verus! {

/// One graded assignment of a student.
pub struct Grade {
    pub assignment_name: String,
    pub grade: u8,
    pub max_grade: u8,
    pub timestamp: i64,
    pub graded_by: Handle,
}

impl View for Grade {
    type V = GradeView;

    open spec fn view(&self) -> GradeView {
        GradeView {
            assignment_name: self.assignment_name@,
            grade: self.grade,
            max_grade: self.max_grade,
            timestamp: self.timestamp,
            graded_by: self.graded_by,
        }
    }
}

impl Clone for Grade {
    fn clone(&self) -> (res: Self)
        ensures
            res@ == self@,
    {
        Grade {
            assignment_name: self.assignment_name.clone(),
            grade: self.grade,
            max_grade: self.max_grade,
            timestamp: self.timestamp,
            graded_by: self.graded_by,
        }
    }
}

/// A student record: enrollment data and the list of grades, in
/// insertion/update order.
pub struct Student {
    pub id: String,
    pub name: String,
    pub grades: Vec<Grade>,
    pub classroom: Handle,
}

impl View for Student {
    type V = StudentView;

    open spec fn view(&self) -> StudentView {
        StudentView {
            id: self.id@,
            name: self.name@,
            grades: self.grades@.map_values(|g: Grade| g@),
            classroom: self.classroom,
        }
    }
}

/// Records a grade for one assignment of the student. If an entry with
/// the same assignment name exists, its first occurrence is overwritten
/// in place; otherwise a new entry is appended. A rejected call leaves
/// the record untouched.
#[verifier::loop_isolation(false)]
pub fn assign_grade(
    teacher: Handle,
    student: &mut Student,
    teacher_user: &Option<User>,
    assignment_name: String,
    grade: u8,
    max_grade: u8,
    now: i64,
) -> (r: Result<(), UniGradingError>)
    ensures
        r is Ok <==> valid_name(assignment_name@) && grade <= max_grade && max_grade > 0
            && role_gate(opt_user_view(*teacher_user)) is None,
        !nonempty(assignment_name@) ==> (r matches Err(e) && e
            == UniGradingError::InvalidAssignmentName),
        assignment_name@.len() > MAX_NAME_LEN ==> (r matches Err(e) && e
            == UniGradingError::AssignmentNameTooLong),
        valid_name(assignment_name@) && grade > max_grade ==> (r matches Err(e) && e
            == UniGradingError::InvalidGrade),
        valid_name(assignment_name@) && grade <= max_grade && max_grade == 0 ==> (r matches Err(e)
            && e == UniGradingError::InvalidMaxGrade),
        valid_name(assignment_name@) && grade <= max_grade && max_grade > 0 ==> (r is Err
            <==> role_gate(opt_user_view(*teacher_user)) is Some),
        valid_name(assignment_name@) && grade <= max_grade && max_grade > 0 && r is Err ==> (
        r matches Err(e) && Some(e) == role_gate(opt_user_view(*teacher_user))),
        r is Err ==> final(student)@ == old(student)@,
        r is Ok ==> final(student)@ == (StudentView {
            grades: upsert_grade(
                old(student)@.grades,
                (GradeView {
                    assignment_name: assignment_name@,
                    grade,
                    max_grade,
                    timestamp: now,
                    graded_by: teacher,
                }),
            ),
            ..old(student)@
        }),
        r is Ok && grades_wf(old(student)@.grades) ==> grades_wf(final(student)@.grades),
{
    let len = assignment_name.as_str().unicode_len();
    if len == 0 {
        return Err(UniGradingError::InvalidAssignmentName);
    }
    if len > MAX_NAME_LEN {
        return Err(UniGradingError::AssignmentNameTooLong);
    }
    if grade > max_grade {
        return Err(UniGradingError::InvalidGrade);
    }
    if max_grade == 0 {
        return Err(UniGradingError::InvalidMaxGrade);
    }
    if let Some(u) = teacher_user {
        if u.role != UserRole::Teacher {
            return Err(UniGradingError::OnlyTeachers);
        }
        if !u.is_active {
            return Err(UniGradingError::UserDeactivated);
        }
    }
    let ghost g = GradeView {
        assignment_name: assignment_name@,
        grade,
        max_grade,
        timestamp: now,
        graded_by: teacher,
    };
    let ghost grades0 = old(student)@.grades;
    let n = student.grades.len();
    let mut i: usize = 0;
    while i < n
        invariant
            *student == *old(student),
            n == student.grades.len(),
            i <= n,
            forall|j: int|
                0 <= j < i ==> (#[trigger] student.grades@[j]).assignment_name@
                    != assignment_name@,
        decreases n - i,
    {
        if student.grades[i].assignment_name.eq(&assignment_name) {
            proof {
                assert forall|j: int| 0 <= j < i implies (#[trigger] grades0[j]).assignment_name
                    != assignment_name@ by {
                    assert(grades0[j] == student.grades@[j]@);
                }
                assert(grades0[i as int] == student.grades@[i as int]@);
                lemma_first_grade_index_of_match(grades0, assignment_name@, i as int);
            }
            let entry = &mut student.grades[i];
            entry.grade = grade;
            entry.max_grade = max_grade;
            entry.timestamp = now;
            entry.graded_by = teacher;
            proof {
                assert(student@.grades =~= grades0.update(i as int, g));
                assert(student@ =~= (StudentView {
                    grades: upsert_grade(grades0, g),
                    ..old(student)@
                }));
            }
            return Ok(());
        }
        i += 1;
    }
    proof {
        assert forall|j: int| 0 <= j < grades0.len() implies (#[trigger] grades0[j]).assignment_name
            != assignment_name@ by {
            assert(grades0[j] == student.grades@[j]@);
        }
        assert(!has_grade(grades0, assignment_name@));
    }
    let new_grade = Grade { assignment_name, grade, max_grade, timestamp: now, graded_by: teacher };
    student.grades.push(new_grade);
    proof {
        assert(student@.grades =~= grades0.push(g));
        assert(student@ =~= (StudentView { grades: upsert_grade(grades0, g), ..old(student)@ }));
    }
    Ok(())
}

/// Removes every grade entry carrying the given assignment name (at most
/// one under the gradebook's invariant); absent names are a deliberate
/// no-op, not an error. A rejected call leaves the record untouched.
#[verifier::loop_isolation(false)]
pub fn delete_grade(
    teacher: Handle,
    student: &mut Student,
    teacher_user: &Option<User>,
    assignment_name: String,
) -> (r: Result<(), UniGradingError>)
    ensures
        r is Ok <==> nonempty(assignment_name@) && role_gate(opt_user_view(*teacher_user)) is None,
        !nonempty(assignment_name@) ==> (r matches Err(e) && e
            == UniGradingError::InvalidAssignmentName),
        nonempty(assignment_name@) && r is Err ==> (r matches Err(e) && Some(e) == role_gate(
            opt_user_view(*teacher_user),
        )),
        r is Err ==> final(student)@ == old(student)@,
        r is Ok ==> final(student)@ == (StudentView {
            grades: without_grade(old(student)@.grades, assignment_name@),
            ..old(student)@
        }),
{
    // The identity collaborator has already verified `teacher`; as with
    // assignment, deletion checks only the optional role record, not
    // classroom ownership of the student.
    let _ = teacher;
    let len = assignment_name.as_str().unicode_len();
    if len == 0 {
        return Err(UniGradingError::InvalidAssignmentName);
    }
    if let Some(u) = teacher_user {
        if u.role != UserRole::Teacher {
            return Err(UniGradingError::OnlyTeachers);
        }
        if !u.is_active {
            return Err(UniGradingError::UserDeactivated);
        }
    }
    let ghost grades0 = old(student)@.grades;
    let n = student.grades.len();
    let mut kept: Vec<Grade> = Vec::new();
    let mut i: usize = 0;
    while i < n
        invariant
            *student == *old(student),
            n == student.grades.len(),
            i <= n,
            kept@.map_values(|g: Grade| g@) == without_grade(
                grades0.take(i as int),
                assignment_name@,
            ),
        decreases n - i,
    {
        proof {
            assert(grades0.take(i + 1) =~= grades0.take(i as int).push(grades0[i as int]));
            lemma_without_grade_push(
                grades0.take(i as int),
                assignment_name@,
                grades0[i as int],
            );
            assert(grades0[i as int] == student.grades@[i as int]@);
        }
        if !student.grades[i].assignment_name.eq(&assignment_name) {
            kept.push(student.grades[i].clone());
        }
        proof {
            assert(kept@.map_values(|g: Grade| g@) =~= without_grade(
                grades0.take(i + 1),
                assignment_name@,
            ));
        }
        i += 1;
    }
    proof {
        assert(grades0.take(n as int) =~= grades0);
    }
    student.grades = kept;
    proof {
        assert(student@ =~= (StudentView {
            grades: without_grade(grades0, assignment_name@),
            ..old(student)@
        }));
    }
    Ok(())
}

/// Hands back the student's grade list, in insertion/update order.
#[verifier::loop_isolation(false)]
pub fn get_student_grades(student: &Student) -> (r: Vec<Grade>)
    ensures
        r@.map_values(|g: Grade| g@) == student@.grades,
{
    let n = student.grades.len();
    let mut out: Vec<Grade> = Vec::new();
    let mut i: usize = 0;
    while i < n
        invariant
            n == student.grades.len(),
            i <= n,
            out@.map_values(|g: Grade| g@) == student@.grades.take(i as int),
        decreases n - i,
    {
        out.push(student.grades[i].clone());
        proof {
            assert(out@.map_values(|g: Grade| g@) =~= student@.grades.take(i + 1));
        }
        i += 1;
    }
    proof {
        assert(student@.grades.take(n as int) =~= student@.grades);
    }
    out
}

} // verus!
