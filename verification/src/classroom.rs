//! Classrooms and their rosters: creation, enrolment, removal and the
//! read-side listings.

use vstd::prelude::*;
use vstd::string::StrSliceExecFns;

use crate::Handle;
use crate::UniGradingError;
use crate::gradebook::Student;
use crate::model::ClassroomView;
use crate::model::StudentRefView;
use crate::model::StudentView;
use crate::model::lemma_roster_without_push;
use crate::model::nonempty;
use crate::model::role_gate;
use crate::model::roster_contains;
use crate::model::roster_without;
use crate::users::User;
use crate::users::UserRole;
use crate::users::opt_user_view;

verus! {

/// A denormalized roster entry: the student's display name and the
/// handle of the student record. Unique by handle within a classroom.
pub struct StudentRef {
    pub name: String,
    pub pubkey: Handle,
}

impl View for StudentRef {
    type V = StudentRefView;

    open spec fn view(&self) -> StudentRefView {
        StudentRefView { name: self.name@, pubkey: self.pubkey }
    }
}

impl Clone for StudentRef {
    fn clone(&self) -> (res: Self)
        ensures
            res@ == self@,
    {
        StudentRef { name: self.name.clone(), pubkey: self.pubkey }
    }
}

/// A classroom record: display fields, the owning teacher, and the
/// roster in insertion order.
pub struct Classroom {
    pub name: String,
    pub course: String,
    pub teacher: Handle,
    pub students: Vec<StudentRef>,
}

impl View for Classroom {
    type V = ClassroomView;

    open spec fn view(&self) -> ClassroomView {
        ClassroomView {
            name: self.name@,
            course: self.course@,
            teacher: self.teacher,
            students: self.students@.map_values(|s: StudentRef| s@),
        }
    }
}

/// Creates a classroom owned by `authority`, with an empty roster. The
/// name and course must be non-empty; if a directory record is supplied
/// it must belong to an active teacher.
pub fn initialize_classroom(
    authority: Handle,
    teacher_user: &Option<User>,
    classroom_name: String,
    course: String,
) -> (r: Result<Classroom, UniGradingError>)
    ensures
        r is Ok <==> nonempty(classroom_name@) && nonempty(course@) && role_gate(
            opt_user_view(*teacher_user),
        ) is None,
        !nonempty(classroom_name@) || !nonempty(course@) ==> (r matches Err(e) && e
            == UniGradingError::InvalidUsername),
        nonempty(classroom_name@) && nonempty(course@) && r is Err ==> (r matches Err(e) && Some(e)
            == role_gate(opt_user_view(*teacher_user))),
        r matches Ok(c) ==> c@ == (ClassroomView {
            name: classroom_name@,
            course: course@,
            teacher: authority,
            students: Seq::empty(),
        }),
{
    if classroom_name.as_str().unicode_len() == 0 {
        return Err(UniGradingError::InvalidUsername);
    }
    if course.as_str().unicode_len() == 0 {
        return Err(UniGradingError::InvalidUsername);
    }
    if let Some(u) = teacher_user {
        if u.role != UserRole::Teacher {
            return Err(UniGradingError::OnlyTeachers);
        }
        if !u.is_active {
            return Err(UniGradingError::UserDeactivated);
        }
    }
    let classroom = Classroom {
        name: classroom_name,
        course,
        teacher: authority,
        students: Vec::new(),
    };
    proof {
        assert(classroom@ =~= (ClassroomView {
            name: classroom@.name,
            course: classroom@.course,
            teacher: authority,
            students: Seq::empty(),
        }));
    }
    Ok(classroom)
}

/// Enrols a student: only the classroom's teacher may do so, the name
/// and id must be non-empty, and the handle must not already be on the
/// roster. On success a fresh student record (no grades, back-reference
/// to `classroom_key`) is created and a roster entry is appended; a
/// rejected call leaves the roster untouched.
#[verifier::loop_isolation(false)]
pub fn add_student(
    authority: Handle,
    classroom: &mut Classroom,
    classroom_key: Handle,
    student_key: Handle,
    student_name: String,
    student_id: String,
) -> (r: Result<Student, UniGradingError>)
    ensures
        r is Err ==> final(classroom)@ == old(classroom)@,
        r is Ok <==> nonempty(student_name@) && nonempty(student_id@) && old(classroom).teacher
            == authority && !roster_contains(old(classroom)@.students, student_key),
        !nonempty(student_name@) || !nonempty(student_id@) ==> (r matches Err(e) && e
            == UniGradingError::InvalidUsername),
        nonempty(student_name@) && nonempty(student_id@) && old(classroom).teacher != authority
            ==> (r matches Err(e) && e == UniGradingError::OnlyTeachers),
        nonempty(student_name@) && nonempty(student_id@) && old(classroom).teacher == authority
            && roster_contains(old(classroom)@.students, student_key) ==> (r matches Err(e) && e
            == UniGradingError::StudentAlreadyExists),
        r matches Ok(s) ==> s@ == (StudentView {
            id: student_id@,
            name: student_name@,
            grades: Seq::empty(),
            classroom: classroom_key,
        }),
        r is Ok ==> final(classroom)@ == (ClassroomView {
            students: old(classroom)@.students.push(
                (StudentRefView { name: student_name@, pubkey: student_key }),
            ),
            ..old(classroom)@
        }),
{
    if student_name.as_str().unicode_len() == 0 {
        return Err(UniGradingError::InvalidUsername);
    }
    if student_id.as_str().unicode_len() == 0 {
        return Err(UniGradingError::InvalidUsername);
    }
    if classroom.teacher != authority {
        return Err(UniGradingError::OnlyTeachers);
    }
    let n = classroom.students.len();
    let mut i: usize = 0;
    while i < n
        invariant
            *classroom == *old(classroom),
            n == classroom.students.len(),
            i <= n,
            forall|j: int| 0 <= j < i ==> (#[trigger] classroom.students@[j]).pubkey != student_key,
        decreases n - i,
    {
        if classroom.students[i].pubkey == student_key {
            proof {
                assert(old(classroom)@.students[i as int] == classroom.students@[i as int]@);
            }
            return Err(UniGradingError::StudentAlreadyExists);
        }
        i += 1;
    }
    proof {
        assert forall|j: int|
            0 <= j < old(classroom)@.students.len() implies (#[trigger] old(
            classroom,
        )@.students[j]).pubkey != student_key by {
            assert(old(classroom)@.students[j] == classroom.students@[j]@);
        }
        assert(!roster_contains(old(classroom)@.students, student_key));
    }
    let student = Student {
        id: student_id,
        name: student_name.clone(),
        grades: Vec::new(),
        classroom: classroom_key,
    };
    classroom.students.push(StudentRef { name: student_name, pubkey: student_key });
    proof {
        assert(student@ =~= (StudentView {
            id: student@.id,
            name: student@.name,
            grades: Seq::empty(),
            classroom: classroom_key,
        }));
        assert(classroom@ =~= (ClassroomView {
            students: old(classroom)@.students.push(
                (StudentRefView { name: student@.name, pubkey: student_key }),
            ),
            ..old(classroom)@
        }));
    }
    Ok(student)
}

/// Strikes the student's entry from the roster. Only the classroom's
/// teacher may do so; a handle that is not on the roster is a deliberate
/// no-op, not an error. The caller destroys the student record itself.
#[verifier::loop_isolation(false)]
pub fn remove_student(authority: Handle, classroom: &mut Classroom, student_key: Handle) -> (r:
    Result<(), UniGradingError>)
    ensures
        r is Ok <==> old(classroom).teacher == authority,
        old(classroom).teacher != authority ==> (r matches Err(e) && e
            == UniGradingError::OnlyTeachers),
        r is Err ==> final(classroom)@ == old(classroom)@,
        r is Ok ==> final(classroom)@ == (ClassroomView {
            students: roster_without(old(classroom)@.students, student_key),
            ..old(classroom)@
        }),
{
    if classroom.teacher != authority {
        return Err(UniGradingError::OnlyTeachers);
    }
    let ghost roster0 = old(classroom)@.students;
    let n = classroom.students.len();
    let mut kept: Vec<StudentRef> = Vec::new();
    let mut i: usize = 0;
    while i < n
        invariant
            *classroom == *old(classroom),
            n == classroom.students.len(),
            i <= n,
            kept@.map_values(|s: StudentRef| s@) == roster_without(
                roster0.take(i as int),
                student_key,
            ),
        decreases n - i,
    {
        proof {
            assert(roster0.take(i + 1) =~= roster0.take(i as int).push(roster0[i as int]));
            lemma_roster_without_push(roster0.take(i as int), student_key, roster0[i as int]);
            assert(roster0[i as int] == classroom.students@[i as int]@);
        }
        if classroom.students[i].pubkey != student_key {
            kept.push(classroom.students[i].clone());
        }
        proof {
            assert(kept@.map_values(|s: StudentRef| s@) =~= roster_without(
                roster0.take(i + 1),
                student_key,
            ));
        }
        i += 1;
    }
    proof {
        assert(roster0.take(n as int) =~= roster0);
    }
    classroom.students = kept;
    proof {
        assert(classroom@ =~= (ClassroomView {
            students: roster_without(roster0, student_key),
            ..old(classroom)@
        }));
    }
    Ok(())
}

/// Hands back the classroom's display fields and owning teacher.
pub fn get_classroom_info(classroom: &Classroom) -> (r: (String, String, Handle))
    ensures
        r.0@ == classroom@.name,
        r.1@ == classroom@.course,
        r.2 == classroom@.teacher,
{
    (classroom.name.clone(), classroom.course.clone(), classroom.teacher)
}

/// Hands back the roster, in insertion order.
#[verifier::loop_isolation(false)]
pub fn get_student_list(classroom: &Classroom) -> (r: Vec<StudentRef>)
    ensures
        r@.map_values(|s: StudentRef| s@) == classroom@.students,
{
    let n = classroom.students.len();
    let mut out: Vec<StudentRef> = Vec::new();
    let mut i: usize = 0;
    while i < n
        invariant
            n == classroom.students.len(),
            i <= n,
            out@.map_values(|s: StudentRef| s@) == classroom@.students.take(i as int),
        decreases n - i,
    {
        out.push(classroom.students[i].clone());
        proof {
            assert(out@.map_values(|s: StudentRef| s@) =~= classroom@.students.take(i + 1));
        }
        i += 1;
    }
    proof {
        assert(classroom@.students.take(n as int) =~= classroom@.students);
    }
    out
}

} // verus!
