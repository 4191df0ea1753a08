//! The mathematical model the contracts speak of: ghost images of the
//! record types, the validity predicates, and the spec-level roster and
//! gradebook operations.

use vstd::prelude::*;

use crate::Handle;
use crate::UniGradingError;
use crate::users::UserRole;

verus! {

/// Longest username or assignment name the registry accepts, in characters.
pub const MAX_NAME_LEN: usize = 50;

/// A name field that merely has to be present: non-empty.
pub open spec fn nonempty(s: Seq<char>) -> bool {
    s.len() > 0
}

/// A username or assignment name: non-empty and at most `MAX_NAME_LEN` characters.
pub open spec fn valid_name(s: Seq<char>) -> bool {
    0 < s.len() <= MAX_NAME_LEN
}

/// Ghost image of a directory user record.
#[verifier::ext_equal]
pub ghost struct UserView {
    pub authority: Handle,
    pub username: Seq<char>,
    pub role: UserRole,
    pub created_at: i64,
    pub is_active: bool,
}

/// Ghost image of one roster entry.
#[verifier::ext_equal]
pub ghost struct StudentRefView {
    pub name: Seq<char>,
    pub pubkey: Handle,
}

/// Ghost image of a classroom record.
#[verifier::ext_equal]
pub ghost struct ClassroomView {
    pub name: Seq<char>,
    pub course: Seq<char>,
    pub teacher: Handle,
    pub students: Seq<StudentRefView>,
}

/// Ghost image of one grade entry.
#[verifier::ext_equal]
pub ghost struct GradeView {
    pub assignment_name: Seq<char>,
    pub grade: u8,
    pub max_grade: u8,
    pub timestamp: i64,
    pub graded_by: Handle,
}

/// Ghost image of a student record.
#[verifier::ext_equal]
pub ghost struct StudentView {
    pub id: Seq<char>,
    pub name: Seq<char>,
    pub grades: Seq<GradeView>,
    pub classroom: Handle,
}

/// The error, if any, that the optional role-verification record produces.
/// When no record is supplied the check is skipped; when one is supplied it
/// must belong to an active teacher.
pub open spec fn role_gate(teacher_user: Option<UserView>) -> Option<UniGradingError> {
    match teacher_user {
        Option::None => Option::None,
        Option::Some(u) => if u.role != UserRole::Teacher {
            Option::Some(UniGradingError::OnlyTeachers)
        } else if !u.is_active {
            Option::Some(UniGradingError::UserDeactivated)
        } else {
            Option::None
        },
    }
}

/// Whether a roster already carries an entry for the given student handle.
pub open spec fn roster_contains(roster: Seq<StudentRefView>, student: Handle) -> bool {
    exists|i: int| 0 <= i < roster.len() && roster[i].pubkey == student
}

/// The roster with every entry for the given student handle removed.
pub open spec fn roster_without(roster: Seq<StudentRefView>, student: Handle) -> Seq<StudentRefView> {
    roster.filter(|r: StudentRefView| r.pubkey != student)
}

/// Whether some grade entry carries the given assignment name.
pub open spec fn has_grade(grades: Seq<GradeView>, name: Seq<char>) -> bool {
    exists|i: int| 0 <= i < grades.len() && grades[i].assignment_name == name
}

/// The index of the first grade entry carrying the given assignment name,
/// or the sequence's length when none does.
pub open spec fn first_grade_index(grades: Seq<GradeView>, name: Seq<char>) -> int
    decreases grades.len(),
{
    if grades.len() == 0 {
        0
    } else if grades[0].assignment_name == name {
        0
    } else {
        1 + first_grade_index(grades.drop_first(), name)
    }
}

/// Update-if-present-else-append, keyed on the assignment name: the one
/// non-trivial algorithmic choice of the gradebook. An existing entry is
/// overwritten in place at its first occurrence; otherwise the new entry
/// is appended.
pub open spec fn upsert_grade(grades: Seq<GradeView>, g: GradeView) -> Seq<GradeView> {
    if has_grade(grades, g.assignment_name) {
        grades.update(first_grade_index(grades, g.assignment_name), g)
    } else {
        grades.push(g)
    }
}

/// The grade list with every entry for the given assignment name removed.
pub open spec fn without_grade(grades: Seq<GradeView>, name: Seq<char>) -> Seq<GradeView> {
    grades.filter(|g: GradeView| g.assignment_name != name)
}

/// Every stored grade respects its assignment's bounds.
pub open spec fn grades_wf(grades: Seq<GradeView>) -> bool {
    forall|i: int| 0 <= i < grades.len() ==> (#[trigger] grades[i]).grade <= grades[i].max_grade
        && grades[i].max_grade > 0
}

/// When some entry carries the name, `first_grade_index` lands on a
/// match and nothing before it matches.
pub proof fn lemma_first_grade_index_props(grades: Seq<GradeView>, name: Seq<char>)
    requires
        has_grade(grades, name),
    ensures
        0 <= first_grade_index(grades, name) < grades.len(),
        grades[first_grade_index(grades, name)].assignment_name == name,
        forall|j: int|
            0 <= j < first_grade_index(grades, name) ==> (#[trigger] grades[j]).assignment_name
                != name,
    decreases grades.len(),
{
    if grades[0].assignment_name == name {
    } else {
        let rest = grades.drop_first();
        let w = choose|i: int| 0 <= i < grades.len() && grades[i].assignment_name == name;
        assert(rest[w - 1] == grades[w]);
        assert(has_grade(rest, name));
        lemma_first_grade_index_props(rest, name);
        let fi = first_grade_index(rest, name);
        assert(grades[fi + 1] == rest[fi]);
        assert forall|j: int| 0 <= j < fi + 1 implies (#[trigger] grades[j]).assignment_name
            != name by {
            if j > 0 {
                assert(rest[j - 1] == grades[j]);
            }
        }
    }
}

/// An index that matches the name, with no match before it, is exactly
/// `first_grade_index`.
pub proof fn lemma_first_grade_index_of_match(grades: Seq<GradeView>, name: Seq<char>, i: int)
    requires
        0 <= i < grades.len(),
        grades[i].assignment_name == name,
        forall|j: int| 0 <= j < i ==> (#[trigger] grades[j]).assignment_name != name,
    ensures
        first_grade_index(grades, name) == i,
        has_grade(grades, name),
    decreases grades.len(),
{
    if i == 0 {
    } else {
        assert(grades[0].assignment_name != name);
        let rest = grades.drop_first();
        assert(rest[i - 1] == grades[i]);
        assert forall|j: int| 0 <= j < i - 1 implies (#[trigger] rest[j]).assignment_name
            != name by {
            assert(rest[j] == grades[j + 1]);
        }
        lemma_first_grade_index_of_match(rest, name, i - 1);
    }
}

/// One unfolding of `without_grade` at the pushed end, for loops that
/// grow their output one element at a time.
pub proof fn lemma_without_grade_push(s: Seq<GradeView>, name: Seq<char>, x: GradeView)
    ensures
        without_grade(s.push(x), name) == (if x.assignment_name != name {
            without_grade(s, name).push(x)
        } else {
            without_grade(s, name)
        }),
{
    reveal(Seq::filter);
    assert(s.push(x).drop_last() =~= s);
    assert(s.push(x).last() == x);
}

/// One unfolding of `roster_without` at the pushed end.
pub proof fn lemma_roster_without_push(s: Seq<StudentRefView>, student: Handle, x: StudentRefView)
    ensures
        roster_without(s.push(x), student) == (if x.pubkey != student {
            roster_without(s, student).push(x)
        } else {
            roster_without(s, student)
        }),
{
    reveal(Seq::filter);
    assert(s.push(x).drop_last() =~= s);
    assert(s.push(x).last() == x);
}

/// How many roster entries carry the given student handle.
pub open spec fn roster_count(roster: Seq<StudentRefView>, student: Handle) -> nat {
    roster.filter(|r: StudentRefView| r.pubkey == student).len()
}

/// One unfolding of `roster_count` at the pushed end.
pub proof fn lemma_roster_count_push(s: Seq<StudentRefView>, student: Handle, x: StudentRefView)
    ensures
        roster_count(s.push(x), student) == (if x.pubkey == student {
            roster_count(s, student) + 1
        } else {
            roster_count(s, student)
        }),
{
    reveal(Seq::filter);
    assert(s.push(x).drop_last() =~= s);
    assert(s.push(x).last() == x);
}

/// A handle absent from the roster is counted zero times.
pub proof fn lemma_roster_count_zero(s: Seq<StudentRefView>, student: Handle)
    requires
        !roster_contains(s, student),
    ensures
        roster_count(s, student) == 0,
    decreases s.len(),
{
    reveal(Seq::filter);
    if s.len() > 0 {
        let prefix = s.drop_last();
        assert forall|i: int| 0 <= i < prefix.len() implies (#[trigger] prefix[i]).pubkey
            != student by {
            assert(prefix[i] == s[i]);
        }
        lemma_roster_count_zero(prefix, student);
        assert(s[s.len() - 1].pubkey != student);
    }
}

/// No two grade entries share an assignment name.
pub open spec fn unique_assignments(grades: Seq<GradeView>) -> bool {
    forall|i: int, j: int|
        0 <= i < j < grades.len() ==> (#[trigger] grades[i]).assignment_name != (
        #[trigger] grades[j]).assignment_name
}

} // verus!
