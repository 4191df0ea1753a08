//! The registry's laws: properties that relate several operations, or
//! that every reachable state keeps, stated over the spec-level roster
//! and gradebook operations that the operations' contracts use.

use vstd::prelude::*;

use crate::Handle;
use crate::model::GradeView;
use crate::model::StudentRefView;
use crate::model::first_grade_index;
use crate::model::grades_wf;
use crate::model::has_grade;
use crate::model::lemma_first_grade_index_of_match;
use crate::model::lemma_first_grade_index_props;
use crate::model::lemma_roster_count_push;
use crate::model::lemma_roster_count_zero;
use crate::model::roster_contains;
use crate::model::roster_count;
use crate::model::roster_without;
use crate::model::unique_assignments;
use crate::model::upsert_grade;
use crate::model::without_grade;

verus! {

/// After a successful enrolment — which `add_student` only grants when
/// the handle is not yet on the roster — the roster carries exactly one
/// entry with the new student's handle.
pub proof fn lemma_enrolment_adds_exactly_one(
    roster: Seq<StudentRefView>,
    name: Seq<char>,
    student: Handle,
)
    requires
        !roster_contains(roster, student),
    ensures
        roster_contains(roster.push((StudentRefView { name, pubkey: student })), student),
        roster_count(roster.push((StudentRefView { name, pubkey: student })), student) == 1,
{
    let entry = StudentRefView { name, pubkey: student };
    lemma_roster_count_zero(roster, student);
    lemma_roster_count_push(roster, student, entry);
    assert(roster.push(entry)[roster.len() as int].pubkey == student);
}

/// Every grade a successful assignment leaves behind respects its
/// bounds: the recorded entry does, and the others are untouched.
pub proof fn lemma_grade_invariant_preserved(grades: Seq<GradeView>, g: GradeView)
    requires
        grades_wf(grades),
        g.grade <= g.max_grade,
        g.max_grade > 0,
    ensures
        grades_wf(upsert_grade(grades, g)),
{
    if has_grade(grades, g.assignment_name) {
        lemma_first_grade_index_props(grades, g.assignment_name);
    }
}

/// Assigning the same assignment name twice overwrites in place: the
/// second assignment lands where the first did, the list grows by
/// nothing, and the outcome is as if only the second had happened.
pub proof fn lemma_regrade_overwrites_in_place(grades: Seq<GradeView>, g1: GradeView, g2: GradeView)
    requires
        g1.assignment_name == g2.assignment_name,
    ensures
        upsert_grade(upsert_grade(grades, g1), g2) == upsert_grade(grades, g2),
        upsert_grade(upsert_grade(grades, g1), g2).len() == upsert_grade(grades, g1).len(),
{
    let name = g1.assignment_name;
    let once = upsert_grade(grades, g1);
    if has_grade(grades, name) {
        lemma_first_grade_index_props(grades, name);
        let i = first_grade_index(grades, name);
        assert(once == grades.update(i, g1));
        assert(once[i].assignment_name == name);
        assert forall|j: int| 0 <= j < i implies (#[trigger] once[j]).assignment_name != name by {
            assert(once[j] == grades[j]);
        }
        lemma_first_grade_index_of_match(once, name, i);
        assert(upsert_grade(once, g2) =~= upsert_grade(grades, g2));
    } else {
        let i = grades.len() as int;
        assert(once == grades.push(g1));
        assert(once[i].assignment_name == name);
        assert forall|j: int| 0 <= j < i implies (#[trigger] once[j]).assignment_name != name by {
            assert(once[j] == grades[j]);
        }
        lemma_first_grade_index_of_match(once, name, i);
        assert(upsert_grade(once, g2) =~= upsert_grade(grades, g2));
    }
}

/// Removing a handle that is not on the roster is a no-op: the roster
/// after equals the roster before.
pub proof fn lemma_remove_absent_student_noop(roster: Seq<StudentRefView>, student: Handle)
    requires
        !roster_contains(roster, student),
    ensures
        roster_without(roster, student) == roster,
    decreases roster.len(),
{
    reveal(Seq::filter);
    if roster.len() > 0 {
        let prefix = roster.drop_last();
        assert forall|i: int| 0 <= i < prefix.len() implies (#[trigger] prefix[i]).pubkey
            != student by {
            assert(prefix[i] == roster[i]);
        }
        lemma_remove_absent_student_noop(prefix, student);
        assert(roster[roster.len() - 1].pubkey != student);
        assert(roster_without(roster, student) =~= roster);
    }
}

/// Deleting a name that no grade entry carries is a no-op.
pub proof fn lemma_delete_absent_grade_noop(grades: Seq<GradeView>, name: Seq<char>)
    requires
        !has_grade(grades, name),
    ensures
        without_grade(grades, name) == grades,
    decreases grades.len(),
{
    reveal(Seq::filter);
    if grades.len() > 0 {
        let prefix = grades.drop_last();
        assert forall|i: int| 0 <= i < prefix.len() implies (#[trigger] prefix[i]).assignment_name
            != name by {
            assert(prefix[i] == grades[i]);
        }
        lemma_delete_absent_grade_noop(prefix, name);
        assert(grades[grades.len() - 1].assignment_name != name);
        assert(without_grade(grades, name) =~= grades);
    }
}

/// A deletion leaves no entry of the deleted name behind.
pub proof fn lemma_delete_removes_name(grades: Seq<GradeView>, name: Seq<char>)
    ensures
        !has_grade(without_grade(grades, name), name),
    decreases grades.len(),
{
    reveal(Seq::filter);
    if grades.len() > 0 {
        lemma_delete_removes_name(grades.drop_last(), name);
    }
}

/// Assignment names stay pairwise distinct across any assignment: the
/// gradebook never grows a duplicate entry.
pub proof fn lemma_upsert_keeps_unique_names(grades: Seq<GradeView>, g: GradeView)
    requires
        unique_assignments(grades),
    ensures
        unique_assignments(upsert_grade(grades, g)),
{
    let name = g.assignment_name;
    if has_grade(grades, name) {
        lemma_first_grade_index_props(grades, name);
        let i = first_grade_index(grades, name);
        let out = grades.update(i, g);
        assert forall|p: int, q: int|
            0 <= p < q < out.len() implies (#[trigger] out[p]).assignment_name != (
        #[trigger] out[q]).assignment_name by {
            if p != i && q != i {
                assert(out[p] == grades[p] && out[q] == grades[q]);
            } else if p == i {
                assert(out[q] == grades[q]);
                assert(grades[q].assignment_name != grades[i].assignment_name);
            } else {
                assert(out[p] == grades[p]);
                assert(grades[p].assignment_name != grades[i].assignment_name);
            }
        }
    } else {
        let out = grades.push(g);
        assert forall|p: int, q: int|
            0 <= p < q < out.len() implies (#[trigger] out[p]).assignment_name != (
        #[trigger] out[q]).assignment_name by {
            if q == grades.len() {
                assert(out[p] == grades[p]);
                assert(!(grades[p].assignment_name == name));
            } else {
                assert(out[p] == grades[p] && out[q] == grades[q]);
            }
        }
    }
}

} // verus!
