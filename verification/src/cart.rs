use crate::catalog::swap_removed;
use crate::contract::{Contract, ContractView};
use crate::error::Error;
use crate::models::{Enrollment, EnrollmentStatus, EnrollmentView};
use crate::progress::transition;
use crate::seqs::lemma_deep_push;
use crate::consistency::{
    lemma_enrollment_removal_keeps_consistent, lemma_new_enrollment_keeps_consistent,
};
use crate::rows::{
    lemma_cart_removal_keeps_joined, lemma_new_enrollment_keeps_joined,
    lemma_rows_survive_cart_change,
};
use vstd::prelude::*;

verus! {

/// What putting a course into the caller's cart does to the platform.
///
/// The course and the caller must exist, the caller must not be the course's mentor, and
/// the caller must not have an enrollment in the course yet, whatever its status.
pub open spec fn save_course_to_cart_outcome(
    st: ContractView,
    caller: Seq<char>,
    course_id: u64,
    carted_at: u64,
) -> Result<ContractView, Error> {
    if st.course(course_id) is None || st.user(caller) is None {
        Err(Error::NotFound)
    } else if st.is_course_mentor(course_id, caller) {
        Err(Error::Unauthorized)
    } else if st.enrollment(course_id, caller) is Some {
        Err(Error::AlreadyExists)
    } else if st.enrollment_count == u64::MAX {
        Err(Error::CapacityExceeded)
    } else {
        Ok(
            ContractView {
                enrollments: st.enrollments.push(
                    EnrollmentView {
                        id: st.enrollment_count,
                        course_id,
                        student_id: caller,
                        status: EnrollmentStatus::Carted,
                        progress: 0,
                        carted_at,
                        enrolled_at: None,
                        completed_at: None,
                        course_review: None,
                        updated_at: carted_at,
                    },
                ),
                enrollment_count: (st.enrollment_count + 1) as u64,
                ..st
            },
        )
    }
}

/// What taking a course out of the caller's cart does to the platform.
pub open spec fn remove_course_from_cart_outcome(
    st: ContractView,
    caller: Seq<char>,
    course_id: u64,
) -> Result<ContractView, Error> {
    if st.course(course_id) is None || st.user(caller) is None {
        Err(Error::NotFound)
    } else {
        match st.enrollment_pos(course_id, caller) {
            None => Err(Error::NotFound),
            Some(e) => if st.enrollments[e].status != EnrollmentStatus::Carted {
                Err(Error::AlreadyInTerminalState)
            } else {
                Ok(ContractView { enrollments: swap_removed(st.enrollments, e), ..st })
            },
        }
    }
}

impl Contract {
    /// Puts a course into the caller's cart.
    pub fn save_course_to_cart(&mut self, caller: String, course_id: u64, carted_at: u64) -> (r:
        Result<(), Error>)
        ensures
            transition(
                r,
                old(self).deep_view(),
                final(self).deep_view(),
                save_course_to_cart_outcome(old(self).deep_view(), caller@, course_id, carted_at),
            ),
            old(self).deep_view().consistent() ==> final(self).deep_view().consistent(),
            old(self).deep_view().sound() ==> final(self).deep_view().sound(),
    {
        let c = match self.course_index(course_id) {
            Some(c) => c,
            None => {
                return Err(Error::NotFound);
            },
        };
        if self.user_index(&caller).is_none() {
            return Err(Error::NotFound);
        }
        if self.courses[c].mentor_id == caller {
            return Err(Error::Unauthorized);
        }
        if self.enrollment_index(course_id, &caller).is_some() {
            return Err(Error::AlreadyExists);
        }
        if self.enrollment_count == u64::MAX {
            return Err(Error::CapacityExceeded);
        }
        let enrollment = Enrollment {
            id: self.enrollment_count,
            course_id,
            student_id: caller,
            status: EnrollmentStatus::Carted,
            progress: 0,
            carted_at,
            enrolled_at: None,
            completed_at: None,
            course_review: None,
            updated_at: carted_at,
        };
        let ghost before = self.enrollments;
        self.enrollments.push(enrollment);
        self.enrollment_count = self.enrollment_count + 1;
        proof {
            lemma_deep_push(before, self.enrollments, enrollment);
            if old(self).deep_view().consistent() {
                lemma_new_enrollment_keeps_consistent(old(self).deep_view(), enrollment.deep_view());
            }
            if old(self).deep_view().sound() {
                lemma_new_enrollment_keeps_joined(old(self).deep_view(), enrollment.deep_view());
                lemma_rows_survive_cart_change(old(self).deep_view(), self.deep_view());
            }
        }
        Ok(())
    }

    /// Takes a course out of the caller's cart.
    pub fn remove_course_from_cart(&mut self, caller: String, course_id: u64) -> (r: Result<
        (),
        Error,
    >)
        ensures
            transition(
                r,
                old(self).deep_view(),
                final(self).deep_view(),
                remove_course_from_cart_outcome(old(self).deep_view(), caller@, course_id),
            ),
            old(self).deep_view().consistent() ==> final(self).deep_view().consistent(),
            old(self).deep_view().sound() ==> final(self).deep_view().sound(),
    {
        if self.course_index(course_id).is_none() {
            return Err(Error::NotFound);
        }
        if self.user_index(&caller).is_none() {
            return Err(Error::NotFound);
        }
        let e = match self.enrollment_index(course_id, &caller) {
            Some(e) => e,
            None => {
                return Err(Error::NotFound);
            },
        };
        if self.enrollments[e].status != EnrollmentStatus::Carted {
            return Err(Error::AlreadyInTerminalState);
        }
        self.enrollments.swap_remove(e);
        proof {
            assert(self.enrollments.deep_view() =~= swap_removed(
                old(self).deep_view().enrollments,
                e as int,
            ));
            if old(self).deep_view().consistent() {
                lemma_enrollment_removal_keeps_consistent(old(self).deep_view(), e as int);
            }
            if old(self).deep_view().sound() {
                lemma_cart_removal_keeps_joined(old(self).deep_view(), e as int);
                lemma_rows_survive_cart_change(old(self).deep_view(), self.deep_view());
            }
        }
        Ok(())
    }
}

} // verus!
