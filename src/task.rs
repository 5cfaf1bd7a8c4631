use vstd::prelude::*;

verus! {

/// One work item: nine text fields and a whole number of hours.
#[derive(Clone, Debug)]
pub struct Task {
    pub rr: String,
    pub product_name: String,
    pub role: String,
    pub milestone: String,
    pub region: String,
    pub skills: String,
    pub assignment_tasks: String,
    pub hours_per_role_per_milestone: String,
    pub duration: String,
    pub hours: i64,
}

} // verus!
