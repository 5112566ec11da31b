//! What the planner takes from outside: the writing of the time and the
//! regular expression engine; and what it hands to the script checker.
pub mod clock;
pub mod patterns;
pub mod shellcheck;
