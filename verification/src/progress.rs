//! Progress reporting: a spinner on standard output that is ticked once per
//! appended entry and told once, at the very end, whether the run succeeded.
//! When disabled, the reporter makes no terminal calls at all.

use vstd::prelude::*;

use crate::tools::u64_to_string;

verus! {

#[verifier::external_type_specification]
#[verifier::external_body]
pub struct ExSpinningCircle(better_progress::SpinningCircle);

/// Relies on better_progress::SpinningCircle::new: a fresh spinner with an
/// empty job title.
#[verifier::external_body]
fn circle_new() -> better_progress::SpinningCircle {
    better_progress::SpinningCircle::new()
}

/// Relies on better_progress::SpinningCircle::set_job_title: replaces the
/// spinner's label and redraws it on standard output. The crate unwraps a
/// flush of standard output while drawing, so it panics if that stream has
/// failed — an environment condition no precondition can exclude.
#[verifier::external_body]
fn circle_set_title(c: &mut better_progress::SpinningCircle, title: &String) {
    c.set_job_title(title.as_str());
}

/// Relies on better_progress::SpinningCircle::tick: advances and redraws the
/// spinner on standard output; the same stdout-failure panic caveat as
/// `circle_set_title` applies.
#[verifier::external_body]
fn circle_tick(c: &mut better_progress::SpinningCircle) {
    c.tick();
}

/// Relies on better_progress::SpinningCircle::jobs_done: draws the finished
/// symbol and moves to the next line on standard output; the same
/// stdout-failure panic caveat as `circle_set_title` applies.
#[verifier::external_body]
fn circle_done(c: &better_progress::SpinningCircle, clean: bool) {
    c.jobs_done(clean);
}

/// Receives per-entry ticks and one final done signal. Purely observational:
/// it has no effect on packing semantics, and when disabled it skips the
/// terminal calls entirely.
pub struct ProgressReporter {
    enabled: bool,
    circle: better_progress::SpinningCircle,
}

impl ProgressReporter {
    /// Sets up the reporter; when enabled, announces that packing started.
    pub fn new(enabled: bool) -> ProgressReporter {
        let mut circle = circle_new();
        if enabled {
            circle_set_title(&mut circle, &String::from_str("Packing..."));
        }
        ProgressReporter { enabled, circle }
    }

    /// Reports one more completed entry; called after the entry was appended.
    pub fn on_tick(&mut self, completed: usize) {
        if self.enabled {
            let mut title = u64_to_string(completed as u64);
            title.append(" files packed");
            circle_set_title(&mut self.circle, &title);
            circle_tick(&mut self.circle);
        }
    }

    /// Reports the invocation's outcome; called exactly once, at the end.
    pub fn on_done(&mut self, success: bool) {
        if self.enabled {
            circle_done(&self.circle, success);
        }
    }
}

} // verus!
