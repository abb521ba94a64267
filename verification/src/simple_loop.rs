//! The course of a laminar SIMPLE run: what is computed next, which fields are
//! kept, and when the run ends.

use crate::error::{Failure, MeshError};
use crate::text;
use vstd::prelude::*;

verus! {

/// Which velocity, pressure and flux an iteration leaves behind.
#[derive(Clone, Copy, Debug, Eq, PartialEq, Structural)]
pub enum KeptFields {
    /// Those from before the iteration.
    Previous,
    /// The velocity of the momentum predictor, with the flux before the
    /// pressure equation and the pressure from before the iteration.
    Predicted,
    /// The corrected velocity, pressure and flux.
    Corrected,
}

/// One iteration of a run.
#[derive(Clone, Copy, Debug, Eq, PartialEq, Structural)]
pub struct IterationRecord {
    pub iteration: usize,
    pub kept: KeptFields,
    pub pressure_correction_accepted: bool,
    pub momentum_linear_iterations: usize,
    pub pressure_linear_iterations: usize,
    /// Whether the velocity of the momentum predictor was usable.
    pub momentum_updated: bool,
}

/// What is to be done next.
#[derive(Clone, Copy, Debug, Eq, PartialEq, Structural)]
pub enum SimpleAction {
    /// Solve the momentum equation.
    Predict,
    /// Compute the flux and the continuity of the predicted velocity.
    Balance,
    /// Solve the pressure equation.
    SolvePressure,
    /// Correct velocity, pressure and flux.
    Correct,
    /// Compare the residuals and changes of the recorded iteration with their
    /// limits.
    Measure,
    /// Nothing: the run has ended.
    Finish,
}

/// How the residuals and changes of an iteration compare with their limits; a
/// residual without a limit has none.
#[derive(Clone, Copy, Debug, Eq, PartialEq, Structural)]
pub struct ConvergenceMeasures {
    pub continuity_within: bool,
    pub pressure_drop_within: bool,
    pub velocity_change_within: bool,
    pub pressure_change_within: bool,
    pub momentum_residual_within: Option<bool>,
    pub pressure_residual_within: Option<bool>,
}

/// The outcome of an action.
#[derive(Debug)]
pub enum SimpleEvent {
    /// The momentum equation was solved in this many linear iterations;
    /// `finite` says whether its solution and residual are finite.
    Predicted { iterations: usize, finite: bool },
    /// The flux of the predicted velocity is balanced up to the tolerance
    /// (`within`), or not; `finite` says whether the balance is finite.
    Balanced { finite: bool, within: bool },
    /// The pressure equation was solved in this many linear iterations.
    PressureSolved { iterations: usize },
    /// The pressure equation could not be solved.
    PressureFailed { error: MeshError },
    /// Velocity, pressure and flux were corrected; `finite` says whether they
    /// and their balance are finite.
    Corrected { finite: bool },
    /// The residuals and changes were compared with their limits.
    Measured(ConvergenceMeasures),
}

/// A run between two actions.
#[derive(Debug)]
pub struct SimpleRun {
    pub max_simple_iterations: usize,
    pub min_simple_iterations: usize,
    pub history: Vec<IterationRecord>,
    pub converged: bool,
    pub total_momentum_linear_iterations: usize,
    pub total_pressure_linear_iterations: usize,
    pub action: SimpleAction,
    /// The linear iterations of the momentum equation in the iteration that is
    /// under way.
    pub momentum_iterations: usize,
    /// Those of its pressure equation.
    pub pressure_iterations: usize,
}

/// The mathematical view of a [`SimpleRun`].
pub struct RunView {
    pub max_simple_iterations: nat,
    pub min_simple_iterations: nat,
    pub history: Seq<IterationRecord>,
    pub converged: bool,
    pub total_momentum: nat,
    pub total_pressure: nat,
    pub action: SimpleAction,
    pub momentum: nat,
    pub pressure: nat,
}

impl View for SimpleRun {
    type V = RunView;

    open spec fn view(&self) -> RunView {
        RunView {
            max_simple_iterations: self.max_simple_iterations as nat,
            min_simple_iterations: self.min_simple_iterations as nat,
            history: self.history@,
            converged: self.converged,
            total_momentum: self.total_momentum_linear_iterations as nat,
            total_pressure: self.total_pressure_linear_iterations as nat,
            action: self.action,
            momentum: self.momentum_iterations as nat,
            pressure: self.pressure_iterations as nat,
        }
    }
}

/// Whether an iteration ends the run as converged: not before the smallest
/// number of iterations, and with everything within its limit.
pub open spec fn is_converged(
    iteration: nat,
    min_simple_iterations: nat,
    measures: ConvergenceMeasures,
) -> bool {
    &&& iteration >= min_simple_iterations
    &&& measures.continuity_within
    &&& measures.pressure_drop_within
    &&& measures.velocity_change_within
    &&& measures.pressure_change_within
    &&& measures.momentum_residual_within != Some(false)
    &&& measures.pressure_residual_within != Some(false)
}

/// Whether a failure of the pressure equation ends the run without an error.
pub open spec fn is_breakdown(failure: Failure) -> bool {
    match failure {
        Failure::InvalidInput(message) => text::holds(
            message,
            "conjugate-gradient denominator is zero"@,
        ),
        _ => false,
    }
}

impl RunView {
    /// The iteration that is under way.
    pub open spec fn iteration(self) -> nat {
        self.history.len() + 1
    }

    /// The run after the iteration has been recorded.
    pub open spec fn recorded(self, kept: KeptFields, updated: bool, action: SimpleAction) -> RunView {
        RunView {
            history: self.history.push(
                IterationRecord {
                    iteration: self.iteration() as usize,
                    kept,
                    pressure_correction_accepted: kept == KeptFields::Corrected,
                    momentum_linear_iterations: self.momentum as usize,
                    pressure_linear_iterations: self.pressure as usize,
                    momentum_updated: updated,
                },
            ),
            action,
            ..self
        }
    }

    /// What follows an iteration that did not end the run.
    pub open spec fn next_action(self) -> SimpleAction {
        if self.history.len() < self.max_simple_iterations {
            SimpleAction::Predict
        } else {
            SimpleAction::Finish
        }
    }

    /// The run after the action at hand had this outcome; no outcome of
    /// another action is expected.
    pub open spec fn after(self, event: SimpleEvent) -> Result<RunView, Failure> {
        match (self.action, event) {
            (SimpleAction::Predict, SimpleEvent::Predicted { iterations, finite }) => {
                let run = RunView { momentum: iterations as nat, pressure: 0, ..self };
                if !finite {
                    Ok(run.recorded(KeptFields::Previous, false, SimpleAction::Finish))
                } else {
                    Ok(
                        RunView {
                            total_momentum: self.total_momentum + iterations as nat,
                            action: SimpleAction::Balance,
                            ..run
                        },
                    )
                }
            },
            (SimpleAction::Balance, SimpleEvent::Balanced { finite, within }) => if !finite {
                Ok(self.recorded(KeptFields::Previous, true, SimpleAction::Finish))
            } else if within {
                Ok(self.recorded(KeptFields::Predicted, true, SimpleAction::Measure))
            } else {
                Ok(RunView { action: SimpleAction::SolvePressure, ..self })
            },
            (SimpleAction::SolvePressure, SimpleEvent::PressureSolved { iterations }) => Ok(
                RunView {
                    pressure: iterations as nat,
                    total_pressure: self.total_pressure + iterations as nat,
                    action: SimpleAction::Correct,
                    ..self
                },
            ),
            (SimpleAction::SolvePressure, SimpleEvent::PressureFailed { error }) => if is_breakdown(
                error@,
            ) {
                Ok(self.recorded(KeptFields::Predicted, true, SimpleAction::Finish))
            } else {
                Err(
                    Failure::InvalidInput(
                        "laminar SIMPLE pressure correction solve failed: "@
                            + crate::error::failure_text(error@),
                    ),
                )
            },
            (SimpleAction::Correct, SimpleEvent::Corrected { finite }) => if finite {
                Ok(self.recorded(KeptFields::Corrected, true, SimpleAction::Measure))
            } else {
                Ok(self.recorded(KeptFields::Predicted, true, SimpleAction::Finish))
            },
            (SimpleAction::Measure, SimpleEvent::Measured(measures)) => if is_converged(
                self.history.len(),
                self.min_simple_iterations,
                measures,
            ) {
                Ok(RunView { converged: true, action: SimpleAction::Finish, ..self })
            } else {
                Ok(RunView { action: self.next_action(), ..self })
            },
            _ => Ok(self),
        }
    }

    /// Whether an event is the outcome of the action at hand.
    pub open spec fn expects(self, event: SimpleEvent) -> bool {
        match (self.action, event) {
            (SimpleAction::Predict, SimpleEvent::Predicted { .. }) => true,
            (SimpleAction::Balance, SimpleEvent::Balanced { .. }) => true,
            (SimpleAction::SolvePressure, SimpleEvent::PressureSolved { .. }) => true,
            (SimpleAction::SolvePressure, SimpleEvent::PressureFailed { .. }) => true,
            (SimpleAction::Correct, SimpleEvent::Corrected { .. }) => true,
            (SimpleAction::Measure, SimpleEvent::Measured(_)) => true,
            _ => false,
        }
    }

    /// Whether the linear iterations of an event can be counted.
    pub open spec fn countable(self, event: SimpleEvent) -> bool {
        match event {
            SimpleEvent::Predicted { iterations, .. } => self.total_momentum + iterations
                <= usize::MAX,
            SimpleEvent::PressureSolved { iterations } => self.total_pressure + iterations
                <= usize::MAX,
            _ => true,
        }
    }

    /// What holds of a run at any time: the iterations are numbered from one
    /// on and never exceed the limit, the totals count the recorded linear
    /// iterations and those that are under way, only a corrected iteration is
    /// accepted, and a converged run has ended after at least the smallest
    /// number of iterations.
    pub open spec fn valid(self) -> bool {
        &&& self.max_simple_iterations >= 1
        &&& self.history.len() <= self.max_simple_iterations
        &&& (self.action == SimpleAction::Predict || self.action == SimpleAction::Balance
            || self.action == SimpleAction::SolvePressure || self.action == SimpleAction::Correct)
            ==> self.history.len() < self.max_simple_iterations
        &&& self.action == SimpleAction::Measure ==> self.history.len() > 0
        &&& self.action == SimpleAction::Finish ==> self.history.len() > 0
        &&& (self.action == SimpleAction::Balance || self.action == SimpleAction::SolvePressure)
            ==> self.pressure == 0
        &&& forall|i: int|
            0 <= i < self.history.len() ==> (#[trigger] self.history[i]).iteration == i + 1
        &&& forall|i: int|
            0 <= i < self.history.len() ==> (
            #[trigger] self.history[i]).pressure_correction_accepted == (self.history[i].kept
                == KeptFields::Corrected)
        &&& self.total_pressure == pressure_sum(self.history) + if self.action
            == SimpleAction::Correct {
            self.pressure
        } else {
            0
        }
        &&& self.total_momentum == momentum_sum(self.history) + if self.action
            == SimpleAction::Balance || self.action == SimpleAction::SolvePressure || self.action
            == SimpleAction::Correct {
            self.momentum
        } else {
            0
        }
        &&& self.converged ==> self.action == SimpleAction::Finish && self.history.len()
            >= self.min_simple_iterations
    }
}

/// The linear iterations of the recorded pressure equations.
pub open spec fn pressure_sum(history: Seq<IterationRecord>) -> nat
    decreases history.len(),
{
    if history.len() == 0 {
        0
    } else {
        pressure_sum(history.drop_last()) + history.last().pressure_linear_iterations as nat
    }
}

/// The linear iterations of the recorded momentum equations whose solution
/// was usable.
pub open spec fn momentum_sum(history: Seq<IterationRecord>) -> nat
    decreases history.len(),
{
    if history.len() == 0 {
        0
    } else {
        momentum_sum(history.drop_last()) + if history.last().momentum_updated {
            history.last().momentum_linear_iterations as nat
        } else {
            0
        }
    }
}

/// A run at its beginning.
pub open spec fn begun(max_simple_iterations: nat, min_simple_iterations: nat) -> RunView {
    RunView {
        max_simple_iterations,
        min_simple_iterations,
        history: Seq::empty(),
        converged: false,
        total_momentum: 0,
        total_pressure: 0,
        action: SimpleAction::Predict,
        momentum: 0,
        pressure: 0,
    }
}

/// What holds of a run at any time holds at its beginning.
pub proof fn begun_is_valid(max_simple_iterations: nat, min_simple_iterations: nat)
    requires
        max_simple_iterations >= 1,
    ensures
        begun(max_simple_iterations, min_simple_iterations).valid(),
{
}

/// What holds of a run at any time holds after every expected event.
pub proof fn after_is_valid(run: RunView, event: SimpleEvent)
    requires
        run.valid(),
        run.max_simple_iterations <= usize::MAX,
        run.total_momentum <= usize::MAX,
        run.total_pressure <= usize::MAX,
        run.momentum <= usize::MAX,
        run.pressure <= usize::MAX,
        run.expects(event),
        run.after(event) is Ok,
    ensures
        run.after(event)->Ok_0.valid(),
{
    let next = run.after(event)->Ok_0;
    if next.history.len() > run.history.len() {
        assert(next.history.drop_last() =~= run.history);
    }
}

/// Every expected event brings the end of a run nearer: the iterations are
/// bounded, and so are the actions of an iteration.
pub proof fn run_ends(run: RunView, event: SimpleEvent)
    requires
        run.valid(),
        run.expects(event),
        run.after(event) is Ok,
    ensures
        remaining(run.after(event)->Ok_0) < remaining(run),
{
}

/// A bound on how many actions are left.
pub open spec fn remaining(run: RunView) -> int {
    5 * (run.max_simple_iterations - run.history.len()) + match run.action {
        SimpleAction::Predict => 5int,
        SimpleAction::Balance => 4,
        SimpleAction::SolvePressure => 3,
        SimpleAction::Correct => 2,
        SimpleAction::Measure => 6,
        SimpleAction::Finish => 0,
    }
}

/// Whether an iteration ends the run as converged.
pub fn laminar_simple_converged(
    iteration: usize,
    min_simple_iterations: usize,
    measures: &ConvergenceMeasures,
) -> (yes: bool)
    ensures
        yes == is_converged(iteration as nat, min_simple_iterations as nat, *measures),
{
    let momentum = match measures.momentum_residual_within {
        Some(within) => within,
        None => true,
    };
    let pressure = match measures.pressure_residual_within {
        Some(within) => within,
        None => true,
    };
    iteration >= min_simple_iterations && measures.continuity_within
        && measures.pressure_drop_within && measures.velocity_change_within
        && measures.pressure_change_within && momentum && pressure
}

/// Whether a failure of the pressure equation ends the run without an error.
pub fn is_pressure_correction_breakdown(error: &MeshError) -> (yes: bool)
    ensures
        yes == is_breakdown(error@),
{
    match error {
        MeshError::InvalidInput(message) => text::contains(
            message.as_str(),
            "conjugate-gradient denominator is zero",
        ),
        _ => false,
    }
}

impl SimpleRun {
    /// A run at its beginning.
    pub fn new(max_simple_iterations: usize, min_simple_iterations: usize) -> (run: SimpleRun)
        requires
            max_simple_iterations >= 1,
        ensures
            run@ == begun(max_simple_iterations as nat, min_simple_iterations as nat),
            run@.valid(),
    {
        let run = SimpleRun {
            max_simple_iterations,
            min_simple_iterations,
            history: Vec::new(),
            converged: false,
            total_momentum_linear_iterations: 0,
            total_pressure_linear_iterations: 0,
            action: SimpleAction::Predict,
            momentum_iterations: 0,
            pressure_iterations: 0,
        };
        assert(run@ == begun(max_simple_iterations as nat, min_simple_iterations as nat));
        run
    }

    fn record(&mut self, kept: KeptFields, updated: bool, action: SimpleAction)
        requires
            old(self)@.history.len() < old(self)@.max_simple_iterations,
        ensures
            final(self)@ == old(self)@.recorded(kept, updated, action),
    {
        let iteration: usize = self.history.len() + 1;
        self.history.push(
            IterationRecord {
                iteration,
                kept,
                pressure_correction_accepted: kept == KeptFields::Corrected,
                momentum_linear_iterations: self.momentum_iterations,
                pressure_linear_iterations: self.pressure_iterations,
                momentum_updated: updated,
            },
        );
        self.action = action;
    }

    /// Takes the outcome of the action at hand, which decides the next one. An
    /// outcome of another action changes nothing.
    pub fn advance(&mut self, event: SimpleEvent) -> (out: Result<(), MeshError>)
        requires
            old(self)@.valid(),
            old(self)@.countable(event),
        ensures
            match out {
                Ok(_) => old(self)@.after(event) == Ok::<RunView, Failure>(final(self)@),
                Err(error) => old(self)@.after(event) == Err::<RunView, Failure>(error@)
                    && final(self)@ == old(self)@,
            },
            out is Ok ==> final(self)@.valid(),
    {
        let ghost before = self@;
        let ghost given = event;
        match (self.action, event) {
            (SimpleAction::Predict, SimpleEvent::Predicted { iterations, finite }) => {
                self.momentum_iterations = iterations;
                self.pressure_iterations = 0;
                if !finite {
                    self.record(KeptFields::Previous, false, SimpleAction::Finish);
                } else {
                    self.total_momentum_linear_iterations += iterations;
                    self.action = SimpleAction::Balance;
                }
            },
            (SimpleAction::Balance, SimpleEvent::Balanced { finite, within }) => {
                if !finite {
                    self.record(KeptFields::Previous, true, SimpleAction::Finish);
                } else if within {
                    self.record(KeptFields::Predicted, true, SimpleAction::Measure);
                } else {
                    self.action = SimpleAction::SolvePressure;
                }
            },
            (SimpleAction::SolvePressure, SimpleEvent::PressureSolved { iterations }) => {
                self.pressure_iterations = iterations;
                self.total_pressure_linear_iterations += iterations;
                self.action = SimpleAction::Correct;
            },
            (SimpleAction::SolvePressure, SimpleEvent::PressureFailed { error }) => {
                if is_pressure_correction_breakdown(&error) {
                    self.record(KeptFields::Predicted, true, SimpleAction::Finish);
                } else {
                    let mut message =
                        "laminar SIMPLE pressure correction solve failed: ".to_string();
                    message.append(error.to_string().as_str());
                    return Err(MeshError::InvalidInput(message));
                }
            },
            (SimpleAction::Correct, SimpleEvent::Corrected { finite }) => {
                if finite {
                    self.record(KeptFields::Corrected, true, SimpleAction::Measure);
                } else {
                    self.record(KeptFields::Predicted, true, SimpleAction::Finish);
                }
            },
            (SimpleAction::Measure, SimpleEvent::Measured(measures)) => {
                if laminar_simple_converged(
                    self.history.len(),
                    self.min_simple_iterations,
                    &measures,
                ) {
                    self.converged = true;
                    self.action = SimpleAction::Finish;
                } else if self.history.len() < self.max_simple_iterations {
                    self.action = SimpleAction::Predict;
                } else {
                    self.action = SimpleAction::Finish;
                }
            },
            _ => {},
        }
        proof {
            if before.expects(given) {
                after_is_valid(before, given);
            }
        }
        Ok(())
    }
}

/// A run is reported as converged only by an iteration that is within the
/// tolerances of the continuity, the pressure drop and both changes, and above
/// none of the residual limits that are configured; and not too early.
pub proof fn converged_only_within_limits(run: RunView, event: SimpleEvent)
    requires
        !run.converged,
        run.after(event) is Ok,
        run.after(event)->Ok_0.converged,
    ensures
        event matches SimpleEvent::Measured(measures) && {
            &&& measures.continuity_within
            &&& measures.pressure_drop_within
            &&& measures.velocity_change_within
            &&& measures.pressure_change_within
            &&& (measures.momentum_residual_within matches Some(within) ==> within)
            &&& (measures.pressure_residual_within matches Some(within) ==> within)
        },
        run.action == SimpleAction::Measure,
        run.history.len() >= run.min_simple_iterations,
        run.after(event)->Ok_0.action == SimpleAction::Finish,
{
}

/// An iteration late enough that is within all its limits ends the run as
/// converged.
pub proof fn all_within_converges(run: RunView, measures: ConvergenceMeasures)
    requires
        run.action == SimpleAction::Measure,
        run.history.len() >= run.min_simple_iterations,
        measures.continuity_within,
        measures.pressure_drop_within,
        measures.velocity_change_within,
        measures.pressure_change_within,
        measures.momentum_residual_within is None || measures.momentum_residual_within->0,
        measures.pressure_residual_within is None || measures.pressure_residual_within->0,
    ensures
        run.after(SimpleEvent::Measured(measures)) matches Ok(next) && next.converged
            && next.action == SimpleAction::Finish && next.history == run.history,
{
}

/// Whether an iteration is converged is decided by its limits alone: each limit
/// that is not kept, and each iteration too few, is enough to refuse it, and
/// nothing else is.
pub proof fn one_limit_is_enough(iteration: nat, least: nat, measures: ConvergenceMeasures)
    ensures
        !is_converged(iteration, least, measures) <==> iteration < least
            || !measures.continuity_within || !measures.pressure_drop_within
            || !measures.velocity_change_within || !measures.pressure_change_within
            || measures.momentum_residual_within == Some(false)
            || measures.pressure_residual_within == Some(false),
{
}

/// An iteration that has not converged is followed by another one while the
/// limit of iterations allows it, and is otherwise the last.
pub proof fn unconverged_run_goes_on(run: RunView, measures: ConvergenceMeasures)
    requires
        run.valid(),
        run.action == SimpleAction::Measure,
        !measures.continuity_within || !measures.pressure_drop_within
            || !measures.velocity_change_within || !measures.pressure_change_within
            || measures.momentum_residual_within == Some(false)
            || measures.pressure_residual_within == Some(false) || run.history.len()
            < run.min_simple_iterations,
    ensures
        run.after(SimpleEvent::Measured(measures)) matches Ok(next) && {
            &&& !next.converged
            &&& next.history == run.history
            &&& next.action == SimpleAction::Predict <==> run.history.len()
                < run.max_simple_iterations
            &&& next.action == SimpleAction::Finish <==> run.history.len()
                == run.max_simple_iterations
        },
{
}

/// An event adds at most one iteration, and leaves those before it as they are.
pub proof fn history_only_grows(run: RunView, event: SimpleEvent)
    requires
        run.after(event) is Ok,
    ensures
        ({
            let next = run.after(event)->Ok_0;
            &&& run.history.len() <= next.history.len() <= run.history.len() + 1
            &&& next.history.take(run.history.len() as int) == run.history
            &&& next.max_simple_iterations == run.max_simple_iterations
            &&& next.min_simple_iterations == run.min_simple_iterations
            &&& run.total_momentum <= next.total_momentum
            &&& run.total_pressure <= next.total_pressure
        }),
{
    let next = run.after(event)->Ok_0;
    assert(next.history.take(run.history.len() as int) =~= run.history);
}

/// The pressure equation is solved where the predicted flux is finite and out of
/// balance, and only there.
pub proof fn pressure_is_solved_iff_unbalanced(run: RunView, event: SimpleEvent)
    requires
        run.valid(),
        run.expects(event),
        run.after(event) is Ok,
    ensures
        run.after(event)->Ok_0.action == SimpleAction::SolvePressure <==> (event
            matches SimpleEvent::Balanced { finite, within } && finite && !within),
        run.after(event)->Ok_0.action == SimpleAction::Balance <==> (event
            matches SimpleEvent::Predicted { finite, .. } && finite),
        run.after(event)->Ok_0.action == SimpleAction::Correct <==> (event
            is PressureSolved),
{
}

/// Numbers that are not finite are never kept: the iteration that met them keeps
/// the last fields that are usable, and ends the run without convergence.
pub proof fn broken_fields_are_dropped(run: RunView, event: SimpleEvent)
    requires
        run.valid(),
        run.expects(event),
        match event {
            SimpleEvent::Predicted { finite, .. } => !finite,
            SimpleEvent::Balanced { finite, .. } => !finite,
            SimpleEvent::Corrected { finite } => !finite,
            _ => false,
        },
    ensures
        run.after(event) matches Ok(next) && {
            &&& next.action == SimpleAction::Finish
            &&& !next.converged
            &&& next.history.len() == run.history.len() + 1
            &&& !next.history.last().pressure_correction_accepted
            &&& next.history.last().kept == (if event is Corrected {
                KeptFields::Predicted
            } else {
                KeptFields::Previous
            })
            &&& next.history.last().momentum_updated == !(event is Predicted)
        },
{
}

/// An iteration keeps the corrected fields where the correction is finite, and
/// the predicted ones where their flux is balanced already; either is measured.
pub proof fn usable_fields_are_kept(run: RunView, event: SimpleEvent)
    requires
        run.valid(),
        run.expects(event),
        match event {
            SimpleEvent::Balanced { finite, within } => finite && within,
            SimpleEvent::Corrected { finite } => finite,
            _ => false,
        },
    ensures
        run.after(event) matches Ok(next) && {
            &&& next.action == SimpleAction::Measure
            &&& next.history.len() == run.history.len() + 1
            &&& next.history.last().kept == (if event is Corrected {
                KeptFields::Corrected
            } else {
                KeptFields::Predicted
            })
            &&& next.history.last().pressure_correction_accepted == (event is Corrected)
            &&& next.history.last().momentum_updated
            &&& next.history.last().momentum_linear_iterations == run.momentum as usize
            &&& next.history.last().pressure_linear_iterations == run.pressure as usize
        },
{
}

/// The linear iterations of an equation are those of the event that solved it,
/// and are added to the total of that equation alone.
pub proof fn linear_iterations_are_counted(run: RunView, event: SimpleEvent)
    requires
        run.valid(),
        run.expects(event),
        run.after(event) is Ok,
    ensures
        ({
            let next = run.after(event)->Ok_0;
            &&& (event matches SimpleEvent::Predicted { iterations, finite } ==> {
                &&& next.momentum == iterations
                &&& next.pressure == 0
                &&& finite ==> next.total_momentum == run.total_momentum + iterations
                &&& !finite ==> next.history.last().momentum_linear_iterations == iterations
            })
            &&& (event matches SimpleEvent::PressureSolved { iterations } ==> next.pressure
                == iterations && next.total_pressure == run.total_pressure + iterations)
            &&& !(event is Predicted) ==> next.momentum == run.momentum && next.total_momentum
                == run.total_momentum
            &&& !(event is PressureSolved) ==> next.total_pressure == run.total_pressure
        }),
{
}

/// A pressure equation that breaks down keeps the predicted fields and ends the
/// run unconverged; any other failure of it is the failure of the run, whose text
/// ends with the one of the equation.
pub proof fn breakdown_is_no_failure(run: RunView, error: MeshError)
    requires
        run.action == SimpleAction::SolvePressure,
        !run.converged,
    ensures
        match run.after(SimpleEvent::PressureFailed { error }) {
            Ok(next) => {
                &&& error is InvalidInput
                &&& next.action == SimpleAction::Finish
                &&& !next.converged
                &&& next.history.len() == run.history.len() + 1
                &&& next.history.last().kept == KeptFields::Predicted
                &&& !next.history.last().pressure_correction_accepted
            },
            Err(failure) => failure matches Failure::InvalidInput(message)
                && crate::error::failure_text(error@).is_suffix_of(message),
        },
{
    if !is_breakdown(error@) {
        let head = "laminar SIMPLE pressure correction solve failed: "@;
        let tail = crate::error::failure_text(error@);
        let all = head + tail;
        assert(all.subrange(all.len() - tail.len(), all.len() as int) =~= tail);
    }
}

/// A failure that speaks of a zero denominator of the conjugate gradients, in
/// whatever surroundings, is a breakdown; one of another kind never is.
pub proof fn zero_denominator_is_breakdown(before: Seq<char>, after: Seq<char>, line: nat)
    ensures
        is_breakdown(
            Failure::InvalidInput(before + "conjugate-gradient denominator is zero"@ + after),
        ),
        !is_breakdown(Failure::Io(before)),
        !is_breakdown(Failure::Parse { line, message: before }),
{
    let words = "conjugate-gradient denominator is zero"@;
    let all = before + words + after;
    let at = before.len() as int;
    assert(all.subrange(at, at + words.len()) =~= words);
}

} // verus!
