//! What holds of every start-up, whatever outcomes its steps report.
use vstd::prelude::*;

use crate::plugin::Plugin;
use crate::startup::{
    Action, ExitStatus, Outcome, Step, StartupConfig, StartupModel, action_of, code_of,
    current_step, delivers_deep_links, initial, inv, lemma_initial_inv, lemma_next_state_inv,
    lemma_plan_shape, next_state, plan,
};

verus! {

/// The state reached from `m` when the steps report `outs`, in order.
pub open spec fn run(m: StartupModel, outs: Seq<Outcome>) -> StartupModel
    decreases outs.len(),
{
    if outs.len() == 0 {
        m
    } else {
        run(next_state(m, outs[0]), outs.subrange(1, outs.len() as int))
    }
}

/// `n` successful outcomes.
pub open spec fn all_done(n: nat) -> Seq<Outcome> {
    Seq::new(n, |i: int| Outcome::Done)
}

pub proof fn lemma_run_inv(m: StartupModel, outs: Seq<Outcome>)
    requires
        inv(m),
    ensures
        inv(run(m, outs)),
        run(m, outs).config == m.config,
    decreases outs.len(),
{
    if outs.len() > 0 {
        lemma_next_state_inv(m, outs[0]);
        lemma_run_inv(next_state(m, outs[0]), outs.subrange(1, outs.len() as int));
    }
}

/// Once the start-up has ended, nothing changes it.
pub proof fn lemma_run_after_exit(m: StartupModel, outs: Seq<Outcome>)
    requires
        m.exit is Some,
    ensures
        run(m, outs) == m,
    decreases outs.len(),
{
    if outs.len() > 0 {
        lemma_run_after_exit(next_state(m, outs[0]), outs.subrange(1, outs.len() as int));
    }
}

/// In a debug build the logging plugin is registered before the deep-link
/// handler and the sidecar steps come up; in a release build it never is.
pub proof fn lemma_logging_only_in_debug_and_first(c: StartupConfig, outs: Seq<Outcome>)
    ensures
        ({
            let m = run(initial(c), outs);
            &&& !c.debug ==> !m.plugins.contains(Plugin::Logging)
            &&& c.debug && (m.plugins.contains(Plugin::DeepLinkHandler) || m.spawn_attempts > 0
                || action_of(m) == Action::Perform(Step::Register(Plugin::DeepLinkHandler))
                || action_of(m) == Action::Perform(Step::SpawnSidecar))
                ==> m.plugins.contains(Plugin::Logging)
        }),
{
    let m = run(initial(c), outs);
    let s = plan(c);
    lemma_initial_inv(c);
    lemma_run_inv(initial(c), outs);
    lemma_plan_shape(c);
    let lg = Step::Register(Plugin::Logging);
    let dh = Step::Register(Plugin::DeepLinkHandler);
    if !c.debug && m.plugins.contains(Plugin::Logging) {
        let i = choose|i: int| 0 <= i < m.next && s[i] == lg;
        assert(s.contains(lg));
    }
    if c.debug {
        if m.plugins.contains(Plugin::DeepLinkHandler) {
            let i = choose|i: int| 0 <= i < m.next && s[i] == dh;
            assert(i == s.len() - 3);
        }
        if m.next >= s.len() - 3 {
            assert(0 <= s.len() - 4 < m.next && s[s.len() - 4] == lg);
        }
    }
}

/// The sidecar spawn is asked for at most once, and exactly once in every
/// start-up that ends normally.
pub proof fn lemma_sidecar_spawned_at_most_once(c: StartupConfig, outs: Seq<Outcome>)
    ensures
        run(initial(c), outs).spawn_attempts <= 1,
        run(initial(c), outs).exit == Some(ExitStatus::Normal) ==> run(initial(c), outs).spawn_attempts == 1,
{
    lemma_initial_inv(c);
    lemma_run_inv(initial(c), outs);
    lemma_plan_shape(c);
}

proof fn lemma_all_done_from(m: StartupModel, n: nat)
    requires
        inv(m),
        m.exit is None,
        n == plan(m.config).len() - m.next,
    ensures
        run(m, all_done(n)).exit == Some(ExitStatus::Normal),
    decreases n,
{
    let s = plan(m.config);
    lemma_plan_shape(m.config);
    lemma_next_state_inv(m, Outcome::Done);
    let outs = all_done(n);
    assert(outs.subrange(1, outs.len() as int) =~= all_done((n - 1) as nat));
    let m2 = next_state(m, Outcome::Done);
    if m.next == s.len() - 1 {
        assert(current_step(m) == Step::EnterRunLoop);
        assert(run(m2, all_done(0)) == m2);
    } else {
        match current_step(m) {
            Step::Register(p) => {
                if m.plugins.contains(p) {
                    let i = choose|i: int| 0 <= i < m.next && s[i] == Step::Register(p);
                    assert(s[i] == s[m.next as int]);
                }
            },
            Step::EnterRunLoop => {
                assert(s[s.len() - 1] == Step::EnterRunLoop);
            },
            _ => {},
        }
        assert(m2.exit is None && m2.next == m.next + 1);
        lemma_all_done_from(m2, (n - 1) as nat);
    }
}

/// Whatever the optional parts of the configuration, a start-up whose every
/// step succeeds enters the run loop, ends normally with exit code zero, and
/// has spawned the sidecar exactly once.
pub proof fn lemma_clean_start(c: StartupConfig)
    ensures
        ({
            let m = run(initial(c), all_done(plan(c).len()));
            &&& m.exit == Some(ExitStatus::Normal)
            &&& code_of(ExitStatus::Normal) == 0
            &&& m.spawn_attempts == 1
            &&& m.plugins.contains(Plugin::DeepLinkHandler)
        }),
{
    lemma_initial_inv(c);
    lemma_plan_shape(c);
    let m = run(initial(c), all_done(plan(c).len()));
    lemma_all_done_from(initial(c), plan(c).len());
    lemma_run_inv(initial(c), all_done(plan(c).len()));
    let s = plan(c);
    assert(0 <= s.len() - 3 < m.next && s[s.len() - 3] == Step::Register(Plugin::DeepLinkHandler));
}

/// A sidecar missing from the bundle ends the start-up with a non-zero exit
/// code before the run loop is entered, and nothing reported later changes that.
pub proof fn lemma_missing_sidecar_ends_startup(
    c: StartupConfig,
    before: Seq<Outcome>,
    after: Seq<Outcome>,
)
    requires
        action_of(run(initial(c), before)) == Action::Perform(Step::SpawnSidecar),
    ensures
        ({
            let e = run(next_state(run(initial(c), before), Outcome::Missing), after);
            &&& e.exit == Some(ExitStatus::SidecarMissing)
            &&& action_of(e) == Action::Exit(ExitStatus::SidecarMissing)
            &&& code_of(ExitStatus::SidecarMissing) != 0
            &&& e.next < plan(c).len() - 1
        }),
{
    let m = run(initial(c), before);
    lemma_initial_inv(c);
    lemma_run_inv(initial(c), before);
    lemma_plan_shape(c);
    let m2 = next_state(m, Outcome::Missing);
    lemma_run_after_exit(m2, after);
    let s = plan(c);
    assert(s[m.next as int] == Step::SpawnSidecar);
    assert(m.next < s.len() - 1);
}

/// While the sidecar spawn is still under way, incoming deep links are
/// delivered: nothing makes them wait for the sidecar.
pub proof fn lemma_deep_links_while_sidecar_pending(c: StartupConfig, outs: Seq<Outcome>)
    requires
        action_of(run(initial(c), outs)) == Action::Perform(Step::SpawnSidecar),
    ensures
        delivers_deep_links(run(initial(c), outs)),
{
    let m = run(initial(c), outs);
    lemma_initial_inv(c);
    lemma_run_inv(initial(c), outs);
    lemma_plan_shape(c);
    let s = plan(c);
    assert(s[m.next as int] == Step::SpawnSidecar);
    assert(m.next == s.len() - 2);
    assert(0 <= s.len() - 3 < m.next && s[s.len() - 3] == Step::Register(Plugin::DeepLinkHandler));
}

} // verus!
