use vstd::prelude::*;

verus! {

/// The state of one console session.  `Disconnected` is terminal: reaching
/// it ends the session.
#[derive(PartialEq, Eq, Structural, Clone, Copy, Debug)]
pub enum SessionState {
    Connected,
    Reconnecting,
    Disconnected,
}

/// One connection-level event the supervisor reacts to.
#[derive(PartialEq, Eq, Structural, Clone, Copy, Debug)]
pub enum ConnEvent {
    /// Data arrived on a read.
    Data,
    /// A read timed out: expected, silent, not an error.
    Timeout,
    /// A read or write failed in a way that means the connection is gone.
    IoError,
    /// A reopen attempt succeeded.
    OpenOk,
    /// A reopen attempt failed.
    OpenFailed,
    /// The user pressed an exit key.
    Quit,
}

/// The session transition relation: timeouts are silent, an I/O error
/// triggers reconnection exactly when it is enabled and is fatal otherwise,
/// a successful reopen reconnects, and the quit key ends the session from
/// every state.
pub open spec fn step_spec(state: SessionState, event: ConnEvent, reconnect_enabled: bool) -> SessionState {
    if state == SessionState::Disconnected {
        SessionState::Disconnected
    } else if event == ConnEvent::Quit {
        SessionState::Disconnected
    } else if state == SessionState::Connected {
        if event == ConnEvent::IoError {
            if reconnect_enabled {
                SessionState::Reconnecting
            } else {
                SessionState::Disconnected
            }
        } else {
            SessionState::Connected
        }
    } else {
        // Reconnecting
        if event == ConnEvent::OpenOk {
            SessionState::Connected
        } else {
            SessionState::Reconnecting
        }
    }
}

/// Applies the session transition relation to one event.  Both transports
/// share this one reconnect policy.
pub fn session_step(state: SessionState, event: ConnEvent, reconnect_enabled: bool) -> (r: SessionState)
    ensures
        r == step_spec(state, event, reconnect_enabled),
{
    match state {
        SessionState::Disconnected => SessionState::Disconnected,
        SessionState::Connected => match event {
            ConnEvent::Quit => SessionState::Disconnected,
            ConnEvent::IoError => if reconnect_enabled {
                SessionState::Reconnecting
            } else {
                SessionState::Disconnected
            },
            _ => SessionState::Connected,
        },
        SessionState::Reconnecting => match event {
            ConnEvent::Quit => SessionState::Disconnected,
            ConnEvent::OpenOk => SessionState::Connected,
            _ => SessionState::Reconnecting,
        },
    }
}

// ---------------------------------------------------------------------------
// Scripted sessions
// ---------------------------------------------------------------------------

/// One step of a scripted session: what the connection, the user or the
/// reopen attempt does next.
pub enum ScriptStep {
    /// The device sent this text.
    Recv(String),
    /// A read timed out.
    ReadTimeout,
    /// A read or write failed: the connection is gone.
    ReadFail,
    /// The user submitted this command line.
    Submit(String),
    /// A reopen attempt finished, successfully or not.
    OpenResult(bool),
    /// The user pressed an exit key.
    Quit,
}

/// The mathematical state of a scripted run: the session state, what the
/// writer delivered, what was dropped because the connection was already
/// gone when the write was attempted, what the reader forwarded (and would
/// log), and whether the run failed fatally.
pub struct RunModel {
    pub state: SessionState,
    pub delivered: Seq<Seq<char>>,
    pub dropped: Seq<Seq<char>>,
    pub logged: Seq<Seq<char>>,
    pub failure: bool,
}

/// The state a scripted run starts in, just after a successful open.
pub open spec fn run_init() -> RunModel {
    RunModel {
        state: SessionState::Connected,
        delivered: Seq::empty(),
        dropped: Seq::empty(),
        logged: Seq::empty(),
        failure: false,
    }
}

/// The effect of one script step.  Once the session is disconnected nothing
/// further happens: in particular no reopen is attempted.  A submitted
/// command is delivered exactly when the connection is up at the write
/// attempt; a command submitted after a failure and before the reconnect is
/// dropped, and only such commands are dropped.
pub open spec fn run_step(m: RunModel, step: ScriptStep, reconnect_enabled: bool) -> RunModel {
    if m.state == SessionState::Disconnected {
        m
    } else {
        match step {
            ScriptStep::Recv(data) => if m.state == SessionState::Connected {
                RunModel { logged: m.logged.push(data@), ..m }
            } else {
                m
            },
            ScriptStep::ReadTimeout => m,
            ScriptStep::ReadFail => {
                let next = step_spec(m.state, ConnEvent::IoError, reconnect_enabled);
                RunModel {
                    state: next,
                    failure: m.failure || next == SessionState::Disconnected,
                    ..m
                }
            },
            ScriptStep::Submit(cmd) => if m.state == SessionState::Connected {
                RunModel { delivered: m.delivered.push(cmd@), ..m }
            } else {
                RunModel { dropped: m.dropped.push(cmd@), ..m }
            },
            ScriptStep::OpenResult(ok) => RunModel {
                state: step_spec(
                    m.state,
                    if ok {
                        ConnEvent::OpenOk
                    } else {
                        ConnEvent::OpenFailed
                    },
                    reconnect_enabled,
                ),
                ..m
            },
            ScriptStep::Quit => RunModel { state: SessionState::Disconnected, ..m },
        }
    }
}

/// The effect of a whole script, first step to last.
pub open spec fn run_from(m: RunModel, script: Seq<ScriptStep>, reconnect_enabled: bool) -> RunModel
    decreases script.len(),
{
    if script.len() == 0 {
        m
    } else {
        run_from(run_step(m, script[0], reconnect_enabled), script.drop_first(), reconnect_enabled)
    }
}

/// The outcome of a scripted run, as plain values.
pub struct SessionOutcome {
    /// The state the session ended in.
    pub state: SessionState,
    /// The commands the writer delivered, in order.
    pub delivered: Vec<String>,
    /// The commands dropped because the connection was down at the write.
    pub dropped: Vec<String>,
    /// The received text the reader forwarded (and would log), in order.
    pub logged: Vec<String>,
    /// Whether the session failed fatally (a non-zero exit).
    pub failed: bool,
}

/// Runs a scripted session from a fresh connection and reports exactly what
/// the model says: the final state, what was delivered, dropped and logged,
/// and whether the session failed.
pub fn run_scripted_session(script: &Vec<ScriptStep>, reconnect_enabled: bool) -> (r: SessionOutcome)
    ensures
        ({
            let m = run_from(run_init(), script@, reconnect_enabled);
            &&& r.state == m.state
            &&& r.delivered.deep_view() == m.delivered
            &&& r.dropped.deep_view() == m.dropped
            &&& r.logged.deep_view() == m.logged
            &&& r.failed == m.failure
        }),
{
    let mut state = SessionState::Connected;
    let mut delivered: Vec<String> = Vec::new();
    let mut dropped: Vec<String> = Vec::new();
    let mut logged: Vec<String> = Vec::new();
    let mut failed = false;
    let ghost target = run_from(run_init(), script@, reconnect_enabled);
    proof {
        assert(script@.subrange(0, script@.len() as int) =~= script@);
        assert(run_init().delivered =~= delivered.deep_view());
        assert(run_init().dropped =~= dropped.deep_view());
        assert(run_init().logged =~= logged.deep_view());
    }
    let mut i: usize = 0;
    while i < script.len()
        invariant
            i <= script.len(),
            target == run_from(run_init(), script@, reconnect_enabled),
            run_from(
                RunModel {
                    state: state,
                    delivered: delivered.deep_view(),
                    dropped: dropped.deep_view(),
                    logged: logged.deep_view(),
                    failure: failed,
                },
                script@.subrange(i as int, script@.len() as int),
                reconnect_enabled,
            ) == target,
        decreases script.len() - i,
    {
        let ghost cur = RunModel {
            state: state,
            delivered: delivered.deep_view(),
            dropped: dropped.deep_view(),
            logged: logged.deep_view(),
            failure: failed,
        };
        let ghost pre = script@.subrange(i as int, script@.len() as int);
        proof {
            assert(pre[0] == script@[i as int]);
            assert(pre.drop_first() =~= script@.subrange(i + 1, script@.len() as int));
        }
        let step = &script[i];
        if state != SessionState::Disconnected {
            match step {
                ScriptStep::Recv(data) => {
                    if state == SessionState::Connected {
                        logged.push(data.clone());
                        proof {
                            assert(logged.deep_view() =~= cur.logged.push(data@));
                        }
                    }
                },
                ScriptStep::ReadTimeout => {},
                ScriptStep::ReadFail => {
                    state = session_step(state, ConnEvent::IoError, reconnect_enabled);
                    if state == SessionState::Disconnected {
                        failed = true;
                    }
                },
                ScriptStep::Submit(cmd) => {
                    if state == SessionState::Connected {
                        delivered.push(cmd.clone());
                        proof {
                            assert(delivered.deep_view() =~= cur.delivered.push(cmd@));
                        }
                    } else {
                        dropped.push(cmd.clone());
                        proof {
                            assert(dropped.deep_view() =~= cur.dropped.push(cmd@));
                        }
                    }
                },
                ScriptStep::OpenResult(ok) => {
                    let ev = if *ok {
                        ConnEvent::OpenOk
                    } else {
                        ConnEvent::OpenFailed
                    };
                    state = session_step(state, ev, reconnect_enabled);
                },
                ScriptStep::Quit => {
                    state = SessionState::Disconnected;
                },
            }
        }
        proof {
            let after = RunModel {
                state: state,
                delivered: delivered.deep_view(),
                dropped: dropped.deep_view(),
                logged: logged.deep_view(),
                failure: failed,
            };
            assert(after == run_step(cur, script@[i as int], reconnect_enabled));
        }
        i = i + 1;
    }
    proof {
        assert(script@.subrange(script@.len() as int, script@.len() as int)
            =~= Seq::<ScriptStep>::empty());
    }
    SessionOutcome { state, delivered, dropped, logged, failed }
}

// ---------------------------------------------------------------------------
// Laws of the reconnect policy
// ---------------------------------------------------------------------------

/// Steps that occur during normal connected traffic: reads, timeouts and
/// submissions, with no failure, no reopen and no quit.
pub open spec fn is_traffic(step: ScriptStep) -> bool {
    step matches ScriptStep::Recv(_) || step matches ScriptStep::ReadTimeout || step
        matches ScriptStep::Submit(_)
}

/// Steps that can occur while the connection is down: timeouts and
/// submissions (the reader has nothing to deliver).
pub open spec fn is_down_step(step: ScriptStep) -> bool {
    step matches ScriptStep::ReadTimeout || step matches ScriptStep::Submit(_)
}

/// The submitted command lines in a script, in order.
pub open spec fn submits_of(script: Seq<ScriptStep>) -> Seq<Seq<char>>
    decreases script.len(),
{
    if script.len() == 0 {
        Seq::empty()
    } else {
        let rest = submits_of(script.drop_first());
        match script[0] {
            ScriptStep::Submit(cmd) => seq![cmd@] + rest,
            _ => rest,
        }
    }
}

/// The received texts in a script, in order.
pub open spec fn recvs_of(script: Seq<ScriptStep>) -> Seq<Seq<char>>
    decreases script.len(),
{
    if script.len() == 0 {
        Seq::empty()
    } else {
        let rest = recvs_of(script.drop_first());
        match script[0] {
            ScriptStep::Recv(data) => seq![data@] + rest,
            _ => rest,
        }
    }
}

/// Connected traffic stays connected: everything received is logged and
/// everything submitted is delivered.
proof fn lemma_run_traffic(m: RunModel, script: Seq<ScriptStep>, reconnect_enabled: bool)
    requires
        m.state == SessionState::Connected,
        forall|i: int| 0 <= i < script.len() ==> is_traffic(script[i]),
    ensures
        run_from(m, script, reconnect_enabled) == (RunModel {
            delivered: m.delivered + submits_of(script),
            logged: m.logged + recvs_of(script),
            ..m
        }),
    decreases script.len(),
{
    if script.len() == 0 {
        assert(m.delivered + submits_of(script) =~= m.delivered);
        assert(m.logged + recvs_of(script) =~= m.logged);
    } else {
        assert(is_traffic(script[0]));
        let m1 = run_step(m, script[0], reconnect_enabled);
        assert(forall|i: int|
            0 <= i < script.drop_first().len() ==> is_traffic(script.drop_first()[i]));
        lemma_run_traffic(m1, script.drop_first(), reconnect_enabled);
        match script[0] {
            ScriptStep::Submit(cmd) => {
                assert(m.delivered.push(cmd@) + submits_of(script.drop_first()) =~= m.delivered
                    + submits_of(script));
                assert(recvs_of(script) == recvs_of(script.drop_first()));
            },
            ScriptStep::Recv(data) => {
                assert(m.logged.push(data@) + recvs_of(script.drop_first()) =~= m.logged
                    + recvs_of(script));
                assert(submits_of(script) == submits_of(script.drop_first()));
            },
            _ => {
                assert(submits_of(script) == submits_of(script.drop_first()));
                assert(recvs_of(script) == recvs_of(script.drop_first()));
            },
        }
    }
}

/// While reconnecting, timeouts do nothing and every submitted command is
/// dropped; the session stays in `Reconnecting`.
proof fn lemma_run_down(m: RunModel, script: Seq<ScriptStep>, reconnect_enabled: bool)
    requires
        m.state == SessionState::Reconnecting,
        forall|i: int| 0 <= i < script.len() ==> is_down_step(script[i]),
    ensures
        run_from(m, script, reconnect_enabled) == (RunModel {
            dropped: m.dropped + submits_of(script),
            ..m
        }),
    decreases script.len(),
{
    if script.len() == 0 {
        assert(m.dropped + submits_of(script) =~= m.dropped);
    } else {
        assert(is_down_step(script[0]));
        let m1 = run_step(m, script[0], reconnect_enabled);
        assert(forall|i: int|
            0 <= i < script.drop_first().len() ==> is_down_step(script.drop_first()[i]));
        lemma_run_down(m1, script.drop_first(), reconnect_enabled);
        match script[0] {
            ScriptStep::Submit(cmd) => {
                assert(m.dropped.push(cmd@) + submits_of(script.drop_first()) =~= m.dropped
                    + submits_of(script));
            },
            _ => {
                assert(submits_of(script) == submits_of(script.drop_first()));
            },
        }
    }
}

/// Once disconnected, nothing further happens: no retry, no delivery.
proof fn lemma_run_disconnected(m: RunModel, script: Seq<ScriptStep>, reconnect_enabled: bool)
    requires
        m.state == SessionState::Disconnected,
    ensures
        run_from(m, script, reconnect_enabled) == m,
    decreases script.len(),
{
    if script.len() > 0 {
        lemma_run_disconnected(m, script.drop_first(), reconnect_enabled);
    }
}

/// Running a concatenation runs the two parts in order.
proof fn lemma_run_concat(m: RunModel, a: Seq<ScriptStep>, b: Seq<ScriptStep>, reconnect_enabled: bool)
    ensures
        run_from(m, a + b, reconnect_enabled) == run_from(
            run_from(m, a, reconnect_enabled),
            b,
            reconnect_enabled,
        ),
    decreases a.len(),
{
    if a.len() == 0 {
        assert(a + b =~= b);
    } else {
        assert((a + b)[0] == a[0]);
        assert((a + b).drop_first() =~= a.drop_first() + b);
        lemma_run_concat(run_step(m, a[0], reconnect_enabled), a.drop_first(), b, reconnect_enabled);
    }
}

/// Reconnect transparency.  With reconnection enabled, a connection that
/// fails exactly once and is then reopened leaves the session `Connected`
/// and loses nothing submitted before the failure: commands submitted
/// before the failure or after the reconnect are delivered, and exactly the
/// commands submitted strictly between the failure and the reconnect are
/// dropped.
pub proof fn lemma_reconnect_transparency(
    pre: Seq<ScriptStep>,
    mid: Seq<ScriptStep>,
    post: Seq<ScriptStep>,
)
    requires
        forall|i: int| 0 <= i < pre.len() ==> is_traffic(pre[i]),
        forall|i: int| 0 <= i < mid.len() ==> is_down_step(mid[i]),
        forall|i: int| 0 <= i < post.len() ==> is_traffic(post[i]),
    ensures
        ({
            let script = pre + seq![ScriptStep::ReadFail] + mid + seq![
                ScriptStep::OpenResult(true),
            ] + post;
            let m = run_from(run_init(), script, true);
            &&& m.state == SessionState::Connected
            &&& m.delivered == submits_of(pre) + submits_of(post)
            &&& m.dropped == submits_of(mid)
            &&& !m.failure
        }),
{
    let fail = seq![ScriptStep::ReadFail];
    let reopen = seq![ScriptStep::OpenResult(true)];
    let script = pre + fail + mid + reopen + post;
    let m0 = run_init();
    lemma_run_traffic(m0, pre, true);
    let m1 = run_from(m0, pre, true);
    lemma_run_concat(m0, pre, fail + mid + reopen + post, true);
    assert(pre + fail + mid + reopen + post =~= pre + (fail + mid + reopen + post));
    let m2 = run_step(m1, ScriptStep::ReadFail, true);
    assert(run_from(m1, fail + mid + reopen + post, true) == run_from(
        m2,
        mid + reopen + post,
        true,
    )) by {
        lemma_run_concat(m1, fail, mid + reopen + post, true);
        assert((fail + (mid + reopen + post)).drop_first() =~= mid + reopen + post);
        assert(fail + (mid + reopen + post) =~= fail + mid + reopen + post);
        assert(fail.drop_first() =~= Seq::<ScriptStep>::empty());
        assert(fail[0] == ScriptStep::ReadFail);
        assert(run_from(m1, fail, true) == run_from(
            run_step(m1, fail[0], true),
            fail.drop_first(),
            true,
        ));
        assert(run_from(m1, fail, true) == m2);
        assert(fail + mid + reopen + post =~= fail + (mid + reopen + post));
    }
    assert(m2.state == SessionState::Reconnecting);
    lemma_run_down(m2, mid, true);
    let m3 = run_from(m2, mid, true);
    lemma_run_concat(m2, mid, reopen + post, true);
    assert(mid + reopen + post =~= mid + (reopen + post));
    let m4 = run_step(m3, ScriptStep::OpenResult(true), true);
    assert(run_from(m3, reopen + post, true) == run_from(m4, post, true)) by {
        lemma_run_concat(m3, reopen, post, true);
        assert(reopen.drop_first() =~= Seq::<ScriptStep>::empty());
        assert(reopen[0] == ScriptStep::OpenResult(true));
        assert(run_from(m3, reopen, true) == run_from(
            run_step(m3, reopen[0], true),
            reopen.drop_first(),
            true,
        ));
        assert(run_from(m3, reopen, true) == m4);
    }
    assert(m4.state == SessionState::Connected);
    lemma_run_traffic(m4, post, true);
    let m5 = run_from(m4, post, true);
    assert(run_from(m0, script, true) == m5) by {
        assert(script =~= pre + (fail + mid + reopen + post));
        assert(fail + mid + reopen + post =~= fail + (mid + (reopen + post)));
        assert(mid + reopen + post =~= mid + (reopen + post));
    }
    assert(m5.delivered =~= submits_of(pre) + submits_of(post));
    assert(m5.dropped =~= submits_of(mid));
}

/// Reconnect disabled.  The same single scripted failure with reconnection
/// disabled ends the session `Disconnected` with the failure signalled, no
/// retry is attempted and nothing after the failure is delivered: exactly
/// the commands submitted before the failure are delivered.
pub proof fn lemma_reconnect_disabled(pre: Seq<ScriptStep>, rest: Seq<ScriptStep>)
    requires
        forall|i: int| 0 <= i < pre.len() ==> is_traffic(pre[i]),
    ensures
        ({
            let script = pre + seq![ScriptStep::ReadFail] + rest;
            let m = run_from(run_init(), script, false);
            &&& m.state == SessionState::Disconnected
            &&& m.failure
            &&& m.delivered == submits_of(pre)
            &&& m.dropped == Seq::<Seq<char>>::empty()
        }),
{
    let fail = seq![ScriptStep::ReadFail];
    let script = pre + fail + rest;
    let m0 = run_init();
    lemma_run_traffic(m0, pre, false);
    let m1 = run_from(m0, pre, false);
    let m2 = run_step(m1, ScriptStep::ReadFail, false);
    assert(m2.state == SessionState::Disconnected);
    assert(m2.failure);
    lemma_run_disconnected(m2, rest, false);
    assert(run_from(m0, script, false) == m2) by {
        lemma_run_concat(m0, pre, fail + rest, false);
        assert(script =~= pre + (fail + rest));
        lemma_run_concat(m1, fail, rest, false);
        assert((fail + rest).drop_first() =~= rest);
        assert(fail.drop_first() =~= Seq::<ScriptStep>::empty());
        assert(fail[0] == ScriptStep::ReadFail);
        assert(run_from(m1, fail, false) == run_from(
            run_step(m1, fail[0], false),
            fail.drop_first(),
            false,
        ));
        assert(run_from(m1, fail, false) == m2);
        assert(fail + rest =~= fail + rest);
    }
}

} // verus!
