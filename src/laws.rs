use vstd::prelude::*;

use crate::session::{cursor_down, cursor_up, model_wf, step, tick, toggled, Event, Phase, SessionModel};

verus! {

/// The session after the same event arrives `k` times in a row.
pub open spec fn repeat_event(m: SessionModel, e: Event, k: nat) -> SessionModel
    decreases k,
{
    if k == 0 {
        m
    } else {
        step(repeat_event(m, e, (k - 1) as nat), e)
    }
}

/// The session after `k` ticks.
pub open spec fn ticks(m: SessionModel, k: nat) -> SessionModel
    decreases k,
{
    if k == 0 {
        m
    } else {
        tick(ticks(m, (k - 1) as nat))
    }
}

proof fn lemma_moves(m: SessionModel, k: nat)
    requires
        model_wf(m),
        m.phase == Phase::Browsing,
    ensures
        repeat_event(m, Event::MoveDown, k) == (SessionModel {
            cursor: ((m.cursor as int + k as int) % (m.count as int)) as nat,
            ..m
        }),
        repeat_event(m, Event::MoveUp, k) == (SessionModel {
            cursor: ((m.cursor as int - k as int) % (m.count as int)) as nat,
            ..m
        }),
    decreases k,
{
    let n = m.count as int;
    if k == 0 {
        vstd::arithmetic::div_mod::lemma_small_mod(m.cursor, m.count);
    } else {
        lemma_moves(m, (k - 1) as nat);
        let c = m.cursor as int;
        let d = (c + k - 1) % n;
        vstd::arithmetic::div_mod::lemma_add_mod_noop_right(1, c + k - 1, n);
        assert(cursor_down(d as nat, m.count) == (c + k) % n);
        let u = (c - (k - 1)) % n;
        vstd::arithmetic::div_mod::lemma_add_mod_noop_right(n - 1, c - (k - 1), n);
        vstd::arithmetic::div_mod::lemma_mod_add_multiples_vanish(c - k, n);
        assert(n - 1 + (c - (k - 1)) == n + (c - k));
        assert(cursor_up(u as nat, m.count) == (c - k) % n);
    }
}

/// Moving the cursor down once for every listed branch brings it back to
/// where it started, and so does moving it up.
pub proof fn lemma_cursor_cycle(m: SessionModel)
    requires
        model_wf(m),
        m.phase == Phase::Browsing,
    ensures
        repeat_event(m, Event::MoveDown, m.count) == m,
        repeat_event(m, Event::MoveUp, m.count) == m,
{
    lemma_moves(m, m.count);
    let n = m.count as int;
    let c = m.cursor as int;
    vstd::arithmetic::div_mod::lemma_small_mod(m.cursor, m.count);
    vstd::arithmetic::div_mod::lemma_mod_add_multiples_vanish(c, n);
    vstd::arithmetic::div_mod::lemma_mod_add_multiples_vanish(c - n, n);
}

/// Toggling the mark on the highlighted branch twice leaves the same
/// branches marked as before.
pub proof fn lemma_toggle_twice(m: SessionModel)
    requires
        model_wf(m),
        m.phase == Phase::Browsing,
    ensures
        step(step(m, Event::ToggleSelect), Event::ToggleSelect).selected.to_set()
            == m.selected.to_set(),
        step(step(m, Event::ToggleSelect), Event::ToggleSelect).cursor == m.cursor,
        step(step(m, Event::ToggleSelect), Event::ToggleSelect).phase == m.phase,
{
    let i = m.cursor as usize;
    let s = m.selected;
    let once = toggled(s, i);
    let twice = toggled(once, i);
    if s.contains(i) {
        let k = choose|k: int| 0 <= k < s.len() && s[k] == i;
        assert(once == s.remove(k));
        assert(!once.contains(i)) by {
            if once.contains(i) {
                let j = choose|j: int| 0 <= j < once.len() && once[j] == i;
                if j < k {
                    assert(s[j] == i);
                } else {
                    assert(s[j + 1] == i);
                }
            }
        }
        assert(twice == once.push(i));
        assert forall|x: usize| twice.contains(x) <==> s.contains(x) by {
            if s.contains(x) && x != i {
                let j = choose|j: int| 0 <= j < s.len() && s[j] == x;
                if j < k {
                    assert(once[j] == x);
                } else {
                    assert(once[j - 1] == x);
                }
                assert(twice[if j < k { j } else { j - 1 }] == x);
            }
            if twice.contains(x) {
                let j = choose|j: int| 0 <= j < twice.len() && twice[j] == x;
                if j < once.len() {
                    if j < k {
                        assert(s[j] == x);
                    } else {
                        assert(s[j + 1] == x);
                    }
                }
            }
            if x == i {
                assert(twice[twice.len() - 1] == i);
            }
        }
        assert(twice.to_set() =~= s.to_set());
    } else {
        assert(once == s.push(i));
        assert(once.contains(i)) by {
            assert(once[s.len() as int] == i);
        }
        let k = choose|k: int| 0 <= k < once.len() && once[k] == i;
        assert(k == s.len()) by {
            if k < s.len() {
                assert(s[k] == i);
            }
        }
        assert(twice =~= s);
    }
}

proof fn lemma_tick_wf(m: SessionModel)
    requires
        model_wf(m),
    ensures
        model_wf(tick(m)),
        tick(m).initial == m.initial,
        tick(m).completed >= m.completed,
        tick(m).count == m.count,
{
    if m.phase == Phase::Deleting && m.selected.len() > 0 {
        let t = tick(m);
        assert forall|a: int, b: int|
            0 <= a < t.selected.len() && 0 <= b < t.selected.len() && a != b implies t.selected[a]
            != t.selected[b] by {
            assert(t.selected[a] == m.selected[a]);
            assert(t.selected[b] == m.selected[b]);
        }
        assert forall|a: int| 0 <= a < t.selected.len() implies t.selected[a] < t.count by {
            assert(t.selected[a] == m.selected[a]);
        }
    }
}

proof fn lemma_ticks_wf(m: SessionModel, k: nat)
    requires
        model_wf(m),
    ensures
        model_wf(ticks(m, k)),
        ticks(m, k).initial == m.initial,
    decreases k,
{
    if k > 0 {
        lemma_ticks_wf(m, (k - 1) as nat);
        lemma_tick_wf(ticks(m, (k - 1) as nat));
    }
}

/// Within one deletion run the progress never goes back: every tick keeps
/// the number of branches the run started with and does not lower the
/// number handled, which never exceeds it.
pub proof fn lemma_progress_monotone(m: SessionModel, k: nat)
    requires
        model_wf(m),
        m.phase == Phase::Deleting,
    ensures
        ticks(m, k + 1).initial == ticks(m, k).initial,
        ticks(m, k).initial == m.initial,
        ticks(m, k + 1).completed >= ticks(m, k).completed,
        ticks(m, k).completed <= ticks(m, k).initial,
{
    lemma_ticks_wf(m, k);
    lemma_tick_wf(ticks(m, k));
    assert(ticks(m, k + 1) == tick(ticks(m, k)));
    if ticks(m, k).phase == Phase::Browsing {
        lemma_ticks_never_browse(m, k);
    }
}

proof fn lemma_ticks_never_browse(m: SessionModel, k: nat)
    requires
        m.phase != Phase::Browsing,
    ensures
        ticks(m, k).phase != Phase::Browsing,
    decreases k,
{
    if k > 0 {
        lemma_ticks_never_browse(m, (k - 1) as nat);
    }
}

proof fn lemma_drain_steps(d: SessionModel, k: nat)
    requires
        model_wf(d),
        d.phase == Phase::Deleting,
        k <= d.selected.len(),
    ensures
        ticks(d, k).phase == Phase::Deleting,
        ticks(d, k).selected == d.selected.subrange(0, d.selected.len() - k),
        ticks(d, k).completed == d.completed + k,
    decreases k,
{
    if k > 0 {
        lemma_drain_steps(d, (k - 1) as nat);
        let p = ticks(d, (k - 1) as nat);
        assert(p.selected.drop_last() =~= d.selected.subrange(0, d.selected.len() - k));
    }
}

/// Confirming a non-empty selection and ticking once per marked branch
/// handles every one of them: the progress is complete and nothing is left
/// marked. The next tick ends the session.
pub proof fn lemma_drain_completes(m: SessionModel)
    requires
        model_wf(m),
        m.phase == Phase::Browsing,
        m.selected.len() > 0,
    ensures
        ({
            let d = step(m, Event::Confirm);
            let e = ticks(d, d.initial);
            &&& d.initial == m.selected.len()
            &&& e.phase == Phase::Deleting
            &&& e.completed == e.initial
            &&& e.initial == m.selected.len()
            &&& e.selected.len() == 0
            &&& tick(e).phase == Phase::Done
        }),
{
    let d = step(m, Event::Confirm);
    lemma_drain_steps(d, d.initial);
    lemma_ticks_wf(d, d.initial);
}

} // verus!
