//! What to do for one incoming message: every rule of the table is tried in
//! order, and each one that matches contributes its keystrokes and its
//! command.
use vstd::prelude::*;
use crate::debounce::{debounce_allows, DebounceState};
use crate::keymap::{evaluate, keymap_actions, KeyAction, KeymapError};
use crate::mapping::{debounce_window_of, effective_command, get_debounce_duration, MidiMap, Settings};
use crate::matcher::{decoded, matches_rule, rule_matches, DecodeError, MidiEvent};
use crate::velocity::{computed_velocity, get_computed_velocity};

verus! {

/// Something the daemon has to carry out for an incoming message.
#[derive(Clone, Debug)]
pub enum Action {
    /// Play these keystrokes in order.
    Keys(Vec<KeyAction>),
    /// A matching rule's keymap is malformed; its keystrokes are skipped.
    KeymapFailed(KeymapError),
    /// Run `command` with `sh -c`, with `MIDI_VELOCITY` set to `velocity`
    /// when there is one.
    Spawn { command: String, velocity: Option<u8> },
}

/// The meaning of an `Action`.
pub enum ActionModel {
    Keys(Seq<KeyAction>),
    KeymapFailed(KeymapError),
    Spawn(Seq<char>, Option<u8>),
}

impl View for Action {
    type V = ActionModel;

    open spec fn view(&self) -> ActionModel {
        match self {
            Action::Keys(v) => ActionModel::Keys(v@),
            Action::KeymapFailed(e) => ActionModel::KeymapFailed(*e),
            Action::Spawn { command, velocity } => ActionModel::Spawn(command@, *velocity),
        }
    }
}

pub open spec fn models(v: Seq<Action>) -> Seq<ActionModel> {
    v.map_values(|a: Action| a@)
}

/// What one rule contributes for an event, and the debounce state after it.
pub open spec fn rule_step(
    m: MidiMap,
    e: MidiEvent,
    state: Map<Seq<char>, u64>,
    now: u64,
) -> (Seq<ActionModel>, Map<Seq<char>, u64>) {
    if !rule_matches(e, m) {
        (seq![], state)
    } else {
        let keys = match m.keymap {
            Some(k) => seq![
                match keymap_actions(k@) {
                    Ok(v) => ActionModel::Keys(v),
                    Err(err) => ActionModel::KeymapFailed(err),
                },
            ],
            None => seq![],
        };
        match effective_command(m) {
            Some(c) => if debounce_allows(state, c, debounce_window_of(m), now) {
                (keys.push(ActionModel::Spawn(c, computed_velocity(e.velocity, m))), state.insert(c, now))
            } else {
                (keys, state)
            },
            None => (keys, state),
        }
    }
}

/// What a table of rules contributes for an event, first rule first, and the
/// debounce state after it.
pub open spec fn plan(
    rules: Seq<MidiMap>,
    e: MidiEvent,
    state: Map<Seq<char>, u64>,
    now: u64,
) -> (Seq<ActionModel>, Map<Seq<char>, u64>)
    decreases rules.len(),
{
    if rules.len() == 0 {
        (seq![], state)
    } else {
        let first = rule_step(rules[0], e, state, now);
        let rest = plan(rules.drop_first(), e, first.1, now);
        (first.0 + rest.0, rest.1)
    }
}

proof fn lemma_models_push(v: Seq<Action>, a: Action)
    ensures
        models(v.push(a)) == models(v).push(a@),
{
    assert(models(v.push(a)) =~= models(v).push(a@));
}

fn apply_rule(
    mapping: &MidiMap,
    event: &MidiEvent,
    state: &mut DebounceState,
    now: u64,
    out: &mut Vec<Action>,
)
    ensures
        models(final(out)@) == models(old(out)@) + rule_step(*mapping, *event, old(state)@, now).0,
        final(state)@ == rule_step(*mapping, *event, old(state)@, now).1,
{
    let ghost out0 = models(out@);
    let ghost step = rule_step(*mapping, *event, state@, now);
    if !matches_rule(event, mapping) {
        assert(out0 + seq![] =~= out0);
        return;
    }
    let ghost mut keys: Seq<ActionModel> = seq![];
    match &mapping.keymap {
        Some(k) => {
            let a = match evaluate(k.as_str()) {
                Ok(v) => Action::Keys(v),
                Err(e) => Action::KeymapFailed(e),
            };
            proof {
                lemma_models_push(out@, a);
                keys = seq![a@];
            }
            out.push(a);
        },
        None => {},
    }
    assert(models(out@) =~= out0 + keys);
    match &mapping.command {
        Some(c) => {
            if !c.as_str().is_empty() {
                let window = get_debounce_duration(mapping);
                if state.should_dispatch(c, window, now) {
                    let velocity = get_computed_velocity(event.velocity, mapping);
                    let a = Action::Spawn { command: c.clone(), velocity };
                    proof {
                        lemma_models_push(out@, a);
                    }
                    out.push(a);
                    assert(models(out@) =~= out0 + step.0);
                }
            }
        },
        None => {},
    }
}

/// Decodes `message` and works out, rule by rule, what has to be done for
/// it at time `now` (milliseconds on a monotonic clock), recording the
/// commands it lets through in `debounce_state`.
///
/// A message that cannot be decoded leaves the state as it was.
pub fn process_midi_message(
    message: &[u8],
    settings: &Settings,
    debounce_state: &mut DebounceState,
    now: u64,
) -> (r: Result<Vec<Action>, DecodeError>)
    ensures
        match decoded(message@) {
            Err(e) => r == Err::<Vec<Action>, DecodeError>(e) && final(debounce_state)@ == old(
                debounce_state,
            )@,
            Ok(ev) => r is Ok && models(r->Ok_0@) == plan(
                settings.midi_mapping@,
                ev,
                old(debounce_state)@,
                now,
            ).0 && final(debounce_state)@ == plan(
                settings.midi_mapping@,
                ev,
                old(debounce_state)@,
                now,
            ).1,
        },
{
    let event = match MidiEvent::decode(message) {
        Ok(e) => e,
        Err(e) => return Err(e),
    };
    let rules = &settings.midi_mapping;
    let ghost all = rules@;
    let ghost start = debounce_state@;
    let mut out: Vec<Action> = Vec::new();
    let mut i: usize = 0;
    assert(all.subrange(0, all.len() as int) =~= all);
    assert(models(out@) =~= Seq::<ActionModel>::empty());
    while i < rules.len()
        invariant
            all == rules@,
            i <= all.len(),
            plan(all, event, start, now).0 == models(out@) + plan(
                all.subrange(i as int, all.len() as int),
                event,
                debounce_state@,
                now,
            ).0,
            plan(all, event, start, now).1 == plan(
                all.subrange(i as int, all.len() as int),
                event,
                debounce_state@,
                now,
            ).1,
        decreases all.len() - i,
    {
        let ghost rest = all.subrange(i as int, all.len() as int);
        let ghost before = models(out@);
        let ghost st = debounce_state@;
        assert(rest.drop_first() =~= all.subrange(i + 1, all.len() as int));
        apply_rule(&rules[i], &event, debounce_state, now, &mut out);
        let ghost step = rule_step(all[i as int], event, st, now);
        let ghost tail = plan(rest.drop_first(), event, step.1, now);
        assert(before + (step.0 + tail.0) =~= (before + step.0) + tail.0);
        i = i + 1;
    }
    assert(plan(all.subrange(i as int, all.len() as int), event, debounce_state@, now).0 =~= seq![]);
    assert(models(out@) + seq![] =~= models(out@));
    Ok(out)
}

} // verus!

verus! {

/// A rule with no command, or an empty one, neither spawns anything nor
/// touches the debounce state.
pub proof fn lemma_empty_command_inert(m: MidiMap, e: MidiEvent, state: Map<Seq<char>, u64>, now: u64)
    requires
        m.command is None || m.command->Some_0@.len() == 0,
    ensures
        rule_step(m, e, state, now).1 == state,
        forall|i: int|
            0 <= i < rule_step(m, e, state, now).0.len() ==> !(rule_step(
                m,
                e,
                state,
                now,
            ).0[i] is Spawn),
{
}

/// Two rules with the same command share one timer: once the first has
/// dispatched it at `t1`, the second may dispatch it at `t2` exactly when its
/// own window has passed since `t1`.
pub proof fn lemma_same_command_shares_timer(
    m1: MidiMap,
    m2: MidiMap,
    e: MidiEvent,
    state: Map<Seq<char>, u64>,
    t1: u64,
    t2: u64,
)
    requires
        rule_matches(e, m1),
        effective_command(m1) is Some,
        effective_command(m2) == effective_command(m1),
        debounce_allows(state, effective_command(m1)->0, debounce_window_of(m1), t1),
    ensures
        debounce_allows(
            rule_step(m1, e, state, t1).1,
            effective_command(m2)->0,
            debounce_window_of(m2),
            t2,
        ) == (crate::debounce::elapsed(t1, t2) >= debounce_window_of(m2)),
{
}

/// A rule never changes the timer of a command other than its own.
pub proof fn lemma_other_command_untouched(
    m: MidiMap,
    e: MidiEvent,
    state: Map<Seq<char>, u64>,
    now: u64,
    other: Seq<char>,
)
    requires
        effective_command(m) != Some(other),
    ensures
        rule_step(m, e, state, now).1.contains_key(other) == state.contains_key(other),
        state.contains_key(other) ==> rule_step(m, e, state, now).1[other] == state[other],
{
}

proof fn lemma_plan_split(rules: Seq<MidiMap>, e: MidiEvent, state: Map<Seq<char>, u64>, now: u64, j: int)
    requires
        0 <= j <= rules.len(),
    ensures
        plan(rules, e, state, now).0 == plan(rules.take(j), e, state, now).0 + plan(
            rules.skip(j),
            e,
            plan(rules.take(j), e, state, now).1,
            now,
        ).0,
    decreases j,
{
    if j == 0 {
        assert(rules.skip(0) =~= rules);
        assert(plan(rules.take(0), e, state, now).0 + plan(rules, e, state, now).0 =~= plan(
            rules,
            e,
            state,
            now,
        ).0);
    } else {
        let first = rule_step(rules[0], e, state, now);
        let t = rules.drop_first();
        lemma_plan_split(t, e, first.1, now, j - 1);
        assert(t.take(j - 1) =~= rules.take(j).drop_first());
        assert(t.skip(j - 1) =~= rules.skip(j));
        let mid = plan(t.take(j - 1), e, first.1, now);
        let end = plan(rules.skip(j), e, mid.1, now);
        assert(first.0 + (mid.0 + end.0) =~= (first.0 + mid.0) + end.0);
    }
}

/// Whatever the keymaps of the rules give, malformed or not, a matching rule
/// whose command the debounce state lets through when its turn comes has
/// that command spawned.
pub proof fn lemma_rule_spawns_despite_keymaps(
    rules: Seq<MidiMap>,
    e: MidiEvent,
    state: Map<Seq<char>, u64>,
    now: u64,
    j: int,
)
    requires
        0 <= j < rules.len(),
        rule_matches(e, rules[j]),
        effective_command(rules[j]) is Some,
        debounce_allows(
            plan(rules.take(j), e, state, now).1,
            effective_command(rules[j])->0,
            debounce_window_of(rules[j]),
            now,
        ),
    ensures
        plan(rules, e, state, now).0.contains(
            ActionModel::Spawn(effective_command(rules[j])->0, computed_velocity(e.velocity, rules[j])),
        ),
{
    lemma_plan_split(rules, e, state, now, j);
    let before = plan(rules.take(j), e, state, now);
    let rest = rules.skip(j);
    assert(rest[0] == rules[j]);
    let step = rule_step(rest[0], e, before.1, now);
    let tail = plan(rest.drop_first(), e, step.1, now);
    let spawn = ActionModel::Spawn(
        effective_command(rules[j])->0,
        computed_velocity(e.velocity, rules[j]),
    );
    let k = step.0.len() - 1;
    assert(step.0[k] == spawn);
    let whole = plan(rules, e, state, now).0;
    assert(whole == before.0 + (step.0 + tail.0));
    assert(whole[before.0.len() + k] == spawn);
}

} // verus!

verus! {

/// The spawns of `command` among some actions, in order.
pub open spec fn spawns_of(actions: Seq<ActionModel>, command: Seq<char>) -> Seq<ActionModel> {
    actions.filter(|a: ActionModel| a is Spawn && a->Spawn_0 == command)
}

/// Two debounce states that hold the same record (or none) for `command`.
pub open spec fn same_timer(s1: Map<Seq<char>, u64>, s2: Map<Seq<char>, u64>, command: Seq<char>) -> bool {
    s1.contains_key(command) == s2.contains_key(command) && (s1.contains_key(command) ==> s1[command]
        == s2[command])
}

proof fn lemma_step_timer_own(
    m: MidiMap,
    e: MidiEvent,
    s1: Map<Seq<char>, u64>,
    s2: Map<Seq<char>, u64>,
    now: u64,
    command: Seq<char>,
)
    requires
        same_timer(s1, s2, command),
    ensures
        same_timer(rule_step(m, e, s1, now).1, rule_step(m, e, s2, now).1, command),
        spawns_of(rule_step(m, e, s1, now).0, command) == spawns_of(
            rule_step(m, e, s2, now).0,
            command,
        ),
{
    let p = |a: ActionModel| a is Spawn && a->Spawn_0 == command;
    if rule_matches(e, m) {
        let keys = match m.keymap {
            Some(k) => seq![
                match keymap_actions(k@) {
                    Ok(v) => ActionModel::Keys(v),
                    Err(err) => ActionModel::KeymapFailed(err),
                },
            ],
            None => seq![],
        };
        if let Some(c) = effective_command(m) {
            let sp = ActionModel::Spawn(c, computed_velocity(e.velocity, m));
            keys.lemma_filter_push(sp, p);
        }
    }
}

/// The record of a command after a whole message, and the spawns of that
/// command the message causes, depend only on the record it had before:
/// the records of other commands, dispatched or suppressed, play no part.
pub proof fn lemma_plan_timer_own(
    rules: Seq<MidiMap>,
    e: MidiEvent,
    s1: Map<Seq<char>, u64>,
    s2: Map<Seq<char>, u64>,
    now: u64,
    command: Seq<char>,
)
    requires
        same_timer(s1, s2, command),
    ensures
        same_timer(plan(rules, e, s1, now).1, plan(rules, e, s2, now).1, command),
        spawns_of(plan(rules, e, s1, now).0, command) == spawns_of(
            plan(rules, e, s2, now).0,
            command,
        ),
    decreases rules.len(),
{
    if rules.len() > 0 {
        let p = |a: ActionModel| a is Spawn && a->Spawn_0 == command;
        let f1 = rule_step(rules[0], e, s1, now);
        let f2 = rule_step(rules[0], e, s2, now);
        lemma_step_timer_own(rules[0], e, s1, s2, now, command);
        lemma_plan_timer_own(rules.drop_first(), e, f1.1, f2.1, now, command);
        let r1 = plan(rules.drop_first(), e, f1.1, now);
        let r2 = plan(rules.drop_first(), e, f2.1, now);
        Seq::filter_distributes_over_add(f1.0, r1.0, p);
        Seq::filter_distributes_over_add(f2.0, r2.0, p);
    }
}

/// A command that no rule of the table carries keeps its record through a
/// whole message.
pub proof fn lemma_plan_other_timer_untouched(
    rules: Seq<MidiMap>,
    e: MidiEvent,
    state: Map<Seq<char>, u64>,
    now: u64,
    command: Seq<char>,
)
    requires
        forall|i: int| 0 <= i < rules.len() ==> effective_command(#[trigger] rules[i]) != Some(command),
    ensures
        same_timer(plan(rules, e, state, now).1, state, command),
    decreases rules.len(),
{
    if rules.len() > 0 {
        let first = rule_step(rules[0], e, state, now);
        lemma_other_command_untouched(rules[0], e, state, now, command);
        assert forall|i: int| 0 <= i < rules.drop_first().len() implies effective_command(
            #[trigger] rules.drop_first()[i],
        ) != Some(command) by {
            assert(rules.drop_first()[i] == rules[i + 1]);
        }
        lemma_plan_other_timer_untouched(rules.drop_first(), e, first.1, now, command);
    }
}

} // verus!
