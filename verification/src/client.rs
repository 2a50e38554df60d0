use vstd::prelude::*;
use vstd::string::*;

use crate::evaluator::models::EvalResult;
use crate::models::{StatsigConfig, StatsigEvent, StatsigUser};
use crate::strmap::{sm_lookup, StringMap};
use crate::strutil::{bool_str, bool_to_string, dec_str, u64_to_dec};

verus! {

/// The value and group metadata the client reports for a config check,
/// taken from an evaluation result.
pub fn config_result(config_name: &String, res: &EvalResult) -> (c: StatsigConfig)
    ensures
        c.name@ == config_name@,
        crate::evaluator::models::opt_json(c.value) == crate::evaluator::models::opt_json(
            res.config_value,
        ),
        crate::evaluator::models::opt_view(c.group_name) == crate::evaluator::models::opt_view(
            res.group_name,
        ),
        c.rule_id@ == res.rule_id@,
        c.group@ == res.group@,
{
    StatsigConfig {
        value: match &res.config_value {
            Some(v) => Some(v.clone()),
            None => None,
        },
        name: config_name.clone(),
        group_name: match &res.group_name {
            Some(g) => Some(g.clone()),
            None => None,
        },
        rule_id: res.rule_id.clone(),
        group: res.group.clone(),
    }
}

/// When the queue reaches this many events, a flush is due; enqueueing is
/// never blocked by it.
pub const MAX_LOG_EVENTS: usize = 950;

/// Build the telemetry event recorded after a local gate check.
pub fn gate_exposure_event(gate: String, user: StatsigUser, eval_result: &EvalResult, now: u64) -> (ev: StatsigEvent)
    ensures
        ev.event_name@ == "statsig::gate_exposure"@,
        ev.value@ == bool_str(eval_result.pass),
        ev.time@ == dec_str(now as int),
        ev.user == user,
        ev.metadata@.len() == 3,
        sm_lookup(ev.metadata@, "gate"@) == Some(gate@),
        sm_lookup(ev.metadata@, "gateValue"@) == Some(bool_str(eval_result.pass)),
        sm_lookup(ev.metadata@, "ruleID"@) == Some(eval_result.id@),
{
    let mut metadata = StringMap::new();
    metadata.insert(String::from_str("gate"), gate);
    metadata.insert(String::from_str("gateValue"), bool_to_string(eval_result.pass));
    metadata.insert(String::from_str("ruleID"), eval_result.id.clone());
    proof {
        reveal_strlit("gate");
        reveal_strlit("gateValue");
        reveal_strlit("ruleID");
        assert(metadata@ =~= seq![
            ("ruleID"@, eval_result.id@),
            ("gateValue"@, bool_str(eval_result.pass)),
            ("gate"@, gate@),
        ]);
        assert(metadata@.skip(1) =~= seq![
            ("gateValue"@, bool_str(eval_result.pass)),
            ("gate"@, gate@),
        ]);
        assert(metadata@.skip(1).skip(1) =~= seq![("gate"@, gate@)]);
        assert("gate"@.len() == 4 && "gateValue"@.len() == 9 && "ruleID"@.len() == 6);
        assert("gate"@ != "ruleID"@ && "gate"@ != "gateValue"@ && "gateValue"@ != "ruleID"@);
        assert(sm_lookup(metadata@, "gate"@) == sm_lookup(metadata@.skip(1), "gate"@));
        assert(sm_lookup(metadata@.skip(1), "gate"@) == sm_lookup(
            metadata@.skip(1).skip(1),
            "gate"@,
        ));
        assert(sm_lookup(metadata@.skip(1).skip(1), "gate"@) == Some(gate@));
        assert(sm_lookup(metadata@, "gateValue"@) == sm_lookup(metadata@.skip(1), "gateValue"@));
        assert(sm_lookup(metadata@.skip(1), "gateValue"@) == Some(bool_str(eval_result.pass)));
        assert(sm_lookup(metadata@, "ruleID"@) == Some(eval_result.id@));
    }
    StatsigEvent {
        event_name: String::from_str("statsig::gate_exposure"),
        value: bool_to_string(eval_result.pass),
        time: u64_to_dec(now),
        user,
        metadata,
    }
}

/// The config-exposure event the client enqueues after a local config check:
/// its metadata names the config and the deciding rule.
pub fn config_exposure_event(config: String, user: StatsigUser, eval_result: &EvalResult, now: u64) -> (ev: StatsigEvent)
    ensures
        ev.event_name@ == "statsig::config_exposure"@,
        ev.value@ == bool_str(eval_result.pass),
        ev.time@ == dec_str(now as int),
        ev.user == user,
        ev.metadata@.len() == 2,
        sm_lookup(ev.metadata@, "config"@) == Some(config@),
        sm_lookup(ev.metadata@, "ruleID"@) == Some(eval_result.id@),
{
    let mut metadata = StringMap::new();
    metadata.insert(String::from_str("config"), config);
    metadata.insert(String::from_str("ruleID"), eval_result.id.clone());
    proof {
        reveal_strlit("config");
        reveal_strlit("ruleID");
        assert(metadata@ =~= seq![("ruleID"@, eval_result.id@), ("config"@, config@)]);
        assert(metadata@.skip(1) =~= seq![("config"@, config@)]);
        assert("config"@[0] == 'c' && "ruleID"@[0] == 'r');
        assert("config"@ != "ruleID"@);
        assert(sm_lookup(metadata@, "config"@) == sm_lookup(metadata@.skip(1), "config"@));
        assert(sm_lookup(metadata@.skip(1), "config"@) == Some(config@));
        assert(sm_lookup(metadata@, "ruleID"@) == Some(eval_result.id@));
    }
    StatsigEvent {
        event_name: String::from_str("statsig::config_exposure"),
        value: bool_to_string(eval_result.pass),
        time: u64_to_dec(now),
        user,
        metadata,
    }
}

/// The exposure queue: events in arrival order with a single drain point.
/// Producers append; the flusher swaps the whole list out at once, so a
/// drain is atomic with respect to the queue's contents.
pub struct EventQueue {
    events: Vec<StatsigEvent>,
}

impl View for EventQueue {
    type V = Seq<StatsigEvent>;

    closed spec fn view(&self) -> Seq<StatsigEvent> {
        self.events@
    }
}

impl EventQueue {
    /// An empty queue.
    pub fn new() -> (q: Self)
        ensures
            q@ == Seq::<StatsigEvent>::empty(),
    {
        let q = EventQueue { events: Vec::new() };
        proof {
            assert(q@ =~= Seq::<StatsigEvent>::empty());
        }
        q
    }

    /// How many events are waiting.
    pub fn len(&self) -> (n: usize)
        ensures
            n == self@.len(),
    {
        self.events.len()
    }

    /// Append one event, keeping arrival order; the answer says whether the
    /// queue has topped up and a flush should be scheduled. The event is
    /// kept either way: the threshold never blocks a producer.
    pub fn push(&mut self, ev: StatsigEvent) -> (flush_due: bool)
        ensures
            final(self)@ == old(self)@.push(ev),
            flush_due == (final(self)@.len() >= MAX_LOG_EVENTS),
    {
        self.events.push(ev);
        self.events.len() >= MAX_LOG_EVENTS
    }

    /// Take every queued event out in one step, in arrival order, leaving
    /// the queue empty and accepting new events.
    pub fn drain(&mut self) -> (batch: Vec<StatsigEvent>)
        ensures
            final(self)@ == Seq::<StatsigEvent>::empty(),
            batch@ == old(self)@,
    {
        let mut out: Vec<StatsigEvent> = Vec::new();
        core::mem::swap(&mut self.events, &mut out);
        proof {
            assert(final(self)@ =~= Seq::<StatsigEvent>::empty());
        }
        out
    }
}

} // verus!
