//! What is done about alerts without being asked.
use vstd::prelude::*;

use crate::alert::{fingerprint, level, severity_name, Alert, AlertModel};
use crate::alert_rules::{
    actions_view, copy_actions, triggers_view, ActionModel, AutoResponseAction,
    AutoResponseTrigger, TriggerModel,
};
use crate::collect::{
    first_index, lemma_first_index, lemma_first_index_map, position_where,
};
use crate::correlation::{elapsed, time_between};
use crate::text::{copies, push_text, same, texts};
use crate::textmap::TextMap;

verus! {

/// Something to do.
pub enum Order {
    KillProcess { pid: u32, force: bool },
    QuarantineFile { path: String },
    IsolateNetwork { allowed_ips: Vec<String> },
    BlockIP { ip: String, direction: String },
    BlockDomain,
    EmergencyCallback { message: String },
    Custom { action_type: String },
}

/// What to do.
#[verifier::ext_equal]
pub enum OrderModel {
    KillProcess { pid: u32, force: bool },
    QuarantineFile { path: Seq<char> },
    IsolateNetwork { allowed_ips: Seq<Seq<char>> },
    BlockIP { ip: Seq<char>, direction: Seq<char> },
    BlockDomain,
    EmergencyCallback { message: Seq<char> },
    Custom { action_type: Seq<char> },
}

impl View for Order {
    type V = OrderModel;

    open spec fn view(&self) -> OrderModel {
        match self {
            Order::KillProcess { pid, force } => OrderModel::KillProcess {
                pid: *pid,
                force: *force,
            },
            Order::QuarantineFile { path } => OrderModel::QuarantineFile { path: path@ },
            Order::IsolateNetwork { allowed_ips } => OrderModel::IsolateNetwork {
                allowed_ips: texts(allowed_ips@),
            },
            Order::BlockIP { ip, direction } => OrderModel::BlockIP {
                ip: ip@,
                direction: direction@,
            },
            Order::BlockDomain => OrderModel::BlockDomain,
            Order::EmergencyCallback { message } => OrderModel::EmergencyCallback {
                message: message@,
            },
            Order::Custom { action_type } => OrderModel::Custom { action_type: action_type@ },
        }
    }
}

/// Something to do about an alert.
pub struct ResponseOrder {
    pub alert_id: String,
    pub order: Order,
}

/// What to do about an alert.
#[verifier::ext_equal]
pub struct ResponseModel {
    pub alert_id: Seq<char>,
    pub order: OrderModel,
}

impl View for ResponseOrder {
    type V = ResponseModel;

    open spec fn view(&self) -> ResponseModel {
        ResponseModel { alert_id: self.alert_id@, order: self.order@ }
    }
}

/// What some orders are.
pub open spec fn orders_view(orders: Seq<ResponseOrder>) -> Seq<ResponseModel> {
    orders.map_values(|o: ResponseOrder| o@)
}

/// What an order is called.
pub open spec fn order_name(o: OrderModel) -> Seq<char> {
    match o {
        OrderModel::KillProcess { .. } => "kill_process"@,
        OrderModel::QuarantineFile { .. } => "quarantine_file"@,
        OrderModel::IsolateNetwork { .. } => "isolate_network"@,
        OrderModel::BlockIP { .. } => "block_ip"@,
        OrderModel::BlockDomain => "block_domain"@,
        OrderModel::EmergencyCallback { .. } => "emergency_callback"@,
        OrderModel::Custom { action_type } => action_type,
    }
}

/// What some orders are called.
pub open spec fn order_names(orders: Seq<ResponseModel>) -> Seq<Seq<char>> {
    orders.map_values(|o: ResponseModel| order_name(o.order))
}

impl Order {
    /// What an order is called.
    pub fn name(&self) -> (r: &str)
        ensures
            r@ == order_name(self@),
    {
        match self {
            Order::KillProcess { .. } => "kill_process",
            Order::QuarantineFile { .. } => "quarantine_file",
            Order::IsolateNetwork { .. } => "isolate_network",
            Order::BlockIP { .. } => "block_ip",
            Order::BlockDomain => "block_domain",
            Order::EmergencyCallback { .. } => "emergency_callback",
            Order::Custom { action_type } => action_type.as_str(),
        }
    }
}

/// What an action comes to on an alert: nothing, where the alert is not about what
/// the action needs.
pub open spec fn order_for(a: AlertModel, action: ActionModel) -> Option<OrderModel> {
    match action {
        ActionModel::KillProcess { force } => match a.process_context {
            Some(p) => Some(OrderModel::KillProcess { pid: p.pid, force }),
            None => None,
        },
        ActionModel::QuarantineFile => match a.file_context {
            Some(f) => Some(OrderModel::QuarantineFile { path: f.path }),
            None => None,
        },
        ActionModel::IsolateNetwork { allowed_ips } => Some(
            OrderModel::IsolateNetwork { allowed_ips },
        ),
        ActionModel::BlockIP { direction } => match a.network_context {
            Some(n) => Some(OrderModel::BlockIP { ip: n.remote_ip, direction }),
            None => None,
        },
        ActionModel::BlockDomain => Some(OrderModel::BlockDomain),
        ActionModel::EmergencyCallback { message } => Some(
            OrderModel::EmergencyCallback { message },
        ),
        ActionModel::Custom { action_type, payload } => Some(OrderModel::Custom { action_type }),
    }
}

/// What the first `n` actions come to on an alert.
pub open spec fn orders_for(a: AlertModel, actions: Seq<ActionModel>, n: nat) -> Seq<ResponseModel>
    decreases n,
{
    if n == 0 {
        Seq::empty()
    } else {
        let before = orders_for(a, actions, (n - 1) as nat);
        match order_for(a, actions[n - 1]) {
            Some(order) => before.push(ResponseModel { alert_id: a.alert_id, order }),
            None => before,
        }
    }
}

fn find_order(alert: &Alert, action: &AutoResponseAction) -> (r: Option<Order>)
    ensures
        match r {
            Some(o) => order_for(alert@, action@) == Some(o@),
            None => order_for(alert@, action@) is None,
        },
{
    match action {
        AutoResponseAction::KillProcess { force } => match &alert.process_context {
            Some(p) => Some(Order::KillProcess { pid: p.pid, force: *force }),
            None => None,
        },
        AutoResponseAction::QuarantineFile => match &alert.file_context {
            Some(f) => Some(Order::QuarantineFile { path: f.path.clone() }),
            None => None,
        },
        AutoResponseAction::IsolateNetwork { allowed_ips } => Some(
            Order::IsolateNetwork { allowed_ips: copies(allowed_ips) },
        ),
        AutoResponseAction::BlockIP { direction } => match &alert.network_context {
            Some(n) => Some(
                Order::BlockIP { ip: n.remote_ip.clone(), direction: direction.clone() },
            ),
            None => None,
        },
        AutoResponseAction::BlockDomain => Some(Order::BlockDomain),
        AutoResponseAction::EmergencyCallback { message } => Some(
            Order::EmergencyCallback { message: message.clone() },
        ),
        AutoResponseAction::Custom { action_type, payload } => Some(
            Order::Custom { action_type: action_type.clone() },
        ),
    }
}

/// An alert and what is to be done about it.
pub open spec fn pending_view(p: (Alert, Vec<AutoResponseAction>)) -> (AlertModel, Seq<ActionModel>) {
    (p.0@, actions_view(p.1@))
}

/// An alert and what is to be done about it.
pub open spec fn of_pending() -> spec_fn((Alert, Vec<AutoResponseAction>)) -> (
    AlertModel,
    Seq<ActionModel>,
) {
    |p: (Alert, Vec<AutoResponseAction>)| pending_view(p)
}

/// Alerts and what is to be done about them.
pub open spec fn all_pending(list: Seq<(Alert, Vec<AutoResponseAction>)>) -> Seq<
    (AlertModel, Seq<ActionModel>),
> {
    list.map_values(of_pending())
}

/// What a responder knows.
#[verifier::ext_equal]
pub struct ResponderModel {
    /// When it last acted, by alert and trigger.
    pub cooldowns: Map<Seq<char>, u64>,
    /// What waits for somebody to agree.
    pub pending: Seq<(AlertModel, Seq<ActionModel>)>,
    /// What is to be done.
    pub orders: Seq<ResponseModel>,
}

/// Under what it is noted that a trigger acted on an alert.
pub open spec fn cooldown_key(a: AlertModel, t: TriggerModel) -> Seq<char> {
    fingerprint(a) + ":"@ + severity_name(t.min_severity)
}

/// Whether a trigger is about an alert.
pub open spec fn triggered(a: AlertModel, t: TriggerModel) -> bool {
    level(a.severity) >= level(t.min_severity) && a.confidence >= t.min_confidence
}

/// Whether a trigger acted on such an alert not long ago.
pub open spec fn cooling(cooldowns: Map<Seq<char>, u64>, a: AlertModel, t: TriggerModel, now: u64) -> bool {
    cooldowns.contains_key(cooldown_key(a, t)) && elapsed(
        cooldowns[cooldown_key(a, t)],
        now,
    ) / 1000 < t.cooldown_seconds
}

/// The first trigger from position `i` on that acts on an alert.
pub open spec fn acting(
    triggers: Seq<TriggerModel>,
    a: AlertModel,
    cooldowns: Map<Seq<char>, u64>,
    now: u64,
    i: nat,
) -> Option<nat>
    decreases triggers.len() - i,
    when i <= triggers.len()
{
    if i == triggers.len() {
        None
    } else if triggered(a, triggers[i as int]) && !cooling(cooldowns, a, triggers[i as int], now) {
        Some(i)
    } else {
        acting(triggers, a, cooldowns, now, i + 1)
    }
}

/// What a responder knows once it saw an alert.
pub open spec fn responded(
    m: ResponderModel,
    triggers: Seq<TriggerModel>,
    a: AlertModel,
    now: u64,
) -> ResponderModel {
    match acting(triggers, a, m.cooldowns, now, 0) {
        Some(i) => {
            let t = triggers[i as int];
            if t.require_approval {
                ResponderModel { pending: m.pending.push((a, t.actions)), ..m }
            } else {
                ResponderModel {
                    cooldowns: m.cooldowns.insert(cooldown_key(a, t), now),
                    orders: m.orders + orders_for(a, t.actions, t.actions.len()),
                    ..m
                }
            }
        },
        None => m,
    }
}

/// What a responder orders at once when it sees an alert: what the alert's own rule
/// asks for, and what the trigger that acts on it does where nobody has to agree.
pub open spec fn given_at_once(
    m: ResponderModel,
    triggers: Seq<TriggerModel>,
    own: Seq<ActionModel>,
    a: AlertModel,
    now: u64,
) -> Seq<ResponseModel> {
    orders_for(a, own, own.len()) + match acting(triggers, a, m.cooldowns, now, 0) {
        Some(i) => {
            let t = triggers[i as int];
            if t.require_approval {
                Seq::empty()
            } else {
                orders_for(a, t.actions, t.actions.len())
            }
        },
        None => Seq::empty(),
    }
}

/// What a responder knows once it saw an alert whose own rule asks for something.
pub open spec fn answered(
    m: ResponderModel,
    triggers: Seq<TriggerModel>,
    own: Seq<ActionModel>,
    a: AlertModel,
    now: u64,
) -> ResponderModel {
    responded(
        ResponderModel { orders: m.orders + orders_for(a, own, own.len()), ..m },
        triggers,
        a,
        now,
    )
}

/// An alert with what was ordered about it.
pub open spec fn with_response(a: AlertModel, given: Seq<ResponseModel>) -> AlertModel {
    AlertModel {
        auto_response_triggered: a.auto_response_triggered || given.len() > 0,
        auto_response_actions: a.auto_response_actions + order_names(given),
        ..a
    }
}

/// Whether something waits on an alert.
pub open spec fn on_alert(alert_id: Seq<char>) -> spec_fn((AlertModel, Seq<ActionModel>)) -> bool {
    |p: (AlertModel, Seq<ActionModel>)| p.0.alert_id == alert_id
}

/// Where what waits on an alert stands.
pub open spec fn waiting(m: ResponderModel, alert_id: Seq<char>) -> Option<int> {
    first_index(m.pending, on_alert(alert_id))
}

/// What a responder knows once somebody agreed on an alert.
pub open spec fn approved(m: ResponderModel, alert_id: Seq<char>) -> ResponderModel {
    match waiting(m, alert_id) {
        Some(i) => ResponderModel {
            pending: m.pending.remove(i),
            orders: m.orders + orders_for(m.pending[i].0, m.pending[i].1, m.pending[i].1.len()),
            ..m
        },
        None => m,
    }
}

/// What a responder knows once somebody did not agree on an alert.
pub open spec fn rejected(m: ResponderModel, alert_id: Seq<char>) -> ResponderModel {
    match waiting(m, alert_id) {
        Some(i) => ResponderModel { pending: m.pending.remove(i), ..m },
        None => m,
    }
}

/// Acts on alerts.
pub struct Responder {
    pub cooldowns: TextMap<u64>,
    pub pending: Vec<(Alert, Vec<AutoResponseAction>)>,
    pub orders: Vec<ResponseOrder>,
}

impl View for Responder {
    type V = ResponderModel;

    open spec fn view(&self) -> ResponderModel {
        ResponderModel {
            cooldowns: self.cooldowns@,
            pending: all_pending(self.pending@),
            orders: orders_view(self.orders@),
        }
    }
}

/// What a responder knows that saw nothing.
pub open spec fn idle() -> ResponderModel {
    ResponderModel { cooldowns: Map::empty(), pending: Seq::empty(), orders: Seq::empty() }
}

impl Responder {
    /// A responder that saw nothing.
    pub fn new() -> (r: Responder)
        ensures
            r@ == idle(),
    {
        let r = Responder { cooldowns: TextMap::new(), pending: Vec::new(), orders: Vec::new() };
        assert(all_pending(r.pending@) =~= Seq::empty());
        assert(orders_view(r.orders@) =~= Seq::empty());
        r
    }

    /// Gives the orders for some actions on an alert.
    pub fn execute(&mut self, alert: &Alert, actions: &Vec<AutoResponseAction>)
        ensures
            final(self)@ == (ResponderModel {
                orders: old(self)@.orders + orders_for(
                    alert@,
                    actions_view(actions@),
                    actions@.len(),
                ),
                ..old(self)@
            }),
    {
        let ghost all = actions_view(actions@);
        let ghost start = self@.orders;
        let mut i: usize = 0;
        assert(start =~= start + orders_for(alert@, all, 0));
        while i < actions.len()
            invariant
                i <= actions@.len(),
                all == actions_view(actions@),
                self.cooldowns == old(self).cooldowns,
                self.pending == old(self).pending,
                orders_view(self.orders@) == start + orders_for(alert@, all, i as nat),
            decreases actions@.len() - i,
        {
            assert(all[i as int] == actions@[i as int]@);
            let ghost before = orders_view(self.orders@);
            match find_order(alert, &actions[i]) {
                Some(order) => {
                    let next = ResponseOrder { alert_id: alert.alert_id.clone(), order };
                    let ghost model = next@;
                    self.orders.push(next);
                    assert(orders_view(self.orders@) =~= before.push(model));
                    assert(before.push(model) =~= start + orders_for(alert@, all, (i + 1) as nat));
                },
                None => {},
            }
            i += 1;
        }
    }

    /// Acts on an alert by the first trigger that is about it and did not act just
    /// now: gives the orders, or has them wait for somebody to agree.
    pub fn respond(&mut self, triggers: &Vec<AutoResponseTrigger>, alert: &Alert, now: u64)
        ensures
            final(self)@ == responded(old(self)@, triggers_view(triggers@), alert@, now),
    {
        let ghost all = triggers_view(triggers@);
        let ghost start = self@;
        let mut i: usize = 0;
        while i < triggers.len()
            invariant
                i <= triggers@.len(),
                all == triggers_view(triggers@),
                self@ == start,
                *self == *old(self),
                acting(all, alert@, start.cooldowns, now, i as nat) == acting(
                    all,
                    alert@,
                    start.cooldowns,
                    now,
                    0,
                ),
            decreases triggers@.len() - i,
        {
            let trigger = &triggers[i];
            assert(all[i as int] == trigger@);
            if alert.severity.level() >= trigger.min_severity.level() && alert.confidence
                >= trigger.min_confidence {
                let key = alert.fingerprint().concat(":").concat(trigger.min_severity.name());
                let hot = match self.cooldowns.get(key.as_str()) {
                    Some(last) => time_between(*last, now) / 1000 < trigger.cooldown_seconds,
                    None => false,
                };
                assert(hot == cooling(start.cooldowns, alert@, trigger@, now));
                if !hot {
                    if trigger.require_approval {
                        let entry = (alert.clone(), copy_actions(&trigger.actions));
                        let ghost model = pending_view(entry);
                        self.pending.push(entry);
                        assert(all_pending(self.pending@) =~= start.pending.push(model));
                    } else {
                        self.execute(alert, &trigger.actions);
                        self.cooldowns.insert(key, now);
                    }
                    return;
                }
            }
            i += 1;
        }
    }

    /// Acts on an alert by what its own rule asks for and by the triggers, and notes on
    /// it what was ordered.
    pub fn answer(
        &mut self,
        triggers: &Vec<AutoResponseTrigger>,
        own: &Vec<AutoResponseAction>,
        alert: &mut Alert,
        now: u64,
    )
        ensures
            final(self)@ == answered(
                old(self)@,
                triggers_view(triggers@),
                actions_view(own@),
                old(alert)@,
                now,
            ),
            final(alert)@ == with_response(
                old(alert)@,
                given_at_once(
                    old(self)@,
                    triggers_view(triggers@),
                    actions_view(own@),
                    old(alert)@,
                    now,
                ),
            ),
    {
        let ghost start = self@;
        let ghost a = alert@;
        let ghost given = given_at_once(
            start,
            triggers_view(triggers@),
            actions_view(own@),
            a,
            now,
        );
        let first: usize = self.orders.len();
        self.execute(alert, own);
        self.respond(triggers, alert, now);
        let ghost all = orders_view(self.orders@);
        proof {
            assert(actions_view(own@).len() == own@.len());
            assert(start.orders.len() == first);
            assert(all =~= start.orders + given);
            assert(all.len() == self.orders@.len());
        }
        if self.orders.len() > first {
            alert.auto_response_triggered = true;
        }
        let ghost before = alert.auto_response_actions@;
        let mut i: usize = first;
        assert(texts(before) =~= texts(before) + order_names(given.take(0)));
        while i < self.orders.len()
            invariant
                first <= i <= self.orders@.len(),
                all == orders_view(self.orders@),
                all == start.orders + given,
                all.len() == self.orders@.len(),
                start.orders.len() == first,
                alert@ == (AlertModel {
                    auto_response_triggered: a.auto_response_triggered || given.len() > 0,
                    auto_response_actions: texts(before) + order_names(given.take(i - first)),
                    ..a
                }),
            decreases self.orders@.len() - i,
        {
            assert(all[i as int] == self.orders@[i as int]@);
            assert(given[i - first] == all[i as int]);
            let ghost held = texts(alert.auto_response_actions@);
            push_text(&mut alert.auto_response_actions, self.orders[i].order.name().to_string());
            assert(held.push(order_name(given[i - first].order)) =~= texts(before) + order_names(
                given.take(i - first + 1),
            ));
            i += 1;
        }
        assert(given.take(i - first) =~= given);
    }

    fn index_of(&self, alert_id: &str) -> (r: Option<usize>)
        ensures
            match r {
                Some(i) => waiting(self@, alert_id@) == Some(i as int) && i < self.pending@.len(),
                None => waiting(self@, alert_id@) is None,
            },
    {
        let ghost q = on_alert(alert_id@);
        let ghost p = |x: (Alert, Vec<AutoResponseAction>)| q(pending_view(x));
        let meets = |x: &(Alert, Vec<AutoResponseAction>)| -> (b: bool)
            ensures
                b == q(pending_view(*x)),
            { same(x.0.alert_id.as_str(), alert_id) };
        let r = position_where(&self.pending, meets, Ghost(p));
        proof {
            lemma_first_index_map(self.pending@, of_pending(), p, q);
        }
        r
    }

    /// Gives the orders that wait on an alert, if any do.
    pub fn approve(&mut self, alert_id: &str) -> (r: bool)
        ensures
            r == (waiting(old(self)@, alert_id@) is Some),
            final(self)@ == approved(old(self)@, alert_id@),
    {
        let ghost before = self@;
        match self.index_of(alert_id) {
            Some(i) => {
                let entry = self.pending.remove(i);
                assert(pending_view(entry) == before.pending[i as int]);
                assert(all_pending(self.pending@) =~= before.pending.remove(i as int));
                self.execute(&entry.0, &entry.1);
                true
            },
            None => false,
        }
    }

    /// Drops the orders that wait on an alert, if any do.
    pub fn reject(&mut self, alert_id: &str) -> (r: bool)
        ensures
            r == (waiting(old(self)@, alert_id@) is Some),
            final(self)@ == rejected(old(self)@, alert_id@),
    {
        let ghost before = self@;
        match self.index_of(alert_id) {
            Some(i) => {
                self.pending.remove(i);
                assert(all_pending(self.pending@) =~= before.pending.remove(i as int));
                true
            },
            None => false,
        }
    }

    /// What waits for somebody to agree.
    pub fn waiting_list(&self) -> (r: Vec<(Alert, Vec<AutoResponseAction>)>)
        ensures
            all_pending(r@) == self@.pending,
    {
        let ghost all = self@.pending;
        let mut r: Vec<(Alert, Vec<AutoResponseAction>)> = Vec::new();
        let mut i: usize = 0;
        assert(all_pending(r@) =~= all.take(0));
        while i < self.pending.len()
            invariant
                i <= self.pending@.len(),
                all == all_pending(self.pending@),
                all_pending(r@) == all.take(i as int),
            decreases self.pending@.len() - i,
        {
            let ghost before = all_pending(r@);
            let copy = (self.pending[i].0.clone(), copy_actions(&self.pending[i].1));
            let ghost model = pending_view(copy);
            assert(all[i as int] == pending_view(self.pending@[i as int]));
            r.push(copy);
            assert(all_pending(r@) =~= before.push(model));
            assert(all.take(i + 1) =~= all.take(i as int).push(all[i as int]));
            i += 1;
        }
        assert(all.take(i as int) =~= all);
        r
    }

    /// Hands over the orders.
    pub fn take_orders(&mut self) -> (r: Vec<ResponseOrder>)
        ensures
            orders_view(r@) == old(self)@.orders,
            final(self)@ == (ResponderModel { orders: Seq::empty(), ..old(self)@ }),
    {
        let mut taken: Vec<ResponseOrder> = Vec::new();
        std::mem::swap(&mut taken, &mut self.orders);
        assert(orders_view(self.orders@) =~= Seq::empty());
        taken
    }
}

impl Default for Responder {
    fn default() -> (r: Responder)
        ensures
            r@ == idle(),
    {
        Responder::new()
    }
}

/// Once a trigger acted on an alert, it does not act on one like it before the time
/// is over, where it is the only trigger.
pub proof fn law_cooldown_holds(
    m: ResponderModel,
    t: TriggerModel,
    a: AlertModel,
    b: AlertModel,
    now: u64,
    later: u64,
)
    requires
        triggered(a, t),
        !cooling(m.cooldowns, a, t, now),
        !t.require_approval,
        fingerprint(a) == fingerprint(b),
        now <= later,
        (later - now) / 1000 < t.cooldown_seconds,
    ensures
        ({
            let after = responded(m, seq![t], a, now);
            responded(after, seq![t], b, later) == after
        }),
{
    let after = responded(m, seq![t], a, now);
    assert(seq![t][0] == t);
    assert(after.cooldowns.contains_key(cooldown_key(b, t)));
    reveal_with_fuel(acting, 2);
}

/// An alert that no trigger is about changes nothing.
pub proof fn law_weak_alert_changes_nothing(
    m: ResponderModel,
    triggers: Seq<TriggerModel>,
    a: AlertModel,
    now: u64,
)
    requires
        forall|i: int| 0 <= i < triggers.len() ==> !triggered(a, #[trigger] triggers[i]),
    ensures
        responded(m, triggers, a, now) == m,
{
    lemma_none_acts(triggers, a, m.cooldowns, now, 0);
}

proof fn lemma_none_acts(
    triggers: Seq<TriggerModel>,
    a: AlertModel,
    cooldowns: Map<Seq<char>, u64>,
    now: u64,
    i: nat,
)
    requires
        i <= triggers.len(),
        forall|k: int| 0 <= k < triggers.len() ==> !triggered(a, #[trigger] triggers[k]),
    ensures
        acting(triggers, a, cooldowns, now, i) is None,
    decreases triggers.len() - i,
{
    if i < triggers.len() {
        assert(!triggered(a, triggers[i as int]));
        lemma_none_acts(triggers, a, cooldowns, now, i + 1);
    }
}

/// To agree or not to agree takes one entry off the list, the first on the alert,
/// and what was agreed on is ordered.
pub proof fn law_decision_takes_one_off(m: ResponderModel, alert_id: Seq<char>)
    requires
        waiting(m, alert_id) is Some,
    ensures
        approved(m, alert_id).pending.len() == m.pending.len() - 1,
        rejected(m, alert_id).pending == approved(m, alert_id).pending,
        rejected(m, alert_id).orders == m.orders,
{
    lemma_first_index(m.pending, on_alert(alert_id));
}

/// What is noted on an alert is what is ordered about it, no more and no less; what
/// its own rule asks for is among it, as far as the alert is about it.
pub proof fn law_what_is_noted_is_ordered(
    m: ResponderModel,
    triggers: Seq<TriggerModel>,
    own: Seq<ActionModel>,
    a: AlertModel,
    now: u64,
)
    ensures
        ({
            let given = given_at_once(m, triggers, own, a, now);
            let noted = with_response(a, given);
            &&& answered(m, triggers, own, a, now).orders == m.orders + given
            &&& noted.auto_response_actions == a.auto_response_actions + order_names(given)
            &&& !a.auto_response_triggered ==> noted.auto_response_triggered == (given.len() > 0)
            &&& orders_for(a, own, own.len()).is_prefix_of(given)
        }),
{
    let given = given_at_once(m, triggers, own, a, now);
    assert(answered(m, triggers, own, a, now).orders =~= m.orders + given);
    assert(orders_for(a, own, own.len()) =~= given.take(
        orders_for(a, own, own.len()).len() as int,
    ));
}

/// What actions come to on an alert is one order for each that the alert is about, and no
/// other.
pub proof fn law_actions_become_orders(
    a: AlertModel,
    actions: Seq<ActionModel>,
    n: nat,
    r: ResponseModel,
)
    requires
        n <= actions.len(),
    ensures
        orders_for(a, actions, n).contains(r) <==> r.alert_id == a.alert_id && exists|i: int|
            0 <= i < n && order_for(a, #[trigger] actions[i]) == Some(r.order),
    decreases n,
{
    if n > 0 {
        law_actions_become_orders(a, actions, (n - 1) as nat, r);
        let before = orders_for(a, actions, (n - 1) as nat);
        let after = orders_for(a, actions, n);
        if before.contains(r) {
            let k = choose|k: int| 0 <= k < before.len() && before[k] == r;
            assert(after[k] == r);
            let i = choose|i: int|
                0 <= i < n - 1 && order_for(a, #[trigger] actions[i]) == Some(r.order);
            assert(order_for(a, actions[i]) == Some(r.order));
        }
        if let Some(order) = order_for(a, actions[n - 1]) {
            assert(after.last() == (ResponseModel { alert_id: a.alert_id, order }));
            if after.contains(r) {
                let k = choose|k: int| 0 <= k < after.len() && after[k] == r;
                if k < before.len() {
                    assert(before[k] == r);
                } else {
                    assert(order_for(a, actions[n - 1]) == Some(r.order));
                }
            }
        }
        if r.alert_id == a.alert_id && exists|i: int|
            0 <= i < n && order_for(a, #[trigger] actions[i]) == Some(r.order) {
            let i = choose|i: int|
                0 <= i < n && order_for(a, #[trigger] actions[i]) == Some(r.order);
            if i < n - 1 {
                assert(order_for(a, actions[i]) == Some(r.order));
                assert(before.contains(r));
            }
        }
    }
}

/// An order is about what its alert is about: the process is ended, the file put away and
/// the other side blocked that the alert names, and nothing of the kind where it names
/// none; all else is ordered in any case.
pub proof fn law_orders_are_about_the_alert(a: AlertModel, force: bool, direction: Seq<char>)
    ensures
        order_for(a, ActionModel::KillProcess { force }) == match a.process_context {
            Some(p) => Some(OrderModel::KillProcess { pid: p.pid, force }),
            None => None,
        },
        order_for(a, ActionModel::QuarantineFile) == match a.file_context {
            Some(f) => Some(OrderModel::QuarantineFile { path: f.path }),
            None => None,
        },
        order_for(a, ActionModel::BlockIP { direction }) == match a.network_context {
            Some(n) => Some(OrderModel::BlockIP { ip: n.remote_ip, direction }),
            None => None,
        },
        order_for(a, ActionModel::BlockDomain) is Some,
        forall|allowed_ips: Seq<Seq<char>>|
            #[trigger] order_for(a, ActionModel::IsolateNetwork { allowed_ips }) == Some(
                OrderModel::IsolateNetwork { allowed_ips },
            ),
{
}

proof fn lemma_acting(
    triggers: Seq<TriggerModel>,
    a: AlertModel,
    cooldowns: Map<Seq<char>, u64>,
    now: u64,
    from: nat,
)
    requires
        from <= triggers.len(),
    ensures
        match acting(triggers, a, cooldowns, now, from) {
            Some(i) => from <= i < triggers.len() && triggered(a, triggers[i as int]) && !cooling(
                cooldowns,
                a,
                triggers[i as int],
                now,
            ) && forall|j: int|
                from <= j < i ==> !(triggered(a, #[trigger] triggers[j]) && !cooling(
                    cooldowns,
                    a,
                    triggers[j],
                    now,
                )),
            None => forall|j: int|
                from <= j < triggers.len() ==> !(triggered(a, #[trigger] triggers[j]) && !cooling(
                    cooldowns,
                    a,
                    triggers[j],
                    now,
                )),
        },
    decreases triggers.len() - from,
{
    if from < triggers.len() && !(triggered(a, triggers[from as int]) && !cooling(
        cooldowns,
        a,
        triggers[from as int],
        now,
    )) {
        lemma_acting(triggers, a, cooldowns, now, from + 1);
    }
}

/// The first trigger acts that asks for no more than the severity and the confidence of an
/// alert and did not act on one like it within its time. Where somebody has to agree, its
/// actions wait; otherwise they are ordered, and that it acted is noted.
pub proof fn law_the_first_trigger_acts(
    m: ResponderModel,
    triggers: Seq<TriggerModel>,
    a: AlertModel,
    now: u64,
    i: int,
)
    requires
        0 <= i < triggers.len(),
        level(a.severity) >= level(triggers[i].min_severity),
        a.confidence >= triggers[i].min_confidence,
        m.cooldowns.contains_key(cooldown_key(a, triggers[i])) ==> now - m.cooldowns[cooldown_key(
            a,
            triggers[i],
        )] >= triggers[i].cooldown_seconds * 1000 || triggers[i].cooldown_seconds == 0,
        forall|j: int|
            0 <= j < i ==> level(a.severity) < level((#[trigger] triggers[j]).min_severity)
                || a.confidence < triggers[j].min_confidence,
    ensures
        ({
            let after = responded(m, triggers, a, now);
            let actions = triggers[i].actions;
            &&& triggers[i].require_approval ==> after.pending == m.pending.push((a, actions))
                && after.orders == m.orders && after.cooldowns == m.cooldowns
            &&& !triggers[i].require_approval ==> after.orders == m.orders + orders_for(
                a,
                actions,
                actions.len(),
            ) && after.pending == m.pending && after.cooldowns == m.cooldowns.insert(
                cooldown_key(a, triggers[i]),
                now,
            )
        }),
{
    lemma_acting(triggers, a, m.cooldowns, now, 0);
    assert(triggered(a, triggers[i]));
    if m.cooldowns.contains_key(cooldown_key(a, triggers[i])) {
        let then = m.cooldowns[cooldown_key(a, triggers[i])];
        let s = triggers[i].cooldown_seconds;
        assert(elapsed(then, now) / 1000 >= s);
    }
    assert(!cooling(m.cooldowns, a, triggers[i], now));
    let k = acting(triggers, a, m.cooldowns, now, 0)->0;
    if k < i {
        assert(triggered(a, triggers[k as int]));
    }
}

} // verus!
