//! The simulation clock and scheduler: the registry of entities, the
//! time-ordered order queue, initialization from the order-file line
//! vocabulary, and the tick loop that executes due orders and repositions
//! deployed entities.

use vstd::prelude::*;
use crate::location::Location;
use crate::math::TIME_LIMIT;
use crate::movable::{mov_executed, mov_repositioned, new_carrier_v, new_cruiser_v, new_fighter_v,
    Carrier, Cruiser, Fighter, Movable, MovableV};
use crate::order::{time_ok, ChangeAircraft, ChangeShip, DeployAircraft, DeployShip, LandAircraft,
    Order, OrderV};
use crate::parse::{checked_time, parse_milli, parse_milli_spec, parse_time_in_range, parse_whole,
    parse_whole_spec, spec_tokens, str_eq, tokenize};

verus! {

#[derive(Debug, PartialEq, Eq, Structural)]
pub enum Opcode {
    StartSim,
    StopSim,
    EndSim,
    CreateCruiser,
    CreateAircraftCarrier,
    CreateFighter,
    DeployShip,
    DeployAircraft,
    ChangeShipOrders,
    ChangeAircraftOrders,
    LandAircraft,
    Invalid,
}

/// The instruction keyword a token selects; anything unrecognized is
/// `Invalid`.
pub open spec fn opcode_of(s: Seq<char>) -> Opcode {
    if s == "StartSim"@ {
        Opcode::StartSim
    } else if s == "StopSim"@ {
        Opcode::StopSim
    } else if s == "EndSim"@ {
        Opcode::EndSim
    } else if s == "CreateCruiser"@ {
        Opcode::CreateCruiser
    } else if s == "CreateAircraftCarrier"@ {
        Opcode::CreateAircraftCarrier
    } else if s == "CreateFighter"@ {
        Opcode::CreateFighter
    } else if s == "DeployShip"@ {
        Opcode::DeployShip
    } else if s == "DeployAircraft"@ {
        Opcode::DeployAircraft
    } else if s == "ChangeShipOrders"@ {
        Opcode::ChangeShipOrders
    } else if s == "ChangeAircraftOrders"@ {
        Opcode::ChangeAircraftOrders
    } else if s == "LandAircraft"@ {
        Opcode::LandAircraft
    } else {
        Opcode::Invalid
    }
}

impl Opcode {
    pub fn new(op: &str) -> (r: Self)
        ensures
            r == opcode_of(op@),
    {
        if str_eq(op, "StartSim") {
            Opcode::StartSim
        } else if str_eq(op, "StopSim") {
            Opcode::StopSim
        } else if str_eq(op, "EndSim") {
            Opcode::EndSim
        } else if str_eq(op, "CreateCruiser") {
            Opcode::CreateCruiser
        } else if str_eq(op, "CreateAircraftCarrier") {
            Opcode::CreateAircraftCarrier
        } else if str_eq(op, "CreateFighter") {
            Opcode::CreateFighter
        } else if str_eq(op, "DeployShip") {
            Opcode::DeployShip
        } else if str_eq(op, "DeployAircraft") {
            Opcode::DeployAircraft
        } else if str_eq(op, "ChangeShipOrders") {
            Opcode::ChangeShipOrders
        } else if str_eq(op, "ChangeAircraftOrders") {
            Opcode::ChangeAircraftOrders
        } else if str_eq(op, "LandAircraft") {
            Opcode::LandAircraft
        } else {
            Opcode::Invalid
        }
    }
}

/// An order in the queue, tagged with its arrival rank (position in the
/// order file): the tie-break that keeps the sort stable.
pub struct QueuedOrder {
    pub rank: usize,
    pub order: Order,
}

/// The mathematical reading of a queued order.
pub ghost struct QueuedOrderV {
    pub rank: int,
    pub order: OrderV,
}

impl View for QueuedOrder {
    type V = QueuedOrderV;

    open spec fn view(&self) -> QueuedOrderV {
        QueuedOrderV { rank: self.rank as int, order: self.order@ }
    }
}

/// The mathematical readings of a registry, element by element.
pub open spec fn navy_views(ms: Seq<Movable>) -> Seq<MovableV> {
    ms.map_values(|m: Movable| m@)
}

/// The mathematical readings of an order queue, element by element.
pub open spec fn orders_views(q: Seq<QueuedOrder>) -> Seq<QueuedOrderV> {
    q.map_values(|qo: QueuedOrder| qo@)
}

/// The first entity at or after position `i` bearing the given id.
pub open spec fn find_from(ns: Seq<MovableV>, id: Seq<char>, i: int) -> Option<int>
    decreases ns.len() - i,
{
    if i < 0 || i >= ns.len() {
        None
    } else if ns[i].spec_id() == id {
        Some(i)
    } else {
        find_from(ns, id, i + 1)
    }
}

/// The first entity bearing the given id, if any.
pub open spec fn find_idx(ns: Seq<MovableV>, id: Seq<char>) -> Option<int> {
    find_from(ns, id, 0)
}

/// Registering an entity: an entity with the same id is replaced, a new id
/// is appended.
pub open spec fn registry_insert(ns: Seq<MovableV>, m: MovableV) -> Seq<MovableV> {
    match find_idx(ns, m.spec_id()) {
        Some(i) => ns.update(i, m),
        None => ns.push(m),
    }
}

/// How many orders at the front of the queue are due at `now`.
pub open spec fn due_count(q: Seq<QueuedOrderV>, now: int) -> int
    decreases q.len(),
{
    if q.len() == 0 || q[0].order.extime() > now {
        0
    } else {
        1 + due_count(q.drop_first(), now)
    }
}

/// One order dispatched to its target entity; an order whose target id is
/// absent from the registry is dropped without effect.
pub open spec fn applied_order(ns: Seq<MovableV>, o: OrderV) -> Seq<MovableV> {
    match find_idx(ns, o.target()) {
        Some(i) => ns.update(i, mov_executed(ns[i], o)),
        None => ns,
    }
}

/// The registry after every due order at the front of the queue has been
/// dispatched in queue order.
pub open spec fn drained(ns: Seq<MovableV>, q: Seq<QueuedOrderV>, now: int) -> Seq<MovableV>
    decreases q.len(),
{
    if q.len() == 0 || q[0].order.extime() > now {
        ns
    } else {
        drained(applied_order(ns, q[0].order), q.drop_first(), now)
    }
}

/// The location a fighter steers by: its carrier's current location, read
/// from the registry; `None` for ships, and for a fighter whose carrier id
/// is absent.
pub open spec fn carrier_for(ns: Seq<MovableV>, m: MovableV) -> Option<Location> {
    match m.carrier_ref() {
        Some(cid) => match find_idx(ns, cid) {
            Some(j) => Some(ns[j].position()),
            None => None,
        },
        None => None,
    }
}

/// Whether entity `i`, if it is a deployed fighter, can resolve its
/// carrier in the registry.
pub open spec fn carrier_ok_at(ns: Seq<MovableV>, i: int) -> bool {
    match ns[i].carrier_ref() {
        Some(cid) => ns[i].deployed() ==> find_idx(ns, cid) is Some,
        None => true,
    }
}

/// Every deployed fighter can resolve its carrier: the condition under
/// which a tick's repositioning phase succeeds.
pub open spec fn carriers_ok(ns: Seq<MovableV>) -> bool {
    forall|i: int| 0 <= i < ns.len() ==> carrier_ok_at(ns, i)
}

/// The registry after every deployed entity from position `i` on has been
/// repositioned to `now`, in registry order; a fighter reads its carrier's
/// location from the registry as it stands when the fighter's turn comes.
pub open spec fn repositioned_from(ns: Seq<MovableV>, now: i64, i: int) -> Seq<MovableV>
    decreases ns.len() - i,
{
    if i < 0 || i >= ns.len() {
        ns
    } else {
        let m = ns[i];
        let ns2 = if m.deployed() {
            ns.update(i, mov_repositioned(m, now, carrier_for(ns, m)))
        } else {
            ns
        };
        repositioned_from(ns2, now, i + 1)
    }
}

/// The order the queue is sorted by: execution time, with arrival rank as
/// the tie-break.
pub open spec fn qorder_le(a: QueuedOrderV, b: QueuedOrderV) -> bool {
    a.order.extime() < b.order.extime() || (a.order.extime() == b.order.extime() && a.rank
        <= b.rank)
}

/// Every earlier queue entry executes no later than every later one, and
/// entries with equal execution times keep their arrival order.
pub open spec fn queue_sorted(q: Seq<QueuedOrderV>) -> bool {
    forall|i: int, j: int| 0 <= i < j < q.len() ==> qorder_le(q[i], q[j])
}

/// An order inserted into a sorted queue, before the first entry it
/// precedes.
pub open spec fn insert_sorted(q: Seq<QueuedOrderV>, x: QueuedOrderV) -> Seq<QueuedOrderV>
    decreases q.len(),
{
    if q.len() == 0 {
        seq![x]
    } else if qorder_le(x, q[0]) {
        seq![x] + q
    } else {
        seq![q[0]] + insert_sorted(q.drop_first(), x)
    }
}

/// The queue sorted by repeated insertion, taking entries left to right:
/// a stable sort by execution time, since ranks increase with file order.
pub open spec fn sort_from(acc: Seq<QueuedOrderV>, q: Seq<QueuedOrderV>, i: int) -> Seq<
    QueuedOrderV,
>
    decreases q.len() - i,
{
    if i < 0 || i >= q.len() {
        acc
    } else {
        sort_from(insert_sorted(acc, q[i]), q, i + 1)
    }
}

pub open spec fn sort_queue(q: Seq<QueuedOrderV>) -> Seq<QueuedOrderV> {
    sort_from(Seq::empty(), q, 0)
}

/// Inserting into a sorted queue keeps it sorted.
pub proof fn lemma_insert_sorted_sorted(q: Seq<QueuedOrderV>, x: QueuedOrderV)
    requires
        queue_sorted(q),
    ensures
        queue_sorted(insert_sorted(q, x)),
        insert_sorted(q, x).len() == q.len() + 1,
    decreases q.len(),
{
    if q.len() == 0 {
    } else if qorder_le(x, q[0]) {
        let r = seq![x] + q;
        assert forall|i: int, j: int| 0 <= i < j < r.len() implies qorder_le(r[i], r[j]) by {
            if i > 0 {
                assert(qorder_le(q[i - 1], q[j - 1]));
            } else if j > 1 {
                assert(qorder_le(q[0], q[j - 1]));
            }
        }
    } else {
        let tail = q.drop_first();
        assert(queue_sorted(tail)) by {
            assert(forall|i: int, j: int|
                0 <= i < j < tail.len() ==> qorder_le(q[i + 1], q[j + 1]) && #[trigger] qorder_le(
                    tail[i],
                    tail[j],
                ) == qorder_le(q[i + 1], q[j + 1]));
        }
        lemma_insert_sorted_sorted(tail, x);
        let it = insert_sorted(tail, x);
        let r = seq![q[0]] + it;
        // q[0] precedes x (totality) and every element of the sorted tail
        assert(qorder_le(q[0], x));
        assert forall|j: int| 0 <= j < it.len() implies qorder_le(q[0], it[j]) by {
            lemma_insert_sorted_members(tail, x, j);
            if it[j] != x {
                assert(exists|k: int| 0 <= k < tail.len() && tail[k] == it[j]);
                let k = choose|k: int| 0 <= k < tail.len() && tail[k] == it[j];
                assert(qorder_le(q[0], q[k + 1]));
            }
        }
        assert forall|i: int, j: int| 0 <= i < j < r.len() implies qorder_le(r[i], r[j]) by {
            if i > 0 {
                assert(qorder_le(it[i - 1], it[j - 1]));
            }
        }
    }
}

/// Every element of an insertion result is the inserted element or one of
/// the original queue.
pub proof fn lemma_insert_sorted_members(q: Seq<QueuedOrderV>, x: QueuedOrderV, j: int)
    requires
        0 <= j < insert_sorted(q, x).len(),
    ensures
        insert_sorted(q, x)[j] == x || exists|k: int|
            0 <= k < q.len() && q[k] == insert_sorted(q, x)[j],
    decreases q.len(),
{
    if q.len() == 0 {
    } else if qorder_le(x, q[0]) {
    } else {
        if j > 0 {
            lemma_insert_sorted_members(q.drop_first(), x, j - 1);
            let it = insert_sorted(q.drop_first(), x);
            if it[j - 1] != x {
                let k = choose|k: int| 0 <= k < q.drop_first().len() && q.drop_first()[k] == it[j
                    - 1];
                assert(q[k + 1] == insert_sorted(q, x)[j]);
            }
        }
    }
}

/// Sorting by repeated insertion yields a sorted queue.
pub proof fn lemma_sort_from_sorted(acc: Seq<QueuedOrderV>, q: Seq<QueuedOrderV>, i: int)
    requires
        queue_sorted(acc),
    ensures
        queue_sorted(sort_from(acc, q, i)),
    decreases q.len() - i,
{
    if 0 <= i < q.len() {
        lemma_insert_sorted_sorted(acc, q[i]);
        lemma_sort_from_sorted(insert_sorted(acc, q[i]), q, i + 1);
    }
}

/// The law the sorted queue obeys: an earlier entry never executes later
/// than a later one, and entries with equal execution times keep their
/// arrival order (ranks nondecreasing — file order, since initialization
/// ranks orders by position in the file).
pub proof fn lemma_queue_stability(q: Seq<QueuedOrderV>, i: int, j: int)
    requires
        queue_sorted(q),
        0 <= i < j < q.len(),
    ensures
        q[i].order.extime() <= q[j].order.extime(),
        q[i].order.extime() == q[j].order.extime() ==> q[i].rank <= q[j].rank,
{
    assert(qorder_le(q[i], q[j]));
}

/// How many ticks remain between `t` and `stop` at 60-second steps.
pub open spec fn time_steps(t: i64, stop: i64) -> int {
    if t >= stop {
        0
    } else {
        (stop as int - t as int + 59) / 60
    }
}

/// The whole run, from clock value `t` up to (exclusive) `stop` in
/// 60-second ticks: each tick drains the due orders and, if every deployed
/// fighter can resolve its carrier, repositions the fleet; otherwise the
/// run stops there and reports failure (the third component).
pub open spec fn run_spec(ns: Seq<MovableV>, q: Seq<QueuedOrderV>, t: i64, stop: i64) -> (
    Seq<MovableV>,
    Seq<QueuedOrderV>,
    bool,
)
    decreases time_steps(t, stop),
    when crate::math::abs_val(t as int) <= 2 * (TIME_LIMIT as int) && time_ok(stop as int)
    via run_spec_decreases
{
    if t >= stop {
        (ns, q, true)
    } else {
        let ns1 = drained(ns, q, t as int);
        let q1 = q.skip(due_count(q, t as int));
        if carriers_ok(ns1) {
            run_spec(repositioned_from(ns1, t, 0), q1, (t + 60) as i64, stop)
        } else {
            (ns1, q1, false)
        }
    }
}

/// One 60-second step strictly lowers the remaining tick count.
pub proof fn lemma_time_steps_dec(t: i64, stop: i64)
    requires
        t < stop,
        crate::math::abs_val(t as int) <= 2 * (TIME_LIMIT as int),
        time_ok(stop as int),
    ensures
        time_steps((t + 60) as i64, stop) < time_steps(t, stop),
        time_steps((t + 60) as i64, stop) >= 0,
{
    let t2 = (t + 60) as i64;
    assert(t2 == t as int + 60);
    assert(time_steps(t2, stop) < time_steps(t, stop) && time_steps(t2, stop) >= 0)
        by (nonlinear_arith)
        requires
            t2 == t as int + 60,
            t < stop,
            time_steps(t2, stop) == if t2 >= stop {
                0int
            } else {
                (stop as int - t2 as int + 59) / 60
            },
            time_steps(t, stop) == (stop as int - t as int + 59) / 60,
    ;
}

#[via_fn]
proof fn run_spec_decreases(ns: Seq<MovableV>, q: Seq<QueuedOrderV>, t: i64, stop: i64) {
    if t < stop {
        lemma_time_steps_dec(t, stop);
    }
}

/// An order appended to the queue, ranked by its arrival position.
pub open spec fn queued(st: SimV, o: OrderV) -> SimV {
    SimV { orders: st.orders.push(QueuedOrderV { rank: st.orders.len() as int, order: o }), ..st }
}

/// A tokenized order-file line dispatched on its instruction keyword.
/// `None` is a fatal initialization error: an unrecognized keyword, a
/// malformed or out-of-range date-time, a missing field, or a malformed
/// number.
pub open spec fn line_dispatch(st: SimV, toks: Seq<Seq<char>>) -> Option<SimV> {
    match opcode_of(toks[0]) {
        Opcode::StartSim => if toks.len() >= 3 {
            match checked_time(toks[1], toks[2]) {
                Some(t) => Some(SimV { start: t, ..st }),
                None => None,
            }
        } else {
            None
        },
        Opcode::StopSim | Opcode::EndSim => if toks.len() >= 3 {
            match checked_time(toks[1], toks[2]) {
                Some(t) => Some(SimV { stop: t, ..st }),
                None => None,
            }
        } else {
            None
        },
        Opcode::CreateCruiser => if toks.len() >= 5 {
            match (parse_milli_spec(toks[3]), parse_whole_spec(toks[4])) {
                (Some(ms), Some(mm)) => Some(
                    SimV {
                        navy: registry_insert(
                            st.navy,
                            MovableV::Cruiser(new_cruiser_v(toks[1], toks[2], ms as i64, mm as i64)),
                        ),
                        ..st
                    },
                ),
                _ => None,
            }
        } else {
            None
        },
        Opcode::CreateAircraftCarrier => if toks.len() >= 5 {
            match (parse_milli_spec(toks[3]), parse_whole_spec(toks[4])) {
                (Some(ms), Some(ma)) => Some(
                    SimV {
                        navy: registry_insert(
                            st.navy,
                            MovableV::Carrier(new_carrier_v(toks[1], toks[2], ms as i64, ma as i64)),
                        ),
                        ..st
                    },
                ),
                _ => None,
            }
        } else {
            None
        },
        Opcode::CreateFighter => if toks.len() >= 7 {
            match (parse_milli_spec(toks[4]), parse_milli_spec(toks[5]), parse_whole_spec(
                toks[6],
            )) {
                (Some(ms), Some(mc), Some(mb)) => Some(
                    SimV {
                        navy: registry_insert(
                            st.navy,
                            MovableV::Fighter(
                                new_fighter_v(
                                    toks[1],
                                    toks[2],
                                    ms as i64,
                                    toks[3],
                                    mc as i64,
                                    mb as i64,
                                ),
                            ),
                        ),
                        ..st
                    },
                ),
                _ => None,
            }
        } else {
            None
        },
        Opcode::DeployShip => if toks.len() >= 8 {
            match (checked_time(toks[1], toks[2]), parse_milli_spec(toks[4]), parse_milli_spec(
                toks[5],
            ), parse_milli_spec(toks[6]), parse_milli_spec(toks[7])) {
                (Some(t), Some(x), Some(y), Some(h), Some(sp)) => Some(
                    queued(
                        st,
                        OrderV::DeployShip {
                            id: toks[3],
                            extime: t,
                            start_x: x as i64,
                            start_y: y as i64,
                            heading: h as i64,
                            speed: sp as i64,
                        },
                    ),
                ),
                _ => None,
            }
        } else {
            None
        },
        Opcode::DeployAircraft => if toks.len() >= 7 {
            match (checked_time(toks[1], toks[2]), parse_milli_spec(toks[4]), parse_milli_spec(
                toks[5],
            ), parse_milli_spec(toks[6])) {
                (Some(t), Some(h), Some(sp), Some(alt)) => Some(
                    queued(
                        st,
                        OrderV::DeployAircraft {
                            id: toks[3],
                            extime: t,
                            heading: h as i64,
                            speed: sp as i64,
                            altitude: alt as i64,
                        },
                    ),
                ),
                _ => None,
            }
        } else {
            None
        },
        Opcode::ChangeShipOrders => if toks.len() >= 6 {
            match (checked_time(toks[1], toks[2]), parse_milli_spec(toks[4]), parse_milli_spec(
                toks[5],
            )) {
                (Some(t), Some(h), Some(sp)) => Some(
                    queued(
                        st,
                        OrderV::ChangeShip {
                            id: toks[3],
                            extime: t,
                            heading: h as i64,
                            speed: sp as i64,
                        },
                    ),
                ),
                _ => None,
            }
        } else {
            None
        },
        Opcode::ChangeAircraftOrders => if toks.len() >= 7 {
            match (checked_time(toks[1], toks[2]), parse_milli_spec(toks[4]), parse_milli_spec(
                toks[5],
            ), parse_milli_spec(toks[6])) {
                (Some(t), Some(h), Some(sp), Some(alt)) => Some(
                    queued(
                        st,
                        OrderV::ChangeAircraft {
                            id: toks[3],
                            extime: t,
                            heading: h as i64,
                            speed: sp as i64,
                            altitude: alt as i64,
                        },
                    ),
                ),
                _ => None,
            }
        } else {
            None
        },
        Opcode::LandAircraft => if toks.len() >= 5 {
            match checked_time(toks[1], toks[2]) {
                Some(t) => Some(
                    queued(st, OrderV::LandAircraft { id: toks[4], extime: t, ship_id: toks[3] }),
                ),
                None => None,
            }
        } else {
            None
        },
        Opcode::Invalid => None,
    }
}

/// One order-file line applied to the scheduler state: blank lines and
/// lines starting with '#' are skipped, as are lines of pure whitespace;
/// everything else is dispatched on its first token.
pub open spec fn line_applied(st: SimV, line: Seq<char>) -> Option<SimV> {
    if line.len() == 0 || line[0] == '#' {
        Some(st)
    } else {
        let toks = spec_tokens(line);
        if toks.len() == 0 {
            Some(st)
        } else {
            line_dispatch(st, toks)
        }
    }
}

/// The order file's lines, from position `i` on, folded over the state;
/// `None` as soon as any line fails.
pub open spec fn init_lines(st: SimV, lines: Seq<Seq<char>>, i: int) -> Option<SimV>
    decreases lines.len() - i,
{
    if i < 0 || i >= lines.len() {
        Some(st)
    } else {
        match line_applied(st, lines[i]) {
            Some(st2) => init_lines(st2, lines, i + 1),
            None => None,
        }
    }
}

fn queued_le(a: &QueuedOrder, b: &QueuedOrder) -> (r: bool)
    ensures
        r == qorder_le(a@, b@),
{
    let ea: i64 = a.order.get_extime();
    let eb: i64 = b.order.get_extime();
    ea < eb || (ea == eb && a.rank <= b.rank)
}

/// Insert an order into a sorted queue, after every entry that does not
/// come after it: the stable insertion step.
fn insert_in_order(q: &mut Vec<QueuedOrder>, x: QueuedOrder)
    ensures
        orders_views(final(q)@) == insert_sorted(orders_views(old(q)@), x@),
        (forall|j: int| 0 <= j < old(q)@.len() ==> (#[trigger] old(q)@[j]).order@.wf())
            && x.order@.wf() ==> forall|j: int|
            0 <= j < final(q)@.len() ==> (#[trigger] final(q)@[j]).order@.wf(),
{
    let ghost whole = orders_views(q@);
    let ghost xv = x@;
    proof {
        assert(whole.take(0) =~= Seq::<QueuedOrderV>::empty());
        assert(whole.skip(0) =~= whole);
        assert(whole.take(0) + insert_sorted(whole.skip(0), xv) =~= insert_sorted(whole, xv));
    }
    let n: usize = q.len();
    let mut i: usize = 0;
    while i < n && !queued_le(&x, &q[i])
        invariant
            0 <= i <= n,
            n == q@.len(),
            whole == orders_views(q@),
            xv == x@,
            insert_sorted(whole, xv) == whole.take(i as int) + insert_sorted(
                whole.skip(i as int),
                xv,
            ),
        decreases n - i,
    {
        proof {
            assert(whole.skip(i as int)[0] == whole[i as int]);
            assert(whole.skip(i as int).drop_first() =~= whole.skip(i as int + 1));
            assert(seq![whole[i as int]] + insert_sorted(whole.skip(i as int + 1), xv)
                == insert_sorted(whole.skip(i as int), xv));
            assert(whole.take(i as int + 1) =~= whole.take(i as int) + seq![whole[i as int]]);
            assert(whole.take(i as int) + (seq![whole[i as int]] + insert_sorted(
                whole.skip(i as int + 1),
                xv,
            )) =~= whole.take(i as int + 1) + insert_sorted(whole.skip(i as int + 1), xv));
        }
        i = i + 1;
    }
    proof {
        if i < n {
            assert(whole.skip(i as int)[0] == whole[i as int]);
            assert(insert_sorted(whole.skip(i as int), xv) == seq![xv] + whole.skip(i as int));
        } else {
            assert(whole.skip(i as int) =~= Seq::<QueuedOrderV>::empty());
        }
    }
    let ghost q_old = q@;
    q.insert(i, x);
    proof {
        assert(forall|j: int|
            0 <= j < q@.len() ==> #[trigger] q@[j] == if j < i {
                q_old[j]
            } else if j == i {
                x
            } else {
                q_old[j - 1]
            });
        assert(orders_views(q@) =~= whole.take(i as int) + (seq![xv] + whole.skip(i as int)));
        assert(insert_sorted(whole, xv) == whole.take(i as int) + (seq![xv] + whole.skip(
            i as int,
        )));
    }
}

pub struct SimManager {
    pub start: i64,
    pub stop: i64,
    pub navy_map: Vec<Movable>,
    pub order_q: Vec<QueuedOrder>,
}

/// The mathematical state of the scheduler.
pub ghost struct SimV {
    pub start: i64,
    pub stop: i64,
    pub navy: Seq<MovableV>,
    pub orders: Seq<QueuedOrderV>,
}

impl View for SimManager {
    type V = SimV;

    open spec fn view(&self) -> SimV {
        SimV {
            start: self.start,
            stop: self.stop,
            navy: navy_views(self.navy_map@),
            orders: orders_views(self.order_q@),
        }
    }
}

impl SimManager {
    pub open spec fn wf(self) -> bool {
        &&& time_ok(self.start as int)
        &&& time_ok(self.stop as int)
        &&& forall|i: int|
            0 <= i < self.navy_map@.len() ==> (#[trigger] self.navy_map@[i])@.wf()
        &&& forall|i: int|
            0 <= i < self.order_q@.len() ==> (#[trigger] self.order_q@[i]).order@.wf()
    }

    pub fn new() -> (r: Self)
        ensures
            r@ == (SimV {
                start: crate::location::DEFAULT_TIME,
                stop: crate::location::DEFAULT_TIME,
                navy: Seq::<MovableV>::empty(),
                orders: Seq::<QueuedOrderV>::empty(),
            }),
            r.wf(),
    {
        let r = SimManager {
            start: crate::location::DEFAULT_TIME,
            stop: crate::location::DEFAULT_TIME,
            navy_map: Vec::new(),
            order_q: Vec::new(),
        };
        proof {
            assert(r@.navy =~= Seq::<MovableV>::empty());
            assert(r@.orders =~= Seq::<QueuedOrderV>::empty());
        }
        r
    }

    pub fn get_start(&self) -> (r: i64)
        ensures
            r == self.start,
    {
        self.start
    }

    pub fn get_stop(&self) -> (r: i64)
        ensures
            r == self.stop,
    {
        self.stop
    }

    /// The registry, for listings and post-run reporting.
    pub fn get_navy(&self) -> (r: &Vec<Movable>)
        ensures
            navy_views(r@) == self@.navy,
    {
        &self.navy_map
    }

    /// The pending order queue, for pre-run listings.
    pub fn get_orders(&self) -> (r: &Vec<QueuedOrder>)
        ensures
            orders_views(r@) == self@.orders,
    {
        &self.order_q
    }

    /// Search for a movable in the navy map.
    fn find_movable(&self, id: &String) -> (r: Option<usize>)
        ensures
            match r {
                Some(i) => i < self.navy_map@.len() && find_idx(self@.navy, id@) == Some(i as int),
                None => find_idx(self@.navy, id@) is None,
            },
    {
        let n: usize = self.navy_map.len();
        let mut i: usize = 0;
        while i < n
            invariant
                0 <= i <= n,
                n == self.navy_map@.len(),
                find_from(self@.navy, id@, 0) == find_from(self@.navy, id@, i as int),
            decreases n - i,
        {
            if self.navy_map[i].matches_id(id) {
                return Some(i);
            }
            i = i + 1;
        }
        None
    }
}

impl SimManager {
    /// Execute the orders due at `now` and reposition every deployed
    /// entity to `now`.  An order whose target id is not registered is
    /// dropped and the tick continues; a deployed fighter whose carrier id
    /// is not registered is fatal, and the tick reports failure.
    #[verifier::rlimit(50)]
    pub fn do_update(&mut self, now: i64) -> (ok: bool)
        requires
            old(self).wf(),
            time_ok(now as int),
        ensures
            final(self).start == old(self).start,
            final(self).stop == old(self).stop,
            final(self)@.orders == old(self)@.orders.skip(
                due_count(old(self)@.orders, now as int),
            ),
            ok == carriers_ok(drained(old(self)@.navy, old(self)@.orders, now as int)),
            ok ==> final(self)@.navy == repositioned_from(
                drained(old(self)@.navy, old(self)@.orders, now as int),
                now,
                0,
            ),
            queue_sorted(old(self)@.orders) ==> queue_sorted(final(self)@.orders),
            final(self).wf(),
    {
        let ghost ns0 = self@.navy;
        let ghost q0 = self@.orders;
        let ghost mut k: int = 0;
        // phase 1: pop and dispatch every order due at `now`
        loop
            invariant
                self.wf(),
                time_ok(now as int),
                self.start == old(self).start,
                self.stop == old(self).stop,
                0 <= k <= q0.len(),
                self@.orders =~= q0.skip(k),
                due_count(q0, now as int) == k + due_count(self@.orders, now as int),
                drained(ns0, q0, now as int) == drained(self@.navy, self@.orders, now as int),
            ensures
                self.wf(),
                time_ok(now as int),
                self.start == old(self).start,
                self.stop == old(self).stop,
                self@.orders == q0.skip(due_count(q0, now as int)),
                self@.navy == drained(ns0, q0, now as int),
            decreases self.order_q@.len(),
        {
            if self.order_q.len() == 0 {
                proof {
                    assert(due_count(self@.orders, now as int) == 0);
                    assert(drained(self@.navy, self@.orders, now as int) == self@.navy);
                }
                break ;
            }
            let ft: i64 = self.order_q[0].order.get_extime();
            proof {
                assert(self@.orders[0] == self.order_q@[0]@);
            }
            if ft > now {
                proof {
                    assert(due_count(self@.orders, now as int) == 0);
                    assert(drained(self@.navy, self@.orders, now as int) == self@.navy);
                }
                break ;
            }
            let ghost q_before = self@.orders;
            let ghost ns_before = self@.navy;
            let qo = self.order_q.remove(0);
            proof {
                assert(self@.orders =~= q_before.drop_first());
                assert(q_before.drop_first() =~= q0.skip(k + 1));
                assert(due_count(q_before, now as int) == 1 + due_count(
                    q_before.drop_first(),
                    now as int,
                ));
                assert(drained(ns_before, q_before, now as int) == drained(
                    applied_order(ns_before, q_before[0].order),
                    q_before.drop_first(),
                    now as int,
                ));
            }
            let id: String = qo.order.get_id();
            match self.find_movable(&id) {
                Some(i) => {
                    let ghost navy_before = self.navy_map@;
                    let mut m = self.navy_map.remove(i);
                    m.execute(&qo.order);
                    self.navy_map.insert(i, m);
                    proof {
                        assert(self.navy_map@ =~= navy_before.update(i as int, m));
                        lemma_navy_views_update(navy_before, i as int, m);
                        assert(self@.navy =~= applied_order(ns_before, qo.order@));
                    }
                },
                None => {
                    proof {
                        assert(self@.navy =~= applied_order(ns_before, qo.order@));
                    }
                },
            }
            proof {
                k = k + 1;
            }
        }
        proof {
            if queue_sorted(q0) {
                lemma_due_count_bounds(q0, now as int);
                lemma_sorted_skip(q0, due_count(q0, now as int));
            }
        }
        // phase 2: reposition every deployed entity, in registry order
        let ghost ns1 = self@.navy;
        let n: usize = self.navy_map.len();
        let mut i: usize = 0;
        while i < n
            invariant
                self.wf(),
                time_ok(now as int),
                self.start == old(self).start,
                self.stop == old(self).stop,
                ns1 == drained(old(self)@.navy, old(self)@.orders, now as int),
                self@.orders == old(self)@.orders.skip(
                    due_count(old(self)@.orders, now as int),
                ),
                queue_sorted(old(self)@.orders) ==> queue_sorted(self@.orders),
                0 <= i <= n,
                n == self.navy_map@.len(),
                ns1.len() == n,
                forall|j: int| i <= j < n ==> self@.navy[j] == ns1[j],
                forall|j: int|
                    0 <= j < n ==> (#[trigger] self@.navy[j]).spec_id() == ns1[j].spec_id(),
                forall|j: int| 0 <= j < i ==> carrier_ok_at(ns1, j),
                repositioned_from(ns1, now, 0) == repositioned_from(self@.navy, now, i as int),
            decreases n - i,
        {
            let ghost ns_cur = self@.navy;
            let deployed: bool = self.navy_map[i].get_is_deployed();
            if deployed {
                let cid_opt: Option<String> = self.navy_map[i].get_carrier_id();
                let carrier: Option<Location> = match cid_opt {
                    Some(cid) => {
                        match self.find_movable(&cid) {
                            Some(j) => Some(self.navy_map[j].get_location()),
                            None => {
                                proof {
                                    lemma_find_same_ids(ns_cur, ns1, cid@, 0);
                                    assert(!carrier_ok_at(ns1, i as int));
                                }
                                return false;
                            },
                        }
                    },
                    None => None,
                };
                proof {
                    lemma_find_same_ids(ns_cur, ns1, match ns_cur[i as int].carrier_ref() {
                        Some(cid) => cid,
                        None => Seq::empty(),
                    }, 0);
                    assert(carrier == carrier_for(ns_cur, ns_cur[i as int]));
                }
                let ghost navy_before = self.navy_map@;
                let mut m = self.navy_map.remove(i);
                m.update_position(now, carrier);
                self.navy_map.insert(i, m);
                proof {
                    assert(self.navy_map@ =~= navy_before.update(i as int, m));
                    lemma_navy_views_update(navy_before, i as int, m);
                    assert(self@.navy =~= ns_cur.update(
                        i as int,
                        mov_repositioned(ns_cur[i as int], now, carrier_for(ns_cur, ns_cur[i as int])),
                    ));
                }
            }
            proof {
                assert(carrier_ok_at(ns1, i as int));
                assert(repositioned_from(ns_cur, now, i as int) == repositioned_from(
                    self@.navy,
                    now,
                    i as int + 1,
                ));
            }
            i = i + 1;
        }
        true
    }
}

impl SimManager {
    /// Execute the simulation: advance the clock from start to stop in
    /// fixed 60-second increments, ticking at each step — inclusive of the
    /// start, exclusive of the first time at or past the stop.
    pub fn execute(&mut self) -> (ok: bool)
        requires
            old(self).wf(),
        ensures
            final(self).start == old(self).start,
            final(self).stop == old(self).stop,
            ok == run_spec(
                old(self)@.navy,
                old(self)@.orders,
                old(self).start,
                old(self).stop,
            ).2,
            ok ==> final(self)@.navy == run_spec(
                old(self)@.navy,
                old(self)@.orders,
                old(self).start,
                old(self).stop,
            ).0,
            ok ==> final(self)@.orders == run_spec(
                old(self)@.navy,
                old(self)@.orders,
                old(self).start,
                old(self).stop,
            ).1,
            queue_sorted(old(self)@.orders) ==> queue_sorted(final(self)@.orders),
            final(self).wf(),
    {
        let ghost ns0 = self@.navy;
        let ghost q0 = self@.orders;
        let stop: i64 = self.stop;
        let mut t: i64 = self.start;
        while t < stop
            invariant
                self.wf(),
                self.start == old(self).start,
                self.stop == old(self).stop,
                stop == old(self).stop,
                ns0 == old(self)@.navy,
                q0 == old(self)@.orders,
                queue_sorted(old(self)@.orders) ==> queue_sorted(self@.orders),
                old(self).start as int <= t as int <= if stop > old(self).start {
                    stop as int + 59
                } else {
                    old(self).start as int
                },
                crate::math::abs_val(t as int) <= 2 * (TIME_LIMIT as int),
                run_spec(ns0, q0, old(self).start, stop) == run_spec(
                    self@.navy,
                    self@.orders,
                    t,
                    stop,
                ),
            decreases time_steps(t, stop),
        {
            let ghost nsb = self@.navy;
            let ghost qb = self@.orders;
            let ok = self.do_update(t);
            if !ok {
                proof {
                    assert(run_spec(nsb, qb, t, stop).2 == false);
                }
                return false;
            }
            proof {
                assert(run_spec(nsb, qb, t, stop) == run_spec(
                    self@.navy,
                    self@.orders,
                    (t + 60) as i64,
                    stop,
                ));
                lemma_time_steps_dec(t, stop);
            }
            t = t + 60;
        }
        true
    }
}

impl SimManager {
    /// Register an entity: one with the same id is replaced, a new id is
    /// appended.
    fn add_movable(&mut self, m: Movable)
        requires
            old(self).wf(),
            m@.wf(),
        ensures
            final(self).start == old(self).start,
            final(self).stop == old(self).stop,
            final(self)@.orders == old(self)@.orders,
            final(self)@.navy == registry_insert(old(self)@.navy, m@),
            final(self).wf(),
    {
        let id: String = m.get_id();
        match self.find_movable(&id) {
            Some(i) => {
                let ghost navy_before = self.navy_map@;
                let _prev = self.navy_map.remove(i);
                self.navy_map.insert(i, m);
                proof {
                    assert(self.navy_map@ =~= navy_before.update(i as int, m));
                    lemma_navy_views_update(navy_before, i as int, m);
                }
            },
            None => {
                self.navy_map.push(m);
                proof {
                    assert(navy_views(self.navy_map@) =~= navy_views(
                        old(self).navy_map@,
                    ).push(m@));
                }
            },
        }
    }

    /// Append an order to the queue, ranked by arrival.
    fn push_order(&mut self, o: Order)
        requires
            old(self).wf(),
            o@.wf(),
        ensures
            final(self).start == old(self).start,
            final(self).stop == old(self).stop,
            final(self)@.navy == old(self)@.navy,
            final(self)@.orders == old(self)@.orders.push(
                QueuedOrderV { rank: old(self).order_q@.len() as int, order: o@ },
            ),
            final(self).wf(),
    {
        let r: usize = self.order_q.len();
        self.order_q.push(QueuedOrder { rank: r, order: o });
        proof {
            assert(orders_views(self.order_q@) =~= orders_views(old(self).order_q@).push(
                QueuedOrderV { rank: r as int, order: o@ },
            ));
        }
    }

    /// Sort the order queue once, by execution time with arrival rank as
    /// the tie-break: a stable sort by execution time.
    fn sort_orders(&mut self)
        requires
            old(self).wf(),
        ensures
            final(self).start == old(self).start,
            final(self).stop == old(self).stop,
            final(self)@.navy == old(self)@.navy,
            final(self)@.orders == sort_queue(old(self)@.orders),
            queue_sorted(final(self)@.orders),
            final(self).wf(),
    {
        let ghost orig = orders_views(self.order_q@);
        let mut sorted: Vec<QueuedOrder> = Vec::new();
        let ghost mut k: int = 0;
        proof {
            assert(orders_views(sorted@) =~= Seq::<QueuedOrderV>::empty());
            assert(orders_views(self.order_q@) =~= orig.skip(0));
        }
        while self.order_q.len() > 0
            invariant
                0 <= k <= orig.len(),
                orig == orders_views(old(self).order_q@),
                orders_views(self.order_q@) =~= orig.skip(k),
                sort_from(orders_views(sorted@), orig, k) == sort_queue(orig),
                self.start == old(self).start,
                self.stop == old(self).stop,
                self.navy_map@ == old(self).navy_map@,
                forall|j: int|
                    0 <= j < sorted@.len() ==> (#[trigger] sorted@[j]).order@.wf(),
                forall|j: int|
                    0 <= j < self.order_q@.len() ==> (#[trigger] self.order_q@[j]).order@.wf(),
            decreases self.order_q@.len(),
        {
            let ghost q_before = orders_views(self.order_q@);
            let ghost vec_before = self.order_q@;
            let ghost acc_before = orders_views(sorted@);
            let x = self.order_q.remove(0);
            proof {
                assert(orders_views(self.order_q@) =~= q_before.drop_first());
                assert(q_before.drop_first() =~= orig.skip(k + 1));
                assert(x == vec_before[0]);
                assert(q_before[0] == vec_before[0]@);
                assert(q_before[0] == orig.skip(k)[0]);
                assert(x@ == orig[k]);
            }
            insert_in_order(&mut sorted, x);
            proof {
                assert(sort_from(acc_before, orig, k) == sort_from(
                    insert_sorted(acc_before, orig[k]),
                    orig,
                    k + 1,
                ));
                k = k + 1;
            }
        }
        proof {
            assert(orders_views(self.order_q@).len() == 0);
            assert(k == orig.len());
            assert(sort_from(orders_views(sorted@), orig, k) == orders_views(sorted@));
        }
        self.order_q = sorted;
        proof {
            lemma_sort_from_sorted(Seq::<QueuedOrderV>::empty(), orig, 0);
        }
    }
}

impl SimManager {
    /// Initialize the simulation manager from the lines of an order file:
    /// fold every line over the state, then sort the order queue once,
    /// stably, by execution time.  Returns false — leaving the state as
    /// the failing line found it — on any unrecognized instruction
    /// keyword, malformed or out-of-range date-time, missing field or
    /// malformed number.
    #[verifier::rlimit(80)]
    pub fn init(&mut self, lines: &Vec<String>) -> (ok: bool)
        requires
            old(self).wf(),
        ensures
            final(self).wf(),
            match init_lines(old(self)@, lines.deep_view(), 0) {
                Some(st) => ok && final(self)@ == (SimV { orders: sort_queue(st.orders), ..st })
                    && queue_sorted(final(self)@.orders),
                None => !ok,
            },
    {
        let ghost lv = lines.deep_view();
        let n: usize = lines.len();
        let mut li: usize = 0;
        while li < n
            invariant
                self.wf(),
                0 <= li <= n,
                n == lines@.len(),
                lv == lines.deep_view(),
                init_lines(old(self)@, lv, 0) == init_lines(self@, lv, li as int),
            decreases n - li,
        {
            let ghost st0 = self@;
            let line: &String = &lines[li];
            proof {
                assert(lv[li as int] == line@);
            }
            let s: &str = line.as_str();
            let blank: bool = s.is_empty();
            let comment: bool = if blank {
                false
            } else {
                s.get_char(0) == '#'
            };
            if blank || comment {
                proof {
                    assert(line_applied(st0, lv[li as int]) == Some(st0));
                }
                li = li + 1;
                continue ;
            }
            let tokens: Vec<String> = tokenize(s);
            let ghost toks = spec_tokens(line@);
            proof {
                assert(tokens.deep_view() == toks);
                assert(forall|j: int| 0 <= j < tokens@.len() ==> (#[trigger] tokens@[j])@
                    == toks[j]) by {
                    assert(forall|j: int|
                        0 <= j < tokens@.len() ==> tokens.deep_view()[j] == (
                        #[trigger] tokens@[j])@);
                }
            }
            if tokens.len() == 0 {
                proof {
                    assert(line_applied(st0, lv[li as int]) == Some(st0));
                }
                li = li + 1;
                continue ;
            }
            let opcode = Opcode::new(tokens[0].as_str());
            match opcode {
                Opcode::StartSim => {
                    if tokens.len() < 3 {
                        return false;
                    }
                    match parse_time_in_range(tokens[1].as_str(), tokens[2].as_str()) {
                        Some(t) => {
                            self.start = t;
                        },
                        None => {
                            return false;
                        },
                    }
                },
                Opcode::StopSim | Opcode::EndSim => {
                    if tokens.len() < 3 {
                        return false;
                    }
                    match parse_time_in_range(tokens[1].as_str(), tokens[2].as_str()) {
                        Some(t) => {
                            self.stop = t;
                        },
                        None => {
                            return false;
                        },
                    }
                },
                Opcode::CreateCruiser => {
                    if tokens.len() < 5 {
                        return false;
                    }
                    let ms: i64 = match parse_milli(tokens[3].as_str()) {
                        Some(v) => v,
                        None => {
                            return false;
                        },
                    };
                    let mm: i64 = match parse_whole(tokens[4].as_str()) {
                        Some(v) => v,
                        None => {
                            return false;
                        },
                    };
                    let c = Cruiser::new(tokens[1].clone(), tokens[2].clone(), ms, mm);
                    self.add_movable(Movable::Cruiser(c));
                },
                Opcode::CreateAircraftCarrier => {
                    if tokens.len() < 5 {
                        return false;
                    }
                    let ms: i64 = match parse_milli(tokens[3].as_str()) {
                        Some(v) => v,
                        None => {
                            return false;
                        },
                    };
                    let ma: i64 = match parse_whole(tokens[4].as_str()) {
                        Some(v) => v,
                        None => {
                            return false;
                        },
                    };
                    let c = Carrier::new(tokens[1].clone(), tokens[2].clone(), ms, ma);
                    self.add_movable(Movable::Carrier(c));
                },
                Opcode::CreateFighter => {
                    if tokens.len() < 7 {
                        return false;
                    }
                    let ms: i64 = match parse_milli(tokens[4].as_str()) {
                        Some(v) => v,
                        None => {
                            return false;
                        },
                    };
                    let mc: i64 = match parse_milli(tokens[5].as_str()) {
                        Some(v) => v,
                        None => {
                            return false;
                        },
                    };
                    let mb: i64 = match parse_whole(tokens[6].as_str()) {
                        Some(v) => v,
                        None => {
                            return false;
                        },
                    };
                    let f = Fighter::new(
                        tokens[1].clone(),
                        tokens[2].clone(),
                        ms,
                        tokens[3].clone(),
                        mc,
                        mb,
                    );
                    self.add_movable(Movable::Fighter(f));
                },
                Opcode::DeployShip => {
                    if tokens.len() < 8 {
                        return false;
                    }
                    let t: i64 = match parse_time_in_range(tokens[1].as_str(), tokens[2].as_str()) {
                        Some(t) => t,
                        None => {
                            return false;
                        },
                    };
                    let x: i64 = match parse_milli(tokens[4].as_str()) {
                        Some(v) => v,
                        None => {
                            return false;
                        },
                    };
                    let y: i64 = match parse_milli(tokens[5].as_str()) {
                        Some(v) => v,
                        None => {
                            return false;
                        },
                    };
                    let h: i64 = match parse_milli(tokens[6].as_str()) {
                        Some(v) => v,
                        None => {
                            return false;
                        },
                    };
                    let sp: i64 = match parse_milli(tokens[7].as_str()) {
                        Some(v) => v,
                        None => {
                            return false;
                        },
                    };
                    let o = DeployShip::new(t, tokens[3].clone(), x, y, h, sp);
                    self.push_order(Order::DeployShipOrder(o));
                },
                Opcode::DeployAircraft => {
                    if tokens.len() < 7 {
                        return false;
                    }
                    let t: i64 = match parse_time_in_range(tokens[1].as_str(), tokens[2].as_str()) {
                        Some(t) => t,
                        None => {
                            return false;
                        },
                    };
                    let h: i64 = match parse_milli(tokens[4].as_str()) {
                        Some(v) => v,
                        None => {
                            return false;
                        },
                    };
                    let sp: i64 = match parse_milli(tokens[5].as_str()) {
                        Some(v) => v,
                        None => {
                            return false;
                        },
                    };
                    let alt: i64 = match parse_milli(tokens[6].as_str()) {
                        Some(v) => v,
                        None => {
                            return false;
                        },
                    };
                    let o = DeployAircraft::new(t, tokens[3].clone(), h, sp, alt);
                    self.push_order(Order::DeployAircraftOrder(o));
                },
                Opcode::ChangeShipOrders => {
                    if tokens.len() < 6 {
                        return false;
                    }
                    let t: i64 = match parse_time_in_range(tokens[1].as_str(), tokens[2].as_str()) {
                        Some(t) => t,
                        None => {
                            return false;
                        },
                    };
                    let h: i64 = match parse_milli(tokens[4].as_str()) {
                        Some(v) => v,
                        None => {
                            return false;
                        },
                    };
                    let sp: i64 = match parse_milli(tokens[5].as_str()) {
                        Some(v) => v,
                        None => {
                            return false;
                        },
                    };
                    let o = ChangeShip::new(t, tokens[3].clone(), h, sp);
                    self.push_order(Order::ChangeShipOrder(o));
                },
                Opcode::ChangeAircraftOrders => {
                    if tokens.len() < 7 {
                        return false;
                    }
                    let t: i64 = match parse_time_in_range(tokens[1].as_str(), tokens[2].as_str()) {
                        Some(t) => t,
                        None => {
                            return false;
                        },
                    };
                    let h: i64 = match parse_milli(tokens[4].as_str()) {
                        Some(v) => v,
                        None => {
                            return false;
                        },
                    };
                    let sp: i64 = match parse_milli(tokens[5].as_str()) {
                        Some(v) => v,
                        None => {
                            return false;
                        },
                    };
                    let alt: i64 = match parse_milli(tokens[6].as_str()) {
                        Some(v) => v,
                        None => {
                            return false;
                        },
                    };
                    let o = ChangeAircraft::new(t, tokens[3].clone(), h, sp, alt);
                    self.push_order(Order::ChangeAircraftOrder(o));
                },
                Opcode::LandAircraft => {
                    if tokens.len() < 5 {
                        return false;
                    }
                    let t: i64 = match parse_time_in_range(tokens[1].as_str(), tokens[2].as_str()) {
                        Some(t) => t,
                        None => {
                            return false;
                        },
                    };
                    let o = LandAircraft::new(t, tokens[4].clone(), tokens[3].clone());
                    self.push_order(Order::LandAircraftOrder(o));
                },
                Opcode::Invalid => {
                    return false;
                },
            }
            proof {
                assert(line_applied(st0, lv[li as int]) == Some(self@));
                assert(init_lines(st0, lv, li as int) == init_lines(self@, lv, li as int + 1));
            }
            li = li + 1;
        }
        self.sort_orders();
        true
    }
}

/// The count of due orders is a prefix length of the queue.
pub proof fn lemma_due_count_bounds(q: Seq<QueuedOrderV>, now: int)
    ensures
        0 <= due_count(q, now) <= q.len(),
    decreases q.len(),
{
    if q.len() > 0 && q[0].order.extime() <= now {
        lemma_due_count_bounds(q.drop_first(), now);
    }
}

/// Removing due orders from the front of a sorted queue leaves it
/// sorted: the scheduler never needs to re-sort.
pub proof fn lemma_sorted_skip(q: Seq<QueuedOrderV>, n: int)
    requires
        queue_sorted(q),
        0 <= n <= q.len(),
    ensures
        queue_sorted(q.skip(n)),
{
    assert forall|i: int, j: int| 0 <= i < j < q.skip(n).len() implies qorder_le(
        q.skip(n)[i],
        q.skip(n)[j],
    ) by {
        assert(q.skip(n)[i] == q[i + n]);
        assert(q.skip(n)[j] == q[j + n]);
        assert(qorder_le(q[i + n], q[j + n]));
    }
}

/// An order whose target id is absent from the registry is dropped
/// without any effect: every entity, and every entity's history, is
/// exactly as it was, and the run goes on.
pub proof fn lemma_unknown_target_dropped(ns: Seq<MovableV>, o: OrderV)
    requires
        find_idx(ns, o.target()) is None,
    ensures
        applied_order(ns, o) == ns,
{
}

/// Repositioning never touches an entity that is not deployed: a grounded
/// fighter (or any undeployed entity) keeps its state and history through
/// every tick until an order deploys it again.
pub proof fn lemma_reposition_keeps_undeployed(ns: Seq<MovableV>, now: i64, i: int, j: int)
    requires
        0 <= j < ns.len(),
        !ns[j].deployed(),
    ensures
        repositioned_from(ns, now, i).len() == ns.len(),
        repositioned_from(ns, now, i)[j] == ns[j],
    decreases ns.len() - i,
{
    if 0 <= i < ns.len() {
        let m = ns[i];
        let ns2 = if m.deployed() {
            ns.update(i, mov_repositioned(m, now, carrier_for(ns, m)))
        } else {
            ns
        };
        assert(ns2[j] == ns[j]);
        lemma_reposition_keeps_undeployed(ns2, now, i + 1, j);
    }
}

/// Two registries whose entities bear the same ids position by position
/// resolve every id to the same place.
pub proof fn lemma_find_same_ids(a: Seq<MovableV>, b: Seq<MovableV>, id: Seq<char>, i: int)
    requires
        a.len() == b.len(),
        forall|j: int| 0 <= j < a.len() ==> (#[trigger] a[j]).spec_id() == b[j].spec_id(),
    ensures
        find_from(a, id, i) == find_from(b, id, i),
    decreases a.len() - i,
{
    if 0 <= i < a.len() {
        lemma_find_same_ids(a, b, id, i + 1);
    }
}

/// Updating one registry slot updates the view sequence at that slot.
pub proof fn lemma_navy_views_update(s: Seq<Movable>, i: int, m: Movable)
    requires
        0 <= i < s.len(),
    ensures
        navy_views(s.update(i, m)) =~= navy_views(s).update(i, m@),
{
}

} // verus!
