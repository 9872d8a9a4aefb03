//! The correlator: maps an integer correlation id to the delivery queue for
//! the frames that arrive for it, and holds one extra destination for frames
//! that carry no id. The background reader is its producer; callers draining
//! their Delivery Handles are its consumers. A lookup miss is not an error:
//! a frame for an unknown or cancelled id is dropped.
use vstd::prelude::*;
use vstd::map::*;

use crate::codec::{spec_correlation_id, spec_message_type, ResponseMessage};
use crate::messages::{spec_is_terminal, spec_request_id_offset, IncomingMessages};

verus! {

/// The delivery state of one correlation id: the frames routed to it and not
/// yet taken, and whether its stream has ended.
#[verifier::ext_equal]
pub ghost struct EntryModel {
    pub queue: Seq<ResponseMessage>,
    pub closed: bool,
}

/// The correlator's abstract state: a table from correlation id to delivery
/// state, and the global destination for frames that carry no id.
#[verifier::ext_equal]
pub ghost struct CorrelatorModel {
    pub table: Map<int, EntryModel>,
    pub global: Seq<ResponseMessage>,
    pub global_closed: bool,
}

/// Registering an id gives it a fresh, open, empty queue.
pub open spec fn spec_register(m: CorrelatorModel, id: int) -> CorrelatorModel {
    CorrelatorModel {
        table: m.table.insert(id, EntryModel { queue: Seq::empty(), closed: false }),
        ..m
    }
}

/// Where one inbound frame goes: to the queue of the id it carries, when that
/// id is registered and open (closing the queue after a terminal frame); to
/// the global destination when its type carries no id; dropped otherwise.
pub open spec fn spec_route(m: CorrelatorModel, frame: ResponseMessage) -> CorrelatorModel {
    let fields = frame.spec_fields();
    match spec_request_id_offset(spec_message_type(fields)) {
        None => if m.global_closed {
            m
        } else {
            CorrelatorModel { global: m.global.push(frame), ..m }
        },
        Some(_) => match spec_correlation_id(fields) {
            None => m,
            Some(id) => if m.table.contains_key(id) && !m.table[id].closed {
                CorrelatorModel {
                    table: m.table.insert(
                        id,
                        EntryModel {
                            queue: m.table[id].queue.push(frame),
                            closed: spec_is_terminal(spec_message_type(fields)),
                        },
                    ),
                    ..m
                }
            } else {
                m
            },
        },
    }
}

/// What `route` reports for one frame.
pub open spec fn spec_route_outcome(m: CorrelatorModel, frame: ResponseMessage) -> RouteOutcome {
    let fields = frame.spec_fields();
    match spec_request_id_offset(spec_message_type(fields)) {
        None => if m.global_closed {
            RouteOutcome::Dropped
        } else {
            RouteOutcome::DeliveredGlobal
        },
        Some(_) => match spec_correlation_id(fields) {
            None => RouteOutcome::Dropped,
            Some(id) => if m.table.contains_key(id) && !m.table[id].closed {
                RouteOutcome::Delivered(id as i32)
            } else {
                RouteOutcome::Dropped
            },
        },
    }
}

/// Where the reader sent one frame.
#[derive(Debug, Clone, Copy, PartialEq, Eq, Structural)]
pub enum RouteOutcome {
    /// Pushed onto the queue registered for this id.
    Delivered(i32),
    /// Pushed onto the global destination.
    DeliveredGlobal,
    /// Dropped: the id was unknown, its stream already closed, the id field
    /// unparsable, or the global destination closed.
    Dropped,
}

/// One draw from a delivery queue.
#[derive(Debug)]
pub enum TakeResult {
    /// The oldest frame not yet taken.
    Frame(ResponseMessage),
    /// Nothing queued yet, but the stream is still open: retry later.
    Pending,
    /// End of stream: nothing queued and nothing more will arrive.
    Closed,
}

struct CorrelationEntry {
    id: i32,
    queue: Vec<ResponseMessage>,
    closed: bool,
}

/// The correlation table and the global destination.
pub struct Correlator {
    entries: Vec<CorrelationEntry>,
    global: Vec<ResponseMessage>,
    global_closed: bool,
}

impl View for Correlator {
    type V = CorrelatorModel;

    closed spec fn view(&self) -> CorrelatorModel {
        CorrelatorModel {
            table: Map::new(
                |id: int|
                    exists|j: int|
                        0 <= j < self.entries@.len() && #[trigger] self.entries@[j].id as int
                            == id,
                |id: int|
                    {
                        let j = choose|j: int|
                            0 <= j < self.entries@.len() && #[trigger] self.entries@[j].id as int
                                == id;
                        EntryModel {
                            queue: self.entries@[j].queue@,
                            closed: self.entries@[j].closed,
                        }
                    },
            ),
            global: self.global@,
            global_closed: self.global_closed,
        }
    }
}

impl Correlator {
    /// Entry ids are unique, so each registered id has exactly one queue.
    pub closed spec fn wf(&self) -> bool {
        forall|j: int, k: int|
            0 <= j < k < self.entries@.len() ==> self.entries@[j].id != self.entries@[k].id
    }

    proof fn lemma_view_at(&self, j: int)
        requires
            self.wf(),
            0 <= j < self.entries@.len(),
        ensures
            self@.table.contains_key(self.entries@[j].id as int),
            self@.table[self.entries@[j].id as int] == (EntryModel {
                queue: self.entries@[j].queue@,
                closed: self.entries@[j].closed,
            }),
    {
        let id = self.entries@[j].id as int;
        assert(self@.table.contains_key(id));
        let k = choose|k: int|
            0 <= k < self.entries@.len() && #[trigger] self.entries@[k].id as int == id;
        assert(k == j);
    }

    /// An empty table: no id registered, the global destination open and
    /// empty.
    pub fn new() -> (r: Correlator)
        ensures
            r.wf(),
            r@.table == Map::<int, EntryModel>::empty(),
            r@.global == Seq::<ResponseMessage>::empty(),
            !r@.global_closed,
    {
        let r = Correlator { entries: Vec::new(), global: Vec::new(), global_closed: false };
        proof {
            assert(r@.table =~= Map::<int, EntryModel>::empty());
        }
        r
    }

    /// The index of the entry registered for `id`.
    fn find(&self, id: i32) -> (r: Option<usize>)
        requires
            self.wf(),
        ensures
            match r {
                Some(j) => j < self.entries@.len() && self.entries@[j as int].id == id
                    && self@.table.contains_key(id as int),
                None => !self@.table.contains_key(id as int),
            },
    {
        let n = self.entries.len();
        let mut j: usize = 0;
        while j < n
            invariant
                n == self.entries@.len(),
                j <= n,
                forall|k: int| 0 <= k < j ==> self.entries@[k].id != id,
            decreases n - j,
        {
            if self.entries[j].id == id {
                return Some(j);
            }
            j += 1;
        }
        None
    }

    /// Registers `id` with a fresh, open, empty queue; a stale entry under
    /// the same id is replaced.
    pub fn register(&mut self, id: i32)
        requires
            old(self).wf(),
        ensures
            final(self).wf(),
            final(self)@ == spec_register(old(self)@, id as int),
    {
        let fresh = CorrelationEntry { id, queue: Vec::new(), closed: false };
        match self.find(id) {
            Some(j) => {
                let _stale = self.entries.remove(j);
                self.entries.insert(j, fresh);
                proof {
                    let m0 = old(self)@;
                    let target = spec_register(m0, id as int);
                    assert(self.entries@ =~= old(self).entries@.update(
                        j as int,
                        self.entries@[j as int],
                    ));
                    assert(self.wf());
                    assert_maps_equal!(self@.table, target.table, x => {
                        if x == id as int {
                            self.lemma_view_at(j as int);
                        } else {
                            if self@.table.contains_key(x) {
                                let k = choose|k: int|
                                    0 <= k < self.entries@.len()
                                        && #[trigger] self.entries@[k].id as int == x;
                                self.lemma_view_at(k);
                                old(self).lemma_view_at(k);
                            }
                            if target.table.contains_key(x) {
                                let k = choose|k: int|
                                    0 <= k < old(self).entries@.len()
                                        && #[trigger] old(self).entries@[k].id as int == x;
                                old(self).lemma_view_at(k);
                                assert(self.entries@[k].id as int == x);
                                self.lemma_view_at(k);
                            }
                        }
                    });
                    assert(self@ =~= target);
                }
            },
            None => {
                self.entries.push(fresh);
                proof {
                    let m0 = old(self)@;
                    let target = spec_register(m0, id as int);
                    let n = old(self).entries@.len() as int;
                    assert(self.entries@ =~= old(self).entries@.push(fresh));
                    assert forall|jj: int, kk: int|
                        0 <= jj < kk < self.entries@.len() implies self.entries@[jj].id
                        != self.entries@[kk].id by {
                        if kk == n {
                            old(self).lemma_view_at(jj);
                        }
                    }
                    assert(self.wf());
                    assert_maps_equal!(self@.table, target.table, x => {
                        if x == id as int {
                            self.lemma_view_at(n);
                        } else {
                            if self@.table.contains_key(x) {
                                let k = choose|k: int|
                                    0 <= k < self.entries@.len()
                                        && #[trigger] self.entries@[k].id as int == x;
                                self.lemma_view_at(k);
                                old(self).lemma_view_at(k);
                            }
                            if target.table.contains_key(x) {
                                let k = choose|k: int|
                                    0 <= k < old(self).entries@.len()
                                        && #[trigger] old(self).entries@[k].id as int == x;
                                old(self).lemma_view_at(k);
                                assert(self.entries@[k].id as int == x);
                                self.lemma_view_at(k);
                            }
                        }
                    });
                    assert(self@ =~= target);
                }
            },
        }
    }

    /// Two correlators with the same entries have the same table.
    proof fn lemma_same_entries(a: &Correlator, b: &Correlator)
        requires
            a.wf(),
            a.entries@ == b.entries@,
        ensures
            b.wf(),
            a@.table == b@.table,
    {
        assert_maps_equal!(a@.table, b@.table, x => {
            if a@.table.contains_key(x) {
                let k = choose|k: int|
                    0 <= k < a.entries@.len() && #[trigger] a.entries@[k].id as int == x;
                a.lemma_view_at(k);
                b.lemma_view_at(k);
            }
            if b@.table.contains_key(x) {
                let k = choose|k: int|
                    0 <= k < b.entries@.len() && #[trigger] b.entries@[k].id as int == x;
                b.lemma_view_at(k);
                a.lemma_view_at(k);
            }
        });
    }

    /// Routes one inbound frame: to the open queue of the id it carries, to
    /// the global destination when its type carries none, and to nowhere --
    /// silently -- when the id is unknown, already closed, or unparsable. A
    /// terminal frame closes its queue after delivery.
    pub fn route(&mut self, frame: ResponseMessage) -> (outcome: RouteOutcome)
        requires
            old(self).wf(),
        ensures
            final(self).wf(),
            final(self)@ == spec_route(old(self)@, frame),
            outcome == spec_route_outcome(old(self)@, frame),
    {
        let mtype = frame.message_type();
        match IncomingMessages::request_id_offset(&mtype) {
            None => {
                if self.global_closed {
                    RouteOutcome::Dropped
                } else {
                    let ghost m0 = self@;
                    self.global.push(frame);
                    proof {
                        Correlator::lemma_same_entries(old(self), self);
                        assert(self@ =~= spec_route(m0, frame));
                    }
                    RouteOutcome::DeliveredGlobal
                }
            },
            Some(off) => {
                proof {
                    assert(frame.fields.len() == frame.fields@.len());
                }
                if off < frame.fields.len() {
                    proof {
                        assert(frame.spec_fields()[off as int] == frame.fields@[off as int]@);
                    }
                    match crate::numbers::parse_i32(frame.fields[off].as_str()) {
                        Some(id) => {
                            match self.find(id) {
                                Some(j) => {
                                    if !self.entries[j].closed {
                                        proof {
                                            self.lemma_view_at(j as int);
                                        }
                                        let terminal = mtype.is_terminal();
                                        let mut e = self.entries.remove(j);
                                        e.queue.push(frame);
                                        e.closed = terminal;
                                        self.entries.insert(j, e);
                                        proof {
                                            let m0 = old(self)@;
                                            let target = spec_route(m0, frame);
                                            assert(self.entries@ =~= old(self).entries@.update(
                                                j as int,
                                                self.entries@[j as int],
                                            ));
                                            assert(self.wf());
                                            assert_maps_equal!(self@.table, target.table, x => {
                                                if x == id as int {
                                                    self.lemma_view_at(j as int);
                                                } else {
                                                    if self@.table.contains_key(x) {
                                                        let k = choose|k: int|
                                                            0 <= k < self.entries@.len()
                                                                && #[trigger] self.entries@[k].id as int
                                                                == x;
                                                        self.lemma_view_at(k);
                                                        old(self).lemma_view_at(k);
                                                    }
                                                    if target.table.contains_key(x) {
                                                        let k = choose|k: int|
                                                            0 <= k < old(self).entries@.len()
                                                                && #[trigger] old(self).entries@[k].id as int
                                                                == x;
                                                        old(self).lemma_view_at(k);
                                                        assert(self.entries@[k].id as int == x);
                                                        self.lemma_view_at(k);
                                                    }
                                                }
                                            });
                                            assert(self@ =~= target);
                                        }
                                        RouteOutcome::Delivered(id)
                                    } else {
                                        proof {
                                            self.lemma_view_at(j as int);
                                        }
                                        RouteOutcome::Dropped
                                    }
                                },
                                None => RouteOutcome::Dropped,
                            }
                        },
                        None => RouteOutcome::Dropped,
                    }
                } else {
                    RouteOutcome::Dropped
                }
            },
        }
    }

    /// One draw for a Delivery Handle: the oldest undelivered frame for `id`,
    /// `Pending` while its stream is open but nothing is queued, `Closed`
    /// once the stream has ended or the id is not registered. Frames already
    /// queued when a stream closes remain retrievable, in order.
    pub fn try_take(&mut self, id: i32) -> (r: TakeResult)
        requires
            old(self).wf(),
        ensures
            final(self).wf(),
            ({
                let m0 = old(self)@;
                if !m0.table.contains_key(id as int) {
                    r is Closed && final(self)@ == m0
                } else if m0.table[id as int].queue.len() > 0 {
                    r == TakeResult::Frame(m0.table[id as int].queue[0]) && final(self)@
                        == (CorrelatorModel {
                        table: m0.table.insert(
                            id as int,
                            EntryModel {
                                queue: m0.table[id as int].queue.drop_first(),
                                closed: m0.table[id as int].closed,
                            },
                        ),
                        ..m0
                    })
                } else if m0.table[id as int].closed {
                    r is Closed && final(self)@ == m0
                } else {
                    r is Pending && final(self)@ == m0
                }
            }),
    {
        match self.find(id) {
            None => TakeResult::Closed,
            Some(j) => {
                proof {
                    self.lemma_view_at(j as int);
                }
                if self.entries[j].queue.len() > 0 {
                    let mut e = self.entries.remove(j);
                    let frame = e.queue.remove(0);
                    self.entries.insert(j, e);
                    proof {
                        let m0 = old(self)@;
                        let target = CorrelatorModel {
                            table: m0.table.insert(
                                id as int,
                                EntryModel {
                                    queue: m0.table[id as int].queue.drop_first(),
                                    closed: m0.table[id as int].closed,
                                },
                            ),
                            ..m0
                        };
                        assert(self.entries@ =~= old(self).entries@.update(
                            j as int,
                            self.entries@[j as int],
                        ));
                        assert(self.wf());
                        assert(self.entries@[j as int].queue@ =~= m0.table[id as int].queue.drop_first());
                        assert_maps_equal!(self@.table, target.table, x => {
                            if x == id as int {
                                self.lemma_view_at(j as int);
                            } else {
                                if self@.table.contains_key(x) {
                                    let k = choose|k: int|
                                        0 <= k < self.entries@.len()
                                            && #[trigger] self.entries@[k].id as int == x;
                                    self.lemma_view_at(k);
                                    old(self).lemma_view_at(k);
                                }
                                if target.table.contains_key(x) {
                                    let k = choose|k: int|
                                        0 <= k < old(self).entries@.len()
                                            && #[trigger] old(self).entries@[k].id as int == x;
                                    old(self).lemma_view_at(k);
                                    assert(self.entries@[k].id as int == x);
                                    self.lemma_view_at(k);
                                }
                            }
                        });
                        assert(self@ =~= target);
                    }
                    TakeResult::Frame(frame)
                } else if self.entries[j].closed {
                    TakeResult::Closed
                } else {
                    TakeResult::Pending
                }
            },
        }
    }

    /// One draw from the global destination.
    pub fn take_global(&mut self) -> (r: TakeResult)
        requires
            old(self).wf(),
        ensures
            final(self).wf(),
            ({
                let m0 = old(self)@;
                if m0.global.len() > 0 {
                    r == TakeResult::Frame(m0.global[0]) && final(self)@ == (CorrelatorModel {
                        global: m0.global.drop_first(),
                        ..m0
                    })
                } else if m0.global_closed {
                    r is Closed && final(self)@ == m0
                } else {
                    r is Pending && final(self)@ == m0
                }
            }),
    {
        if self.global.len() > 0 {
            let ghost m0 = self@;
            let frame = self.global.remove(0);
            proof {
                Correlator::lemma_same_entries(old(self), self);
                assert(self.global@ =~= m0.global.drop_first());
                assert(self@ =~= (CorrelatorModel { global: m0.global.drop_first(), ..m0 }));
            }
            TakeResult::Frame(frame)
        } else if self.global_closed {
            TakeResult::Closed
        } else {
            TakeResult::Pending
        }
    }

    /// Cancels `id`: deregisters it, so any frame later routed to it is
    /// dropped. Its queue is discarded with it.
    pub fn close(&mut self, id: i32)
        requires
            old(self).wf(),
        ensures
            final(self).wf(),
            final(self)@ == (CorrelatorModel { table: old(self)@.table.remove(id as int), ..old(
                self,
            )@ }),
    {
        match self.find(id) {
            None => {
                proof {
                    assert_maps_equal!(self@.table, self@.table.remove(id as int), x => {});
                    assert(self@ =~= (CorrelatorModel {
                        table: old(self)@.table.remove(id as int),
                        ..old(self)@
                    }));
                }
            },
            Some(j) => {
                self.entries.remove(j);
                proof {
                    let m0 = old(self)@;
                    assert(self.entries@ =~= old(self).entries@.remove(j as int));
                    assert forall|jj: int, kk: int|
                        0 <= jj < kk < self.entries@.len() implies self.entries@[jj].id
                        != self.entries@[kk].id by {
                        let ojj = if jj < j as int { jj } else { jj + 1 };
                        let okk = if kk < j as int { kk } else { kk + 1 };
                        assert(self.entries@[jj] == old(self).entries@[ojj]);
                        assert(self.entries@[kk] == old(self).entries@[okk]);
                    }
                    assert(self.wf());
                    assert_maps_equal!(self@.table, m0.table.remove(id as int), x => {
                        if self@.table.contains_key(x) {
                            let k = choose|k: int|
                                0 <= k < self.entries@.len()
                                    && #[trigger] self.entries@[k].id as int == x;
                            let ok = if k < j as int { k } else { k + 1 };
                            assert(self.entries@[k] == old(self).entries@[ok]);
                            old(self).lemma_view_at(ok);
                            self.lemma_view_at(k);
                        }
                        if m0.table.remove(id as int).contains_key(x) {
                            let ok = choose|k: int|
                                0 <= k < old(self).entries@.len()
                                    && #[trigger] old(self).entries@[k].id as int == x;
                            old(self).lemma_view_at(ok);
                            let k = if ok < j as int { ok } else { ok - 1 };
                            assert(self.entries@[k] == old(self).entries@[ok]);
                            assert(self.entries@[k].id as int == x);
                            self.lemma_view_at(k);
                        }
                    });
                    assert(self@ =~= (CorrelatorModel {
                        table: m0.table.remove(id as int),
                        ..m0
                    }));
                }
            },
        }
    }

    /// A fatal transport failure: every open stream and the global
    /// destination are closed; frames already queued stay retrievable.
    pub fn fail_all(&mut self)
        requires
            old(self).wf(),
        ensures
            final(self).wf(),
            final(self)@ == spec_fail(old(self)@),
    {
        let n = self.entries.len();
        let mut j: usize = 0;
        while j < n
            invariant
                old(self).wf(),
                n == self.entries@.len(),
                n == old(self).entries@.len(),
                j <= n,
                self.global == old(self).global,
                self.global_closed == old(self).global_closed,
                forall|k: int|
                    0 <= k < n ==> (#[trigger] self.entries@[k]).id == old(self).entries@[k].id
                        && self.entries@[k].queue@ == old(self).entries@[k].queue@,
                forall|k: int| 0 <= k < j ==> (#[trigger] self.entries@[k]).closed,
                forall|k: int|
                    j <= k < n ==> (#[trigger] self.entries@[k]).closed == old(
                        self,
                    ).entries@[k].closed,
            decreases n - j,
        {
            let ghost prev = self.entries@;
            let mut e = self.entries.remove(j);
            e.closed = true;
            self.entries.insert(j, e);
            proof {
                assert(self.entries@ =~= prev.update(j as int, self.entries@[j as int]));
            }
            j += 1;
        }
        self.global_closed = true;
        proof {
            let m0 = old(self)@;
            assert forall|jj: int, kk: int|
                0 <= jj < kk < self.entries@.len() implies self.entries@[jj].id
                != self.entries@[kk].id by {
                assert(self.entries@[jj].id == old(self).entries@[jj].id);
                assert(self.entries@[kk].id == old(self).entries@[kk].id);
            }
            assert(self.wf());
            assert_maps_equal!(self@.table, spec_fail(m0).table, x => {
                if self@.table.contains_key(x) {
                    let k = choose|k: int|
                        0 <= k < self.entries@.len() && #[trigger] self.entries@[k].id as int
                            == x;
                    self.lemma_view_at(k);
                    old(self).lemma_view_at(k);
                }
                if spec_fail(m0).table.contains_key(x) {
                    let k = choose|k: int|
                        0 <= k < old(self).entries@.len()
                            && #[trigger] old(self).entries@[k].id as int == x;
                    old(self).lemma_view_at(k);
                    assert(self.entries@[k].id as int == x);
                    self.lemma_view_at(k);
                }
            });
            assert(self@ =~= spec_fail(m0));
        }
    }
}

/// After a fatal failure every stream is closed; nothing queued is lost.
pub open spec fn spec_fail(m: CorrelatorModel) -> CorrelatorModel {
    CorrelatorModel {
        table: m.table.map_values(|e: EntryModel| EntryModel { queue: e.queue, closed: true }),
        global: m.global,
        global_closed: true,
    }
}


/// Routing a sequence of frames, oldest first.
pub open spec fn spec_route_all(m: CorrelatorModel, frames: Seq<ResponseMessage>) -> CorrelatorModel
    decreases frames.len(),
{
    if frames.len() == 0 {
        m
    } else {
        spec_route_all(spec_route(m, frames[0]), frames.drop_first())
    }
}

/// Correlation ordering: frames carrying one registered, open id are appended
/// to its queue in arrival order, so a consumer draining that queue observes
/// them in exactly the order the reader received them.
pub proof fn lemma_ordered_delivery(m: CorrelatorModel, frames: Seq<ResponseMessage>, id: int)
    requires
        m.table.contains_key(id),
        !m.table[id].closed,
        forall|k: int|
            0 <= k < frames.len() ==> spec_correlation_id(
                (#[trigger] frames[k]).spec_fields(),
            ) == Some(id),
        forall|k: int|
            0 <= k < frames.len() ==> !spec_is_terminal(
                spec_message_type((#[trigger] frames[k]).spec_fields()),
            ),
    ensures
        spec_route_all(m, frames).table.contains_key(id),
        !spec_route_all(m, frames).table[id].closed,
        spec_route_all(m, frames).table[id].queue == m.table[id].queue + frames,
    decreases frames.len(),
{
    if frames.len() == 0 {
        assert(m.table[id].queue + frames =~= m.table[id].queue);
    } else {
        let f0 = frames[0];
        let m1 = spec_route(m, f0);
        assert(m1.table[id].queue == m.table[id].queue.push(f0));
        lemma_ordered_delivery(m1, frames.drop_first(), id);
        assert(m.table[id].queue.push(f0) + frames.drop_first() =~= m.table[id].queue + frames);
    }
}

/// No cross-talk: routing a frame whose correlation id is not `b` leaves the
/// queue registered for `b` untouched; in particular a frame routed to the
/// global destination touches no per-id queue at all.
pub proof fn lemma_no_crosstalk(m: CorrelatorModel, frame: ResponseMessage, b: int)
    requires
        spec_correlation_id(frame.spec_fields()) != Some(b),
    ensures
        spec_route(m, frame).table.contains_key(b) == m.table.contains_key(b),
        m.table.contains_key(b) ==> spec_route(m, frame).table[b] == m.table[b],
{
}

/// Cancellation safety: once an id is deregistered, routing a frame that
/// carries it changes nothing and does not revive the id.
pub proof fn lemma_cancellation(m: CorrelatorModel, frame: ResponseMessage, id: int)
    requires
        spec_correlation_id(frame.spec_fields()) == Some(id),
    ensures
        ({
            let cancelled = CorrelatorModel { table: m.table.remove(id), ..m };
            spec_route(cancelled, frame) == cancelled && !spec_route(
                cancelled,
                frame,
            ).table.contains_key(id)
        }),
{
}

} // verus!
