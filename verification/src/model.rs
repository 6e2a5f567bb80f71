//! The model layer: tickets and an in-memory ticket store.
//!
//! A ticket's id is the index of its slot in the store. Deleting a ticket
//! empties its slot but keeps it, so an id is never handed out twice.
use vstd::prelude::*;

use crate::ctx::Ctx;
use crate::error::Error;

verus! {

/// A ticket.
#[derive(Debug, PartialEq, Eq)]
pub struct Ticket {
    pub id: u64,
    /// The id of the user that created the ticket.
    pub cid: u64,
    pub title: String,
}

/// The payload that creates or retitles a ticket.
#[derive(Debug)]
pub struct TicketForCreate {
    pub title: String,
}

/// The mathematical value of a ticket.
pub struct TicketView {
    pub id: u64,
    pub cid: u64,
    pub title: Seq<char>,
}

impl View for Ticket {
    type V = TicketView;

    open spec fn view(&self) -> TicketView {
        TicketView { id: self.id, cid: self.cid, title: self.title@ }
    }
}

impl Clone for Ticket {
    fn clone(&self) -> (res: Self)
        ensures
            res@ == self@,
    {
        Ticket { id: self.id, cid: self.cid, title: self.title.clone() }
    }
}

/// The value of a store slot.
pub open spec fn slot_view(slot: Option<Ticket>) -> Option<TicketView> {
    match slot {
        Some(t) => Some(t@),
        None => None,
    }
}

/// The value of a result that carries a ticket.
pub open spec fn result_view(r: Result<Ticket, Error>) -> Result<TicketView, Error> {
    match r {
        Ok(t) => Ok(t@),
        Err(e) => Err(e),
    }
}

/// The values of a sequence of tickets.
pub open spec fn tickets_view(ts: Seq<Ticket>) -> Seq<TicketView> {
    ts.map_values(|t: Ticket| t@)
}

// ---------------------------------------------------------------------------
// The store as a sequence of slots, and its operations.
// ---------------------------------------------------------------------------
/// A store is well formed when every ticket sits in the slot of its own id.
pub open spec fn store_wf(s: Seq<Option<TicketView>>) -> bool {
    forall|i: int| 0 <= i < s.len() && #[trigger] s[i] is Some ==> s[i]->0.id == i
}

/// The ticket with id `id`, if the store holds one.
pub open spec fn store_get(s: Seq<Option<TicketView>>, id: u64) -> Option<TicketView> {
    if id < s.len() {
        s[id as int]
    } else {
        None
    }
}

/// What reading ticket `id` answers.
pub open spec fn get_result(s: Seq<Option<TicketView>>, id: u64) -> Result<TicketView, Error> {
    match store_get(s, id) {
        Some(t) => Ok(t),
        None => Err(Error::TicketGetNotFound { id }),
    }
}

/// The ticket that creating a ticket adds: it takes the next free slot.
pub open spec fn created_ticket(s: Seq<Option<TicketView>>, cid: u64, title: Seq<char>) -> TicketView {
    TicketView { id: s.len() as u64, cid, title }
}

/// The store after creating a ticket.
pub open spec fn store_after_create(s: Seq<Option<TicketView>>, cid: u64, title: Seq<char>) -> Seq<
    Option<TicketView>,
> {
    s.push(Some(created_ticket(s, cid, title)))
}

/// What retitling ticket `id` answers.
pub open spec fn update_result(s: Seq<Option<TicketView>>, id: u64, title: Seq<char>) -> Result<
    TicketView,
    Error,
> {
    match store_get(s, id) {
        Some(t) => Ok(TicketView { title, ..t }),
        None => Err(Error::TicketUpdateNotFound { id }),
    }
}

/// The store after retitling ticket `id`; unchanged when there is no such ticket.
pub open spec fn store_after_update(s: Seq<Option<TicketView>>, id: u64, title: Seq<char>) -> Seq<
    Option<TicketView>,
> {
    match update_result(s, id, title) {
        Ok(t) => s.update(id as int, Some(t)),
        Err(_) => s,
    }
}

/// What deleting ticket `id` answers: the deleted ticket.
pub open spec fn delete_result(s: Seq<Option<TicketView>>, id: u64) -> Result<TicketView, Error> {
    match store_get(s, id) {
        Some(t) => Ok(t),
        None => Err(Error::TicketDeleteNotFound { id }),
    }
}

/// The store after deleting ticket `id`: its slot is emptied, and kept.
pub open spec fn store_after_delete(s: Seq<Option<TicketView>>, id: u64) -> Seq<Option<TicketView>> {
    match store_get(s, id) {
        Some(_) => s.update(id as int, None),
        None => s,
    }
}

/// The tickets a store holds, in the order of their ids.
pub open spec fn live_tickets(s: Seq<Option<TicketView>>) -> Seq<TicketView>
    decreases s.len(),
{
    if s.len() == 0 {
        Seq::empty()
    } else {
        let rest = live_tickets(s.drop_last());
        match s.last() {
            Some(t) => rest.push(t),
            None => rest,
        }
    }
}

// ---------------------------------------------------------------------------
// The executable store.
// ---------------------------------------------------------------------------
/// An in-memory ticket store. Slot `i` holds the ticket with id `i`, or
/// nothing once that ticket was deleted.
#[derive(Debug)]
pub struct ModelController {
    tickets_store: Vec<Option<Ticket>>,
}

impl View for ModelController {
    type V = Seq<Option<TicketView>>;

    closed spec fn view(&self) -> Seq<Option<TicketView>> {
        store_view(self.tickets_store@)
    }
}

/// The value of the slots of a store.
spec fn store_view(slots: Seq<Option<Ticket>>) -> Seq<Option<TicketView>> {
    slots.map_values(|slot: Option<Ticket>| slot_view(slot))
}

impl ModelController {
    /// The store's invariant: every ticket sits in the slot of its id.
    #[verifier::type_invariant]
    spec fn wf(&self) -> bool {
        store_wf(self@)
    }

    /// An empty store.
    pub fn new() -> (mc: Self)
        ensures
            store_wf(mc@),
            mc@ == Seq::<Option<TicketView>>::empty(),
    {
        let mc = ModelController { tickets_store: Vec::new() };
        assert(mc@ =~= Seq::<Option<TicketView>>::empty());
        mc
    }

    /// Creates a ticket titled `ticket.title` on behalf of `ctx`'s user, in the
    /// next free slot, and returns it.
    pub fn create_ticket(&mut self, ctx: Ctx, ticket: TicketForCreate) -> (res: Result<
        Ticket,
        Error,
    >)
        ensures
            store_wf(old(self)@),
            store_wf(final(self)@),
            result_view(res) == Ok::<TicketView, Error>(
                created_ticket(old(self)@, ctx.spec_user_id(), ticket.title@),
            ),
            final(self)@ == store_after_create(old(self)@, ctx.spec_user_id(), ticket.title@),
    {
        proof {
            use_type_invariant(&*self);
        }
        let mut store = self.take_store();
        let id = store.len() as u64;
        let ticket = Ticket { id, cid: ctx.user_id(), title: ticket.title };
        let copy = ticket.clone();
        let ghost before = store@;
        store.push(Some(copy));
        proof {
            assert(store@ == before.push(Some(copy)));
            assert(store_view(store@) =~= store_after_create(
                old(self)@,
                ctx.spec_user_id(),
                ticket.title@,
            ));
        }
        self.tickets_store = store;
        Ok(ticket)
    }

    /// Moves the slots out, leaving an empty store behind.
    fn take_store(&mut self) -> (store: Vec<Option<Ticket>>)
        ensures
            store_view(store@) == old(self)@,
            final(self)@ == Seq::<Option<TicketView>>::empty(),
    {
        let mut store: Vec<Option<Ticket>> = Vec::new();
        std::mem::swap(&mut store, &mut self.tickets_store);
        assert(self@ =~= Seq::<Option<TicketView>>::empty());
        store
    }

    /// All tickets in the store, in the order of their ids.
    pub fn list_tickets(&self, _ctx: Ctx) -> (res: Result<Vec<Ticket>, Error>)
        ensures
            store_wf(self@),
            res matches Ok(ts) && tickets_view(ts@) == live_tickets(self@),
    {
        proof {
            use_type_invariant(self);
        }
        let mut tickets: Vec<Ticket> = Vec::new();
        let n = self.tickets_store.len();
        let mut i: usize = 0;
        while i < n
            invariant
                n == self.tickets_store@.len(),
                i <= n,
                tickets_view(tickets@) == live_tickets(self@.take(i as int)),
            decreases n - i,
        {
            proof {
                assert(self@.take(i + 1).drop_last() =~= self@.take(i as int));
            }
            match &self.tickets_store[i] {
                Some(t) => {
                    let c = t.clone();
                    let ghost prev = tickets@;
                    tickets.push(c);
                    assert(tickets_view(tickets@) =~= tickets_view(prev).push(c@));
                },
                None => {},
            }
            i = i + 1;
        }
        assert(self@.take(n as int) =~= self@);
        Ok(tickets)
    }

    /// The ticket with id `id`.
    pub fn get_ticket(&self, _ctx: Ctx, id: u64) -> (res: Result<Ticket, Error>)
        ensures
            store_wf(self@),
            result_view(res) == get_result(self@, id),
    {
        proof {
            use_type_invariant(self);
        }
        let len = self.tickets_store.len();
        if id < len as u64 {
            let i = id as usize;
            match &self.tickets_store[i] {
                Some(t) => Ok(t.clone()),
                None => Err(Error::TicketGetNotFound { id }),
            }
        } else {
            Err(Error::TicketGetNotFound { id })
        }
    }

    /// Gives ticket `id` the title `ticket_fc.title` and returns it.
    pub fn update_ticket(&mut self, _ctx: Ctx, id: u64, ticket_fc: TicketForCreate) -> (res:
        Result<Ticket, Error>)
        ensures
            store_wf(old(self)@),
            store_wf(final(self)@),
            result_view(res) == update_result(old(self)@, id, ticket_fc.title@),
            final(self)@ == store_after_update(old(self)@, id, ticket_fc.title@),
    {
        proof {
            use_type_invariant(&*self);
        }
        let mut store = self.take_store();
        let len = store.len();
        let res = if id < len as u64 {
            let i = id as usize;
            let mut slot: Option<Ticket> = None;
            store.set_and_swap(i, &mut slot);
            match slot {
                Some(t) => {
                    let ticket = Ticket { id: t.id, cid: t.cid, title: ticket_fc.title };
                    let copy = ticket.clone();
                    store.set(i, Some(ticket));
                    Ok(copy)
                },
                None => Err(Error::TicketUpdateNotFound { id }),
            }
        } else {
            Err(Error::TicketUpdateNotFound { id })
        };
        proof {
            assert(store_view(store@) =~= store_after_update(old(self)@, id, ticket_fc.title@));
        }
        self.tickets_store = store;
        res
    }

    /// Removes ticket `id` and returns it. Its slot stays, empty.
    pub fn delete_ticket(&mut self, _ctx: Ctx, id: u64) -> (res: Result<Ticket, Error>)
        ensures
            store_wf(old(self)@),
            store_wf(final(self)@),
            result_view(res) == delete_result(old(self)@, id),
            final(self)@ == store_after_delete(old(self)@, id),
    {
        proof {
            use_type_invariant(&*self);
        }
        let mut store = self.take_store();
        let len = store.len();
        let mut slot: Option<Ticket> = None;
        if id < len as u64 {
            store.set_and_swap(id as usize, &mut slot);
        }
        proof {
            assert(store_view(store@) =~= store_after_delete(old(self)@, id));
        }
        self.tickets_store = store;
        match slot {
            Some(t) => Ok(t),
            None => Err(Error::TicketDeleteNotFound { id }),
        }
    }
}

// ---------------------------------------------------------------------------
// Laws of the store.
// ---------------------------------------------------------------------------
/// A created ticket gets the id of the next free slot, reading that id gives
/// it back, and no other ticket changes.
pub proof fn lemma_read_after_create(s: Seq<Option<TicketView>>, cid: u64, title: Seq<char>)
    requires
        store_wf(s),
        s.len() < u64::MAX,
    ensures
        store_wf(store_after_create(s, cid, title)),
        created_ticket(s, cid, title).id == s.len(),
        get_result(store_after_create(s, cid, title), created_ticket(s, cid, title).id) == Ok::<
            TicketView,
            Error,
        >(created_ticket(s, cid, title)),
        forall|id: u64|
            id != created_ticket(s, cid, title).id ==> #[trigger] get_result(
                store_after_create(s, cid, title),
                id,
            ) == get_result(s, id),
{
}

/// Retitling a ticket changes its title and nothing else; retitling a
/// missing ticket changes nothing.
pub proof fn lemma_read_after_update(s: Seq<Option<TicketView>>, id: u64, title: Seq<char>)
    requires
        store_wf(s),
    ensures
        store_wf(store_after_update(s, id, title)),
        update_result(s, id, title) matches Ok(t) ==> {
            &&& get_result(store_after_update(s, id, title), id) == Ok::<TicketView, Error>(t)
            &&& t.id == id
            &&& t.title == title
            &&& get_result(s, id) matches Ok(old_t) && t.cid == old_t.cid
        },
        update_result(s, id, title) is Err ==> store_after_update(s, id, title) == s,
        forall|other: u64|
            other != id ==> #[trigger] get_result(store_after_update(s, id, title), other)
                == get_result(s, other),
{
}

/// A deleted ticket can no longer be read, retitled or deleted, and the
/// other tickets stay as they were.
pub proof fn lemma_read_after_delete(s: Seq<Option<TicketView>>, id: u64, title: Seq<char>)
    requires
        store_wf(s),
    ensures
        store_wf(store_after_delete(s, id)),
        get_result(store_after_delete(s, id), id) == Err::<TicketView, Error>(
            Error::TicketGetNotFound { id },
        ),
        delete_result(store_after_delete(s, id), id) == Err::<TicketView, Error>(
            Error::TicketDeleteNotFound { id },
        ),
        update_result(store_after_delete(s, id), id, title) == Err::<TicketView, Error>(
            Error::TicketUpdateNotFound { id },
        ),
        forall|other: u64|
            other != id ==> #[trigger] get_result(store_after_delete(s, id), other) == get_result(
                s,
                other,
            ),
{
}

/// Deleting keeps the slot, so a ticket created afterwards never gets the id
/// of a deleted one.
pub proof fn lemma_deleted_id_not_reused(
    s: Seq<Option<TicketView>>,
    id: u64,
    cid: u64,
    title: Seq<char>,
)
    requires
        store_wf(s),
        s.len() < u64::MAX,
        delete_result(s, id) is Ok,
    ensures
        store_after_delete(s, id).len() == s.len(),
        created_ticket(store_after_delete(s, id), cid, title).id != id,
{
}

/// Every ticket that a read answers with carries the id it was read by.
pub proof fn lemma_read_id(s: Seq<Option<TicketView>>, id: u64)
    requires
        store_wf(s),
    ensures
        get_result(s, id) matches Ok(t) ==> t.id == id,
{
}

/// Listing after a creation gives the earlier list followed by the new ticket.
pub proof fn lemma_list_after_create(s: Seq<Option<TicketView>>, cid: u64, title: Seq<char>)
    ensures
        live_tickets(store_after_create(s, cid, title)) == live_tickets(s).push(
            created_ticket(s, cid, title),
        ),
{
    assert(store_after_create(s, cid, title).drop_last() =~= s);
}

/// The list holds exactly the tickets that can be read, each once, in
/// increasing order of id.
pub proof fn lemma_list_is_store_contents(s: Seq<Option<TicketView>>)
    requires
        store_wf(s),
    ensures
        forall|a: int, b: int|
            0 <= a < b < live_tickets(s).len() ==> live_tickets(s)[a].id < live_tickets(s)[b].id,
        forall|k: int|
            0 <= k < live_tickets(s).len() ==> get_result(s, #[trigger] live_tickets(s)[k].id)
                == Ok::<TicketView, Error>(live_tickets(s)[k]),
        forall|id: u64|
            #[trigger] get_result(s, id) is Ok ==> live_tickets(s).contains(
                get_result(s, id)->Ok_0,
            ),
    decreases s.len(),
{
    if s.len() > 0 {
        let p = s.drop_last();
        assert(store_wf(p));
        lemma_list_is_store_contents(p);
        lemma_live_ids_below(p);
        let lp = live_tickets(p);
        let l = live_tickets(s);
        assert forall|k: int| 0 <= k < l.len() implies get_result(s, #[trigger] l[k].id)
            == Ok::<TicketView, Error>(l[k]) by {
            if k < lp.len() {
                assert(l[k] == lp[k]);
                assert(get_result(p, lp[k].id) == Ok::<TicketView, Error>(lp[k]));
            }
        }
        assert forall|id: u64| #[trigger] get_result(s, id) is Ok implies l.contains(
            get_result(s, id)->Ok_0,
        ) by {
            if id < p.len() {
                assert(get_result(p, id) is Ok);
                let t = get_result(p, id)->Ok_0;
                let j = choose|j: int| 0 <= j < lp.len() && lp[j] == t;
                assert(l[j] == t);
            } else {
                assert(l[l.len() - 1] == s.last()->0);
            }
        }
    }
}

/// The tickets of a well-formed store's first slots have ids below their count.
proof fn lemma_live_ids_below(s: Seq<Option<TicketView>>)
    requires
        store_wf(s),
    ensures
        forall|k: int| 0 <= k < live_tickets(s).len() ==> #[trigger] live_tickets(s)[k].id < s.len(),
    decreases s.len(),
{
    if s.len() > 0 {
        let p = s.drop_last();
        assert(store_wf(p));
        lemma_live_ids_below(p);
        let lp = live_tickets(p);
        let l = live_tickets(s);
        assert forall|k: int| 0 <= k < l.len() implies #[trigger] l[k].id < s.len() by {
            if k < lp.len() {
                assert(l[k] == lp[k]);
            }
        }
    }
}


// ---------------------------------------------------------------------------
// Runs of operations.
// ---------------------------------------------------------------------------
/// An operation that changes the store.
pub enum StoreOp {
    Create { cid: u64, title: Seq<char> },
    Update { id: u64, title: Seq<char> },
    Delete { id: u64 },
}

/// The store after one operation.
pub open spec fn apply_op(s: Seq<Option<TicketView>>, op: StoreOp) -> Seq<Option<TicketView>> {
    match op {
        StoreOp::Create { cid, title } => store_after_create(s, cid, title),
        StoreOp::Update { id, title } => store_after_update(s, id, title),
        StoreOp::Delete { id } => store_after_delete(s, id),
    }
}

/// The store after a run of operations, applied in order.
pub open spec fn run_ops(s: Seq<Option<TicketView>>, ops: Seq<StoreOp>) -> Seq<Option<TicketView>>
    decreases ops.len(),
{
    if ops.len() == 0 {
        s
    } else {
        apply_op(run_ops(s, ops.drop_last()), ops.last())
    }
}

/// Whether an operation retitles or deletes ticket `id`.
pub open spec fn touches(op: StoreOp, id: u64) -> bool {
    match op {
        StoreOp::Create { .. } => false,
        StoreOp::Update { id: i, .. } => i == id,
        StoreOp::Delete { id: i } => i == id,
    }
}

/// A store never shrinks: each operation adds at most one slot.
pub proof fn lemma_run_len(s: Seq<Option<TicketView>>, ops: Seq<StoreOp>)
    ensures
        s.len() <= run_ops(s, ops).len() <= s.len() + ops.len(),
    decreases ops.len(),
{
    if ops.len() > 0 {
        lemma_run_len(s, ops.drop_last());
    }
}

/// A slot that no operation of a run retitles or deletes keeps its ticket.
proof fn lemma_run_keeps_untouched(s: Seq<Option<TicketView>>, ops: Seq<StoreOp>, id: u64)
    requires
        id < s.len(),
        forall|k: int| 0 <= k < ops.len() ==> !touches(#[trigger] ops[k], id),
    ensures
        id < run_ops(s, ops).len(),
        run_ops(s, ops)[id as int] == s[id as int],
    decreases ops.len(),
{
    if ops.len() > 0 {
        let p = ops.drop_last();
        assert forall|k: int| 0 <= k < p.len() implies !touches(#[trigger] p[k], id) by {
            assert(p[k] == ops[k]);
        }
        lemma_run_keeps_untouched(s, p, id);
        assert(!touches(ops[ops.len() - 1], id));
    }
}

/// A created ticket reads back unchanged through any later run of
/// operations that neither retitles nor deletes it.
pub proof fn lemma_created_ticket_persists(
    s: Seq<Option<TicketView>>,
    cid: u64,
    title: Seq<char>,
    ops: Seq<StoreOp>,
)
    requires
        s.len() < u64::MAX,
        forall|k: int|
            0 <= k < ops.len() ==> !touches(#[trigger] ops[k], created_ticket(s, cid, title).id),
    ensures
        get_result(run_ops(store_after_create(s, cid, title), ops), created_ticket(s, cid, title).id)
            == Ok::<TicketView, Error>(created_ticket(s, cid, title)),
{
    let id = created_ticket(s, cid, title).id;
    lemma_run_keeps_untouched(store_after_create(s, cid, title), ops, id);
}

/// The slot of a deleted ticket stays empty through any run of operations,
/// and every creation in the run gets an id at or above the store's earlier
/// length.
proof fn lemma_run_keeps_deleted(s0_len: nat, s: Seq<Option<TicketView>>, ops: Seq<StoreOp>, id: u64)
    requires
        id < s0_len <= s.len(),
        s[id as int] is None,
    ensures
        s0_len <= run_ops(s, ops).len(),
        run_ops(s, ops)[id as int] is None,
        forall|k: int|
            0 <= k < ops.len() ==> s0_len <= #[trigger] run_ops(s, ops.take(k)).len()
                && run_ops(s, ops.take(k))[id as int] is None,
    decreases ops.len(),
{
    if ops.len() > 0 {
        let p = ops.drop_last();
        lemma_run_keeps_deleted(s0_len, s, p, id);
        assert forall|k: int| 0 <= k < ops.len() implies s0_len <= #[trigger] run_ops(
            s,
            ops.take(k),
        ).len() && run_ops(s, ops.take(k))[id as int] is None by {
            if k < p.len() {
                assert(ops.take(k) =~= p.take(k));
            } else {
                assert(ops.take(k) =~= p);
            }
        }
    } else {
        assert forall|k: int| 0 <= k < ops.len() implies s0_len <= #[trigger] run_ops(
            s,
            ops.take(k),
        ).len() && run_ops(s, ops.take(k))[id as int] is None by {}
    }
}

/// After a ticket is deleted, through any later run of operations: reading,
/// retitling or deleting its id fails, no creation hands its id out again,
/// and the store never has fewer slots than before the deletion.
pub proof fn lemma_deleted_id_stays_gone(s: Seq<Option<TicketView>>, id: u64, ops: Seq<StoreOp>)
    requires
        delete_result(s, id) is Ok,
        s.len() + ops.len() <= u64::MAX,
    ensures
        get_result(run_ops(store_after_delete(s, id), ops), id) == Err::<TicketView, Error>(
            Error::TicketGetNotFound { id },
        ),
        forall|title: Seq<char>|
            #[trigger] update_result(run_ops(store_after_delete(s, id), ops), id, title) == Err::<
                TicketView,
                Error,
            >(Error::TicketUpdateNotFound { id }),
        delete_result(run_ops(store_after_delete(s, id), ops), id) == Err::<TicketView, Error>(
            Error::TicketDeleteNotFound { id },
        ),
        forall|k: int|
            0 <= k <= ops.len() ==> s.len() <= #[trigger] run_ops(
                store_after_delete(s, id),
                ops.take(k),
            ).len(),
        forall|k: int|
            0 <= k < ops.len() && #[trigger] ops[k] is Create ==> created_ticket(
                run_ops(store_after_delete(s, id), ops.take(k)),
                ops[k]->cid,
                ops[k]->Create_title,
            ).id != id,
{
    let s1 = store_after_delete(s, id);
    lemma_run_keeps_deleted(s.len(), s1, ops, id);
    assert forall|k: int| 0 <= k <= ops.len() implies s.len() <= #[trigger] run_ops(
        s1,
        ops.take(k),
    ).len() by {
        if k == ops.len() {
            assert(ops.take(k) =~= ops);
        }
    }
    assert forall|k: int| 0 <= k < ops.len() && #[trigger] ops[k] is Create implies created_ticket(
        run_ops(s1, ops.take(k)),
        ops[k]->cid,
        ops[k]->Create_title,
    ).id != id by {
        lemma_run_len(s1, ops.take(k));
    }
}


// ---------------------------------------------------------------------------
// What each operation does, in terms of its inputs.
// ---------------------------------------------------------------------------
/// Creating a ticket adds, in a new slot at the end, a ticket that carries
/// the given creator and title unchanged and the id of that slot; the
/// earlier slots stay as they were.
pub proof fn lemma_create_keeps_inputs(s: Seq<Option<TicketView>>, cid: u64, title: Seq<char>)
    requires
        s.len() < u64::MAX,
    ensures
        created_ticket(s, cid, title).id == s.len(),
        created_ticket(s, cid, title).cid == cid,
        created_ticket(s, cid, title).title == title,
        store_after_create(s, cid, title).len() == s.len() + 1,
        store_after_create(s, cid, title)[s.len() as int] == Some(created_ticket(s, cid, title)),
        forall|i: int| 0 <= i < s.len() ==> #[trigger] store_after_create(s, cid, title)[i] == s[i],
{
}

/// Reading a stored ticket answers it, and reading an empty or missing slot
/// answers "not found" for that id.
pub proof fn lemma_get_answers_stored(s: Seq<Option<TicketView>>, id: u64)
    ensures
        store_get(s, id) matches Some(t) ==> get_result(s, id) == Ok::<TicketView, Error>(t),
        store_get(s, id) is None ==> get_result(s, id) == Err::<TicketView, Error>(
            Error::TicketGetNotFound { id },
        ),
{
}

/// Retitling a stored ticket always succeeds, whatever the new title: it
/// answers the ticket with the new title and its id and creator unchanged,
/// and stores that ticket in its slot. Retitling an empty or missing slot
/// answers "not found" for that id.
pub proof fn lemma_update_retitles(s: Seq<Option<TicketView>>, id: u64, title: Seq<char>)
    ensures
        store_get(s, id) matches Some(t) ==> {
                &&& update_result(s, id, title) is Ok
                &&& update_result(s, id, title)->Ok_0.id == t.id
                &&& update_result(s, id, title)->Ok_0.cid == t.cid
                &&& update_result(s, id, title)->Ok_0.title == title
                &&& store_get(store_after_update(s, id, title), id) == Some(
                    update_result(s, id, title)->Ok_0,
                )
                &&& store_after_update(s, id, title).len() == s.len()
            },
        store_get(s, id) is None ==> update_result(s, id, title) == Err::<TicketView, Error>(
            Error::TicketUpdateNotFound { id },
        ) && store_after_update(s, id, title) == s,
{
}

/// Deleting a stored ticket always succeeds and answers that very ticket,
/// leaving its slot empty; deleting an empty or missing slot answers "not
/// found" for that id and changes nothing.
pub proof fn lemma_delete_answers_deleted(s: Seq<Option<TicketView>>, id: u64)
    ensures
        store_get(s, id) matches Some(t) ==> {
                &&& delete_result(s, id) == Ok::<TicketView, Error>(t)
                &&& store_get(store_after_delete(s, id), id) is None
                &&& store_after_delete(s, id).len() == s.len()
            },
        store_get(s, id) is None ==> delete_result(s, id) == Err::<TicketView, Error>(
            Error::TicketDeleteNotFound { id },
        ) && store_after_delete(s, id) == s,
{
}

} // verus!
