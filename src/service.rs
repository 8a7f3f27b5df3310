use vstd::prelude::*;

use crate::command::{CommandRequest, CommandResponse, RespView};
use crate::dispatch::{dispatch, dispatch_serves, dispatch_shaped};
use crate::memtable::MemTable;
use crate::storage::{Storage, StoreModel};

verus! {

/// Observers and rewriters run around each request. Each list of hooks in a
/// service runs in the order it was registered.
pub trait Hook {
    /// Sees each request as it arrives.
    fn on_received(&self, cmd: &CommandRequest);

    /// Sees each response as the store produced it.
    fn on_executed(&self, res: &CommandResponse);

    /// What `on_before_send` may turn a response into. A hook that states
    /// nothing may rewrite a response in any way.
    open spec fn rewrites(&self, before: RespView, after: RespView) -> bool {
        true
    }

    /// May rewrite each response before the caller gets it.
    fn on_before_send(&self, res: &mut CommandResponse)
        ensures
            self.rewrites(old(res)@, final(res)@),
    ;

    /// Learns that a response has been sent.
    fn on_after_send(&self);
}

/// A hook that does nothing.
pub struct NoHook;

impl Hook for NoHook {
    open spec fn rewrites(&self, before: RespView, after: RespView) -> bool {
        after == before
    }

    fn on_received(&self, _cmd: &CommandRequest) {
    }

    fn on_executed(&self, _res: &CommandResponse) {
    }

    fn on_before_send(&self, _res: &mut CommandResponse) {
    }

    fn on_after_send(&self) {
    }
}

/// `last` is `first` rewritten by each of `hooks` in turn.
pub open spec fn passes_through<H: Hook>(hooks: Seq<H>, first: RespView, last: RespView) -> bool {
    exists|chain: Seq<RespView>|
        chain.len() == hooks.len() + 1 && chain[0] == first && chain.last() == last && forall|i: int|
            0 <= i < hooks.len() ==> #[trigger] hooks[i].rewrites(chain[i], chain[i + 1])
}

/// A store and the hooks registered with it.
pub struct ServiceInner<Store, H = NoHook> {
    store: Store,
    on_received: Vec<H>,
    on_executed: Vec<H>,
    on_before_send: Vec<H>,
    on_after_send: Vec<H>,
}

impl<Store: Storage, H: Hook> ServiceInner<Store, H> {
    pub closed spec fn store(&self) -> Store {
        self.store
    }

    pub closed spec fn received_hooks(&self) -> Seq<H> {
        self.on_received@
    }

    pub closed spec fn executed_hooks(&self) -> Seq<H> {
        self.on_executed@
    }

    pub closed spec fn before_send_hooks(&self) -> Seq<H> {
        self.on_before_send@
    }

    pub closed spec fn after_send_hooks(&self) -> Seq<H> {
        self.on_after_send@
    }

    /// A store with no hooks.
    pub fn new(store: Store) -> (r: Self)
        ensures
            r.store() == store,
            r.received_hooks().len() == 0,
            r.executed_hooks().len() == 0,
            r.before_send_hooks().len() == 0,
            r.after_send_hooks().len() == 0,
    {
        ServiceInner {
            store,
            on_received: Vec::new(),
            on_executed: Vec::new(),
            on_before_send: Vec::new(),
            on_after_send: Vec::new(),
        }
    }

    /// Registers a hook that sees each request.
    pub fn fn_received(self, hook: H) -> (r: Self)
        ensures
            r.store() == self.store(),
            r.received_hooks() == self.received_hooks().push(hook),
            r.executed_hooks() == self.executed_hooks(),
            r.before_send_hooks() == self.before_send_hooks(),
            r.after_send_hooks() == self.after_send_hooks(),
    {
        let mut inner = self;
        inner.on_received.push(hook);
        inner
    }

    /// Registers a hook that sees each response as produced.
    pub fn fn_executed(self, hook: H) -> (r: Self)
        ensures
            r.store() == self.store(),
            r.received_hooks() == self.received_hooks(),
            r.executed_hooks() == self.executed_hooks().push(hook),
            r.before_send_hooks() == self.before_send_hooks(),
            r.after_send_hooks() == self.after_send_hooks(),
    {
        let mut inner = self;
        inner.on_executed.push(hook);
        inner
    }

    /// Registers a hook that may rewrite each response.
    pub fn fn_before_send(self, hook: H) -> (r: Self)
        ensures
            r.store() == self.store(),
            r.received_hooks() == self.received_hooks(),
            r.executed_hooks() == self.executed_hooks(),
            r.before_send_hooks() == self.before_send_hooks().push(hook),
            r.after_send_hooks() == self.after_send_hooks(),
    {
        let mut inner = self;
        inner.on_before_send.push(hook);
        inner
    }

    /// Registers a hook that learns of each response sent.
    pub fn fn_after_send(self, hook: H) -> (r: Self)
        ensures
            r.store() == self.store(),
            r.received_hooks() == self.received_hooks(),
            r.executed_hooks() == self.executed_hooks(),
            r.before_send_hooks() == self.before_send_hooks(),
            r.after_send_hooks() == self.after_send_hooks().push(hook),
    {
        let mut inner = self;
        inner.on_after_send.push(hook);
        inner
    }
}

/// The entry point of the store: a request in, a response out, with the
/// registered hooks run around the command.
pub struct Service<Store = MemTable, H = NoHook> {
    inner: ServiceInner<Store, H>,
}

impl<Store: Storage, H: Hook> From<ServiceInner<Store, H>> for Service<Store, H> {
    fn from(inner: ServiceInner<Store, H>) -> (r: Self)
        ensures
            r.inner() == inner,
    {
        Service { inner }
    }
}

impl<Store: Storage, H: Hook> vstd::std_specs::convert::FromSpecImpl<ServiceInner<Store, H>> for Service<Store, H> {
    open spec fn obeys_from_spec() -> bool {
        false
    }

    open spec fn from_spec(inner: ServiceInner<Store, H>) -> Self {
        choose|s: Self| s.inner() == inner
    }
}

impl<Store: Storage, H: Hook> Service<Store, H> {
    pub closed spec fn inner(&self) -> ServiceInner<Store, H> {
        self.inner
    }

    /// What the service's store holds.
    pub open spec fn model(&self) -> StoreModel {
        self.inner().store().model()
    }

    pub open spec fn wf(&self) -> bool {
        self.inner().store().inv()
    }

    /// Serves one request. The store changes as the command prescribes; with
    /// no rewriting hooks registered, the response is the command's own.
    pub fn execute(&mut self, cmd: CommandRequest) -> (r: CommandResponse)
        requires
            old(self).wf(),
        ensures
            final(self).wf(),
            final(self).inner().store().exact() == old(self).inner().store().exact(),
            final(self).inner().received_hooks() == old(self).inner().received_hooks(),
            final(self).inner().executed_hooks() == old(self).inner().executed_hooks(),
            final(self).inner().before_send_hooks() == old(self).inner().before_send_hooks(),
            final(self).inner().after_send_hooks() == old(self).inner().after_send_hooks(),
            old(self).inner().store().exact() ==> exists|res: RespView|
                dispatch_serves(cmd, old(self).model(), res, final(self).model()),
            old(self).inner().store().exact() && old(self).inner().before_send_hooks().len()
                == 0 ==> dispatch_serves(cmd, old(self).model(), r@, final(self).model()),
            old(self).inner().before_send_hooks().len() == 0 ==> dispatch_shaped(cmd, r@),
            exists|res: RespView|
                passes_through(old(self).inner().before_send_hooks(), res, r@) && dispatch_shaped(
                    cmd,
                    res,
                ) && (old(self).inner().store().exact() ==> dispatch_serves(
                    cmd,
                    old(self).model(),
                    res,
                    final(self).model(),
                )),
    {
        let mut i: usize = 0;
        while i < self.inner.on_received.len()
            invariant
                self.inner == old(self).inner,
            decreases self.inner.on_received@.len() - i,
        {
            self.inner.on_received[i].on_received(&cmd);
            i = i + 1;
        }
        let ghost cmd0 = cmd;
        let ghost before = self.inner.store.model();
        let mut res = dispatch(cmd, &mut self.inner.store);
        let ghost res0 = res@;
        let ghost served = self.inner;
        assert(self.inner.store.exact() ==> dispatch_serves(
            cmd0,
            before,
            res0,
            self.inner.store.model(),
        ));
        let mut i: usize = 0;
        while i < self.inner.on_executed.len()
            invariant
                self.inner == served,
            decreases self.inner.on_executed@.len() - i,
        {
            self.inner.on_executed[i].on_executed(&res);
            i = i + 1;
        }
        let mut i: usize = 0;
        let ghost mut chain: Seq<RespView> = seq![res0];
        while i < self.inner.on_before_send.len()
            invariant
                self.inner == served,
                self.inner.on_before_send@.len() == 0 ==> res@ == res0,
                i <= self.inner.on_before_send@.len(),
                chain.len() == i + 1,
                chain[0] == res0,
                chain.last() == res@,
                forall|j: int|
                    0 <= j < i ==> #[trigger] self.inner.on_before_send@[j].rewrites(
                        chain[j],
                        chain[j + 1],
                    ),
            decreases self.inner.on_before_send@.len() - i,
        {
            self.inner.on_before_send[i].on_before_send(&mut res);
            proof {
                let old_chain = chain;
                chain = chain.push(res@);
                assert forall|j: int| 0 <= j < i + 1 implies #[trigger] self.inner.on_before_send@[j].rewrites(
                    chain[j],
                    chain[j + 1],
                ) by {
                    if j < i {
                        assert(chain[j] == old_chain[j] && chain[j + 1] == old_chain[j + 1]);
                    }
                }
            }
            i = i + 1;
        }
        proof {
            assert(passes_through(self.inner.on_before_send@, res0, res@));
            assert(before == old(self).model());
            assert(served.store.model() == self.model());
            assert(old(self).inner().store().exact() ==> dispatch_serves(
                cmd0,
                old(self).model(),
                res0,
                self.model(),
            ));
        }
        res
    }

    /// Tells each after-send hook, in order, that a response went out.
    pub fn notify_sent(&self) {
        let mut i: usize = 0;
        while i < self.inner.on_after_send.len()
            decreases self.inner.on_after_send@.len() - i,
        {
            self.inner.on_after_send[i].on_after_send();
            i = i + 1;
        }
    }
}

} // verus!
