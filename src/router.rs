//! The router: the method table, how a decoded message is classified
//! against it, and the dispatch policy that the lifecycle state gates.
use vstd::prelude::*;
use crate::jsonrpc::{Error, ErrorCode, Id, IdView, Outcome, Response};
use crate::pending::{has_ticket, register, settle_by_id, settle_by_ticket, PendingRequests};
use crate::state::{allowed_transition, StateKind};

verus! {

/// One method that the server handles.
#[derive(Clone, Debug)]
pub struct MethodDesc {
    /// The name on the wire.
    pub name: String,
    /// Whether the method takes parameters.
    pub has_params: bool,
    /// Whether the method is a request, which is answered.
    pub has_result: bool,
}

/// Parameters of a known method, as far as their shape could be checked:
/// JSON text, or the reason why they do not fit.
#[derive(Clone, Debug)]
pub enum Params {
    Valid(String),
    Invalid(String),
}

/// An inbound message after JSON decoding.
#[derive(Clone, Debug)]
pub struct Message {
    pub id: Option<Id>,
    pub method: String,
    pub params: Option<Params>,
}

/// A message whose method the table (or the framework) knows.
#[derive(Debug)]
pub enum ServerMethod {
    /// Entry `index` of the table; `id` only for requests, `params` only for
    /// methods that take them.
    Call { index: usize, id: Option<Id>, params: Option<Params> },
    /// `$/cancelRequest` for the request `id`.
    CancelRequest { id: Id },
    /// `exit`.
    Exit,
}

/// An inbound message, classified.
#[derive(Debug)]
pub enum RequestKind {
    Known(ServerMethod),
    Other { id: Option<Id>, method: String, params: Option<String> },
}

/// What the server does with one message.
#[derive(Debug)]
pub enum Action {
    /// Send this response now.
    Respond(Response),
    /// Run the `initialize` handler (table entry `index`) on these
    /// parameters, then hand its
    /// outcome to `finish_initialize`.
    Initialize { index: usize, id: Id, params: String },
    /// Run the handler of table entry `index` under `ticket`, then hand its
    /// outcome to `finish`; `replaced` answers an earlier request with the
    /// same id, which the new one cancelled.
    Run { index: usize, ticket: u64, params: Option<String>, replaced: Option<Response> },
    /// Run the fallback handler for an unknown request, as `Run` does.
    RunOther { method: String, ticket: u64, params: Option<String>, replaced: Option<Response> },
    /// Run the handler of notification `index`; nothing is answered.
    Notify { index: usize, params: Option<String> },
    /// A `$/cancelRequest` went through: the cancelled request's own
    /// response, if it was still in flight.
    Cancelled(Option<Response>),
    /// Nothing to do.
    Nothing,
}

/// The name `$/cancelRequest`.
pub open spec fn cancel_name() -> Seq<char> {
    "$/cancelRequest"@
}

/// The name `exit`.
pub open spec fn exit_name() -> Seq<char> {
    "exit"@
}

/// The name `initialize`.
pub open spec fn initialize_name() -> Seq<char> {
    "initialize"@
}

/// The name `shutdown`.
pub open spec fn shutdown_name() -> Seq<char> {
    "shutdown"@
}

/// Whether entry `i` is the first of `table` named `m`.
pub open spec fn first_match(table: Seq<MethodDesc>, m: Seq<char>, i: int) -> bool {
    &&& 0 <= i < table.len()
    &&& table[i].name@ == m
    &&& forall|j: int| 0 <= j < i ==> (#[trigger] table[j]).name@ != m
}

/// Whether no entry of `table` is named `m`.
pub open spec fn no_match(table: Seq<MethodDesc>, m: Seq<char>) -> bool {
    forall|j: int| 0 <= j < table.len() ==> (#[trigger] table[j]).name@ != m
}

/// Whether `p` is the same text as `q`, variant by variant.
pub open spec fn same_params(p: Params, q: Params) -> bool {
    match (p, q) {
        (Params::Valid(a), Params::Valid(b)) => a@ == b@,
        (Params::Invalid(a), Params::Invalid(b)) => a@ == b@,
        _ => false,
    }
}

/// Whether `a` and `b` are both absent or both present with the same id.
pub open spec fn same_id(a: Option<Id>, b: Option<Id>) -> bool {
    match (a, b) {
        (Some(x), Some(y)) => x@ == y@,
        (None, None) => true,
        _ => false,
    }
}

/// What `classify` makes of `msg` once the table has been searched: the
/// framework's names first, then the table entry, if `i` is one.
pub open spec fn classified(table: Seq<MethodDesc>, msg: Message, i: Option<int>, r: RequestKind) -> bool {
    let other = r matches RequestKind::Other { id, method, params } && same_id(id, msg.id)
        && method@ == msg.method@ && match msg.params {
        Some(Params::Valid(p)) => params matches Some(q) && q@ == p@,
        _ => params is None,
    };
    if msg.method@ == cancel_name() {
        match msg.id {
            Some(x) => r matches RequestKind::Known(ServerMethod::CancelRequest { id }) && id@ == x@,
            None => other,
        }
    } else if msg.method@ == exit_name() {
        r matches RequestKind::Known(ServerMethod::Exit)
    } else {
        match i {
            Some(k) => {
                let d = table[k];
                if d.has_result && msg.id is None {
                    other
                } else {
                    r matches RequestKind::Known(ServerMethod::Call { index, id, params })
                        && index == k && same_id(id, if d.has_result { msg.id } else { None })
                        && match (d.has_params, msg.params) {
                        (false, _) => params is None,
                        (true, None) => params matches Some(Params::Invalid(e)) && e@
                            == "Missing params field"@,
                        (true, Some(p)) => params matches Some(q) && same_params(q, p),
                    }
                }
            },
            None => other,
        }
    }
}

/// The first entry of `table` named `m`, if any.
pub fn lookup(table: &Vec<MethodDesc>, m: &String) -> (r: Option<usize>)
    ensures
        match r {
            Some(i) => first_match(table@, m@, i as int),
            None => no_match(table@, m@),
        },
{
    let mut i: usize = 0;
    while i < table.len()
        invariant
            i <= table@.len(),
            forall|j: int| 0 <= j < i ==> (#[trigger] table@[j]).name@ != m@,
        decreases table@.len() - i,
    {
        if table[i].name == *m {
            return Some(i);
        }
        i = i + 1;
    }
    None
}

/// Classifies a decoded message against the method table: `$/cancelRequest`
/// with an id and `exit` are the framework's own; a method of the table is
/// known when a request carries an id, and its missing parameters are
/// invalid; anything else is passed on as it came.
pub fn classify(table: &Vec<MethodDesc>, msg: Message) -> (r: RequestKind)
    ensures
        exists|i: Option<int>|
            #[trigger] classified(table@, msg, i, r) && match i {
                Some(k) => first_match(table@, msg.method@, k),
                None => no_match(table@, msg.method@),
            },
{
    let ghost m = msg;
    let cancel = "$/cancelRequest".to_string();
    let exit = "exit".to_string();
    let found = lookup(table, &msg.method);
    let ghost gi: Option<int> = match found {
        Some(k) => Some(k as int),
        None => None,
    };
    let Message { id, method, params } = msg;
    let other_params = match &params {
        Some(Params::Valid(p)) => Some(p.clone()),
        _ => None,
    };
    let r = if method == cancel {
        match id {
            Some(x) => RequestKind::Known(ServerMethod::CancelRequest { id: x }),
            None => RequestKind::Other { id: None, method, params: other_params },
        }
    } else if method == exit {
        RequestKind::Known(ServerMethod::Exit)
    } else {
        match found {
            Some(k) => {
                let has_result = table[k].has_result;
                let has_params = table[k].has_params;
                if has_result && id.is_none() {
                    RequestKind::Other { id, method, params: other_params }
                } else {
                    let id = if has_result {
                        id
                    } else {
                        None
                    };
                    let params = if !has_params {
                        None
                    } else {
                        match params {
                            Some(p) => Some(p),
                            None => Some(Params::Invalid("Missing params field".to_string())),
                        }
                    };
                    RequestKind::Known(ServerMethod::Call { index: k, id, params })
                }
            },
            None => RequestKind::Other { id, method, params: other_params },
        }
    };
    assert(classified(table@, m, gi, r));
    r
}

/// The dispatching side of a server: its method table, its lifecycle state
/// and the requests in flight.
pub struct Router {
    pub table: Vec<MethodDesc>,
    pub state: StateKind,
    pub pending: PendingRequests,
}

/// Whether `resp` answers `id` with an error of code `code`.
pub open spec fn error_reply(resp: Response, id: IdView, code: ErrorCode) -> bool {
    resp.id@ == id && resp.outcome is Error && resp.outcome->Error_0.code == code
}

/// Whether `a` sends an error with code `code` to `id`.
pub open spec fn responds_error(a: Action, id: IdView, code: ErrorCode) -> bool {
    a matches Action::Respond(resp) && error_reply(resp, id, code)
}

/// Whether `n` has the state and registry of `o`.
pub open spec fn unchanged(o: Router, n: Router) -> bool {
    n.state == o.state && n.pending@ == o.pending@ && n.pending.next_ticket()
        == o.pending.next_ticket()
}

/// Whether `n` registered `id` under the next ticket of `o`, and `replaced`
/// answers an earlier request with that id exactly when there was one.
pub open spec fn registered(o: Router, n: Router, id: IdView, ticket: u64, replaced: Option<Response>) -> bool {
    &&& ticket as nat == o.pending.next_ticket()
    &&& n.pending.next_ticket() == o.pending.next_ticket() + 1
    &&& n.pending@ == register(o.pending@, ticket, id)
    &&& (replaced is Some <==> settle_by_id(o.pending@, id).1)
    &&& (replaced matches Some(c) ==> error_reply(c, id, ErrorCode::RequestCancelled))
}

/// What a message that the state does not admit gets: a request an error
/// (`server_not_initialized` before `initialize`, `invalid_request` after),
/// a notification nothing.
pub open spec fn refused(o: Router, id: Option<Id>, n: Router, a: Action) -> bool {
    unchanged(o, n) && match id {
        None => a is Nothing,
        Some(x) => if o.state == StateKind::Uninitialized {
            responds_error(a, x@, ErrorCode::ServerNotInitialized)
        } else {
            responds_error(a, x@, ErrorCode::InvalidRequest)
        },
    }
}

/// Whether the call of entry `d` is the `initialize` request.
pub open spec fn is_initialize(d: MethodDesc) -> bool {
    d.name@ == initialize_name() && d.has_result && d.has_params
}

/// Whether the call of entry `d` is the `shutdown` request.
pub open spec fn is_shutdown(d: MethodDesc) -> bool {
    d.name@ == shutdown_name() && d.has_result && !d.has_params
}

/// Whether a `Call` fits its entry `d`: an id exactly for requests,
/// parameters exactly for methods that take them.
pub open spec fn call_fits(d: MethodDesc, id: Option<Id>, params: Option<Params>) -> bool {
    (id is Some <==> d.has_result) && (params is Some <==> d.has_params)
}

/// Whether `kind` fits the table: a call names an entry and fits it.
pub open spec fn fits_table(table: Seq<MethodDesc>, kind: RequestKind) -> bool {
    kind matches RequestKind::Known(ServerMethod::Call { index, id, params }) ==> index
        < table.len() && call_fits(table[index as int], id, params)
}

/// The dispatch policy for a call of entry `index`.
pub open spec fn routed_call(o: Router, index: usize, id: Option<Id>, params: Option<Params>, n: Router, a: Action) -> bool {
    let d = o.table@[index as int];
    let st = o.state;
    if is_initialize(d) && st == StateKind::Uninitialized {
        match params {
            Some(Params::Valid(p)) => {
                &&& n.state == StateKind::Initializing
                &&& n.pending@ == o.pending@
                &&& n.pending.next_ticket() == o.pending.next_ticket()
                &&& (a matches Action::Initialize { index: i, id: x, params: q } && i == index && (
                id matches Some(y) && x@ == y@) && q@ == p@)
            },
            Some(Params::Invalid(e)) => {
                &&& unchanged(o, n)
                &&& (id matches Some(y) && responds_error(a, y@, ErrorCode::InvalidParams))
                &&& a->Respond_0.outcome->Error_0.message@ == e@
            },
            None => false,
        }
    } else if is_initialize(d) && st == StateKind::Initializing {
        &&& unchanged(o, n)
        &&& (id matches Some(y) && responds_error(a, y@, ErrorCode::InvalidRequest))
    } else if is_initialize(d) || st != StateKind::Initialized {
        refused(o, id, n, a)
    } else if d.has_result {
        match params {
            Some(Params::Invalid(e)) => {
                &&& unchanged(o, n)
                &&& (id matches Some(y) && responds_error(a, y@, ErrorCode::InvalidParams))
                &&& a->Respond_0.outcome->Error_0.message@ == e@
            },
            _ => {
                &&& n.state == (if is_shutdown(d) {
                    StateKind::ShutDown
                } else {
                    st
                })
                &&& (a matches Action::Run { index: i, ticket, params: q, replaced } && i == index
                    && (id matches Some(y) && registered(o, n, y@, ticket, replaced))
                    && match params {
                    Some(Params::Valid(p)) => (q matches Some(t) && t@ == p@),
                    _ => q is None,
                })
            },
        }
    } else {
        &&& unchanged(o, n)
        &&& match params {
            Some(Params::Invalid(_)) => a is Nothing,
            Some(Params::Valid(p)) => (a matches Action::Notify { index: i, params: Some(q) } && i
                == index && q@ == p@),
            None => (a matches Action::Notify { index: i, params: None } && i == index),
        }
    }
}

/// The dispatch policy: what `o` does with `kind`, giving `n` and `a`.
pub open spec fn dispatched(o: Router, kind: RequestKind, n: Router, a: Action) -> bool {
    &&& n.table == o.table
    &&& match kind {
        RequestKind::Other { id: Some(x), method, params } => {
            &&& n.state == o.state
            &&& (a matches Action::RunOther { method: m, ticket, params: q, replaced } && m@
                == method@ && q == params && registered(o, n, x@, ticket, replaced))
        },
        RequestKind::Other { id: None, .. } => unchanged(o, n) && a is Nothing,
        RequestKind::Known(ServerMethod::Exit) => {
            &&& n.state == StateKind::Exited
            &&& n.pending@ == Seq::<crate::pending::EntryView>::empty()
            &&& a is Nothing
        },
        RequestKind::Known(ServerMethod::CancelRequest { id }) => if o.state
            == StateKind::Initialized {
            &&& n.state == o.state
            &&& n.pending@ == settle_by_id(o.pending@, id@).0
            &&& n.pending.next_ticket() == o.pending.next_ticket()
            &&& (a matches Action::Cancelled(c) && (c is Some <==> settle_by_id(o.pending@, id@).1)
                && (c matches Some(resp) ==> error_reply(resp, id@, ErrorCode::RequestCancelled)))
        } else {
            unchanged(o, n) && a is Nothing
        },
        RequestKind::Known(ServerMethod::Call { index, id, params }) => routed_call(
            o,
            index,
            id,
            params,
            n,
            a,
        ),
    }
}

/// What `o` does with the decoded message `msg`: after `exit` nothing;
/// before, it classifies `msg` against the table and dispatches it.
pub open spec fn handled(o: Router, msg: Message, n: Router, a: Action) -> bool {
    if o.state == StateKind::Exited {
        n.table == o.table && unchanged(o, n) && a is Nothing
    } else {
        exists|kind: RequestKind, i: Option<int>|
            #[trigger] classified(o.table@, msg, i, kind) && match i {
                Some(k) => first_match(o.table@, msg.method@, k),
                None => no_match(o.table@, msg.method@),
            } && dispatched(o, kind, n, a)
    }
}

/// What the `initialize` handler's outcome gives: unless the server exited
/// meanwhile, the state becomes `Initialized` on success and returns to
/// `Uninitialized` on failure, and `id` is answered with the outcome.
pub open spec fn initialize_finished(o: Router, id: IdView, outcome: Outcome, n: Router, r: Option<Response>) -> bool {
    &&& n.table == o.table
    &&& n.pending@ == o.pending@
    &&& n.pending.next_ticket() == o.pending.next_ticket()
    &&& if o.state == StateKind::Exited {
        n.state == o.state && r is None
    } else {
        &&& n.state == (match outcome {
            Outcome::Result(_) => StateKind::Initialized,
            Outcome::Error(_) => StateKind::Uninitialized,
        })
        &&& (r matches Some(resp) && resp.id@ == id && resp.outcome == outcome)
    }
}

/// What a handler's outcome gives: the response while its entry stands.
pub open spec fn handler_finished(o: Router, t: u64, outcome: Outcome, n: Router, r: Option<Response>) -> bool {
    &&& n.table == o.table
    &&& n.state == o.state
    &&& n.pending@ == settle_by_ticket(o.pending@, t).0
    &&& n.pending.next_ticket() == o.pending.next_ticket()
    &&& match settle_by_ticket(o.pending@, t).1 {
        Some(i) => (r matches Some(resp) && resp.id@ == i && resp.outcome == outcome),
        None => r is None,
    }
}

impl Router {
    /// A router for `table`, before `initialize`, with nothing in flight.
    pub fn new(table: Vec<MethodDesc>) -> (r: Router)
        ensures
            r.table == table,
            r.state == StateKind::Uninitialized,
            r.pending.wf(),
            r.pending@ == Seq::<crate::pending::EntryView>::empty(),
            r.pending.next_ticket() == 0,
    {
        Router { table, state: StateKind::Uninitialized, pending: PendingRequests::new() }
    }

    fn refuse(&self, id: Option<Id>) -> (a: Action)
        ensures
            refused(*self, id, *self, a),
    {
        match id {
            None => Action::Nothing,
            Some(x) => {
                if self.state == StateKind::Uninitialized {
                    Action::Respond(Response::error(Some(x), Error::server_not_initialized()))
                } else {
                    Action::Respond(Response::error(Some(x), Error::invalid_request()))
                }
            },
        }
    }

    fn start(&mut self, id: Id, index: usize, params: Option<String>) -> (a: Action)
        requires
            old(self).pending.wf(),
            old(self).pending.next_ticket() < u64::MAX,
        ensures
            final(self).pending.wf(),
            final(self).table == old(self).table,
            final(self).state == old(self).state,
            a matches Action::Run { index: i, ticket, params: q, replaced } && i == index && q
                == params && registered(*old(self), *final(self), id@, ticket, replaced),
    {
        let ghost idv = id@;
        let reg = self.pending.execute(id);
        Action::Run { index, ticket: reg.ticket, params, replaced: reg.cancelled }
    }

    fn route_call(&mut self, index: usize, id: Option<Id>, params: Option<Params>) -> (a: Action)
        requires
            old(self).pending.wf(),
            old(self).pending.next_ticket() < u64::MAX,
            index < old(self).table@.len(),
            call_fits(old(self).table@[index as int], id, params),
        ensures
            final(self).pending.wf(),
            final(self).table == old(self).table,
            routed_call(*old(self), index, id, params, *final(self), a),
    {
        let initialize = "initialize".to_string();
        let shutdown = "shutdown".to_string();
        let has_result = self.table[index].has_result;
        let has_params = self.table[index].has_params;
        let is_init = has_result && has_params && self.table[index].name == initialize;
        let is_shut = has_result && !has_params && self.table[index].name == shutdown;
        if is_init && self.state == StateKind::Uninitialized {
            match (id, params) {
                (Some(x), Some(Params::Valid(p))) => {
                    self.state = StateKind::Initializing;
                    Action::Initialize { index, id: x, params: p }
                },
                (Some(x), Some(Params::Invalid(e))) => {
                    Action::Respond(Response::error(Some(x), Error::invalid_params(e)))
                },
                _ => Action::Nothing,
            }
        } else if is_init && self.state == StateKind::Initializing {
            match id {
                Some(x) => Action::Respond(Response::error(Some(x), Error::invalid_request())),
                None => Action::Nothing,
            }
        } else if is_init || self.state != StateKind::Initialized {
            self.refuse(id)
        } else if has_result {
            match (id, params) {
                (Some(x), Some(Params::Invalid(e))) => {
                    Action::Respond(Response::error(Some(x), Error::invalid_params(e)))
                },
                (Some(x), Some(Params::Valid(p))) => self.start(x, index, Some(p)),
                (Some(x), None) => {
                    if is_shut {
                        self.state = StateKind::ShutDown;
                    }
                    self.start(x, index, None)
                },
                (None, _) => Action::Nothing,
            }
        } else {
            match params {
                Some(Params::Invalid(_)) => Action::Nothing,
                Some(Params::Valid(p)) => Action::Notify { index, params: Some(p) },
                None => Action::Notify { index, params: None },
            }
        }
    }

    /// Dispatches one classified message under the lifecycle state: the
    /// state and registry change as the policy says, and the action tells
    /// what to run or send.
    pub fn dispatch(&mut self, kind: RequestKind) -> (a: Action)
        requires
            old(self).pending.wf(),
            old(self).pending.next_ticket() < u64::MAX,
            fits_table(old(self).table@, kind),
        ensures
            final(self).pending.wf(),
            dispatched(*old(self), kind, *final(self), a),
            allowed_transition(old(self).state, final(self).state),
    {
        match kind {
            RequestKind::Other { id: Some(x), method, params } => {
                let reg = self.pending.execute(x);
                Action::RunOther { method, ticket: reg.ticket, params, replaced: reg.cancelled }
            },
            RequestKind::Other { id: None, .. } => Action::Nothing,
            RequestKind::Known(ServerMethod::Exit) => {
                self.state = StateKind::Exited;
                self.pending.cancel_all();
                Action::Nothing
            },
            RequestKind::Known(ServerMethod::CancelRequest { id }) => {
                if self.state == StateKind::Initialized {
                    Action::Cancelled(self.pending.cancel(&id))
                } else {
                    Action::Nothing
                }
            },
            RequestKind::Known(ServerMethod::Call { index, id, params }) => {
                self.route_call(index, id, params)
            },
        }
    }

    /// Whether messages are still taken: not after `exit`.
    pub fn is_running(&self) -> (r: bool)
        ensures
            r == (self.state != StateKind::Exited),
    {
        self.state != StateKind::Exited
    }

    /// Handles one decoded message: after `exit` it is ignored; before, it
    /// is classified against the table and dispatched.
    pub fn handle(&mut self, msg: Message) -> (a: Action)
        requires
            old(self).pending.wf(),
            old(self).pending.next_ticket() < u64::MAX,
        ensures
            final(self).pending.wf(),
            handled(*old(self), msg, *final(self), a),
            allowed_transition(old(self).state, final(self).state),
    {
        if self.state == StateKind::Exited {
            return Action::Nothing;
        }
        let ghost m = msg;
        let kind = classify(&self.table, msg);
        let ghost k = kind;
        let ghost o = *self;
        assert(fits_table(self.table@, kind));
        let a = self.dispatch(kind);
        assert(exists|i: Option<int>|
            #[trigger] classified(o.table@, m, i, k) && match i {
                Some(j) => first_match(o.table@, m.method@, j),
                None => no_match(o.table@, m.method@),
            });
        a
    }

    /// Hands over the outcome of the `initialize` handler started for `id`.
    pub fn finish_initialize(&mut self, id: Id, outcome: Outcome) -> (r: Option<Response>)
        ensures
            initialize_finished(*old(self), id@, outcome, *final(self), r),
    {
        if self.state == StateKind::Exited {
            return None;
        }
        match &outcome {
            Outcome::Result(_) => {
                self.state = StateKind::Initialized;
            },
            Outcome::Error(_) => {
                self.state = StateKind::Uninitialized;
            },
        }
        Some(Response { outcome, id })
    }

    /// Hands over the outcome of the handler that runs under `ticket`.
    pub fn finish(&mut self, ticket: u64, outcome: Outcome) -> (r: Option<Response>)
        requires
            old(self).pending.wf(),
        ensures
            final(self).pending.wf(),
            handler_finished(*old(self), ticket, outcome, *final(self), r),
    {
        self.pending.finish(ticket, outcome)
    }

    /// The response to a frame that could not be decoded: a parse error
    /// with a null id. The router itself is left as it was, so later frames
    /// are handled as before.
    pub fn decode_failed(&self) -> (r: Response)
        ensures
            r.id@ == IdView::Null,
            r.outcome is Error,
            r.outcome->Error_0.code == ErrorCode::ParseError,
            r.outcome->Error_0.message@ == "Parse error"@,
    {
        Response::error(None, Error::parse_error())
    }
}

/// An `initialize` request taken before initialization is answered exactly
/// once, with its own id: at once when it is refused, or when its handler
/// finishes.
pub proof fn lemma_initialize_answered(
    o: Router,
    msg: Message,
    n: Router,
    a: Action,
    outcome: Outcome,
    n2: Router,
    r: Option<Response>,
)
    requires
        o.state == StateKind::Uninitialized,
        msg.method@ == initialize_name(),
        msg.id is Some,
        forall|k: int| first_match(o.table@, initialize_name(), k) ==> is_initialize(#[trigger] o.table@[k]),
        !no_match(o.table@, initialize_name()),
        handled(o, msg, n, a),
        a is Initialize ==> initialize_finished(n, a->Initialize_id@, outcome, n2, r),
    ensures
        (a matches Action::Respond(resp) && resp.id@ == msg.id->Some_0@) || (a is Initialize && (r matches Some(resp)
            && resp.id@ == msg.id->Some_0@)),
{
    reveal_strlit("initialize");
    reveal_strlit("exit");
    reveal_strlit("$/cancelRequest");
    let (kind, i) = choose|kind: RequestKind, i: Option<int>|
        #[trigger] classified(o.table@, msg, i, kind) && match i {
            Some(k) => first_match(o.table@, msg.method@, k),
            None => no_match(o.table@, msg.method@),
        } && dispatched(o, kind, n, a);
    assert(initialize_name().len() == 10 && cancel_name().len() == 15 && exit_name().len() == 4);
    assert(msg.method@ != cancel_name());
    assert(msg.method@ != exit_name());
    assert(i is Some);
    assert(is_initialize(o.table@[i->Some_0]));
}

/// `$/cancelRequest` is never answered itself: what it may bring out is the
/// `request_cancelled` response of the request it names, and only while that
/// request is in flight.
pub proof fn lemma_cancel_not_answered(o: Router, msg: Message, n: Router, a: Action)
    requires
        msg.method@ == cancel_name(),
        handled(o, msg, n, a),
    ensures
        a is Nothing || (a matches Action::Cancelled(c) && (c matches Some(resp) ==> (msg.id matches Some(x)
            && resp.id@ == x@ && settle_by_id(o.pending@, x@).1 && error_reply(
            resp,
            x@,
            ErrorCode::RequestCancelled,
        )))),
{
    if o.state != StateKind::Exited {
        let (kind, i) = choose|kind: RequestKind, i: Option<int>|
            #[trigger] classified(o.table@, msg, i, kind) && match i {
                Some(k) => first_match(o.table@, msg.method@, k),
                None => no_match(o.table@, msg.method@),
            } && dispatched(o, kind, n, a);
    }
}

/// After `exit` the server is done: the state is `Exited`, no handler that
/// was in flight answers any more, a pending `initialize` gives nothing, and
/// every later message is ignored.
pub proof fn lemma_exit_silences(
    o: Router,
    exit: Message,
    n: Router,
    a: Action,
    ticket: u64,
    outcome: Outcome,
    n2: Router,
    r: Option<Response>,
    id: IdView,
    n3: Router,
    r3: Option<Response>,
    later: Message,
    n4: Router,
    a4: Action,
)
    requires
        o.state != StateKind::Exited,
        exit.method@ == exit_name(),
        handled(o, exit, n, a),
        handler_finished(n, ticket, outcome, n2, r),
        initialize_finished(n, id, outcome, n3, r3),
        handled(n, later, n4, a4),
    ensures
        n.state == StateKind::Exited,
        a is Nothing,
        r is None,
        r3 is None,
        a4 is Nothing,
{
    reveal_strlit("exit");
    reveal_strlit("$/cancelRequest");
    let (kind, i) = choose|kind: RequestKind, i: Option<int>|
        #[trigger] classified(o.table@, exit, i, kind) && match i {
            Some(k) => first_match(o.table@, exit.method@, k),
            None => no_match(o.table@, exit.method@),
        } && dispatched(o, kind, n, a);
    assert(cancel_name().len() == 15 && exit_name().len() == 4);
    assert(exit.method@ != cancel_name());
    assert(!has_ticket(n.pending@, ticket));
}

} // verus!
