use vstd::prelude::*;
use vstd::string::StrSliceExecFns;
use crate::classify::{classification_of, classify, Classification, ErrorKind};
use crate::names::{acquired, distinct_ids, index_in, NameIndex};
use crate::keyed::{distinct_keys, value_for, string_opt_view, KeyedTable};

verus! {

/// The first character of a method name in the protocol's internal namespace.
pub const RESERVED_PREFIX: char = '$';

/// The two shapes of an inbound message.
#[derive(Clone, Copy, Debug, PartialEq, Eq, Structural)]
pub enum MessageKind {
    /// A request that expects exactly one correlated response.
    Call,
    /// A one-way message that never gets a response.
    Notification,
}

/// Where a message goes, as a mathematical value.
pub enum Dispatch {
    Override(Seq<char>),
    Builtin(int),
    AcceptReserved,
    Unhandled,
    Proxy,
}

/// Where a message goes.
#[derive(Clone, Debug)]
pub enum Route {
    /// Forward to the editor procedure registered for the method.
    Override(String),
    /// Run the built-in handler at this position of the kind's table.
    Builtin(usize),
    /// An unknown internal method from a backend: warn, and for a call
    /// answer with a void success.
    AcceptReserved,
    /// An unknown method from a backend: fail with "not handled".
    Unhandled,
    /// A message from the editor with no handler: resolve the backend from
    /// the current document and forward it there.
    Proxy,
}

impl View for Route {
    type V = Dispatch;

    open spec fn view(&self) -> Dispatch {
        match self {
            Route::Override(t) => Dispatch::Override(t@),
            Route::Builtin(i) => Dispatch::Builtin(*i as int),
            Route::AcceptReserved => Dispatch::AcceptReserved,
            Route::Unhandled => Dispatch::Unhandled,
            Route::Proxy => Dispatch::Proxy,
        }
    }
}

pub open spec fn is_reserved(m: Seq<char>) -> bool {
    m.len() > 0 && m[0] == RESERVED_PREFIX
}

/// The routing rule: a dynamic override first, then the built-in table;
/// an unmatched message from a backend is accepted when its name is
/// reserved and refused otherwise; one from the editor is proxied.
pub open spec fn dispatch_of(
    overrides: Seq<(Seq<char>, Seq<char>)>,
    table: Seq<Seq<char>>,
    method: Seq<char>,
    from_backend: bool,
) -> Dispatch {
    match value_for(overrides, method) {
        Some(t) => Dispatch::Override(t),
        None => match index_in(table, method) {
            Some(i) => Dispatch::Builtin(i),
            None => if from_backend {
                if is_reserved(method) {
                    Dispatch::AcceptReserved
                } else {
                    Dispatch::Unhandled
                }
            } else {
                Dispatch::Proxy
            },
        },
    }
}

/// Whether a method name lies in the internal namespace.
pub fn is_reserved_method(method: &String) -> (r: bool)
    ensures
        r == is_reserved(method@),
{
    let s = method.as_str();
    s.unicode_len() > 0 && s.get_char(0) == RESERVED_PREFIX
}

/// Why a message failed.
#[derive(Clone, Debug)]
pub enum Reason {
    /// A backend sent a method that nothing handles.
    NotHandled,
    /// No backend could be found for a message from the editor.
    NoTarget,
    /// A handler or a forwarded request failed with this text.
    Detail(String),
}

/// A failure met while handling a message.
#[derive(Clone, Debug)]
pub struct Failure {
    pub kind: ErrorKind,
    pub reason: Reason,
}

/// The single response to a call.
#[derive(Clone, Debug)]
pub enum Response<P> {
    Data(u64, P),
    Void(u64),
    Error(u64, Failure),
}

impl<P> Response<P> {
    pub open spec fn id(&self) -> u64 {
        match self {
            Response::Data(n, _) => *n,
            Response::Void(n) => *n,
            Response::Error(n, _) => *n,
        }
    }
}

/// What is logged about a message.
#[derive(Clone, Copy, Debug, PartialEq, Eq, Structural)]
pub enum Log {
    Silent,
    Warning,
    Error,
}

/// The observable end of handling one message: its response, present for
/// a call only, and the log entry it leaves.
#[derive(Clone, Debug)]
pub struct Settlement<P> {
    pub response: Option<Response<P>>,
    pub log: Log,
}

/// How an outcome is settled. `id` is the call's correlation id, absent for
/// a notification. An ignorable failure answers a call with a void success;
/// only an unexpected failure is logged.
pub open spec fn settlement_of<P>(id: Option<u64>, outcome: Result<P, Failure>) -> Settlement<P> {
    Settlement {
        response: match id {
            None => None,
            Some(n) => Some(
                match outcome {
                    Ok(p) => Response::Data(n, p),
                    Err(f) => if classification_of(f.kind) == Classification::Ignorable {
                        Response::Void(n)
                    } else {
                        Response::Error(n, f)
                    },
                },
            ),
        },
        log: match outcome {
            Ok(_) => Log::Silent,
            Err(f) => if classification_of(f.kind) == Classification::Unexpected {
                Log::Error
            } else {
                Log::Silent
            },
        },
    }
}

/// An unknown reserved method from a backend: a warning, and a void success
/// for a call.
pub open spec fn reserved_settlement<P>(id: Option<u64>) -> Settlement<P> {
    Settlement {
        response: match id {
            None => None,
            Some(n) => Some(Response::Void(n)),
        },
        log: Log::Warning,
    }
}

pub open spec fn not_handled() -> Failure {
    Failure { kind: ErrorKind::Other, reason: Reason::NotHandled }
}

pub open spec fn no_target() -> Failure {
    Failure { kind: ErrorKind::Other, reason: Reason::NoTarget }
}

/// Settles the outcome of handling a message; a call gets exactly one
/// response, a notification none.
pub fn settle<P>(id: Option<u64>, outcome: Result<P, Failure>) -> (r: Settlement<P>)
    ensures
        r == settlement_of(id, outcome),
{
    match outcome {
        Ok(p) => Settlement {
            response: match id {
                None => None,
                Some(n) => Some(Response::Data(n, p)),
            },
            log: Log::Silent,
        },
        Err(f) => {
            let class = classify(&f.kind);
            let log = match class {
                Classification::Unexpected => Log::Error,
                _ => Log::Silent,
            };
            let response = match id {
                None => None,
                Some(n) => match class {
                    Classification::Ignorable => Some(Response::Void(n)),
                    _ => Some(Response::Error(n, f)),
                },
            };
            Settlement { response, log }
        },
    }
}

/// Settles a message from a backend that no handler matched.
pub fn settle_unmatched<P>(id: Option<u64>, method: &String) -> (r: Settlement<P>)
    ensures
        r == if is_reserved(method@) {
            reserved_settlement::<P>(id)
        } else {
            settlement_of::<P>(id, Err(not_handled()))
        },
{
    if is_reserved_method(method) {
        Settlement {
            response: match id {
                None => None,
                Some(n) => Some(Response::Void(n)),
            },
            log: Log::Warning,
        }
    } else {
        settle(id, Err(Failure { kind: ErrorKind::Other, reason: Reason::NotHandled }))
    }
}

/// The backend a message from the editor goes to, from the language id
/// that the current document maps to (absent when the parameters name no
/// document or its file type has no backend).
pub fn proxy_target(language: Option<String>) -> (r: Result<String, Failure>)
    ensures
        match language {
            Some(l) => r == Ok::<String, Failure>(l),
            None => r == Err::<String, Failure>(no_target()),
        },
{
    match language {
        Some(l) => Ok(l),
        None => Err(Failure { kind: ErrorKind::Other, reason: Reason::NoTarget }),
    }
}

/// The routing tables: dynamic overrides above the built-in handler tables
/// for calls and for notifications.
pub struct Router {
    overrides: KeyedTable,
    calls: NameIndex,
    notifications: NameIndex,
}

impl Router {
    pub closed spec fn overrides_view(&self) -> Seq<(Seq<char>, Seq<char>)> {
        self.overrides@
    }

    pub closed spec fn calls_view(&self) -> Seq<Seq<char>> {
        self.calls@
    }

    pub closed spec fn notifications_view(&self) -> Seq<Seq<char>> {
        self.notifications@
    }

    /// The built-in table for messages of `kind`.
    pub open spec fn table(&self, kind: MessageKind) -> Seq<Seq<char>> {
        match kind {
            MessageKind::Call => self.calls_view(),
            MessageKind::Notification => self.notifications_view(),
        }
    }

    pub open spec fn wf(&self) -> bool {
        &&& distinct_keys(self.overrides_view())
        &&& distinct_ids(self.calls_view())
        &&& distinct_ids(self.notifications_view())
    }

    pub fn new() -> (r: Self)
        ensures
            r.wf(),
            r.calls_view() == Seq::<Seq<char>>::empty(),
            r.notifications_view() == Seq::<Seq<char>>::empty(),
            forall|m: Seq<char>| value_for(r.overrides_view(), m) == None::<Seq<char>>,
    {
        Router { overrides: KeyedTable::new(), calls: NameIndex::new(), notifications: NameIndex::new() }
    }

    /// Adds a built-in handler for `method` to the table of `kind` and
    /// returns its position; a name already there keeps its position.
    pub fn add_handler(&mut self, kind: MessageKind, method: &String) -> (h: usize)
        requires
            old(self).wf(),
            old(self).table(kind).len() < usize::MAX,
        ensures
            final(self).wf(),
            acquired(old(self).table(kind), method@, final(self).table(kind), h as int),
            final(self).overrides_view() == old(self).overrides_view(),
            kind == MessageKind::Call ==> final(self).notifications_view() == old(self).notifications_view(),
            kind == MessageKind::Notification ==> final(self).calls_view() == old(self).calls_view(),
    {
        match kind {
            MessageKind::Call => self.calls.intern(method),
            MessageKind::Notification => self.notifications.intern(method),
        }
    }

    /// Redirects `method`, for calls and notifications alike, to the editor
    /// procedure `target`.
    pub fn register_override(&mut self, method: String, target: String)
        requires
            old(self).wf(),
        ensures
            final(self).wf(),
            forall|m: Seq<char>|
                #![trigger value_for(final(self).overrides_view(), m)]
                value_for(final(self).overrides_view(), m) == if m == method@ {
                    Some(target@)
                } else {
                    value_for(old(self).overrides_view(), m)
                },
            final(self).calls_view() == old(self).calls_view(),
            final(self).notifications_view() == old(self).notifications_view(),
    {
        self.overrides.insert(method, target);
    }

    /// The editor procedure registered for `method`.
    pub fn override_for(&self, method: &String) -> (r: Option<String>)
        requires
            self.wf(),
        ensures
            string_opt_view(r) == value_for(self.overrides_view(), method@),
    {
        self.overrides.lookup(method)
    }

    /// Decides where a message goes. `source` is the language id of the
    /// backend that sent it, absent when it came from the editor.
    pub fn route(&self, kind: MessageKind, method: &String, source: &Option<String>) -> (r: Route)
        requires
            self.wf(),
        ensures
            r@ == dispatch_of(self.overrides_view(), self.table(kind), method@, source.is_some()),
    {
        if let Some(t) = self.overrides.lookup(method) {
            return Route::Override(t);
        }
        let found = match kind {
            MessageKind::Call => self.calls.find(method),
            MessageKind::Notification => self.notifications.find(method),
        };
        match found {
            Some(i) => Route::Builtin(i),
            None => if source.is_some() {
                if is_reserved_method(method) {
                    Route::AcceptReserved
                } else {
                    Route::Unhandled
                }
            } else {
                Route::Proxy
            },
        }
    }
}

/// Every call gets exactly one response, carrying its own correlation id,
/// whatever the outcome; an ignorable failure gives a void success.
pub proof fn lemma_call_answered_once<P>(id: u64, outcome: Result<P, Failure>)
    ensures
        settlement_of(Some(id), outcome).response matches Some(r) && r.id() == id,
        reserved_settlement::<P>(Some(id)).response matches Some(r) && r.id() == id,
        outcome matches Err(f) && classification_of(f.kind) == Classification::Ignorable
            ==> settlement_of(Some(id), outcome).response == Some(Response::<P>::Void(id)),
        forall|f: Failure|
            outcome == Err::<P, Failure>(f) && classification_of(f.kind) != Classification::Ignorable
                ==> settlement_of(Some(id), outcome).response == Some(Response::<P>::Error(id, f)),
{
}

/// A notification never gets a response, whatever the outcome.
pub proof fn lemma_notification_unanswered<P>(outcome: Result<P, Failure>)
    ensures
        settlement_of(None, outcome).response is None,
        reserved_settlement::<P>(None).response is None,
{
}

/// An unmatched reserved method from a backend is accepted: a call gets a
/// void success, a notification is dropped, and only a warning is logged.
pub proof fn lemma_reserved_from_backend<P>(
    overrides: Seq<(Seq<char>, Seq<char>)>,
    table: Seq<Seq<char>>,
    method: Seq<char>,
    id: u64,
)
    requires
        value_for(overrides, method) is None,
        index_in(table, method) is None,
        is_reserved(method),
    ensures
        dispatch_of(overrides, table, method, true) == Dispatch::AcceptReserved,
        reserved_settlement::<P>(Some(id)) == (Settlement::<P> { response: Some(Response::Void(id)), log: Log::Warning }),
        reserved_settlement::<P>(None) == (Settlement::<P> { response: None, log: Log::Warning }),
{
}

/// An unmatched call from the editor is proxied; when no backend can be
/// resolved it is answered with an unexpected error, which is logged.
pub proof fn lemma_unresolved_editor_call<P>(
    overrides: Seq<(Seq<char>, Seq<char>)>,
    table: Seq<Seq<char>>,
    method: Seq<char>,
    id: u64,
)
    requires
        value_for(overrides, method) is None,
        index_in(table, method) is None,
    ensures
        dispatch_of(overrides, table, method, false) == Dispatch::Proxy,
        classification_of(no_target().kind) == Classification::Unexpected,
        settlement_of::<P>(Some(id), Err(no_target()))
            == (Settlement::<P> { response: Some(Response::Error(id, no_target())), log: Log::Error }),
{
}

/// A registered override wins over any built-in handler, for calls and
/// notifications alike, whoever sent the message.
pub proof fn lemma_override_priority(
    overrides: Seq<(Seq<char>, Seq<char>)>,
    calls: Seq<Seq<char>>,
    notifications: Seq<Seq<char>>,
    method: Seq<char>,
    target: Seq<char>,
    from_backend: bool,
)
    requires
        value_for(overrides, method) == Some(target),
    ensures
        dispatch_of(overrides, calls, method, from_backend) == Dispatch::Override(target),
        dispatch_of(overrides, notifications, method, from_backend) == Dispatch::Override(target),
{
}

} // verus!
