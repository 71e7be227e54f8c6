//! The command host: a registry of named operations and the dispatch of
//! invocation requests to their handlers.

use vstd::prelude::*;
use vstd::string::{StrSliceExecFns, StringExecFns};
use crate::commands::{greet, greeting, python_ack, test_python_connection};

verus! {

/// A handler implementing one operation's logic. The set of handlers is
/// fixed: the host registers names for these and nothing else.
#[derive(Clone, Copy, PartialEq, Eq, Structural, Debug)]
pub enum Handler {
    /// Formats the fixed greeting around the request's `name` argument.
    Greet,
    /// Returns the fixed backend acknowledgement; takes no argument.
    TestPythonConnection,
}

/// Why an invocation failed. Handlers themselves are total; only the host's
/// own checks can fail a request.
#[derive(Clone, Copy, PartialEq, Eq, Structural, Debug)]
pub enum HostError {
    /// The request named an operation that is not in the registry.
    UnknownOperation,
    /// The operation needs a `name` argument and the request carried none.
    MissingArgument,
}

/// What a handler returns for a request's argument, as text: `Greet` needs
/// the argument and greets it; `TestPythonConnection` ignores it.
pub open spec fn handler_outcome(h: Handler, name: Option<Seq<char>>) -> Result<
    Seq<char>,
    HostError,
> {
    match h {
        Handler::Greet => match name {
            Option::Some(s) => Result::Ok(greeting(s)),
            Option::None => Result::Err(HostError::MissingArgument),
        },
        Handler::TestPythonConnection => Result::Ok(python_ack()),
    }
}

/// The text of an optional request argument.
pub open spec fn arg_view(name: Option<&str>) -> Option<Seq<char>> {
    match name {
        Option::Some(s) => Option::Some(s@),
        Option::None => Option::None,
    }
}

/// A dispatch result with its payload read as text.
pub open spec fn outcome_view(r: Result<String, HostError>) -> Result<Seq<char>, HostError> {
    match r {
        Result::Ok(s) => Result::Ok(s@),
        Result::Err(e) => Result::Err(e),
    }
}

/// The command host: created once at process start, it holds the registry
/// of operation names and serves lookups for the lifetime of the process.
pub struct CommandHost {
    entries: Vec<(String, Handler)>,
}

impl CommandHost {
    /// The registry as a sequence of (operation name, handler) pairs, in
    /// registration order.
    pub closed spec fn ops(&self) -> Seq<(Seq<char>, Handler)> {
        self.entries@.map(|i: int, e: (String, Handler)| (e.0@, e.1))
    }

    /// Registry invariant: each operation name is registered at most once.
    pub open spec fn wf(&self) -> bool {
        forall|i: int, j: int|
            0 <= i < j < self.ops().len() ==> (#[trigger] self.ops()[i]).0 != (
            #[trigger] self.ops()[j]).0
    }

    /// Whether some handler is registered under `op`.
    pub open spec fn registered(&self, op: Seq<char>) -> bool {
        exists|i: int| 0 <= i < self.ops().len() && (#[trigger] self.ops()[i]).0 == op
    }

    /// The position of `op` in the registry; meaningful when `op` is
    /// registered, and unique when the host is well formed.
    pub open spec fn index_of(&self, op: Seq<char>) -> int {
        choose|i: int| 0 <= i < self.ops().len() && (#[trigger] self.ops()[i]).0 == op
    }

    /// The handler registered under `op`.
    pub open spec fn handler_of(&self, op: Seq<char>) -> Handler {
        self.ops()[self.index_of(op)].1
    }

    /// The outcome a request gets, as text: the registered handler's outcome
    /// when `op` is registered, and `UnknownOperation` when it is not.
    pub open spec fn outcome_of(&self, op: Seq<char>, name: Option<Seq<char>>) -> Result<
        Seq<char>,
        HostError,
    > {
        if self.registered(op) {
            handler_outcome(self.handler_of(op), name)
        } else {
            Result::Err(HostError::UnknownOperation)
        }
    }

    /// An empty host: nothing registered yet.
    pub fn new() -> (h: CommandHost)
        ensures
            h.wf(),
            h.ops() == Seq::<(Seq<char>, Handler)>::empty(),
    {
        let h = CommandHost { entries: Vec::new() };
        proof {
            assert(h.ops() =~= Seq::<(Seq<char>, Handler)>::empty());
        }
        h
    }

    /// Whether `op` names a registered operation.
    pub fn is_registered(&self, op: &str) -> (r: bool)
        ensures
            r == self.registered(op@),
    {
        let n = self.entries.len();
        let mut i: usize = 0;
        while i < n
            invariant
                n == self.entries.len(),
                i <= n,
                forall|j: int| 0 <= j < i ==> (#[trigger] self.ops()[j]).0 != op@,
            decreases n - i,
        {
            if str_eq(self.entries[i].0.as_str(), op) {
                proof {
                    assert((self.ops()[i as int]).0 == op@);
                }
                return true;
            }
            i = i + 1;
        }
        false
    }

    /// Associate `op` with `h`. The name must not already be registered:
    /// operation names are unique within the registry. The only observable
    /// effect is the registry growing by this one entry.
    pub fn register(&mut self, op: String, h: Handler)
        requires
            old(self).wf(),
            !old(self).registered(op@),
        ensures
            final(self).wf(),
            final(self).ops() == old(self).ops().push((op@, h)),
    {
        let ghost before = self.ops();
        self.entries.push((op, h));
        proof {
            assert(self.ops() =~= before.push((op@, h)));
            assert forall|i: int, j: int|
                0 <= i < j < self.ops().len() implies (#[trigger] self.ops()[i]).0 != (
            #[trigger] self.ops()[j]).0 by {
                if j < before.len() {
                    assert((old(self).ops()[i]).0 != (old(self).ops()[j]).0);
                } else {
                    assert((old(self).ops()[i]).0 != op@);
                }
            }
        }
    }

    /// The host as created at startup, with the two built-in operations
    /// registered: `greet` and `test_python_connection`.
    pub fn with_builtin_commands() -> (h: CommandHost)
        ensures
            h.wf(),
            h.ops().len() == 2,
            h.ops()[0] == ("greet"@, Handler::Greet),
            h.ops()[1] == ("test_python_connection"@, Handler::TestPythonConnection),
            h.registered("greet"@) && h.handler_of("greet"@) == Handler::Greet,
            h.registered("test_python_connection"@) && h.handler_of("test_python_connection"@)
                == Handler::TestPythonConnection,
    {
        let mut h = CommandHost::new();
        h.register(String::from_str("greet"), Handler::Greet);
        proof {
            reveal_strlit("greet");
            reveal_strlit("test_python_connection");
            assert(h.ops().len() == 1);
            assert((h.ops()[0]).0 == "greet"@);
            assert("greet"@.len() != "test_python_connection"@.len());
            assert(!h.registered("test_python_connection"@));
        }
        h.register(String::from_str("test_python_connection"), Handler::TestPythonConnection);
        proof {
            assert((h.ops()[0]).0 == "greet"@);
            assert((h.ops()[1]).0 == "test_python_connection"@);
            assert(h.registered("greet"@));
            assert(h.registered("test_python_connection"@));
            let kg = h.index_of("greet"@);
            assert(0 <= kg < 2 && (h.ops()[kg]).0 == "greet"@);
            assert(kg == 0);
            let kt = h.index_of("test_python_connection"@);
            assert(0 <= kt < 2 && (h.ops()[kt]).0 == "test_python_connection"@);
            assert(kt == 1);
        }
        h
    }

    /// Look up `op` and run its handler on the request's optional `name`
    /// argument. A registered operation gets exactly its handler's outcome;
    /// an unregistered name gets `UnknownOperation` back, never a crash.
    pub fn dispatch(&self, op: &str, name: Option<&str>) -> (r: Result<String, HostError>)
        requires
            self.wf(),
        ensures
            outcome_view(r) == self.outcome_of(op@, arg_view(name)),
            !self.registered(op@) ==> r == Result::<String, HostError>::Err(
                HostError::UnknownOperation,
            ),
    {
        let n = self.entries.len();
        let mut i: usize = 0;
        while i < n
            invariant
                self.wf(),
                n == self.entries.len(),
                i <= n,
                forall|j: int| 0 <= j < i ==> (#[trigger] self.ops()[j]).0 != op@,
            decreases n - i,
        {
            if str_eq(self.entries[i].0.as_str(), op) {
                proof {
                    assert((self.ops()[i as int]).0 == op@);
                    assert(self.registered(op@));
                    let k = self.index_of(op@);
                    assert(0 <= k < self.ops().len() && (self.ops()[k]).0 == op@);
                    assert(k == i as int);
                }
                let found = self.entries[i].1;
                return match found {
                    Handler::Greet => match name {
                        Option::Some(s) => Result::Ok(greet(s)),
                        Option::None => Result::Err(HostError::MissingArgument),
                    },
                    Handler::TestPythonConnection => Result::Ok(test_python_connection()),
                };
            }
            i = i + 1;
        }
        Result::Err(HostError::UnknownOperation)
    }
}

/// Dispatch is pure and idempotent: a request's outcome is a function of the
/// registry and the request alone. Two well-formed hosts with the same
/// registry — in particular the same host before and after any number of
/// calls, since `dispatch` takes the host immutably — give the same request
/// the same outcome.
pub proof fn lemma_dispatch_deterministic(
    h1: &CommandHost,
    h2: &CommandHost,
    op: Seq<char>,
    name: Option<Seq<char>>,
)
    requires
        h1.wf(),
        h1.ops() == h2.ops(),
    ensures
        h1.outcome_of(op, name) == h2.outcome_of(op, name),
{
    if h1.registered(op) {
        let i = choose|i: int| 0 <= i < h1.ops().len() && (#[trigger] h1.ops()[i]).0 == op;
        assert(0 <= i < h2.ops().len() && (h2.ops()[i]).0 == op);
        assert(h2.registered(op));
    }
    if h2.registered(op) {
        let i = choose|i: int| 0 <= i < h2.ops().len() && (#[trigger] h2.ops()[i]).0 == op;
        assert(0 <= i < h1.ops().len() && (h1.ops()[i]).0 == op);
        assert(h1.registered(op));
    }
    if h1.registered(op) {
        let k1 = h1.index_of(op);
        let k2 = h2.index_of(op);
        assert(0 <= k1 < h1.ops().len() && (h1.ops()[k1]).0 == op);
        assert(0 <= k2 < h2.ops().len() && (h2.ops()[k2]).0 == op);
        if k1 < k2 {
            assert((h1.ops()[k1]).0 != (h1.ops()[k2]).0);
        }
        if k2 < k1 {
            assert((h1.ops()[k2]).0 != (h1.ops()[k1]).0);
        }
        assert(h1.handler_of(op) == h2.handler_of(op));
    }
}

/// `test_python_connection`'s outcome is the fixed acknowledgement whatever
/// argument the request carried and whatever happened before: its handler
/// ignores the argument and reads no state.
pub proof fn lemma_test_python_connection_constant(name: Option<Seq<char>>)
    ensures
        handler_outcome(Handler::TestPythonConnection, name) == Result::<
            Seq<char>,
            HostError,
        >::Ok(python_ack()),
{
}

/// Character-for-character string equality.
fn str_eq(a: &str, b: &str) -> (r: bool)
    ensures
        r == (a@ == b@),
{
    let alen = a.unicode_len();
    let blen = b.unicode_len();
    if alen != blen {
        return false;
    }
    let mut i: usize = 0;
    while i < alen
        invariant
            alen == a@.len(),
            blen == b@.len(),
            alen == blen,
            i <= alen,
            forall|j: int| 0 <= j < i ==> a@[j] == b@[j],
        decreases alen - i,
    {
        if a.get_char(i) != b.get_char(i) {
            return false;
        }
        i = i + 1;
    }
    proof {
        assert(a@ =~= b@);
    }
    true
}

} // verus!
