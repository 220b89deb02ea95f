use vstd::prelude::*;
use vstd::string::*;

use crate::text::same_text;
use crate::types::{Call, Denied, IntoText, Layer, Outcome};

verus! {

/// The refusal reason for a call the allowlist does not name.
pub open spec fn not_allowed_message(call: Call<'_>) -> Seq<char> {
    call.direction.label() + " "@ + (match call.interface {
        Some(interface) => interface@ + "."@,
        None => Seq::<char>::empty(),
    }) + call.function@ + " is not allowed"@
}

/// Allows only named component calls through a middleware chain.
///
/// Entries are fixed when the chain is built. Use
/// [`allow_interface`](Self::allow_interface) for every function in one
/// interface, or [`allow_function`](Self::allow_function) for one root or
/// interface function.
pub struct Allowlist {
    interfaces: Vec<String>,
    functions: Vec<(Option<String>, String)>,
}

impl Allowlist {
    /// Interfaces whose every function is allowed.
    pub closed spec fn interfaces(&self) -> Set<Seq<char>> {
        Set::new(|name: Seq<char>| exists|i: int| 0 <= i < self.interfaces@.len() && self.interfaces@[i]@ == name)
    }

    /// Functions allowed one by one, with `None` for a root function.
    pub closed spec fn functions(&self) -> Set<(Option<Seq<char>>, Seq<char>)> {
        Set::new(|entry: (Option<Seq<char>>, Seq<char>)| exists|i: int| 0 <= i < self.functions@.len()
            && option_view(self.functions@[i].0) == entry.0 && self.functions@[i].1@ == entry.1)
    }

    /// Whether the allowlist names `call`, by its interface or by itself.
    pub open spec fn allows(&self, call: Call<'_>) -> bool {
        (call.interface matches Some(interface) && self.interfaces().contains(interface@))
            || self.functions().contains((call.interface_view(), call.function@))
    }

    /// Creates an empty allowlist that refuses every call.
    pub fn new() -> (allowlist: Allowlist)
        ensures
            allowlist.interfaces() == Set::<Seq<char>>::empty(),
            allowlist.functions() == Set::<(Option<Seq<char>>, Seq<char>)>::empty(),
    {
        let allowlist = Allowlist { interfaces: Vec::new(), functions: Vec::new() };
        proof {
            assert(allowlist.interfaces() =~= Set::<Seq<char>>::empty());
            assert(allowlist.functions() =~= Set::<(Option<Seq<char>>, Seq<char>)>::empty());
        }
        allowlist
    }

    /// Allows every function in `interface`.
    pub fn allow_interface<I: IntoText>(self, interface: I) -> (allowlist: Allowlist)
        ensures
            allowlist.interfaces() == self.interfaces().insert(interface.text_view()),
            allowlist.functions() == self.functions(),
    {
        let ghost name = interface.text_view();
        let mut interfaces = self.interfaces;
        interfaces.push(interface.into_text());
        let allowlist = Allowlist { interfaces, functions: self.functions };
        proof {
            assert forall|n: Seq<char>| allowlist.interfaces().contains(n) <==> self.interfaces().insert(name).contains(n) by {
                if self.interfaces().contains(n) {
                    let i = choose|i: int| 0 <= i < self.interfaces@.len() && self.interfaces@[i]@ == n;
                    assert(allowlist.interfaces@[i]@ == n);
                }
                if n == name {
                    assert(allowlist.interfaces@[self.interfaces@.len() as int]@ == n);
                }
            }
            assert(allowlist.interfaces() =~= self.interfaces().insert(name));
            assert(allowlist.functions() =~= self.functions());
        }
        allowlist
    }

    /// Allows one function, using `None` for a root function.
    pub fn allow_function<F: IntoText>(self, interface: Option<&str>, function: F) -> (allowlist: Allowlist)
        ensures
            allowlist.interfaces() == self.interfaces(),
            allowlist.functions() == self.functions().insert((option_str_view(interface), function.text_view())),
    {
        let ghost entry = (option_str_view(interface), function.text_view());
        let owned: Option<String> = match interface {
            Some(name) => Some(name.to_owned()),
            None => None,
        };
        let mut functions = self.functions;
        functions.push((owned, function.into_text()));
        let allowlist = Allowlist { interfaces: self.interfaces, functions };
        proof {
            assert(option_view(owned) == entry.0);
            assert forall|e: (Option<Seq<char>>, Seq<char>)| allowlist.functions().contains(e) <==> self.functions().insert(entry).contains(e) by {
                if self.functions().contains(e) {
                    let i = choose|i: int| 0 <= i < self.functions@.len()
                        && option_view(self.functions@[i].0) == e.0 && self.functions@[i].1@ == e.1;
                    assert(allowlist.functions@[i] == self.functions@[i]);
                }
                if e == entry {
                    assert(allowlist.functions@[self.functions@.len() as int] == (owned, allowlist.functions@[self.functions@.len() as int].1));
                }
            }
            assert(allowlist.functions() =~= self.functions().insert(entry));
            assert(allowlist.interfaces() =~= self.interfaces());
        }
        allowlist
    }

    fn names_interface(&self, interface: &str) -> (found: bool)
        ensures
            found == self.interfaces().contains(interface@),
    {
        let mut i: usize = 0;
        while i < self.interfaces.len()
            invariant
                i <= self.interfaces@.len(),
                forall|j: int| 0 <= j < i ==> self.interfaces@[j]@ != interface@,
            decreases self.interfaces@.len() - i,
        {
            if same_text(self.interfaces[i].as_str(), interface) {
                return true;
            }
            i = i + 1;
        }
        false
    }

    fn names_function(&self, interface: Option<&str>, function: &str) -> (found: bool)
        ensures
            found == self.functions().contains((option_str_view(interface), function@)),
    {
        let mut i: usize = 0;
        while i < self.functions.len()
            invariant
                i <= self.functions@.len(),
                forall|j: int| 0 <= j < i ==> !(option_view(self.functions@[j].0) == option_str_view(interface)
                    && self.functions@[j].1@ == function@),
            decreases self.functions@.len() - i,
        {
            let same_interface = match (&self.functions[i].0, interface) {
                (Some(listed), Some(name)) => same_text(listed.as_str(), name),
                (None, None) => true,
                _ => false,
            };
            if same_interface && same_text(self.functions[i].1.as_str(), function) {
                return true;
            }
            i = i + 1;
        }
        false
    }

    /// Whether the allowlist names `call`.
    pub fn allows_call(&self, call: &Call<'_>) -> (allowed: bool)
        ensures
            allowed == self.allows(*call),
    {
        let by_interface = match call.interface {
            Some(interface) => self.names_interface(interface),
            None => false,
        };
        by_interface || self.names_function(call.interface, call.function)
    }
}

/// A call in an interface is allowed exactly when that interface is allowed
/// as a whole or the entry for that interface and function is listed; a root
/// call is allowed exactly when the root entry for its function is listed.
/// So a root entry never allows a call in an interface, and an entry of one
/// interface never allows a call in another.
pub proof fn allowed_by_interface_or_exact_entry(allowlist: Allowlist, call: Call<'_>)
    ensures
        allowlist.allows(call) <==> match call.interface {
            Some(interface) => allowlist.interfaces().contains(interface@)
                || allowlist.functions().contains((Some(interface@), call.function@)),
            None => allowlist.functions().contains((None::<Seq<char>>, call.function@)),
        },
{
}

/// Adding entries never withdraws a call: an allowlist whose entries include
/// another's allows every call the other allows. In particular an empty
/// allowlist allows nothing, and each `allow_*` step only widens it.
pub proof fn allowlist_is_monotone(smaller: &Allowlist, larger: &Allowlist, call: Call<'_>)
    requires
        smaller.interfaces().subset_of(larger.interfaces()),
        smaller.functions().subset_of(larger.functions()),
        smaller.allows(call),
    ensures
        larger.allows(call),
{
}

/// Whether a call is allowed does not depend on the version it names, and a
/// root function is allowed exactly when it is listed as one.
pub proof fn entries_ignore_versions(allowlist: &Allowlist, call: Call<'_>, version: Option<&str>)
    ensures
        allowlist.allows(call) == allowlist.allows(Call { version, ..call }),
        call.interface.is_none() ==> (allowlist.allows(call) <==> allowlist.functions().contains((None, call.function@))),
{
}

/// The characters of an optional owned string.
pub open spec fn option_view(name: Option<String>) -> Option<Seq<char>> {
    match name {
        Some(name) => Some(name@),
        None => None,
    }
}

/// The characters of an optional borrowed string.
pub open spec fn option_str_view(name: Option<&str>) -> Option<Seq<char>> {
    match name {
        Some(name) => Some(name@),
        None => None,
    }
}

/// Builds the refusal reason for a call the allowlist does not name.
pub fn not_allowed(call: &Call<'_>) -> (reason: String)
    ensures
        reason@ == not_allowed_message(*call),
{
    let mut reason = String::from_str(call.direction.as_str());
    reason.append(" ");
    if let Some(interface) = call.interface {
        reason.append(interface);
        reason.append(".");
    }
    reason.append(call.function);
    reason.append(" is not allowed");
    proof {
        match call.interface {
            Some(interface) => {
                assert(reason@ =~= not_allowed_message(*call));
            },
            None => {
                assert(reason@ =~= not_allowed_message(*call));
            },
        }
    }
    reason
}

impl<S> Layer<S> for Allowlist {
    type Frame = ();

    fn before(&self, _state: &mut S, call: &Call<'_>) -> (decision: Result<(), Denied>)
        ensures
            *final(_state) == *old(_state),
            self.allows(*call) ==> decision == Ok::<(), Denied>(()),
            !self.allows(*call) ==> (decision matches Err(denied) && denied.view() == not_allowed_message(*call)),
    {
        if self.allows_call(call) {
            Ok(())
        } else {
            Err(Denied::new(not_allowed(call)))
        }
    }

    fn after(&self, _state: &mut S, _call: &Call<'_>, _frame: (), _outcome: Outcome<'_>)
        ensures
            *final(_state) == *old(_state),
    {
    }
}

} // verus!
