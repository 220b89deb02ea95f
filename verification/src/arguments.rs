use std::fmt::{Debug, Write};

use vstd::prelude::*;
use vstd::std_specs::convert::FromSpecImpl;

use crate::text::{decimal, push_decimal, same_text};

verus! {

/// One argument value exposed to middleware.
#[derive(Debug)]
pub enum ArgumentValue {
    /// A boolean.
    Bool(bool),
    /// An unsigned integer.
    U64(u64),
    /// A signed integer.
    I64(i64),
    /// Text.
    String(String),
    /// Raw bytes, such as a relayed stream chunk.
    Bytes(Vec<u8>),
    /// An ordered list of values.
    List(Vec<ArgumentValue>),
    /// A WIT variant case with an optional payload.
    Variant { case: &'static str, value: Option<Box<ArgumentValue>> },
    /// A value shown only through its debug rendering.
    Debug(String),
}

impl ArgumentValue {
    /// Copies `bytes` into a byte value.
    pub fn bytes(bytes: &[u8]) -> (value: ArgumentValue)
        ensures
            value matches ArgumentValue::Bytes(copied) && copied@ == bytes@,
    {
        ArgumentValue::Bytes(vstd::slice::slice_to_vec(bytes))
    }

    /// Captures the debug rendering of `value`.
    pub fn debug<T: Debug + ?Sized>(value: &T) -> (captured: ArgumentValue)
        ensures
            captured is Debug,
    {
        ArgumentValue::Debug(debug_text(value))
    }

    /// Returns the integer if this is an unsigned integer value.
    pub fn as_u64(&self) -> (number: Option<u64>)
        ensures
            number == (match *self {
                ArgumentValue::U64(n) => Some(n),
                _ => None::<u64>,
            }),
    {
        match self {
            ArgumentValue::U64(n) => Some(*n),
            _ => None,
        }
    }

    /// Returns the boolean if this is a boolean value.
    pub fn as_bool(&self) -> (flag: Option<bool>)
        ensures
            flag == (match *self {
                ArgumentValue::Bool(b) => Some(b),
                _ => None::<bool>,
            }),
    {
        match self {
            ArgumentValue::Bool(b) => Some(*b),
            _ => None,
        }
    }

    /// Returns the text if this is a text value.
    pub fn as_str(&self) -> (text: Option<&str>)
        ensures
            match *self {
                ArgumentValue::String(owned) => text matches Some(t) && t@ == owned@,
                _ => text.is_none(),
            },
    {
        match self {
            ArgumentValue::String(text) => Some(text.as_str()),
            _ => None,
        }
    }

    /// Returns the bytes if this is a byte value.
    pub fn as_bytes(&self) -> (bytes: Option<&[u8]>)
        ensures
            match *self {
                ArgumentValue::Bytes(owned) => bytes matches Some(b) && b@ == owned@,
                _ => bytes.is_none(),
            },
    {
        match self {
            ArgumentValue::Bytes(bytes) => Some(bytes.as_slice()),
            _ => None,
        }
    }
}

/// Renders `value` with its `Debug` implementation, writing `{:?}` into a
/// new `String` (`fmt::Write::write_fmt`). Writing into a `String` never
/// fails by itself; where the `Debug` implementation reports an error, the
/// error is dropped and the text holds what it wrote before it.
#[verifier::external_body]
fn debug_text<T: Debug + ?Sized>(value: &T) -> String {
    let mut text = String::new();
    let _ = write!(text, "{value:?}");
    text
}

impl From<bool> for ArgumentValue {
    fn from(value: bool) -> (converted: ArgumentValue) {
        ArgumentValue::Bool(value)
    }
}

impl FromSpecImpl<bool> for ArgumentValue {
    open spec fn obeys_from_spec() -> bool {
        true
    }

    open spec fn from_spec(value: bool) -> ArgumentValue {
        ArgumentValue::Bool(value)
    }
}

impl From<u64> for ArgumentValue {
    fn from(value: u64) -> (converted: ArgumentValue) {
        ArgumentValue::U64(value)
    }
}

impl FromSpecImpl<u64> for ArgumentValue {
    open spec fn obeys_from_spec() -> bool {
        true
    }

    open spec fn from_spec(value: u64) -> ArgumentValue {
        ArgumentValue::U64(value)
    }
}

impl From<i64> for ArgumentValue {
    fn from(value: i64) -> (converted: ArgumentValue) {
        ArgumentValue::I64(value)
    }
}

impl FromSpecImpl<i64> for ArgumentValue {
    open spec fn obeys_from_spec() -> bool {
        true
    }

    open spec fn from_spec(value: i64) -> ArgumentValue {
        ArgumentValue::I64(value)
    }
}

impl From<String> for ArgumentValue {
    fn from(value: String) -> (converted: ArgumentValue) {
        ArgumentValue::String(value)
    }
}

impl FromSpecImpl<String> for ArgumentValue {
    open spec fn obeys_from_spec() -> bool {
        true
    }

    open spec fn from_spec(value: String) -> ArgumentValue {
        ArgumentValue::String(value)
    }
}

impl From<Vec<ArgumentValue>> for ArgumentValue {
    fn from(value: Vec<ArgumentValue>) -> (converted: ArgumentValue) {
        ArgumentValue::List(value)
    }
}

impl FromSpecImpl<Vec<ArgumentValue>> for ArgumentValue {
    open spec fn obeys_from_spec() -> bool {
        true
    }

    open spec fn from_spec(value: Vec<ArgumentValue>) -> ArgumentValue {
        ArgumentValue::List(value)
    }
}

impl<'a> From<&'a str> for ArgumentValue {
    fn from(value: &'a str) -> (converted: ArgumentValue)
        ensures
            converted matches ArgumentValue::String(text) && text@ == value@,
    {
        ArgumentValue::String(value.to_owned())
    }
}

impl<'a> FromSpecImpl<&'a str> for ArgumentValue {
    /// A borrowed string converts to an owned copy, which no spec expression
    /// can build; the conversion's own `ensures` describes it.
    open spec fn obeys_from_spec() -> bool {
        false
    }

    open spec fn from_spec(value: &'a str) -> ArgumentValue {
        vstd::pervasive::arbitrary()
    }
}

/// Named argument values built by the code that routes a call.
#[derive(Debug)]
pub struct Arguments {
    entries: Vec<(String, ArgumentValue)>,
}

/// A borrowed view of [`Arguments`] carried by a [`crate::Call`].
#[derive(Clone, Copy, Debug)]
pub struct ArgumentList<'a> {
    entries: &'a [(String, ArgumentValue)],
}

/// The text of a boolean.
pub open spec fn bool_text(value: bool) -> Seq<char> {
    if value { seq!['t', 'r', 'u', 'e'] } else { seq!['f', 'a', 'l', 's', 'e'] }
}

/// The decimal text of a signed integer.
pub open spec fn signed_text(value: i64) -> Seq<char> {
    if value < 0 { seq!['-'] + decimal((-value) as nat) } else { decimal(value as nat) }
}

/// How a value appears in diagnostics: booleans and integers as literals,
/// text in double quotes, bytes by their count, lists in square brackets,
/// variant cases by name with their payload in parentheses, and debug
/// renderings as they are.
pub open spec fn render_value(value: ArgumentValue) -> Seq<char>
    decreases value,
{
    match value {
        ArgumentValue::Bool(b) => bool_text(b),
        ArgumentValue::U64(n) => decimal(n as nat),
        ArgumentValue::I64(n) => signed_text(n),
        ArgumentValue::String(text) => seq!['"'] + text@ + seq!['"'],
        ArgumentValue::Bytes(bytes) => seq!['<'] + decimal(bytes@.len()) + seq![' ', 'b', 'y', 't', 'e', 's', '>'],
        ArgumentValue::List(items) => seq!['['] + render_values(items@) + seq![']'],
        ArgumentValue::Variant { case, value } => match value {
            None => case@,
            Some(inner) => case@ + seq!['('] + render_value(*inner) + seq![')'],
        },
        ArgumentValue::Debug(text) => text@,
    }
}

/// The renderings of `values`, separated by a comma and a space.
pub open spec fn render_values(values: Seq<ArgumentValue>) -> Seq<char>
    decreases values,
{
    if values.len() == 0 {
        Seq::empty()
    } else if values.len() == 1 {
        render_value(values[0])
    } else {
        render_values(values.drop_last()) + seq![',', ' '] + render_value(values.last())
    }
}

/// The first entry named `name` is the one at `i` when no earlier entry has
/// that name.
proof fn first_named_at(entries: Seq<(Seq<char>, ArgumentValue)>, name: Seq<char>, i: int)
    requires
        0 <= i < entries.len(),
        entries[i].0 == name,
        forall|j: int| 0 <= j < i ==> entries[j].0 != name,
    ensures
        first_named(entries, name) == Some(i),
{
    let c = choose|c: int| 0 <= c < entries.len() && entries[c].0 == name
        && forall|j: int| 0 <= j < c ==> entries[j].0 != name;
    assert(c == i) by {
        if c < i {
            assert(entries[c].0 != name);
        } else if c > i {
            assert(entries[i].0 != name);
        }
    }
}

/// What a lookup's answer tells: the position of the first entry with the
/// name, or that no entry has it.
proof fn first_named_facts(entries: Seq<(Seq<char>, ArgumentValue)>, name: Seq<char>)
    ensures
        match first_named(entries, name) {
            Some(i) => 0 <= i < entries.len() && entries[i].0 == name
                && forall|j: int| 0 <= j < i ==> entries[j].0 != name,
            None => forall|j: int| 0 <= j < entries.len() ==> entries[j].0 != name,
        },
{
    if exists|i: int| 0 <= i < entries.len() && entries[i].0 == name {
        let k = choose|i: int| 0 <= i < entries.len() && entries[i].0 == name;
        assert(exists|c: int| 0 <= c < entries.len() && entries[c].0 == name
            && forall|j: int| 0 <= j < c ==> entries[j].0 != name) by {
            earliest_named(entries, name, k);
        }
    }
}

/// Some position with the name has no earlier one with it.
proof fn earliest_named(entries: Seq<(Seq<char>, ArgumentValue)>, name: Seq<char>, k: int)
    requires
        0 <= k < entries.len(),
        entries[k].0 == name,
    ensures
        exists|c: int| 0 <= c < entries.len() && entries[c].0 == name
            && forall|j: int| 0 <= j < c ==> entries[j].0 != name,
    decreases k,
{
    if exists|j: int| 0 <= j < k && entries[j].0 == name {
        let j = choose|j: int| 0 <= j < k && entries[j].0 == name;
        earliest_named(entries, name, j);
    } else {
        assert(forall|j: int| 0 <= j < k ==> entries[j].0 != name);
    }
}

/// A read gives back the first write under a name: after `value` is added
/// under `name`, looking `name` up finds `value` unless an earlier entry
/// already had that name, which it then still finds; looking up any other
/// name finds what it found before.
pub proof fn lookup_after_append(entries: Seq<(Seq<char>, ArgumentValue)>, name: Seq<char>, value: ArgumentValue, other: Seq<char>)
    requires
        other != name,
    ensures
        first_named(entries.push((name, value)), name) == (match first_named(entries, name) {
            Some(i) => Some(i),
            None => Some(entries.len() as int),
        }),
        first_named(entries.push((name, value)), other) == first_named(entries, other),
{
    let pushed = entries.push((name, value));
    first_named_facts(entries, name);
    first_named_facts(entries, other);
    match first_named(entries, name) {
        Some(i) => {
            assert forall|j: int| 0 <= j < i implies pushed[j].0 != name by {
                assert(pushed[j] == entries[j]);
            }
            first_named_at(pushed, name, i);
        },
        None => {
            assert forall|j: int| 0 <= j < entries.len() implies pushed[j].0 != name by {
                assert(pushed[j] == entries[j]);
            }
            first_named_at(pushed, name, entries.len() as int);
        },
    }
    match first_named(entries, other) {
        Some(i) => {
            assert forall|j: int| 0 <= j < i implies pushed[j].0 != other by {
                assert(pushed[j] == entries[j]);
            }
            first_named_at(pushed, other, i);
        },
        None => {
            assert forall|j: int| 0 <= j < pushed.len() implies pushed[j].0 != other by {
                if j < entries.len() {
                    assert(pushed[j] == entries[j]);
                }
            }
        },
    }
}

/// Appends the rendering of `value` to `out`.
pub fn push_value(out: &mut String, value: &ArgumentValue)
    ensures
        final(out)@ == old(out)@ + render_value(*value),
    decreases value,
{
    match value {
        ArgumentValue::Bool(b) => {
            if *b {
                proof { reveal_strlit("true"); }
                out.append("true");
            } else {
                proof { reveal_strlit("false"); }
                out.append("false");
            }
        },
        ArgumentValue::U64(n) => push_decimal(out, *n),
        ArgumentValue::I64(n) => {
            if *n < 0 {
                proof { reveal_strlit("-"); }
                out.append("-");
                let magnitude: u64 = (0i128 - (*n as i128)) as u64;
                push_decimal(out, magnitude);
                proof {
                    assert(old(out)@ + seq!['-'] + decimal(magnitude as nat) =~= old(out)@ + signed_text(*n));
                }
            } else {
                push_decimal(out, *n as u64);
            }
        },
        ArgumentValue::String(text) => {
            proof { reveal_strlit("\""); }
            out.append("\"");
            out.append(text.as_str());
            out.append("\"");
            proof {
                assert(old(out)@ + seq!['"'] + text@ + seq!['"'] =~= old(out)@ + render_value(*value));
            }
        },
        ArgumentValue::Bytes(bytes) => {
            proof { reveal_strlit("<"); reveal_strlit(" bytes>"); }
            out.append("<");
            push_decimal(out, bytes.len() as u64);
            out.append(" bytes>");
            proof {
                assert(old(out)@ + seq!['<'] + decimal(bytes@.len()) + seq![' ', 'b', 'y', 't', 'e', 's', '>']
                    =~= old(out)@ + render_value(*value));
            }
        },
        ArgumentValue::List(items) => {
            proof { reveal_strlit("["); reveal_strlit("]"); reveal_strlit(", "); }
            out.append("[");
            let ghost start = out@;
            let mut i: usize = 0;
            while i < items.len()
                invariant
                    i <= items@.len(),
                    out@ == start + render_values(items@.subrange(0, i as int)),
                    *value == ArgumentValue::List(*items),
                decreases items@.len() - i,
            {
                let ghost before = out@;
                if i > 0 {
                    proof { reveal_strlit(", "); }
                    out.append(", ");
                }
                proof {
                    assert(decreases_to!(*value => items@[i as int])) by {
                        assert(decreases_to!(*value => (*value)->List_0));
                        assert((*value)->List_0 == *items);
                        assert(decreases_to!(*items => items@));
                        assert(decreases_to!(items@ => items@[i as int]));
                    }
                }
                push_value(out, &items[i]);
                proof {
                    let done = items@.subrange(0, i as int + 1);
                    assert(done.drop_last() =~= items@.subrange(0, i as int));
                    assert(done.last() == items@[i as int]);
                    if i == 0 {
                        assert(items@.subrange(0, 0) =~= Seq::<ArgumentValue>::empty());
                        assert(before == start);
                        assert(done =~= seq![items@[0]]);
                        assert(render_values(done) == render_value(items@[0]));
                        assert(out@ =~= start + render_values(done));
                    } else {
                        assert(render_values(done) == render_values(done.drop_last()) + seq![',', ' '] + render_value(done.last()));
                        assert(out@ =~= start + render_values(done));
                    }
                }
                i = i + 1;
            }
            out.append("]");
            proof {
                assert(items@.subrange(0, items@.len() as int) =~= items@);
                assert(old(out)@ + seq!['['] + render_values(items@) + seq![']'] =~= old(out)@ + render_value(*value));
            }
        },
        ArgumentValue::Variant { case, value: payload } => {
            out.append(*case);
            match payload {
                None => {},
                Some(inner) => {
                    proof { reveal_strlit("("); reveal_strlit(")"); }
                    out.append("(");
                    push_value(out, &**inner);
                    out.append(")");
                    proof {
                        assert(old(out)@ + case@ + seq!['('] + render_value(**inner) + seq![')']
                            =~= old(out)@ + render_value(*value));
                    }
                },
            }
        },
        ArgumentValue::Debug(text) => out.append(text.as_str()),
    }
}

/// The names and values of `entries`, in order.
pub open spec fn entries_view(entries: Seq<(String, ArgumentValue)>) -> Seq<(Seq<char>, ArgumentValue)> {
    entries.map_values(|entry: (String, ArgumentValue)| (entry.0@, entry.1))
}

/// The position of the first entry named `name`, if any.
pub open spec fn first_named(entries: Seq<(Seq<char>, ArgumentValue)>, name: Seq<char>) -> Option<int> {
    if exists|i: int| 0 <= i < entries.len() && entries[i].0 == name {
        Some(choose|i: int| 0 <= i < entries.len() && entries[i].0 == name
            && forall|j: int| 0 <= j < i ==> entries[j].0 != name)
    } else {
        None
    }
}

/// The values of named entries, in order.
pub open spec fn values_of(entries: Seq<(Seq<char>, ArgumentValue)>) -> Seq<ArgumentValue> {
    entries.map_values(|entry: (Seq<char>, ArgumentValue)| entry.1)
}

fn render_entries(entries: &[(String, ArgumentValue)]) -> (text: String)
    ensures
        text@ == render_values(values_of(entries_view(entries@))),
{
    let ghost values = values_of(entries_view(entries@));
    let mut out = String::new();
    let mut i: usize = 0;
    while i < entries.len()
        invariant
            i <= entries@.len(),
            values == values_of(entries_view(entries@)),
            values.len() == entries@.len(),
            out@ == render_values(values.subrange(0, i as int)),
        decreases entries@.len() - i,
    {
        let ghost before = out@;
        if i > 0 {
            proof { reveal_strlit(", "); }
            out.append(", ");
        }
        push_value(&mut out, &entries[i].1);
        proof {
            let done = values.subrange(0, i as int + 1);
            assert(values[i as int] == entries@[i as int].1);
            assert(done.drop_last() =~= values.subrange(0, i as int));
            assert(done.last() == values[i as int]);
            if i == 0 {
                assert(values.subrange(0, 0) =~= Seq::<ArgumentValue>::empty());
                assert(done =~= seq![values[0]]);
                assert(render_values(done) == render_value(values[0]));
            } else {
                assert(render_values(done) == render_values(done.drop_last()) + seq![',', ' '] + render_value(done.last()));
            }
            assert(out@ =~= render_values(done));
        }
        i = i + 1;
    }
    proof {
        assert(values.subrange(0, entries@.len() as int) =~= values);
    }
    out
}

fn find_entry<'a>(entries: &'a [(String, ArgumentValue)], name: &str) -> (found: Option<&'a ArgumentValue>)
    ensures
        match first_named(entries_view(entries@), name@) {
            Some(i) => 0 <= i < entries@.len() && found == Some(&entries_view(entries@)[i].1),
            None => found.is_none(),
        },
{
    let ghost view = entries_view(entries@);
    let mut i: usize = 0;
    while i < entries.len()
        invariant
            i <= entries@.len(),
            view == entries_view(entries@),
            forall|j: int| 0 <= j < i ==> view[j].0 != name@,
        decreases entries@.len() - i,
    {
        if same_text(entries[i].0.as_str(), name) {
            proof {
                let k = i as int;
                assert(view[k].0 == name@);
                let c = choose|c: int| 0 <= c < view.len() && view[c].0 == name@
                    && forall|j: int| 0 <= j < c ==> view[j].0 != name@;
                assert(view[k].1 == entries@[k].1);
                assert(c == k) by {
                    if c < k {
                    } else if c > k {
                        assert(view[k].0 != name@);
                    }
                }
            }
            return Some(&entries[i].1);
        }
        i = i + 1;
    }
    None
}

impl<'a> ArgumentList<'a> {
    /// The names and values carried by the call, in order.
    pub closed spec fn view(self) -> Seq<(Seq<char>, ArgumentValue)> {
        entries_view(self.entries@)
    }

    /// A list with no arguments.
    pub fn empty() -> (list: ArgumentList<'a>)
        ensures
            list.view() == Seq::<(Seq<char>, ArgumentValue)>::empty(),
    {
        ArgumentList { entries: &[] }
    }

    /// Returns the first value named `name`.
    pub fn get(&self, name: &str) -> (value: Option<&'a ArgumentValue>)
        ensures
            match first_named(self.view(), name@) {
                Some(i) => value == Some(&self.view()[i].1),
                None => value.is_none(),
            },
    {
        proof {
            let v = self.view();
            if let Some(i) = first_named(v, name@) {
            }
        }
        find_entry(self.entries, name)
    }

    /// Renders the values, separated by a comma and a space.
    pub fn render(&self) -> (text: String)
        ensures
            text@ == render_values(values_of(self.view())),
    {
        render_entries(self.entries)
    }

    /// Returns the number of arguments.
    pub fn len(&self) -> (count: usize)
        ensures
            count == self.view().len(),
    {
        self.entries.len()
    }
}

impl Arguments {
    /// The names and values, in the order they were added.
    pub closed spec fn view(&self) -> Seq<(Seq<char>, ArgumentValue)> {
        entries_view(self.entries@)
    }

    /// Creates an empty argument list.
    pub fn new() -> (arguments: Arguments)
        ensures
            arguments.view() == Seq::<(Seq<char>, ArgumentValue)>::empty(),
    {
        Arguments { entries: Vec::new() }
    }

    /// Appends `value` under `name`.
    pub fn with_value(self, name: &str, value: ArgumentValue) -> (arguments: Arguments)
        ensures
            arguments.view() == self.view().push((name@, value)),
    {
        let mut entries = self.entries;
        entries.push((name.to_owned(), value));
        proof {
            assert(entries_view(entries@) =~= entries_view(self.entries@).push((name@, value)));
        }
        Arguments { entries }
    }

    /// Appends `value`, converted into an [`ArgumentValue`], under `name`.
    pub fn with<V: Into<ArgumentValue>>(self, name: &str, value: V) -> (arguments: Arguments)
        ensures
            arguments.view().len() == self.view().len() + 1,
            arguments.view().drop_last() == self.view(),
            arguments.view().last().0 == name@,
            call_ensures(V::into, (value,), arguments.view().last().1),
    {
        let converted: ArgumentValue = value.into();
        let arguments = self.with_value(name, converted);
        proof {
            assert(arguments.view().drop_last() =~= self.view());
        }
        arguments
    }

    /// Appends the debug rendering of `value` under `name`.
    pub fn with_debug<T: Debug + ?Sized>(self, name: &str, value: &T) -> (arguments: Arguments)
        ensures
            arguments.view().len() == self.view().len() + 1,
            arguments.view().drop_last() == self.view(),
            arguments.view().last().0 == name@,
            arguments.view().last().1 is Debug,
    {
        let arguments = self.with_value(name, ArgumentValue::debug(value));
        proof {
            assert(arguments.view().drop_last() =~= self.view());
        }
        arguments
    }

    /// Returns the first value named `name`.
    pub fn get(&self, name: &str) -> (value: Option<&ArgumentValue>)
        ensures
            match first_named(self.view(), name@) {
                Some(i) => value == Some(&self.view()[i].1),
                None => value.is_none(),
            },
    {
        find_entry(self.entries.as_slice(), name)
    }

    /// Borrows the arguments for a [`crate::Call`].
    pub fn list(&self) -> (list: ArgumentList<'_>)
        ensures
            list.view() == self.view(),
    {
        ArgumentList { entries: self.entries.as_slice() }
    }
}

} // verus!
