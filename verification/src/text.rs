//! What the lock and its bookkeeping look like when they are printed.
use std::fmt::{Debug, Write};

use vstd::prelude::*;
use vstd::string::StringExecFns;

verus! {

/// Calls `write!` into a `String` with `{:?}`, which is `Debug::fmt` of `T`. What that
/// writes, and whether it fails, is up to `T`, so nothing is claimed of the result,
/// which is `None` if it fails.
#[verifier::external_body]
pub(crate) fn debug_of<T: Debug + ?Sized>(value: &T) -> Option<String> {
    let mut text = String::new();
    match write!(text, "{value:?}") {
        Ok(()) => Some(text),
        Err(_) => None,
    }
}

/// The text of a lock around the text of its data.
pub open spec fn lock_text(data: Seq<char>) -> Seq<char> {
    "RwLockBell { data: "@ + data + " }"@
}

/// Prints a lock: around its data, or around `<locked>` if that cannot be read.
pub fn print_lock(data: Option<&str>) -> (text: String)
    ensures
        text@ == lock_text(
            match data {
                Some(data) => data@,
                None => "<locked>"@,
            },
        ),
{
    let mut text = "RwLockBell { data: ".to_string();
    match data {
        Some(data) => text.append(data),
        None => text.append("<locked>"),
    }
    text.append(" }");
    text
}

/// The text of the bookkeeping around the texts of its counters.
pub open spec fn inner_text(draining: Seq<char>, locking: Seq<char>, readers: Seq<char>) -> Seq<
    char,
> {
    "Inner { draining: "@ + draining + ", locking: "@ + locking + ", readers: "@ + readers
        + ", callbacks: \"{callbacks}\" }"@
}

/// Prints the bookkeeping. The callbacks themselves cannot be shown.
pub fn print_inner(draining: u64, locking: u64, readers: u64) -> (text: String)
    ensures
        prints_inner(draining, locking, readers, text@),
{
    let d = draining.to_string();
    let l = locking.to_string();
    let r = readers.to_string();
    let mut text = "Inner { draining: ".to_string();
    text.append(d.as_str());
    text.append(", locking: ");
    text.append(l.as_str());
    text.append(", readers: ");
    text.append(r.as_str());
    text.append(", callbacks: \"{callbacks}\" }");
    proof {
        assert(decimal(draining, d@) && decimal(locking, l@) && decimal(readers, r@));
        assert(text@ == inner_text(d@, l@, r@));
    }
    text
}

/// Whether `digits` is how `count` is displayed.
pub open spec fn decimal(count: u64, digits: Seq<char>) -> bool {
    exists|text: String| #[trigger]
        vstd::string::to_string_from_display_ensures::<u64>(&count, text) && text@ == digits
}

/// Whether `text` is how these counters are printed.
pub open spec fn prints_inner(draining: u64, locking: u64, readers: u64, text: Seq<char>) -> bool {
    exists|d: Seq<char>, l: Seq<char>, r: Seq<char>|
        {
            &&& decimal(draining, d)
            &&& decimal(locking, l)
            &&& decimal(readers, r)
            &&& text == #[trigger] inner_text(d, l, r)
        }
}

/// The text of a lock with a bell around the text of its bookkeeping.
pub open spec fn raw_text(locked: bool, state: Seq<char>) -> Seq<char> {
    "RawRwLockBell { locked: "@ + (if locked {
        "true"@
    } else {
        "false"@
    }) + ", state: "@ + state + " }"@
}

/// Prints a lock with a bell around its bookkeeping.
pub fn print_raw(locked: bool, state: &str) -> (text: String)
    ensures
        text@ == raw_text(locked, state@),
{
    let mut text = "RawRwLockBell { locked: ".to_string();
    if locked {
        text.append("true");
    } else {
        text.append("false");
    }
    text.append(", state: ");
    text.append(state);
    text.append(" }");
    text
}

} // verus!
