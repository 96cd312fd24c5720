//! Text of the progress lines shown for each task.
use vstd::prelude::*;
use crate::filename::{digits, push_digits};
use crate::text::push_char;

verus! {

/// `[<position>/<total>] <label>: <name>`, where the position counts from 1.
pub open spec fn progress_text(index: nat, total: nat, label: Seq<char>, name: Seq<char>) -> Seq<char> {
    seq!['['] + digits(index + 1) + seq!['/'] + digits(total) + seq![']', ' '] + label + seq![':', ' ']
        + name
}

/// The progress line of the episode at feed position `index` out of `total`.
pub fn progress_message(index: usize, total: usize, label: &str, name: &str) -> (r: String)
    requires
        index < usize::MAX,
    ensures
        r@ == progress_text(index as nat, total as nat, label@, name@),
{
    let mut out = String::new();
    push_char(&mut out, '[');
    push_digits(&mut out, (index + 1) as u64);
    push_char(&mut out, '/');
    push_digits(&mut out, total as u64);
    push_char(&mut out, ']');
    push_char(&mut out, ' ');
    out.append(label);
    push_char(&mut out, ':');
    push_char(&mut out, ' ');
    out.append(name);
    assert(out@ =~= progress_text(index as nat, total as nat, label@, name@));
    out
}

} // verus!
