//! The line protocol of clients: one command per line.

use vstd::prelude::*;

use crate::text::{is_white_space, trim, trimmed};

verus! {

/// Whether a line from a client holds a command. Lines of nothing but white
/// space are passed over.
pub fn holds_command(line: &str) -> (holds: bool)
    ensures
        holds == (trimmed(line@).len() > 0),
        holds == exists|i: int| 0 <= i < line@.len() && !is_white_space(#[trigger] line@[i]),
{
    proof {
        lemma_blank(line@);
    }
    !trim(line).is_empty()
}

/// Nothing is left of a text exactly if it is all white space.
proof fn lemma_blank(text: Seq<char>)
    ensures
        trimmed(text).len() > 0 <==> exists|i: int|
            0 <= i < text.len() && !is_white_space(#[trigger] text[i]),
    decreases text.len(),
{
    if text.len() > 0 {
        if is_white_space(text.first()) {
            let rest = text.drop_first();
            lemma_blank(rest);
            if exists|i: int| 0 <= i < text.len() && !is_white_space(#[trigger] text[i]) {
                let i = choose|i: int| 0 <= i < text.len() && !is_white_space(#[trigger] text[i]);
                assert(rest[i - 1] == text[i]);
            }
            if exists|i: int| 0 <= i < rest.len() && !is_white_space(#[trigger] rest[i]) {
                let i = choose|i: int| 0 <= i < rest.len() && !is_white_space(#[trigger] rest[i]);
                assert(text[i + 1] == rest[i]);
            }
        } else {
            assert(!is_white_space(text[0]));
            lemma_solid_start(text);
        }
    }
}

proof fn lemma_solid_start(text: Seq<char>)
    requires
        text.len() > 0,
        !is_white_space(text.first()),
    ensures
        trimmed(text).len() > 0,
    decreases text.len(),
{
    if is_white_space(text.last()) {
        lemma_solid_start(text.drop_last());
    }
}

} // verus!
