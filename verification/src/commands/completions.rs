//! Shell completions: the one change that is made to a generated script.

use vstd::prelude::*;
use crate::text::concat2;
use crate::text::join_with;
use crate::text::joined_of;
use crate::text::lines_of;
use crate::text::split_lines;
use crate::text::strip_prefix;
use crate::text::strip_prefix_of;
use crate::text::views;

verus! {

/// The first line of a zsh completion script as `eval` takes it: a
/// `#compdef` directive is made a comment by a space after the `#`.
pub open spec fn eval_line(line: Seq<char>) -> Seq<char> {
    match strip_prefix_of(line, "#compdef"@) {
        Some(rest) => "# compdef"@ + rest,
        None => line,
    }
}

/// A zsh completion script made fit for `eval`: its lines, the first of them
/// with its directive made a comment, joined by line feeds.
pub open spec fn zsh_for_eval_of(script: Seq<char>) -> Seq<char> {
    let lines = lines_of(script);
    if lines.len() == 0 {
        Seq::empty()
    } else {
        joined_of(lines.update(0, eval_line(lines[0])), "\n"@)
    }
}

/// Makes a generated zsh completion script fit for `eval`.
pub fn zsh_for_eval(script: &str) -> (out: String)
    ensures
        out@ == zsh_for_eval_of(script@),
{
    let lines = split_lines(script);
    if lines.len() == 0 {
        return String::new();
    }
    let first = match strip_prefix(lines[0].as_str(), "#compdef") {
        Some(rest) => concat2("# compdef", rest.as_str()),
        None => lines[0].clone(),
    };
    let ghost all = views(lines@);
    let ghost wanted = all.update(0, eval_line(all[0]));
    let mut changed: Vec<String> = Vec::new();
    changed.push(first);
    let mut i: usize = 1;
    assert(views(changed@) =~= wanted.take(1));
    while i < lines.len()
        invariant
            1 <= i <= lines.len(),
            all == views(lines@),
            wanted == all.update(0, eval_line(all[0])),
            views(changed@) == wanted.take(i as int),
        decreases lines.len() - i,
    {
        let ghost before = changed@;
        let line = lines[i].clone();
        changed.push(line);
        assert(views(changed@) =~= views(before).push(line@));
        assert(wanted.take(i + 1) =~= wanted.take(i as int).push(wanted[i as int]));
        i += 1;
    }
    assert(wanted.take(lines.len() as int) == wanted);
    join_with(&changed, "\n")
}

} // verus!
