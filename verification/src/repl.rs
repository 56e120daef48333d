//! The console: the lines that it takes.

use crate::service::Command;
use crate::text::{chars_of, same_chars, string_of, word_bounds, words};
use vstd::prelude::*;

verus! {

/// The words, with one space between each two.
pub open spec fn joined(words: Seq<Seq<char>>) -> Seq<char>
    decreases words.len(),
{
    if words.len() == 0 {
        Seq::empty()
    } else if words.len() == 1 {
        words[0]
    } else {
        joined(words.drop_last()) + seq![' '] + words.last()
    }
}

/// What a line of the console asks for.
pub enum Line {
    /// Load the module of this name.
    Load(Seq<char>),
    /// Run the module's entry point with the arguments: the module, the
    /// entry point, the arguments.
    Run(Seq<char>, Seq<char>, Seq<char>),
}

/// The command that a line of the console stands for: `load` and the name
/// of a module, or `run`, the name of a module, an entry point and the
/// arguments, which are handed on with one space between each two.
pub open spec fn command_of(line: Seq<char>) -> Option<Line> {
    let w = words(line, false);
    if w.len() == 2 && w[0] == "load"@ {
        Some(Line::Load(w[1]))
    } else if w.len() >= 3 && w[0] == "run"@ {
        Some(Line::Run(w[1], w[2], joined(w.skip(3))))
    } else {
        None
    }
}

/// Reads a line of the console.
pub fn parse_command(cmd: String) -> (r: Option<Command>)
    ensures
        match r {
            Some(Command::LoadModule(module)) => command_of(cmd@) == Some(Line::Load(module@)),
            Some(Command::RunModule { module, entry_point, args }) => command_of(cmd@) == Some(
                Line::Run(module@, entry_point@, args@),
            ),
            Some(_) => false,
            None => command_of(cmd@) is None,
        },
{
    let chars = chars_of(cmd.as_str());
    let bounds = word_bounds(&chars, false);
    let ghost w = words(chars@, false);
    let load = chars_of("load");
    let run = chars_of("run");
    if bounds.len() == 0 {
        return None;
    }
    let first = string_of(&chars, bounds[0].0, bounds[0].1);
    let first_chars = chars_of(first.as_str());
    if bounds.len() == 2 && same_chars(&first_chars, &load) {
        return Some(Command::LoadModule(string_of(&chars, bounds[1].0, bounds[1].1)));
    }
    if bounds.len() >= 3 && same_chars(&first_chars, &run) {
        let module = string_of(&chars, bounds[1].0, bounds[1].1);
        let entry_point = string_of(&chars, bounds[2].0, bounds[2].1);
        let mut args = String::new();
        let mut i: usize = 3;
        proof {
            assert(w.skip(3).take(0) =~= Seq::<Seq<char>>::empty());
        }
        while i < bounds.len()
            invariant
                3 <= i <= bounds@.len(),
                w == words(chars@, false),
                bounds@.len() == w.len(),
                forall|k: int|
                    0 <= k < bounds@.len() ==> (#[trigger] bounds@[k]).0 < bounds@[k].1
                        <= chars@.len() && chars@.subrange(bounds@[k].0 as int, bounds@[k].1 as int)
                        == w[k],
                args@ == joined(w.skip(3).take(i - 3)),
            decreases bounds@.len() - i,
        {
            let ghost done = w.skip(3).take(i - 3);
            let ghost next = w.skip(3).take(i - 2);
            proof {
                assert(next.drop_last() =~= done);
                assert(next.last() == w[i as int]);
            }
            if i > 3 {
                args.push(' ');
            }
            let mut j: usize = bounds[i].0;
            let ghost start = args@;
            while j < bounds[i].1
                invariant
                    i < bounds@.len(),
                    bounds@[i as int].0 <= j <= bounds@[i as int].1 <= chars@.len(),
                    args@ == start + chars@.subrange(bounds@[i as int].0 as int, j as int),
                decreases bounds@[i as int].1 - j,
            {
                args.push(chars[j]);
                j += 1;
            }
            proof {
                assert(args@ == start + w[i as int]);
                if i == 3 {
                    assert(done.len() == 0);
                    assert(next.len() == 1);
                    assert(start + w[i as int] =~= w[i as int]);
                } else {
                    assert(start =~= joined(done) + seq![' ']);
                }
            }
            i += 1;
        }
        proof {
            assert(w.skip(3).take(i - 3) =~= w.skip(3));
        }
        return Some(Command::RunModule { module, entry_point, args });
    }
    None
}

} // verus!
