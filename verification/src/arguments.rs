//! Command line arguments. One that is not valid text is known only to be there: it can still be a
//! path, so paths are named by their place on the command line.

use vstd::prelude::*;

use crate::credential;
use crate::text;

verus! {

/// A command line argument, where it is valid text.
pub type Argument = Option<String>;

/// The arguments with their texts as sequences of characters.
pub open spec fn argument_views(arguments: Seq<Argument>) -> Seq<Option<Seq<char>>> {
    arguments.map_values(|argument: Argument| credential::opt_text(argument))
}

/// The text of the argument at `index`, where there is one and it is text.
pub open spec fn text_at(args: Seq<Option<Seq<char>>>, index: int) -> Option<Seq<char>> {
    if 0 <= index < args.len() {
        args[index]
    } else {
        None
    }
}

/// How many arguments there are from `from` on.
pub open spec fn count_from(args: Seq<Option<Seq<char>>>, from: int) -> int {
    if from < args.len() {
        args.len() - from
    } else {
        0
    }
}

/// The text of the argument at `index`, where there is one and it is text.
pub fn argument_text(arguments: &Vec<Argument>, index: usize) -> (found: Option<&str>)
    ensures
        match found {
            Some(value) => text_at(argument_views(arguments@), index as int) == Some(value@),
            None => text_at(argument_views(arguments@), index as int) is None,
        },
{
    if index < arguments.len() {
        match &arguments[index] {
            Some(value) => Some(value.as_str()),
            None => None,
        }
    } else {
        None
    }
}

/// How many arguments there are from `from` on.
pub fn arguments_from(arguments: &Vec<Argument>, from: usize) -> (count: usize)
    ensures
        count == count_from(argument_views(arguments@), from as int),
{
    if from < arguments.len() {
        arguments.len() - from
    } else {
        0
    }
}

/// Whether a path is `-`, which stands for standard input or output. Slashes and `.` behind it do
/// not make it another path.
pub open spec fn is_dash_path(path: Seq<char>) -> bool {
    &&& path.len() > 0
    &&& path[0] == '-'
    &&& forall|i: int|
        1 <= i < path.len() ==> {
            ||| (#[trigger] path[i]) == '/'
            ||| path[i] == '.' && path[i - 1] == '/' && (i + 1 == path.len() || path[i + 1] == '/')
        }
}

/// Whether a path is `-`. One that is not valid text is not.
pub open spec fn is_dash(path: Option<Seq<char>>) -> bool {
    path matches Some(shown) && is_dash_path(shown)
}

/// Whether a path is `-`.
pub fn names_standard_stream(path: Option<&str>) -> (yes: bool)
    ensures
        yes == is_dash(
            match path {
                Some(shown) => Some(shown@),
                None => None,
            },
        ),
{
    let shown: &str = match path {
        Some(shown) => shown,
        None => {
            return false;
        },
    };
    let chars: Vec<char> = text::chars_of(shown);
    if chars.len() == 0 || chars[0] != '-' {
        return false;
    }
    let mut i: usize = 1;
    while i < chars.len()
        invariant
            path == Some(shown),
            chars@ == shown@,
            1 <= i <= chars.len(),
            forall|j: int|
                1 <= j < i ==> {
                    ||| (#[trigger] chars@[j]) == '/'
                    ||| chars@[j] == '.' && chars@[j - 1] == '/' && (j + 1 == chars.len()
                        || chars@[j + 1] == '/')
                },
        decreases chars.len() - i,
    {
        let here: bool = chars[i] == '.' && chars[i - 1] == '/' && (i + 1 == chars.len() || chars[i
            + 1] == '/');
        if chars[i] != '/' && !here {
            assert(!is_dash_path(shown@)) by {
                assert(shown@[i as int] != '/');
            }
            return false;
        }
        i = i + 1;
    }
    true
}

} // verus!
