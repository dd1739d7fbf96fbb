//! A minimal reader of command-line arguments: flags and the values that
//! follow them.

use crate::text::same_text;
use vstd::prelude::*;

verus! {

/// The arguments of a command line, in order.
pub struct Cli {
    args: Vec<String>,
}

impl View for Cli {
    type V = Seq<Seq<char>>;

    closed spec fn view(&self) -> Seq<Seq<char>> {
        Seq::new(self.args@.len(), |i: int| self.args@[i]@)
    }
}

/// `flag` stands at `index` and at no earlier place.
pub open spec fn is_first_at(args: Seq<Seq<char>>, flag: Seq<char>, index: int) -> bool {
    &&& 0 <= index < args.len()
    &&& args[index] == flag
    &&& forall|j: int| 0 <= j < index ==> args[j] != flag
}

/// The values that follow the occurrences of `flag` among the first `upto`
/// arguments, in order. An occurrence at the very end has no value.
pub open spec fn values_after(args: Seq<Seq<char>>, flag: Seq<char>, upto: int) -> Seq<Seq<char>>
    decreases upto,
{
    if upto <= 0 {
        Seq::empty()
    } else if args[upto - 1] == flag && upto < args.len() {
        values_after(args, flag, upto - 1).push(args[upto])
    } else {
        values_after(args, flag, upto - 1)
    }
}

impl Cli {
    /// Wraps the arguments of a command line.
    pub fn from_args(args: Vec<String>) -> (cli: Self)
        ensures
            cli@ == Seq::new(args@.len(), |i: int| args@[i]@),
    {
        Cli { args }
    }

    /// Returns `true` if the flag is among the arguments.
    pub fn has_flag(&self, flag: &str) -> (found: bool)
        ensures
            found == exists|i: int| 0 <= i < self@.len() && self@[i] == flag@,
    {
        let mut i: usize = 0;
        while i < self.args.len()
            invariant
                i <= self.args@.len(),
                self@.len() == self.args@.len(),
                forall|j: int| 0 <= j < i ==> self@[j] != flag@,
            decreases self.args@.len() - i,
        {
            if same_text(self.args[i].as_str(), flag) {
                assert(self@[i as int] == flag@);
                return true;
            }
            i += 1;
        }
        false
    }

    /// Returns `true` if `--help` or `-h` was passed.
    pub fn help_requested(&self) -> (requested: bool)
        ensures
            requested == exists|i: int|
                0 <= i < self@.len() && (self@[i] == "--help"@ || self@[i] == "-h"@),
    {
        let mut i: usize = 0;
        while i < self.args.len()
            invariant
                i <= self.args@.len(),
                self@.len() == self.args@.len(),
                forall|j: int| 0 <= j < i ==> !(self@[j] == "--help"@ || self@[j] == "-h"@),
            decreases self.args@.len() - i,
        {
            if same_text(self.args[i].as_str(), "--help") || same_text(
                self.args[i].as_str(),
                "-h",
            ) {
                assert(self@[i as int] == "--help"@ || self@[i as int] == "-h"@);
                return true;
            }
            i += 1;
        }
        false
    }

    /// Returns the value following the first occurrence of `flag`, if the
    /// flag is present and something follows it.
    pub fn get(&self, flag: &str) -> (value: Option<&str>)
        ensures
            match value {
                Some(text) => exists|i: int|
                    is_first_at(self@, flag@, i) && i + 1 < self@.len() && text@ == self@[i + 1],
                None => forall|i: int| is_first_at(self@, flag@, i) ==> i + 1 == self@.len(),
            },
    {
        let mut i: usize = 0;
        while i < self.args.len()
            invariant
                i <= self.args@.len(),
                self@.len() == self.args@.len(),
                forall|j: int| 0 <= j < i ==> self@[j] != flag@,
            decreases self.args@.len() - i,
        {
            if same_text(self.args[i].as_str(), flag) {
                assert(is_first_at(self@, flag@, i as int));
                if i + 1 < self.args.len() {
                    let text = self.args[i + 1].as_str();
                    assert(text@ == self@[i + 1]);
                    return Some(text);
                } else {
                    return None;
                }
            }
            i += 1;
        }
        None
    }

    /// Returns all values following repeated occurrences of `flag`.
    pub fn get_all(&self, flag: &str) -> (values: Vec<&str>)
        ensures
            values@.len() == values_after(self@, flag@, self@.len() as int).len(),
            forall|k: int|
                0 <= k < values@.len() ==> (#[trigger] values@[k])@ == values_after(
                    self@,
                    flag@,
                    self@.len() as int,
                )[k],
    {
        let mut values: Vec<&str> = Vec::new();
        let mut i: usize = 0;
        while i < self.args.len()
            invariant
                i <= self.args@.len(),
                self@.len() == self.args@.len(),
                values@.len() == values_after(self@, flag@, i as int).len(),
                forall|k: int|
                    0 <= k < values@.len() ==> (#[trigger] values@[k])@ == values_after(
                        self@,
                        flag@,
                        i as int,
                    )[k],
            decreases self.args@.len() - i,
        {
            if same_text(self.args[i].as_str(), flag) && i + 1 < self.args.len() {
                let text = self.args[i + 1].as_str();
                assert(text@ == self@[i + 1]);
                values.push(text);
            }
            i += 1;
        }
        values
    }
}

} // verus!
