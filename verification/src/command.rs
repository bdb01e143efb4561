//! Commands that the bar runs: the program and its arguments, decided here
//! and run by the program around this library.
use vstd::prelude::*;
use crate::text::owned;

verus! {

/// A program to run with its arguments.
#[derive(Clone, Debug)]
pub struct Invocation {
    pub program: String,
    pub args: Vec<String>,
}

/// The texts of a list of strings.
pub open spec fn texts(v: Seq<String>) -> Seq<Seq<char>> {
    v.map_values(|s: String| s@)
}

impl Invocation {
    /// The program as text and the arguments as texts.
    pub open spec fn spec_parts(self) -> (Seq<char>, Seq<Seq<char>>) {
        (self.program@, texts(self.args@))
    }

    /// `program` with no arguments yet.
    pub fn new(program: &str) -> (r: Invocation)
        ensures
            r.spec_parts() == (program@, Seq::<Seq<char>>::empty()),
    {
        let r = Invocation { program: owned(program), args: Vec::new() };
        assert(texts(r.args@) =~= Seq::<Seq<char>>::empty());
        r
    }

    /// Adds one argument.
    pub fn arg(self, a: &str) -> (r: Invocation)
        ensures
            r.spec_parts() == (self.program@, texts(self.args@).push(a@)),
    {
        self.arg_string(owned(a))
    }

    /// Adds one argument.
    pub fn arg_string(self, a: String) -> (r: Invocation)
        ensures
            r.spec_parts() == (self.program@, texts(self.args@).push(a@)),
    {
        let Invocation { program, args } = self;
        let mut args: Vec<String> = args;
        let ghost before = texts(args@);
        args.push(a);
        assert(texts(args@) =~= before.push(a@));
        Invocation { program, args }
    }
}

} // verus!
