use vstd::prelude::*;

verus! {

/// A finished process as the library sees it: whether it exited with
/// success, and what it wrote, as text.
#[derive(Debug)]
pub struct CommandOutput {
    pub success: bool,
    pub stdout: String,
    pub stderr: String,
}

/// What starting a process gave: its output, or the text of the error that
/// kept it from running.
pub type CommandReply = Result<CommandOutput, String>;

/// A process to start: the program and its arguments.
#[derive(Debug)]
pub struct Invocation {
    pub program: String,
    pub args: Vec<String>,
}

impl View for Invocation {
    type V = (Seq<char>, Seq<Seq<char>>);

    open spec fn view(&self) -> (Seq<char>, Seq<Seq<char>>) {
        (self.program@, self.args@.map_values(|a: String| a@))
    }
}

/// The texts of a sequence of string slices.
pub open spec fn str_views(v: Seq<&str>) -> Seq<Seq<char>> {
    v.map_values(|a: &str| a@)
}

/// The invocation of `program` with `args`.
pub fn invocation(program: &str, args: &[&str]) -> (r: Invocation)
    ensures
        r@ == (program@, str_views(args@)),
{
    let mut out: Vec<String> = Vec::new();
    let mut i: usize = 0;
    while i < args.len()
        invariant
            i <= args@.len(),
            out@.map_values(|a: String| a@) == str_views(args@).take(i as int),
        decreases args@.len() - i,
    {
        let ghost before = out@;
        out.push(String::from_str(args[i]));
        assert(out@.map_values(|a: String| a@) =~= before.map_values(|a: String| a@).push(
            args@[i as int]@,
        ));
        assert(str_views(args@).take(i + 1) =~= str_views(args@).take(i as int).push(
            args@[i as int]@,
        ));
        i = i + 1;
    }
    assert(str_views(args@).take(args@.len() as int) =~= str_views(args@));
    Invocation { program: String::from_str(program), args: out }
}

} // verus!
