use vstd::prelude::*;

verus! {

/// Options of the drawing program.
#[derive(Debug)]
pub struct CLI {
    pub help: bool,
    pub verbose: bool,
    pub command_path: String,
    pub image_path: Option<String>,
}

/// Why the arguments were refused.
#[derive(Debug, Clone, Copy, PartialEq, Eq, Structural)]
pub enum CliError {
    /// Only the program name was given, or more than four arguments.
    ArgumentCount,
}

/// Most arguments accepted, the program name included.
pub const MAX_ARGS: usize = 5;

/// The view of an optional string.
pub open spec fn opt_view(s: Option<String>) -> Option<Seq<char>> {
    match s {
        Some(v) => Some(v@),
        None => None,
    }
}

/// State after reading the first `k` arguments: whether help was asked for,
/// whether verbose output was, the image path, and the last argument read.
/// Nothing is read after `-h`; an argument that follows `-i` or
/// `--image-path` and is no flag itself becomes the image path.
pub open spec fn scan(args: Seq<Seq<char>>, k: nat) -> (bool, bool, Option<Seq<char>>, Seq<char>)
    decreases k,
{
    if k == 0 {
        (false, false, None, Seq::empty())
    } else {
        let prev = scan(args, (k - 1) as nat);
        let arg = args[k - 1];
        if prev.0 {
            prev
        } else if arg == "-h"@ {
            (true, prev.1, prev.2, prev.3)
        } else if arg == "-v"@ || arg == "--verbose"@ {
            (false, true, prev.2, arg)
        } else if prev.3 == "-i"@ || prev.3 == "--image-path"@ {
            (false, prev.1, Some(arg), arg)
        } else {
            (false, prev.1, prev.2, arg)
        }
    }
}

/// `s` equals the literal `lit`.
fn equals_literal(s: &String, lit: &str) -> (r: bool)
    ensures
        r == (s@ == lit@),
{
    let owned = lit.to_owned();
    s.eq(&owned)
}

impl CLI {
    pub fn help(&self) -> (r: bool)
        ensures
            r == self.help,
    {
        self.help
    }

    pub fn verbose(&self) -> (r: bool)
        ensures
            r == self.verbose,
    {
        self.verbose
    }

    pub fn command_path(&self) -> (r: &String)
        ensures
            r == &self.command_path,
    {
        &self.command_path
    }

    pub fn image_path(&self) -> (r: &Option<String>)
        ensures
            r == &self.image_path,
    {
        &self.image_path
    }

    /// Reads the program's arguments, the program name first. The command
    /// file is the last argument read.
    pub fn parse(args: &Vec<String>) -> (r: Result<CLI, CliError>)
        ensures
            (args.len() > MAX_ARGS || args.len() == 1) ==> r == Err::<CLI, CliError>(
                CliError::ArgumentCount,
            ),
            !(args.len() > MAX_ARGS || args.len() == 1) ==> r is Ok && ({
                let s = scan(args.deep_view(), args.len() as nat);
                let cli = r->Ok_0;
                &&& cli.help == s.0
                &&& cli.verbose == s.1
                &&& opt_view(cli.image_path) == s.2
                &&& cli.command_path@ == s.3
            }),
    {
        if args.len() > MAX_ARGS || args.len() == 1 {
            return Err(CliError::ArgumentCount);
        }
        let ghost dv = args.deep_view();
        let mut help = false;
        let mut verbose = false;
        let mut image_path: Option<String> = None;
        let mut last = String::new();
        let mut i: usize = 0;
        while i < args.len()
            invariant
                i <= args.len(),
                dv == args.deep_view(),
                (help, verbose, opt_view(image_path), last@) == scan(dv, i as nat),
            decreases args.len() - i,
        {
            let arg = &args[i];
            assert(arg@ == dv[i as int]);
            if !help {
                if equals_literal(arg, "-h") {
                    help = true;
                } else if equals_literal(arg, "-v") || equals_literal(arg, "--verbose") {
                    verbose = true;
                    last = arg.clone();
                } else if equals_literal(&last, "-i") || equals_literal(&last, "--image-path") {
                    image_path = Some(arg.clone());
                    last = arg.clone();
                } else {
                    last = arg.clone();
                }
            }
            i += 1;
        }
        Ok(CLI { help, verbose, command_path: last, image_path })
    }

    /// The paths that must name files: the image path, when one was given,
    /// then the command file.
    pub fn paths(&self) -> (r: Vec<String>)
        ensures
            r.deep_view() == match self.image_path {
                Some(p) => seq![p@, self.command_path@],
                None => seq![self.command_path@],
            },
    {
        let mut out: Vec<String> = Vec::new();
        match &self.image_path {
            Some(p) => out.push(p.clone()),
            None => {},
        }
        out.push(self.command_path.clone());
        assert(out.deep_view() =~= match self.image_path {
            Some(p) => seq![p@, self.command_path@],
            None => seq![self.command_path@],
        });
        out
    }
}

} // verus!
