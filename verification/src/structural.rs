//! The command line of the structural corpus screen (feedparser and Feed
//! Validator suites).

use crate::text::{join2, opt_view, strings_view};
use crate::xml::str_eq;
use vstd::prelude::*;

verus! {

/// The arguments of the structural screen.
pub struct Args {
    pub root: String,
    /// The paths to search for fixtures, under the root.
    pub includes: Vec<String>,
    /// `feedparser-wellformed` or `feedvalidator`.
    pub mode: String,
    pub source_repository: String,
    pub source_revision: String,
    pub crate_revision: String,
    pub report: String,
}

/// The arguments read so far; a later flag overrides an earlier one, and
/// each `--include` adds a path.
pub struct ArgsSoFar {
    pub root: Option<Seq<char>>,
    pub includes: Seq<Seq<char>>,
    pub mode: Option<Seq<char>>,
    pub source_repository: Option<Seq<char>>,
    pub source_revision: Option<Seq<char>>,
    pub crate_revision: Option<Seq<char>>,
    pub report: Option<Seq<char>>,
}

/// Nothing read yet.
pub open spec fn nothing_read() -> ArgsSoFar {
    ArgsSoFar {
        root: None,
        includes: seq![],
        mode: None,
        source_repository: None,
        source_revision: None,
        crate_revision: None,
        report: None,
    }
}

/// Reads the flags from index `i` on, each followed by its value.
pub open spec fn scan_args(args: Seq<Seq<char>>, i: int, st: ArgsSoFar) -> Result<ArgsSoFar, Seq<char>>
    decreases args.len() - i,
{
    if i < 0 || i >= args.len() {
        Ok(st)
    } else if i + 1 >= args.len() {
        Err("missing value for "@ + args[i])
    } else {
        let v = args[i + 1];
        if args[i] == "--root"@ {
            scan_args(args, i + 2, ArgsSoFar { root: Some(v), ..st })
        } else if args[i] == "--include"@ {
            scan_args(args, i + 2, ArgsSoFar { includes: st.includes.push(v), ..st })
        } else if args[i] == "--mode"@ {
            scan_args(args, i + 2, ArgsSoFar { mode: Some(v), ..st })
        } else if args[i] == "--source-repository"@ {
            scan_args(args, i + 2, ArgsSoFar { source_repository: Some(v), ..st })
        } else if args[i] == "--source-revision"@ {
            scan_args(args, i + 2, ArgsSoFar { source_revision: Some(v), ..st })
        } else if args[i] == "--crate-revision"@ {
            scan_args(args, i + 2, ArgsSoFar { crate_revision: Some(v), ..st })
        } else if args[i] == "--report"@ {
            scan_args(args, i + 2, ArgsSoFar { report: Some(v), ..st })
        } else {
            Err("unknown argument: "@ + args[i])
        }
    }
}

/// The message of the first thing missing or wrong in complete flags, in
/// the order the screen checks them: no `--include`, no `--mode`, a mode
/// other than `feedparser-wellformed` and `feedvalidator`, then a missing
/// `--root`, `--source-repository`, `--source-revision`, `--crate-revision`
/// or `--report`; none if nothing is.
pub open spec fn args_problem(st: ArgsSoFar) -> Option<Seq<char>> {
    if st.includes.len() == 0 {
        Some("at least one --include is required"@)
    } else if st.mode is None {
        Some("missing --mode"@)
    } else if st.mode->0 != "feedparser-wellformed"@ && st.mode->0 != "feedvalidator"@ {
        Some("unsupported mode: "@ + st.mode->0)
    } else if st.root is None {
        Some("missing --root"@)
    } else if st.source_repository is None {
        Some("missing --source-repository"@)
    } else if st.source_revision is None {
        Some("missing --source-revision"@)
    } else if st.crate_revision is None {
        Some("missing --crate-revision"@)
    } else if st.report is None {
        Some("missing --report"@)
    } else {
        None
    }
}

/// The arguments of the screen, or the message of the first problem.
pub open spec fn parse_args_spec(args: Seq<Seq<char>>) -> Result<ArgsSoFar, Seq<char>> {
    match scan_args(args, 0, nothing_read()) {
        Err(e) => Err(e),
        Ok(st) => match args_problem(st) {
            Some(e) => Err(e),
            None => Ok(st),
        },
    }
}

/// The abstract value of parsed arguments.
pub open spec fn args_view(a: Args) -> ArgsSoFar {
    ArgsSoFar {
        root: Some(a.root@),
        includes: strings_view(a.includes@),
        mode: Some(a.mode@),
        source_repository: Some(a.source_repository@),
        source_revision: Some(a.source_revision@),
        crate_revision: Some(a.crate_revision@),
        report: Some(a.report@),
    }
}

fn take_required(v: Option<String>, message: &str) -> (r: Result<String, String>)
    ensures
        match v {
            Some(s) => r == Ok::<String, String>(s),
            None => r matches Err(m) && m@ == message@,
        },
{
    match v {
        Some(s) => Ok(s),
        None => Err(message.to_owned()),
    }
}

/// Reads the command line of the screen (the arguments after the program's
/// name): flags `--root`, `--include` (repeatable), `--mode`,
/// `--source-repository`, `--source-revision`, `--crate-revision` and
/// `--report`, each followed by its value.
pub fn parse_args(args: &Vec<String>) -> (r: Result<Args, String>)
    ensures
        match parse_args_spec(strings_view(args@)) {
            Ok(st) => r matches Ok(a) && args_view(a) == st,
            Err(e) => r matches Err(m) && m@ == e,
        },
{
    let ghost av = strings_view(args@);
    let mut root: Option<String> = None;
    let mut includes: Vec<String> = Vec::new();
    let mut mode: Option<String> = None;
    let mut source_repository: Option<String> = None;
    let mut source_revision: Option<String> = None;
    let mut crate_revision: Option<String> = None;
    let mut report: Option<String> = None;
    let mut i: usize = 0;
    assert(strings_view(includes@) =~= seq![]);
    while i < args.len()
        invariant
            i <= args@.len(),
            av == strings_view(args@),
            scan_args(
                av,
                i as int,
                ArgsSoFar {
                    root: opt_view(root),
                    includes: strings_view(includes@),
                    mode: opt_view(mode),
                    source_repository: opt_view(source_repository),
                    source_revision: opt_view(source_revision),
                    crate_revision: opt_view(crate_revision),
                    report: opt_view(report),
                },
            ) == scan_args(av, 0, nothing_read()),
        decreases args@.len() - i,
    {
        let arg = args[i].as_str();
        if i + 1 >= args.len() {
            return Err(join2("missing value for ", arg));
        }
        let value = args[i + 1].clone();
        if str_eq(arg, "--root") {
            root = Some(value);
        } else if str_eq(arg, "--include") {
            let ghost before = includes@;
            includes.push(value);
            assert(strings_view(includes@) =~= strings_view(before).push(args@[i + 1]@));
        } else if str_eq(arg, "--mode") {
            mode = Some(value);
        } else if str_eq(arg, "--source-repository") {
            source_repository = Some(value);
        } else if str_eq(arg, "--source-revision") {
            source_revision = Some(value);
        } else if str_eq(arg, "--crate-revision") {
            crate_revision = Some(value);
        } else if str_eq(arg, "--report") {
            report = Some(value);
        } else {
            return Err(join2("unknown argument: ", arg));
        }
        i = i + 2;
    }
    if includes.len() == 0 {
        return Err("at least one --include is required".to_owned());
    }
    let mode = take_required(mode, "missing --mode")?;
    if !str_eq(mode.as_str(), "feedparser-wellformed") && !str_eq(mode.as_str(), "feedvalidator") {
        return Err(join2("unsupported mode: ", mode.as_str()));
    }
    let root = take_required(root, "missing --root")?;
    let source_repository = take_required(source_repository, "missing --source-repository")?;
    let source_revision = take_required(source_revision, "missing --source-revision")?;
    let crate_revision = take_required(crate_revision, "missing --crate-revision")?;
    let report = take_required(report, "missing --report")?;
    let a = Args { root, includes, mode, source_repository, source_revision, crate_revision, report };
    assert(args_view(a).includes == strings_view(a.includes@));
    Ok(a)
}

} // verus!
