//! The command line of the corpus runner that compares channels with the
//! expectations of the gofeed fixtures.

use crate::text::{join2, opt_view, strings_view};
use crate::xml::str_eq;
use vstd::prelude::*;

verus! {

/// The arguments of the gofeed runner.
pub struct Args {
    /// The directory of the fixtures.
    pub gofeed: String,
    pub source_revision: String,
    pub crate_revision: String,
    /// The path of the report to write.
    pub report: String,
}

/// The arguments read so far; a later flag overrides an earlier one.
pub struct ArgsSoFar {
    pub gofeed: Option<Seq<char>>,
    pub source_revision: Option<Seq<char>>,
    pub crate_revision: Option<Seq<char>>,
    pub report: Option<Seq<char>>,
}

/// Reads the flags from index `i` on, each followed by its value.
pub open spec fn scan_args(args: Seq<Seq<char>>, i: int, st: ArgsSoFar) -> Result<ArgsSoFar, Seq<char>>
    decreases args.len() - i,
{
    if i < 0 || i >= args.len() {
        Ok(st)
    } else if i + 1 >= args.len() {
        Err("missing value for "@ + args[i])
    } else {
        let v = args[i + 1];
        if args[i] == "--gofeed"@ {
            scan_args(args, i + 2, ArgsSoFar { gofeed: Some(v), ..st })
        } else if args[i] == "--source-revision"@ {
            scan_args(args, i + 2, ArgsSoFar { source_revision: Some(v), ..st })
        } else if args[i] == "--crate-revision"@ {
            scan_args(args, i + 2, ArgsSoFar { crate_revision: Some(v), ..st })
        } else if args[i] == "--report"@ {
            scan_args(args, i + 2, ArgsSoFar { report: Some(v), ..st })
        } else {
            Err("unknown argument: "@ + args[i])
        }
    }
}

/// The arguments of the runner, or the message of the first problem: a flag
/// without a value, an unknown flag, or (in this order) a missing
/// `--gofeed`, `--source-revision`, `--crate-revision` or `--report`.
pub open spec fn parse_args_spec(args: Seq<Seq<char>>) -> Result<(Seq<char>, Seq<char>, Seq<char>, Seq<char>), Seq<char>> {
    match scan_args(args, 0, ArgsSoFar { gofeed: None, source_revision: None, crate_revision: None, report: None }) {
        Err(e) => Err(e),
        Ok(st) => match (st.gofeed, st.source_revision, st.crate_revision, st.report) {
            (None, _, _, _) => Err("missing --gofeed"@),
            (Some(_), None, _, _) => Err("missing --source-revision"@),
            (Some(_), Some(_), None, _) => Err("missing --crate-revision"@),
            (Some(_), Some(_), Some(_), None) => Err("missing --report"@),
            (Some(g), Some(s), Some(c), Some(r)) => Ok((g, s, c, r)),
        },
    }
}

/// Reads the command line of the runner (the arguments after the program's
/// name): flags `--gofeed`, `--source-revision`, `--crate-revision` and
/// `--report`, each followed by its value.
pub fn parse_args(args: &Vec<String>) -> (r: Result<Args, String>)
    ensures
        match parse_args_spec(strings_view(args@)) {
            Ok((g, s, c, p)) => r matches Ok(a) && a.gofeed@ == g && a.source_revision@ == s
                && a.crate_revision@ == c && a.report@ == p,
            Err(e) => r matches Err(m) && m@ == e,
        },
{
    let ghost av = strings_view(args@);
    let mut gofeed: Option<String> = None;
    let mut source_revision: Option<String> = None;
    let mut crate_revision: Option<String> = None;
    let mut report: Option<String> = None;
    let mut i: usize = 0;
    while i < args.len()
        invariant
            i <= args@.len(),
            av == strings_view(args@),
            scan_args(
                av,
                i as int,
                ArgsSoFar {
                    gofeed: opt_view(gofeed),
                    source_revision: opt_view(source_revision),
                    crate_revision: opt_view(crate_revision),
                    report: opt_view(report),
                },
            ) == scan_args(av, 0, ArgsSoFar { gofeed: None, source_revision: None, crate_revision: None, report: None }),
        decreases args@.len() - i,
    {
        let arg = args[i].as_str();
        if i + 1 >= args.len() {
            return Err(join2("missing value for ", arg));
        }
        let value = args[i + 1].clone();
        if str_eq(arg, "--gofeed") {
            gofeed = Some(value);
        } else if str_eq(arg, "--source-revision") {
            source_revision = Some(value);
        } else if str_eq(arg, "--crate-revision") {
            crate_revision = Some(value);
        } else if str_eq(arg, "--report") {
            report = Some(value);
        } else {
            return Err(join2("unknown argument: ", arg));
        }
        i = i + 2;
    }
    let gofeed = match gofeed {
        Some(v) => v,
        None => {
            return Err("missing --gofeed".to_owned());
        },
    };
    let source_revision = match source_revision {
        Some(v) => v,
        None => {
            return Err("missing --source-revision".to_owned());
        },
    };
    let crate_revision = match crate_revision {
        Some(v) => v,
        None => {
            return Err("missing --crate-revision".to_owned());
        },
    };
    let report = match report {
        Some(v) => v,
        None => {
            return Err("missing --report".to_owned());
        },
    };
    Ok(Args { gofeed, source_revision, crate_revision, report })
}

} // verus!
