//! `-D`: which database operation runs, the report of an install-reason
//! change from libalpm's answers for each package, and the `-Dk` problem
//! lines from its dependency and conflict checks.
use crate::common::fmt::strings_view;
use crate::error::MizError;
use crate::params::database::Params;
use crate::report::DbReport;
use crate::text::{push_str, to_owned};
use vstd::prelude::*;

verus! {

/// The `-D` operation to run.
pub enum DbAction {
    /// `-Dk` (the local database) or `-Dkk` (the sync databases).
    Check { sync: bool },
    /// Mark the targets as installed as dependencies (`--asdeps`) or
    /// explicitly (`--asexplicit`).
    SetReason { asdeps: bool },
}

/// Choose the `-D` operation: a check first, then a reason change (which
/// needs targets); anything else is a usage error.
pub fn db_action(args: &Params) -> (r: Result<DbAction, MizError>)
    ensures
        if args.check > 0 {
            r matches Ok(DbAction::Check { sync }) && sync == (args.check >= 2)
        } else if args.asdeps || args.asexplicit {
            if args.packages@.len() == 0 {
                r matches Err(MizError::BadArgs(m)) && m@ == "no targets specified (use -h for help)"@
            } else {
                r matches Ok(DbAction::SetReason { asdeps }) && asdeps == args.asdeps
            }
        } else {
            r matches Err(MizError::BadArgs(m)) && m@ == "no operation specified (use -h for help)"@
        },
{
    if args.check > 0 {
        return Ok(DbAction::Check { sync: args.check >= 2 });
    }
    if args.asdeps || args.asexplicit {
        if args.packages.len() == 0 {
            return Err(MizError::BadArgs(to_owned("no targets specified (use -h for help)")));
        }
        return Ok(DbAction::SetReason { asdeps: args.asdeps });
    }
    Err(MizError::BadArgs(to_owned("no operation specified (use -h for help)")))
}

/// What libalpm answered for one target of a reason change.
pub enum ReasonOutcome {
    /// The package is not installed.
    NotFound,
    /// Setting the reason failed, with libalpm's message.
    Failed(String),
    Changed,
}

/// The confirmation for one changed package.
pub open spec fn reason_line(name: Seq<char>, asdeps: bool) -> Seq<char> {
    name + ": install reason has been set to '"@ + (if asdeps {
        "dependency"@
    } else {
        "explicitly installed"@
    }) + "'"@
}

/// The confirmations, the package not found and the failure, over the
/// answers in order: the first package not found or failed ends the run.
pub open spec fn reason_fold(answers: Seq<(Seq<char>, ReasonOutcome)>, asdeps: bool, quiet: bool) -> (Seq<Seq<char>>, Option<Seq<char>>, Option<Seq<char>>)
    decreases answers.len(),
{
    if answers.len() == 0 {
        (seq![], None, None)
    } else {
        let st = reason_fold(answers.drop_last(), asdeps, quiet);
        if st.1 is Some || st.2 is Some {
            st
        } else {
            let (name, o) = answers.last();
            match o {
                ReasonOutcome::NotFound => (st.0, Some(name), None),
                ReasonOutcome::Failed(m) => (st.0, None, Some(m@)),
                ReasonOutcome::Changed => (if quiet {
                    st.0
                } else {
                    st.0.push(reason_line(name, asdeps))
                }, None, None),
            }
        }
    }
}

pub open spec fn answers_view(v: Seq<(String, ReasonOutcome)>) -> Seq<(Seq<char>, ReasonOutcome)> {
    v.map_values(|a: (String, ReasonOutcome)| (a.0@, a.1))
}

/// The report of a reason change from each target's answer, in order.
pub fn reason_report(answers: &Vec<(String, ReasonOutcome)>, asdeps: bool, quiet: bool) -> (r: DbReport)
    ensures
        r matches DbReport::SetReason { confirmations, not_found, set_reason_error } && ({
            let st = reason_fold(answers_view(answers@), asdeps, quiet);
            &&& strings_view(confirmations@) == st.0
            &&& crate::text::opt_string(not_found) == st.1
            &&& crate::text::opt_string(set_reason_error) == st.2
        }),
{
    let ghost av = answers_view(answers@);
    let mut confirmations: Vec<String> = Vec::new();
    let mut i: usize = 0;
    while i < answers.len()
        invariant
            0 <= i <= answers@.len(),
            av == answers_view(answers@),
            reason_fold(av.take(i as int), asdeps, quiet) == (strings_view(confirmations@), None::<Seq<char>>, None::<Seq<char>>),
        decreases answers@.len() - i,
    {
        let (name, o) = (&answers[i].0, &answers[i].1);
        proof {
            assert(av.take(i + 1).drop_last() =~= av.take(i as int));
            assert(av.take(i + 1).last() == (name@, *o));
        }
        match o {
            ReasonOutcome::NotFound => {
                proof {
                    lemma_reason_fold_stops(av, i + 1);
                }
                return DbReport::SetReason { confirmations, not_found: Some(name.clone()), set_reason_error: None };
            },
            ReasonOutcome::Failed(m) => {
                proof {
                    lemma_reason_fold_stops(av, i + 1);
                }
                return DbReport::SetReason { confirmations, not_found: None, set_reason_error: Some(m.clone()) };
            },
            ReasonOutcome::Changed => {
                if !quiet {
                    let mut l = name.clone();
                    push_str(&mut l, ": install reason has been set to '");
                    push_str(&mut l, if asdeps {
                        "dependency"
                    } else {
                        "explicitly installed"
                    });
                    push_str(&mut l, "'");
                    let ghost before = strings_view(confirmations@);
                    confirmations.push(l);
                    proof {
                        assert(strings_view(confirmations@) =~= before.push(reason_line(name@, asdeps)));
                    }
                }
            },
        }
        i = i + 1;
    }
    proof {
        assert(av.take(av.len() as int) =~= av);
    }
    DbReport::SetReason { confirmations, not_found: None, set_reason_error: None }
}

proof fn lemma_reason_fold_stops(av: Seq<(Seq<char>, ReasonOutcome)>, n: int)
    requires
        0 <= n <= av.len(),
        reason_fold(av.take(n), true, true).1 is Some || reason_fold(av.take(n), true, true).2 is Some,
    ensures
        forall|asdeps: bool, quiet: bool| #[trigger] reason_fold(av, asdeps, quiet) == reason_fold(av.take(n), asdeps, quiet),
    decreases av.len(),
{
    assert forall|asdeps: bool, quiet: bool| #[trigger] reason_fold(av, asdeps, quiet) == reason_fold(av.take(n), asdeps, quiet) by {
        lemma_reason_fold_prefix(av, n, asdeps, quiet);
    }
}

proof fn lemma_reason_stop_any(av: Seq<(Seq<char>, ReasonOutcome)>, a: bool, q: bool, b: bool, p: bool)
    ensures
        (reason_fold(av, a, q).1 is Some || reason_fold(av, a, q).2 is Some) == (reason_fold(av, b, p).1 is Some || reason_fold(av, b, p).2 is Some),
        reason_fold(av, a, q).1 == reason_fold(av, b, p).1,
        reason_fold(av, a, q).2 == reason_fold(av, b, p).2,
    decreases av.len(),
{
    if av.len() > 0 {
        lemma_reason_stop_any(av.drop_last(), a, q, b, p);
    }
}

proof fn lemma_reason_fold_prefix(av: Seq<(Seq<char>, ReasonOutcome)>, n: int, asdeps: bool, quiet: bool)
    requires
        0 <= n <= av.len(),
        reason_fold(av.take(n), true, true).1 is Some || reason_fold(av.take(n), true, true).2 is Some,
    ensures
        reason_fold(av, asdeps, quiet) == reason_fold(av.take(n), asdeps, quiet),
    decreases av.len(),
{
    lemma_reason_stop_any(av.take(n), asdeps, quiet, true, true);
    if n == av.len() {
        assert(av.take(n) =~= av);
    } else {
        let d = av.drop_last();
        assert(d.take(n) =~= av.take(n));
        lemma_reason_fold_prefix(d, n, asdeps, quiet);
    }
}

/// A dependency libalpm found missing, as `(dependency, target)`.
pub open spec fn missing_line(m: (Seq<char>, Seq<char>)) -> Seq<char> {
    "error: missing '"@ + m.0 + "' dependency for '"@ + m.1 + "'"@
}

/// A conflict libalpm found, as `(package, other package)`.
pub open spec fn conflict_line(c: (Seq<char>, Seq<char>)) -> Seq<char> {
    "error: '"@ + c.0 + "' conflicts with '"@ + c.1 + "'"@
}

pub open spec fn pairs(v: Seq<(String, String)>) -> Seq<(Seq<char>, Seq<char>)> {
    v.map_values(|p: (String, String)| (p.0@, p.1@))
}

fn push_pair_lines(out: &mut Vec<String>, v: &Vec<(String, String)>, conflict: bool)
    ensures
        strings_view(final(out)@) == strings_view(old(out)@) + pairs(v@).map_values(
            |p: (Seq<char>, Seq<char>)| if conflict {
                conflict_line(p)
            } else {
                missing_line(p)
            },
        ),
{
    let ghost start = strings_view(out@);
    let ghost pv = pairs(v@);
    let mut i: usize = 0;
    while i < v.len()
        invariant
            0 <= i <= v@.len(),
            pv == pairs(v@),
            strings_view(out@) == start + pv.take(i as int).map_values(
                |p: (Seq<char>, Seq<char>)| if conflict {
                    conflict_line(p)
                } else {
                    missing_line(p)
                },
            ),
        decreases v@.len() - i,
    {
        let mut l = if conflict {
            to_owned("error: '")
        } else {
            to_owned("error: missing '")
        };
        push_str(&mut l, v[i].0.as_str());
        push_str(&mut l, if conflict {
            "' conflicts with '"
        } else {
            "' dependency for '"
        });
        push_str(&mut l, v[i].1.as_str());
        push_str(&mut l, "'");
        let ghost before = strings_view(out@);
        out.push(l);
        proof {
            let p = pv[i as int];
            assert(p == (v@[i as int].0@, v@[i as int].1@));
            assert(pv.take(i + 1) =~= pv.take(i as int).push(p));
            assert(strings_view(out@) =~= before.push(l@));
        }
        i = i + 1;
    }
    proof {
        assert(pv.take(pv.len() as int) =~= pv);
    }
}

/// The `-Dk` report: a line for each missing dependency, then one for each
/// conflict, and their count.
pub fn check_report(missing: &Vec<(String, String)>, conflicts: &Vec<(String, String)>, quiet: bool) -> (r: DbReport)
    ensures
        r matches DbReport::Check { problems, count, quiet: q } && q == quiet && count == problems@.len()
            && strings_view(problems@) == pairs(missing@).map_values(|p: (Seq<char>, Seq<char>)| missing_line(p))
            + pairs(conflicts@).map_values(|p: (Seq<char>, Seq<char>)| conflict_line(p)),
{
    let mut problems: Vec<String> = Vec::new();
    push_pair_lines(&mut problems, missing, false);
    push_pair_lines(&mut problems, conflicts, true);
    proof {
        assert(pairs(missing@).map_values(|p: (Seq<char>, Seq<char>)| if false {
            conflict_line(p)
        } else {
            missing_line(p)
        }) =~= pairs(missing@).map_values(|p: (Seq<char>, Seq<char>)| missing_line(p)));
        assert(pairs(conflicts@).map_values(|p: (Seq<char>, Seq<char>)| if true {
            conflict_line(p)
        } else {
            missing_line(p)
        }) =~= pairs(conflicts@).map_values(|p: (Seq<char>, Seq<char>)| conflict_line(p)));
    }
    let count = problems.len();
    DbReport::Check { problems, count, quiet }
}

} // verus!
