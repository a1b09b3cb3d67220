use vstd::prelude::*;

use crate::apply::result_view_of;
use crate::text::{contains_sub, str_contains};
use crate::{ParsedTestCase, ParsedTestCaseV, PlannerTestRunner};

verus! {

// A demonstration runner: it does not understand the cases, it only
// echoes, per requested task, what it was given.

/// A database that cannot plan anything.
pub struct NaiveDb {}

impl NaiveDb {
    /// A fresh naive database.
    pub fn new() -> (r: Self)
        ensures
            r == (NaiveDb {  }),
    {
        NaiveDb {  }
    }
}

impl Default for NaiveDb {
    /// The same fresh naive database.
    fn default() -> (r: Self)
        ensures
            r == (NaiveDb {  }),
    {
        NaiveDb {  }
    }
}

/// The lines of the case's "before" fragments, one per line, in order.
pub open spec fn before_lines(before_sql: Seq<Seq<char>>) -> Seq<char>
    decreases before_sql.len(),
{
    if before_sql.len() == 0 {
        Seq::empty()
    } else {
        before_lines(before_sql.drop_last()) + before_sql.last() + "\n"@
    }
}

/// What the naive database echoes for one requested task.
pub open spec fn task_block(tc: ParsedTestCaseV, task: Seq<char>) -> Seq<char> {
    "=== "@ + task + "\n"@ + "I'm a naive db, so I don't now how to process\n"@ + before_lines(
        tc.before_sql,
    ) + tc.sql + "\n"@ + "\n"@
}

/// The blocks for the tasks of one case, in order.
pub open spec fn task_blocks(tc: ParsedTestCaseV, tasks: Seq<Seq<char>>) -> Seq<char>
    decreases tasks.len(),
{
    if tasks.len() == 0 {
        Seq::empty()
    } else {
        task_blocks(tc, tasks.drop_last()) + task_block(tc, tasks.last())
    }
}

/// The naive database's whole answer text for one case.
pub open spec fn naive_response(tc: ParsedTestCaseV) -> Seq<char> {
    task_blocks(tc, tc.tasks)
}

/// The naive database's result: its answer text, unless the case's body
/// asks for a failure.
pub open spec fn naive_result(tc: ParsedTestCaseV) -> Result<Seq<char>, Seq<char>> {
    if contains_sub(tc.sql, "ERROR"@) {
        Err("Ooops, error!"@)
    } else if contains_sub(tc.sql, "PANIC"@) {
        Err("I'm panic!"@)
    } else {
        Ok(naive_response(tc))
    }
}

impl NaiveDb {
    /// Echoes, per requested task, the case handed to it; a body that
    /// contains "ERROR" or "PANIC" fails with the matching message.
    pub fn respond(&mut self, test_case: &ParsedTestCase) -> (r: Result<String, String>)
        ensures
            result_view_of(r) == naive_result(test_case.deep_view()),
    {
        let ghost tcv = test_case.deep_view();
        let mut result = String::new();
        let mut t: usize = 0;
        proof {
            assert(tcv.tasks.take(0) =~= Seq::<Seq<char>>::empty());
        }
        while t < test_case.tasks.len()
            invariant
                0 <= t <= test_case.tasks.len(),
                tcv == test_case.deep_view(),
                tcv.tasks.len() == test_case.tasks@.len(),
                tcv.before_sql.len() == test_case.before_sql@.len(),
                result@ == task_blocks(tcv, tcv.tasks.take(t as int)),
            decreases test_case.tasks.len() - t,
        {
            let ghost head = result@;
            result.append("=== ");
            result.append(test_case.tasks[t].as_str());
            result.append("\n");
            result.append("I'm a naive db, so I don't now how to process\n");
            let ghost before_start = result@;
            let mut b: usize = 0;
            proof {
                assert(tcv.before_sql.take(0) =~= Seq::<Seq<char>>::empty());
                assert(result@ =~= before_start + before_lines(tcv.before_sql.take(0)));
            }
            while b < test_case.before_sql.len()
                invariant
                    0 <= b <= test_case.before_sql.len(),
                    tcv == test_case.deep_view(),
                    tcv.before_sql.len() == test_case.before_sql@.len(),
                    result@ == before_start + before_lines(tcv.before_sql.take(b as int)),
                decreases test_case.before_sql.len() - b,
            {
                result.append(test_case.before_sql[b].as_str());
                result.append("\n");
                b += 1;
                proof {
                    assert(tcv.before_sql.take(b as int).drop_last() =~= tcv.before_sql.take(
                        b - 1,
                    ));
                    assert(tcv.before_sql.take(b as int).last() == tcv.before_sql[b - 1]);
                    assert(result@ =~= before_start + before_lines(tcv.before_sql.take(b as int)));
                }
            }
            result.append(test_case.sql.as_str());
            result.append("\n");
            result.append("\n");
            t += 1;
            proof {
                assert(tcv.before_sql.take(tcv.before_sql.len() as int) =~= tcv.before_sql);
                assert(tcv.tasks.take(t as int).drop_last() =~= tcv.tasks.take(t - 1));
                assert(tcv.tasks.take(t as int).last() == tcv.tasks[t - 1]);
                assert(result@ =~= head + task_block(tcv, tcv.tasks[t - 1]));
                assert(result@ =~= task_blocks(tcv, tcv.tasks.take(t as int)));
            }
        }
        proof {
            assert(tcv.tasks.take(tcv.tasks.len() as int) =~= tcv.tasks);
        }
        if str_contains(test_case.sql.as_str(), "ERROR") {
            return Err("Ooops, error!".to_owned());
        }
        if str_contains(test_case.sql.as_str(), "PANIC") {
            return Err("I'm panic!".to_owned());
        }
        Ok(result)
    }
}

impl PlannerTestRunner for NaiveDb {
    fn run(&mut self, test_case: &ParsedTestCase) -> (r: Result<String, String>) {
        self.respond(test_case)
    }
}

} // verus!
