//! The `echo` built-in: repeats its arguments as a Normal section.

use vstd::prelude::*;

verus! {

use crate::format::wrap_section;
use crate::lexer::Command;
use vstd::string::StrSliceExecFns;
use vstd::string::StringExecFns;

/// The body of an echo: each non-empty argument preceded by one space.
pub open spec fn echo_body(rest: Seq<Seq<char>>) -> Seq<char>
    decreases rest.len(),
{
    if rest.len() == 0 {
        Seq::empty()
    } else {
        echo_body(rest.drop_last()) + (if rest.last().len() > 0 {
            seq![' '] + rest.last()
        } else {
            Seq::<char>::empty()
        })
    }
}

/// What `echo` emits: its arguments space-joined, in a Normal section.
pub open spec fn echo_spec(args: Seq<Seq<char>>) -> Seq<char> {
    "?&N"@ + echo_body(args.skip(1)) + "\n\n"@
}

pub struct Echo {
    pub command: Command,
}

impl Echo {
    pub fn new(cmd: Command) -> (r: Echo)
        ensures
            r.command@ == cmd@,
    {
        Echo { command: cmd }
    }

    #[verifier::loop_isolation(false)]
    pub fn get_output(&self) -> (r: (String, bool))
        requires
            self.command@.args.len() >= 1,
        ensures
            r.0@ == echo_spec(self.command@.args),
            r.1 == true,
    {
        let ghost rest = self.command@.args.skip(1);
        let mut output = String::new();
        let mut i: usize = 1;
        proof {
            reveal_strlit(" ");
            assert(rest.take(0) =~= Seq::<Seq<char>>::empty());
            assert(output@ =~= echo_body(rest.take(0)));
        }
        while i < self.command.cmd.len()
            invariant
                1 <= i <= self.command.cmd.len(),
                output@ == echo_body(rest.take(i - 1)),
            decreases self.command.cmd.len() - i,
        {
            let ghost pre = output@;
            proof {
                assert(rest.take(i as int).drop_last() =~= rest.take(i - 1));
                assert(rest.take(i as int).last() == self.command@.args[i as int]);
            }
            if self.command.cmd[i].as_str().unicode_len() > 0 {
                output.append(" ");
                output.append(self.command.cmd[i].as_str());
                proof {
                    assert(output@ =~= pre + (seq![' '] + self.command@.args[i as int]));
                    assert(" "@ =~= seq![' ']);
                }
            } else {
                proof {
                    assert(pre + Seq::<char>::empty() =~= pre);
                }
            }
            i += 1;
        }
        proof {
            assert(rest.take(self.command.cmd.len() - 1) =~= rest);
        }
        let wrapped = wrap_section("?&N", output.as_str());
        (wrapped, true)
    }
}

} // verus!
