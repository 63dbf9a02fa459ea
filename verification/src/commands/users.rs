//! The `who` / `users` built-in: lists the authenticated users.

use vstd::prelude::*;

verus! {

use crate::format::wrap_section;
use crate::lexer::Command;
use crate::strutil::{append_line, join_line};
use vstd::string::StrSliceExecFns;

pub open spec fn users_body(users: Seq<Seq<char>>) -> Seq<char>
    decreases users.len(),
{
    if users.len() == 0 {
        Seq::empty()
    } else {
        join_line(users_body(users.drop_last()), users.last())
    }
}

/// What `who` emits: the user names, one per line, in a Normal section;
/// with arguments it emits nothing and fails.
pub open spec fn users_spec(args: Seq<Seq<char>>, users: Seq<Seq<char>>) -> (Seq<char>, bool) {
    if args.len() == 1 {
        ("?&N"@ + users_body(users) + "\n\n"@, true)
    } else {
        (Seq::<char>::empty(), false)
    }
}

pub struct ListUsers {
    pub command: Command,
    pub users_list: Vec<String>,
}

impl ListUsers {
    pub fn new(cmd: Command, users: Vec<String>) -> (r: ListUsers)
        ensures
            r.command@ == cmd@,
            r.users_list@ == users@,
    {
        ListUsers { command: cmd, users_list: users }
    }

    #[verifier::loop_isolation(false)]
    pub fn get_output(&self) -> (r: (String, bool))
        ensures
            r.0@ == users_spec(self.command@.args, self.users_list.deep_view()).0,
            r.1 == users_spec(self.command@.args, self.users_list.deep_view()).1,
    {
        let ghost uv = self.users_list.deep_view();
        if self.command.cmd.len() == 1 {
            let mut output = String::new();
            let mut i: usize = 0;
            proof {
                assert(uv.take(0) =~= Seq::<Seq<char>>::empty());
                assert(output@ =~= users_body(uv.take(0)));
            }
            while i < self.users_list.len()
                invariant
                    i <= self.users_list.len(),
                    output@ == users_body(uv.take(i as int)),
                decreases self.users_list.len() - i,
            {
                proof {
                    assert(uv.take(i + 1).drop_last() =~= uv.take(i as int));
                    assert(uv.take(i + 1).last() == uv[i as int]);
                }
                append_line(&mut output, self.users_list[i].as_str());
                i += 1;
            }
            proof {
                assert(uv.take(self.users_list.len() as int) =~= uv);
            }
            let wrapped = wrap_section("?&N", output.as_str());
            (wrapped, true)
        } else {
            let empty = String::new();
            (empty, false)
        }
    }
}

} // verus!
