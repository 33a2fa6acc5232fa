//! Client commands: the program, its arguments and its extra
//! environment, built from an argument vector or from an exec
//! string (`VAR=value ... program arg ...`, split on white space, no
//! quoting).  Process creation itself happens where the operating
//! system is.

use vstd::prelude::*;
use crate::text::{
    find_char, index_of, is_white, is_whitespace, lemma_index_of, owned, string_push, substring,
    views, contains_char,
};

verus! {

/// One environment entry for the child.
#[derive(Debug, Clone, PartialEq, Eq)]
pub struct EnvVar {
    pub key: String,
    pub value: String,
}

/// A client command under construction.
#[derive(Debug, Clone, PartialEq, Eq)]
pub struct Command {
    pub program: String,
    pub args: Vec<String>,
    pub env: Vec<EnvVar>,
}

/// The white-space separated words of `s` (`str::split_whitespace`).
pub open spec fn words(s: Seq<char>) -> Seq<Seq<char>>
    decreases s.len(),
{
    if s.len() == 0 {
        Seq::empty()
    } else {
        let r = words(s.drop_last());
        let c = s.last();
        if is_white(c) {
            r
        } else if s.len() >= 2 && !is_white(s[s.len() - 2]) {
            r.update(r.len() - 1, r.last().push(c))
        } else {
            r.push(seq![c])
        }
    }
}

proof fn lemma_words_nonempty(s: Seq<char>)
    requires
        s.len() >= 1,
        !is_white(s.last()),
    ensures
        words(s).len() >= 1,
    decreases s.len(),
{
    if s.len() >= 2 && !is_white(s[s.len() - 2]) {
        assert(s.drop_last().last() == s[s.len() - 2]);
        lemma_words_nonempty(s.drop_last());
    }
}

/// `str::split_whitespace`, owned.
pub fn split_whitespace(s: &str) -> (r: Vec<String>)
    ensures
        views(r@) == words(s@),
{
    let n = s.unicode_len();
    let mut out: Vec<String> = Vec::new();
    let mut cur = String::new();
    let mut i: usize = 0;
    while i < n
        invariant
            i <= n,
            n == s@.len(),
            i > 0 && !is_white(s@[i - 1]) ==> cur@.len() > 0 && views(out@).push(cur@) == words(
                s@.take(i as int),
            ),
            !(i > 0 && !is_white(s@[i - 1])) ==> cur@.len() == 0 && views(out@) == words(
                s@.take(i as int),
            ),
        decreases n - i,
    {
        let c = s.get_char(i);
        let ghost t = s@.take(i + 1);
        assert(t.drop_last() =~= s@.take(i as int));
        assert(t.last() == c);
        if is_whitespace(c) {
            if cur.unicode_len() > 0 {
                let ghost before = views(out@);
                out.push(cur);
                assert(views(out@) =~= before.push(cur@));
                cur = String::new();
            }
        } else {
            let ghost before = views(out@);
            let ghost old_cur = cur@;
            string_push(&mut cur, c);
            proof {
                if i > 0 && !is_white(s@[i - 1]) {
                    assert(t[t.len() - 2] == s@[i - 1]);
                    assert(views(out@).push(cur@) =~= before.push(old_cur).update(
                        before.len() as int,
                        old_cur.push(c),
                    ));
                } else {
                    if i > 0 {
                        assert(t[t.len() - 2] == s@[i - 1]);
                    }
                    assert(cur@ =~= seq![c]);
                }
            }
        }
        i += 1;
    }
    assert(s@.take(n as int) =~= s@);
    if cur.unicode_len() > 0 {
        let ghost before = views(out@);
        out.push(cur);
        assert(views(out@) =~= before.push(cur@));
    }
    out
}

/// A word is an environment assignment when it holds `=` after a
/// non-empty key without `/` (a path such as `/opt/w=x/app` is not).
pub open spec fn is_assignment(w: Seq<char>) -> bool {
    match index_of(w, '=') {
        Some(j) => j > 0 && !w.subrange(0, j).contains('/'),
        None => false,
    }
}

/// The number of leading assignments from index `i`.
pub open spec fn assignments_from(ws: Seq<Seq<char>>, i: int) -> int
    decreases ws.len() - i,
{
    if i < 0 || i >= ws.len() {
        if i < 0 { 0 } else { ws.len() as int }
    } else if is_assignment(ws[i]) {
        assignments_from(ws, i + 1)
    } else {
        i
    }
}

/// The key and value of an assignment word.
pub open spec fn assignment_key(w: Seq<char>) -> Seq<char> {
    w.subrange(0, index_of(w, '=')->0)
}

pub open spec fn assignment_value(w: Seq<char>) -> Seq<char> {
    w.subrange(index_of(w, '=')->0 + 1, w.len() as int)
}

proof fn lemma_assignments_from(ws: Seq<Seq<char>>, i: int)
    requires
        0 <= i <= ws.len(),
    ensures
        i <= assignments_from(ws, i) <= ws.len(),
        forall|k: int| i <= k < assignments_from(ws, i) ==> is_assignment(#[trigger] ws[k]),
        assignments_from(ws, i) < ws.len() ==> !is_assignment(ws[assignments_from(ws, i)]),
    decreases ws.len() - i,
{
    if i < ws.len() && is_assignment(ws[i]) {
        lemma_assignments_from(ws, i + 1);
    }
}

fn assignment_split(w: &str) -> (r: Option<EnvVar>)
    ensures
        match r {
            Some(e) => is_assignment(w@) && e.key@ == assignment_key(w@) && e.value@
                == assignment_value(w@),
            None => !is_assignment(w@),
        },
{
    proof {
        lemma_index_of(w@, '=');
    }
    match find_char(w, '=') {
        None => None,
        Some(j) => {
            let n = w.unicode_len();
            let key = substring(w, 0, j);
            if j == 0 || contains_char(key.as_str(), '/') {
                None
            } else {
                let value = substring(w, j + 1, n);
                Some(EnvVar { key, value })
            }
        },
    }
}

/// The leading assignment words, split into entries.
fn env_prefix(words_v: &Vec<String>, Ghost(ws): Ghost<Seq<Seq<char>>>) -> (env: Vec<EnvVar>)
    requires
        views(words_v@) == ws,
    ensures
        env@.len() == assignments_from(ws, 0),
        forall|k: int|
            #![trigger env@[k]]
            0 <= k < env@.len() ==> env@[k].key@ == assignment_key(ws[k])
                && env@[k].value@ == assignment_value(ws[k]),
{
    proof {
        lemma_assignments_from(ws, 0);
    }
    let mut env: Vec<EnvVar> = Vec::new();
    let mut i: usize = 0;
    while i < words_v.len()
        invariant
            i <= words_v@.len(),
            views(words_v@) == ws,
            env@.len() == i,
            assignments_from(ws, 0) == assignments_from(ws, i as int),
            forall|k: int|
                #![trigger env@[k]]
                0 <= k < i ==> env@[k].key@ == assignment_key(ws[k]) && env@[k].value@
                    == assignment_value(ws[k]),
        decreases words_v@.len() - i,
    {
        assert(words_v@[i as int]@ == ws[i as int]);
        match assignment_split(words_v[i].as_str()) {
            Some(e) => {
                env.push(e);
            },
            None => {
                return env;
            },
        }
        i += 1;
    }
    env
}

impl Command {
    /// An empty command for `program`.
    pub fn new(program: &str) -> (c: Command)
        ensures
            c.program@ == program@,
            c.args@.len() == 0,
            c.env@.len() == 0,
    {
        Command { program: owned(program), args: Vec::new(), env: Vec::new() }
    }

    /// From an argument vector: the first entry is the program.
    pub fn from_argv(argv: &Vec<String>) -> (r: Option<Command>)
        ensures
            match r {
                Some(c) => argv@.len() > 0 && c.program@ == argv@[0]@ && views(c.args@) == views(
                    argv@,
                ).skip(1) && c.env@.len() == 0,
                None => argv@.len() == 0,
            },
    {
        if argv.len() == 0 {
            return None;
        }
        let mut args: Vec<String> = Vec::new();
        let mut i: usize = 1;
        while i < argv.len()
            invariant
                1 <= i <= argv@.len(),
                views(args@) == views(argv@).subrange(1, i as int),
            decreases argv@.len() - i,
        {
            let ghost before = views(args@);
            let x = argv[i].clone();
            args.push(x);
            assert(views(args@) =~= before.push(argv@[i as int]@));
            assert(views(argv@).subrange(1, i + 1) =~= views(argv@).subrange(1, i as int).push(
                argv@[i as int]@,
            ));
            i += 1;
        }
        assert(views(argv@).subrange(1, i as int) =~= views(argv@).skip(1));
        Some(Command { program: argv[0].clone(), args, env: Vec::new() })
    }

    /// From an exec string: leading assignment words become child
    /// environment entries, the next word is the program and the rest
    /// its arguments.  `None` when no program word is left.
    pub fn from_exec_string(s: &str) -> (r: Option<Command>)
        ensures
            ({
                let ws = words(s@);
                let n = assignments_from(ws, 0);
                match r {
                    Some(c) => {
                        &&& n < ws.len()
                        &&& c.program@ == ws[n]
                        &&& views(c.args@) == ws.skip(n + 1)
                        &&& c.env@.len() == n
                        &&& forall|k: int|
                            #![trigger c.env@[k]]
                            0 <= k < n ==> c.env@[k].key@ == assignment_key(ws[k])
                                && c.env@[k].value@ == assignment_value(ws[k])
                    },
                    None => n >= ws.len(),
                }
            }),
    {
        let words_v = split_whitespace(s);
        let ghost ws = words(s@);
        proof {
            lemma_assignments_from(ws, 0);
        }
        let env = env_prefix(&words_v, Ghost(ws));
        let i = env.len();
        proof {
            lemma_assignments_from(ws, i as int);
        }
        if i >= words_v.len() {
            return None;
        }
        assert(words_v@[i as int]@ == ws[i as int]);
        let program = words_v[i].clone();
        let mut args: Vec<String> = Vec::new();
        let mut k: usize = i + 1;
        while k < words_v.len()
            invariant
                i < k <= words_v@.len(),
                views(words_v@) == ws,
                views(args@) == ws.subrange(i + 1, k as int),
            decreases words_v@.len() - k,
        {
            assert(words_v@[k as int]@ == ws[k as int]);
            let ghost before = views(args@);
            let x = words_v[k].clone();
            args.push(x);
            assert(views(args@) =~= before.push(ws[k as int]));
            assert(ws.subrange(i + 1, k + 1) =~= ws.subrange(i + 1, k as int).push(ws[k as int]));
            k += 1;
        }
        assert(ws.subrange(i + 1, k as int) =~= ws.skip(i + 1));
        Some(Command { program, args, env })
    }

    /// Add an environment entry for the child.
    pub fn env(self, key: &str, value: &str) -> (c: Command)
        ensures
            c.program == self.program,
            c.args == self.args,
            c.env@.len() == self.env@.len() + 1,
            forall|k: int| 0 <= k < self.env@.len() ==> #[trigger] c.env@[k] == self.env@[k],
            c.env@.last().key@ == key@,
            c.env@.last().value@ == value@,
    {
        let mut c = self;
        c.env.push(EnvVar { key: owned(key), value: owned(value) });
        c
    }

    /// Add an argument.
    pub fn arg(self, a: &str) -> (c: Command)
        ensures
            c.program == self.program,
            c.env == self.env,
            c.args@.len() == self.args@.len() + 1,
            forall|k: int| 0 <= k < self.args@.len() ==> #[trigger] c.args@[k] == self.args@[k],
            c.args@.last()@ == a@,
    {
        let mut c = self;
        c.args.push(owned(a));
        c
    }
}

} // verus!
