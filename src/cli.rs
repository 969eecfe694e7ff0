use vstd::prelude::*;

verus! {

/// Where the first `c` at or after `from` stands in `s`; `s.len()` where
/// there is none.
pub open spec fn find_char(s: Seq<char>, c: char, from: int) -> int
    decreases s.len() - from,
{
    if from < 0 || from >= s.len() {
        s.len() as int
    } else if s[from] == c {
        from
    } else {
        find_char(s, c, from + 1)
    }
}

/// The value of an argument written `name=value`: what stands between its
/// first `=` and the `=` after it, or the end. `None` where it has no `=`.
pub open spec fn arg_value(s: Seq<char>) -> Option<Seq<char>> {
    let k = find_char(s, '=', 0);
    if k >= s.len() {
        None
    } else {
        Some(s.subrange(k + 1, find_char(s, '=', k + 1)))
    }
}

/// `p` occurs in `s` as a run of consecutive characters.
pub open spec fn has_infix(s: Seq<char>, p: Seq<char>) -> bool {
    exists|i: int| 0 <= i && i + p.len() <= s.len() && #[trigger] s.subrange(i, i + p.len()) == p
}

/// The setting an argument gives to the flag `name`: where the argument
/// mentions `name` and has a value, whether that value is `true`.
pub open spec fn flag_setting(s: Seq<char>, name: Seq<char>) -> Option<bool> {
    if has_infix(s, name) && arg_value(s) is Some {
        Some(arg_value(s)->0 == "true"@)
    } else {
        None
    }
}

/// The two flags after reading `args` in order, starting from a sink that
/// is not a source. An argument that sets the sink flag leaves the source
/// flag alone; a later argument overrides an earlier one.
pub open spec fn flags_after(args: Seq<Seq<char>>) -> (bool, bool)
    decreases args.len(),
{
    if args.len() == 0 {
        (true, false)
    } else {
        let prev = flags_after(args.drop_last());
        let a = args.last();
        match flag_setting(a, "init_client"@) {
            Some(v) => (v, prev.1),
            None => match flag_setting(a, "init_server"@) {
                Some(v) => (prev.0, v),
                None => prev,
            },
        }
    }
}

/// Where the first `c` at or after `from` stands in `s`.
fn find_char_exec(s: &str, c: char, from: usize) -> (r: usize)
    requires
        from <= s@.len(),
    ensures
        r as int == find_char(s@, c, from as int),
{
    let n = s.unicode_len();
    let mut i = from;
    while i < n
        invariant
            n == s@.len(),
            from <= i <= n,
            find_char(s@, c, from as int) == find_char(s@, c, i as int),
        decreases n - i,
    {
        if s.get_char(i) == c {
            return i;
        }
        i = i + 1;
    }
    i
}

/// Whether `p` stands in `s` from position `at` on.
fn occurs_at(s: &str, p: &str, at: usize) -> (r: bool)
    requires
        at + p@.len() <= s@.len(),
        s@.len() <= usize::MAX,
    ensures
        r == (s@.subrange(at as int, at + p@.len()) == p@),
{
    let m = p.unicode_len();
    let mut j: usize = 0;
    while j < m
        invariant
            m == p@.len(),
            at + m <= s@.len(),
            s@.len() <= usize::MAX,
            j <= m,
            forall|k: int| 0 <= k < j ==> s@[at + k] == p@[k],
        decreases m - j,
    {
        if s.get_char(at + j) != p.get_char(j) {
            proof {
                assert(s@.subrange(at as int, at + p@.len())[j as int] != p@[j as int]);
            }
            return false;
        }
        j = j + 1;
    }
    proof {
        assert(s@.subrange(at as int, at + p@.len()) =~= p@);
    }
    true
}

/// Whether `p` occurs in `s`.
fn contains_str(s: &str, p: &str) -> (r: bool)
    ensures
        r == has_infix(s@, p@),
{
    let n = s.unicode_len();
    let m = p.unicode_len();
    if m > n {
        return false;
    }
    let mut i: usize = 0;
    while i <= n - m
        invariant
            n == s@.len(),
            m == p@.len(),
            m <= n,
            i <= n - m + 1,
            forall|k: int| 0 <= k < i ==> #[trigger] s@.subrange(k, k + m) != p@,
        decreases n - m + 1 - i,
    {
        if occurs_at(s, p, i) {
            return true;
        }
        if i == n - m {
            return false;
        }
        i = i + 1;
    }
    false
}

/// Whether `value` is `true`.
pub fn parse_value(value: &str) -> (r: bool)
    ensures
        r == (value@ == "true"@),
{
    proof {
        reveal_strlit("true");
    }
    let t = "true";
    if value.unicode_len() != 4 {
        return false;
    }
    let r = occurs_at(value, t, 0);
    proof {
        assert(value@.subrange(0, 4) =~= value@);
    }
    r
}

/// The settings one argument gives to the sink flag and the source flag.
pub fn parse_arg(argument: String) -> (r: (Option<bool>, Option<bool>))
    ensures
        r.0 == flag_setting(argument@, "init_client"@),
        r.1 == flag_setting(argument@, "init_server"@),
{
    let s = argument.as_str();
    let n = s.unicode_len();
    let k = find_char_exec(s, '=', 0);
    if k >= n {
        return (None, None);
    }
    let end = find_char_exec(s, '=', k + 1);
    proof {
        assert(k + 1 <= end <= n) by {
            lemma_find_char_bounds(s@, '=', k + 1);
        }
    }
    let value = s.substring_char(k + 1, end);
    let v = parse_value(value);
    let mut init_client = None;
    let mut init_server = None;
    if contains_str(s, "init_client") {
        init_client = Some(v);
    }
    if contains_str(s, "init_server") {
        init_server = Some(v);
    }
    (init_client, init_server)
}

proof fn lemma_find_char_bounds(s: Seq<char>, c: char, from: int)
    requires
        0 <= from <= s.len(),
    ensures
        from <= find_char(s, c, from) <= s.len(),
    decreases s.len() - from,
{
    if from < s.len() && s[from] != c {
        lemma_find_char_bounds(s, c, from + 1);
    }
}

/// The views of a sequence of strings.
pub open spec fn arg_views(v: Seq<String>) -> Seq<Seq<char>> {
    v.map_values(|s: String| s@)
}

/// Whether this process downloads (first) and whether it serves files
/// (second), read from its arguments in order.
pub fn parse_args(arguments: Vec<String>) -> (r: (bool, bool))
    ensures
        r == flags_after(arg_views(arguments@)),
{
    let mut init_client = true;
    let mut init_server = false;
    let mut i: usize = 0;
    while i < arguments.len()
        invariant
            i <= arguments@.len(),
            (init_client, init_server) == flags_after(arg_views(arguments@.subrange(0, i as int))),
        decreases arguments@.len() - i,
    {
        proof {
            let next = arg_views(arguments@.subrange(0, i + 1));
            assert(next.drop_last() =~= arg_views(arguments@.subrange(0, i as int)));
            assert(next.last() == arguments@[i as int]@);
        }
        let res = parse_arg(arguments[i].clone());
        if let Some(init_client_res) = res.0 {
            init_client = init_client_res;
        } else if let Some(init_server_res) = res.1 {
            init_server = init_server_res;
        }
        i = i + 1;
    }
    proof {
        assert(arguments@.subrange(0, i as int) =~= arguments@);
    }
    (init_client, init_server)
}

} // verus!
