//! The UTF-16 command line handed to Windows when the packaged app is
//! activated: every argument quoted and escaped so that the C runtime's
//! argument rules give back exactly the arguments that went in.
use vstd::prelude::*;

verus! {

pub const BACKSLASH: u16 = 92;

pub const QUOTE: u16 = 34;

pub const SPACE: u16 = 32;

pub const TAB: u16 = 9;

pub const NUL_IN_ARGUMENT_MESSAGE: &'static str = "ChatGPT 参数包含空字符";

pub open spec fn backslashes(n: nat) -> Seq<u16> {
    Seq::new(n, |i: int| BACKSLASH)
}

/// How many backslashes `s` begins with.
pub open spec fn leading_backslashes(s: Seq<u16>) -> nat
    decreases s.len(),
{
    if s.len() > 0 && s[0] == BACKSLASH {
        1 + leading_backslashes(s.drop_first())
    } else {
        0
    }
}

pub proof fn lemma_leading_backslashes_bound(s: Seq<u16>)
    ensures
        leading_backslashes(s) <= s.len(),
        forall|i: int| 0 <= i < leading_backslashes(s) ==> s[i] == BACKSLASH,
        leading_backslashes(s) < s.len() ==> s[leading_backslashes(s) as int] != BACKSLASH,
    decreases s.len(),
{
    if s.len() > 0 && s[0] == BACKSLASH {
        lemma_leading_backslashes_bound(s.drop_first());
        assert forall|i: int| 0 <= i < leading_backslashes(s) implies s[i] == BACKSLASH by {
            if i > 0 {
                assert(s[i] == s.drop_first()[i - 1]);
            }
        }
    }
}

pub proof fn lemma_leading_backslashes_exact(s: Seq<u16>, k: nat)
    requires
        k <= s.len(),
        forall|i: int| 0 <= i < k ==> s[i] == BACKSLASH,
        k == s.len() || s[k as int] != BACKSLASH,
    ensures
        leading_backslashes(s) == k,
    decreases k,
{
    if k > 0 {
        let t = s.drop_first();
        assert forall|i: int| 0 <= i < k - 1 implies t[i] == BACKSLASH by {
            assert(t[i] == s[i + 1]);
        }
        lemma_leading_backslashes_exact(t, (k - 1) as nat);
    }
}

/// The escaped text of one argument between its quotes: a run of backslashes
/// is doubled when a quote or the closing quote follows it, and a quote gets
/// one more backslash in front of it.
pub open spec fn quoted_body(a: Seq<u16>) -> Seq<u16>
    decreases a.len(),
{
    let n = leading_backslashes(a);
    if n >= a.len() {
        backslashes(2 * n)
    } else {
        let c = a[n as int];
        let run = if c == QUOTE {
            2 * n + 1
        } else {
            n
        };
        proof {
            lemma_leading_backslashes_bound(a);
        }
        backslashes(run) + seq![c] + quoted_body(a.skip(n as int + 1))
    }
}

/// One argument in quotes.
pub open spec fn quoted_argument(a: Seq<u16>) -> Seq<u16> {
    seq![QUOTE] + quoted_body(a) + seq![QUOTE]
}

/// The quoted arguments, separated by single spaces.
pub open spec fn joined_arguments(args: Seq<Seq<u16>>) -> Seq<u16>
    decreases args.len(),
{
    if args.len() == 0 {
        Seq::<u16>::empty()
    } else if args.len() == 1 {
        quoted_argument(args[0])
    } else {
        quoted_argument(args[0]) + seq![SPACE] + joined_arguments(args.drop_first())
    }
}

pub open spec fn contains_nul(args: Seq<Seq<u16>>) -> bool {
    exists|i: int, j: int| 0 <= i < args.len() && 0 <= j < args[i].len() && #[trigger] args[i][j] == 0
}

/// How the C runtime splits a command line into arguments, by its documented
/// rules for the arguments after the program name: white space outside quotes
/// separates arguments; `2n` backslashes before a quote give `n` backslashes
/// and the quote opens or closes a quoted part; `2n + 1` backslashes before a
/// quote give `n` backslashes and a literal quote; other backslashes are literal.
pub open spec fn split_command_line(s: Seq<u16>) -> Seq<Seq<u16>> {
    split_from(s, false, Seq::<u16>::empty(), false, Seq::<Seq<u16>>::empty())
}

/// The rest of the splitting: `quoted` tells whether a quoted part is open,
/// `current` is the argument being read, `started` whether one is being read,
/// and `done` the arguments read so far.
pub open spec fn split_from(
    s: Seq<u16>,
    quoted: bool,
    current: Seq<u16>,
    started: bool,
    done: Seq<Seq<u16>>,
) -> Seq<Seq<u16>>
    decreases s.len(),
{
    if s.len() == 0 {
        if started {
            done.push(current)
        } else {
            done
        }
    } else {
        let n = leading_backslashes(s);
        proof {
            lemma_leading_backslashes_bound(s);
        }
        if n < s.len() && s[n as int] == QUOTE {
            if n % 2 == 0 {
                split_from(s.skip(n as int + 1), !quoted, current + backslashes(n / 2), true, done)
            } else {
                split_from(
                    s.skip(n as int + 1),
                    quoted,
                    current + backslashes(n / 2) + seq![QUOTE],
                    true,
                    done,
                )
            }
        } else if n > 0 {
            split_from(s.skip(n as int), quoted, current + backslashes(n), true, done)
        } else if !quoted && (s[0] == SPACE || s[0] == TAB) {
            if started {
                split_from(s.skip(1), false, Seq::<u16>::empty(), false, done.push(current))
            } else {
                split_from(s.skip(1), false, current, false, done)
            }
        } else {
            split_from(s.skip(1), quoted, current.push(s[0]), true, done)
        }
    }
}

proof fn lemma_leading_of_run(run: nat, c: u16, rest: Seq<u16>)
    requires
        c != BACKSLASH,
    ensures
        leading_backslashes(backslashes(run) + seq![c] + rest) == run,
        (backslashes(run) + seq![c] + rest)[run as int] == c,
        (backslashes(run) + seq![c] + rest).skip(run as int + 1) == rest,
        (backslashes(run) + seq![c] + rest).skip(run as int) == seq![c] + rest,
{
    let s = backslashes(run) + seq![c] + rest;
    lemma_leading_backslashes_exact(s, run);
    assert(s.skip(run as int + 1) =~= rest);
    assert(s.skip(run as int) =~= seq![c] + rest);
}

/// Reading the escaped text of an argument inside an open quoted part, up to
/// its closing quote, appends exactly the argument and closes the quoted part.
pub proof fn lemma_split_quoted_body(
    a: Seq<u16>,
    tail: Seq<u16>,
    current: Seq<u16>,
    done: Seq<Seq<u16>>,
)
    ensures
        split_from(quoted_body(a) + seq![QUOTE] + tail, true, current, true, done) == split_from(
            tail,
            false,
            current + a,
            true,
            done,
        ),
    decreases a.len(),
{
    let n = leading_backslashes(a);
    lemma_leading_backslashes_bound(a);
    let s = quoted_body(a) + seq![QUOTE] + tail;
    if n >= a.len() {
        assert(a =~= backslashes(n));
        assert(s =~= backslashes(2 * n) + seq![QUOTE] + tail);
        lemma_leading_of_run(2 * n, QUOTE, tail);
        assert((2 * n) % 2 == 0);
        assert((2 * n) / 2 == n);
        assert(split_from(s, true, current, true, done) == split_from(
            tail,
            false,
            current + backslashes(n),
            true,
            done,
        ));
    } else {
        let c = a[n as int];
        let rest = a.skip(n as int + 1);
        assert(a =~= backslashes(n) + seq![c] + rest);
        let after = quoted_body(rest) + seq![QUOTE] + tail;
        let grown = current + backslashes(n) + seq![c];
        lemma_split_quoted_body(rest, tail, grown, done);
        assert(grown + rest =~= current + a);
        if c == QUOTE {
            assert(s =~= backslashes(2 * n + 1) + seq![QUOTE] + after);
            lemma_leading_of_run(2 * n + 1, QUOTE, after);
            assert((2 * n + 1) % 2 == 1);
            assert((2 * n + 1) / 2 == n);
            assert(split_from(s, true, current, true, done) == split_from(
                after,
                true,
                grown,
                true,
                done,
            ));
        } else {
            assert(s =~= backslashes(n) + seq![c] + after);
            let t = seq![c] + after;
            lemma_leading_of_run(0, c, after);
            assert(backslashes(0) + seq![c] + after =~= t);
            assert(leading_backslashes(t) == 0);
            assert(t.skip(1) =~= after);
            assert(t[0] == c);
            assert((current + backslashes(n)).push(c) =~= grown);
            assert(split_from(t, true, current + backslashes(n), true, done) == split_from(
                after,
                true,
                grown,
                true,
                done,
            ));
            if n == 0 {
                assert(s =~= t);
                assert(current + backslashes(0) =~= current);
            } else {
                lemma_leading_of_run(n, c, after);
                assert(split_from(s, true, current, true, done) == split_from(
                    t,
                    true,
                    current + backslashes(n),
                    true,
                    done,
                ));
            }
        }
    }
}

proof fn lemma_split_joined(args: Seq<Seq<u16>>, done: Seq<Seq<u16>>)
    ensures
        split_from(joined_arguments(args), false, Seq::<u16>::empty(), false, done) == done + args,
    decreases args.len(),
{
    if args.len() == 0 {
        assert(done + args =~= done);
    } else {
        let a = args[0];
        let rest = args.drop_first();
        let tail = if args.len() == 1 {
            Seq::<u16>::empty()
        } else {
            seq![SPACE] + joined_arguments(rest)
        };
        let s = joined_arguments(args);
        assert(s =~= seq![QUOTE] + (quoted_body(a) + seq![QUOTE] + tail));
        lemma_leading_of_run(0, QUOTE, quoted_body(a) + seq![QUOTE] + tail);
        assert(backslashes(0) + seq![QUOTE] + (quoted_body(a) + seq![QUOTE] + tail) =~= s);
        assert(Seq::<u16>::empty() + backslashes(0) =~= Seq::<u16>::empty());
        lemma_split_quoted_body(a, tail, Seq::<u16>::empty(), done);
        assert(Seq::<u16>::empty() + a =~= a);
        if args.len() == 1 {
            assert(done.push(a) =~= done + args);
        } else {
            lemma_leading_of_run(0, SPACE, joined_arguments(rest));
            assert(backslashes(0) + seq![SPACE] + joined_arguments(rest) =~= tail);
            lemma_split_joined(rest, done.push(a));
            assert(done.push(a) + rest =~= done + args);
        }
    }
}

/// Splitting the command line that `command_line` builds (without its
/// terminating NUL) by the C runtime's rules gives back the arguments.
pub proof fn lemma_command_line_round_trip(args: Seq<Seq<u16>>)
    ensures
        split_command_line(joined_arguments(args)) == args,
{
    lemma_split_joined(args, Seq::<Seq<u16>>::empty());
    assert(Seq::<Seq<u16>>::empty() + args =~= args);
}

proof fn lemma_joined_push(args: Seq<Seq<u16>>, a: Seq<u16>)
    ensures
        joined_arguments(args.push(a)) == if args.len() == 0 {
            quoted_argument(a)
        } else {
            joined_arguments(args) + seq![SPACE] + quoted_argument(a)
        },
    decreases args.len(),
{
    if args.len() > 0 {
        let longer = args.push(a);
        assert(longer.drop_first() =~= args.drop_first().push(a));
        assert(longer[0] == args[0]);
        lemma_joined_push(args.drop_first(), a);
        if args.len() == 1 {
            assert(args.drop_first() =~= Seq::<Seq<u16>>::empty());
        }
    }
}

fn push_backslashes(out: &mut Vec<u16>, n: usize)
    ensures
        final(out)@ == old(out)@ + backslashes(n as nat),
{
    let ghost start = old(out)@;
    for k in 0..n
        invariant
            out@ == start + backslashes(k as nat),
    {
        out.push(BACKSLASH);
        assert(start + backslashes((k + 1) as nat) =~= (start + backslashes(k as nat)).push(
            BACKSLASH,
        ));
    }
}

fn has_nul(a: &Vec<u16>) -> (r: bool)
    ensures
        r == exists|j: int| 0 <= j < a.len() && a@[j] == 0,
{
    for j in 0..a.len()
        invariant
            forall|k: int| 0 <= k < j ==> a@[k] != 0,
    {
        if a[j] == 0 {
            return true;
        }
    }
    false
}

/// Appends the quoted, escaped form of `a` to `out`.
fn push_quoted(out: &mut Vec<u16>, a: &Vec<u16>)
    ensures
        final(out)@ == old(out)@ + quoted_argument(a@),
{
    let ghost start = old(out)@;
    out.push(QUOTE);
    let mut slashes: usize = 0;
    let n = a.len();
    let ghost mut done = Seq::<u16>::empty();
    assert(a@.skip(0) =~= a@);
    assert(out@ =~= start + seq![QUOTE] + done);
    for j in 0..n
        invariant
            n == a.len(),
            slashes <= j,
            forall|k: int| j - slashes <= k < j ==> a@[k] == BACKSLASH,
            out@ == start + seq![QUOTE] + done,
            quoted_body(a@) == done + quoted_body(a@.skip(j - slashes)),
    {
        let ch = a[j];
        if ch == BACKSLASH {
            slashes = slashes + 1;
        } else {
            let ghost p: int = j - slashes;
            let ghost seg = a@.skip(p);
            proof {
                lemma_leading_backslashes_exact(seg, slashes as nat);
                assert(seg[slashes as int] == ch);
                assert(seg.skip(slashes + 1) =~= a@.skip(j + 1));
            }
            let ghost before = out@;
            push_backslashes(out, slashes);
            if ch == QUOTE {
                push_backslashes(out, slashes);
                out.push(BACKSLASH);
            }
            out.push(ch);
            proof {
                let run: nat = if ch == QUOTE {
                    (2 * slashes + 1) as nat
                } else {
                    slashes as nat
                };
                assert(quoted_body(seg) == backslashes(run) + seq![ch] + quoted_body(
                    a@.skip(j + 1),
                ));
                assert(out@ =~= before + backslashes(run) + seq![ch]);
                let done2 = done + backslashes(run) + seq![ch];
                assert(out@ =~= start + seq![QUOTE] + done2);
                assert(quoted_body(a@) =~= done2 + quoted_body(a@.skip(j + 1)));
                done = done2;
            }
            slashes = 0;
        }
    }
    let ghost p: int = n - slashes;
    let ghost seg = a@.skip(p);
    proof {
        lemma_leading_backslashes_exact(seg, slashes as nat);
    }
    let ghost before = out@;
    push_backslashes(out, slashes);
    push_backslashes(out, slashes);
    out.push(QUOTE);
    assert(quoted_body(seg) == backslashes(2 * slashes as nat));
    assert(out@ =~= before + backslashes(2 * slashes as nat) + seq![QUOTE]);
    assert(out@ =~= start + quoted_argument(a@));
}

/// The NUL-terminated UTF-16 command line for `arguments`: each argument
/// quoted and escaped, separated by single spaces. An argument that holds a
/// NUL cannot be passed and is refused.
pub fn command_line(arguments: &Vec<Vec<u16>>) -> (r: Result<Vec<u16>, String>)
    ensures
        match r {
            Ok(line) => !contains_nul(arguments.deep_view()) && line@ == joined_arguments(
                arguments.deep_view(),
            ).push(0),
            Err(message) => contains_nul(arguments.deep_view()) && message@
                == NUL_IN_ARGUMENT_MESSAGE@,
        },
{
    let ghost args = arguments.deep_view();
    let mut result: Vec<u16> = Vec::new();
    let count = arguments.len();
    assert(args.take(0) =~= Seq::<Seq<u16>>::empty());
    for index in 0..count
        invariant
            count == arguments.len(),
            args == arguments.deep_view(),
            result@ == joined_arguments(args.take(index as int)),
            !contains_nul(args.take(index as int)),
    {
        let argument = &arguments[index];
        assert(args[index as int] == argument@);
        if has_nul(argument) {
            let ghost j = choose|j: int| 0 <= j < argument.len() && argument@[j] == 0;
            assert(args[index as int][j] == 0);
            return Err(String::from_str(NUL_IN_ARGUMENT_MESSAGE));
        }
        proof {
            lemma_joined_push(args.take(index as int), argument@);
            assert(args.take(index + 1) =~= args.take(index as int).push(argument@));
        }
        if index > 0 {
            result.push(SPACE);
        }
        push_quoted(&mut result, argument);
        proof {
            if index == 0 {
                assert(result@ =~= quoted_argument(argument@));
            } else {
                assert(result@ =~= joined_arguments(args.take(index as int)) + seq![SPACE]
                    + quoted_argument(argument@));
            }
            assert forall|i: int, j: int|
                0 <= i < index + 1 && 0 <= j < args.take(index + 1)[i].len() implies #[trigger] args.take(
                index + 1,
            )[i][j] != 0 by {
                if i < index {
                    assert(args.take(index + 1)[i] == args.take(index as int)[i]);
                }
            }
        }
    }
    result.push(0);
    assert(args.take(count as int) =~= args);
    Ok(result)
}

} // verus!
