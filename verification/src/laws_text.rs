//! Properties of the text rules: trimming, backticks, decimal rendering, the
//! blacklist and the fixed sizes of windows, priorities and budgets.
use vstd::prelude::*;

use crate::agent::{budget_spent, keep_last, DEFAULT_TOKEN_LIMIT, SUMMARY_WINDOW, THINK_WINDOW};
use crate::llm::without_backticks;
use crate::task::{with_priority, TaskView};
use crate::text::{decimal, digit_char, has_prefix, is_ws, signed_decimal, trim, trim_end, trim_start};
use crate::tool::{blocked_commands, is_blacklisted, runs_blocked};

verus! {

proof fn trim_start_index(s: Seq<char>) -> (a: int)
    ensures
        0 <= a <= s.len(),
        trim_start(s) == s.subrange(a, s.len() as int),
        forall|i: int| 0 <= i < a ==> is_ws(#[trigger] s[i]),
        a < s.len() ==> !is_ws(s[a]),
    decreases s.len(),
{
    if s.len() > 0 && is_ws(s[0]) {
        let a1 = trim_start_index(s.drop_first());
        assert(s.drop_first().subrange(a1, s.drop_first().len() as int) =~= s.subrange(
            a1 + 1,
            s.len() as int,
        ));
        assert forall|i: int| 0 <= i < a1 + 1 implies is_ws(#[trigger] s[i]) by {
            if i > 0 {
                assert(s[i] == s.drop_first()[i - 1]);
            }
        }
        if a1 + 1 < s.len() {
            assert(s[a1 + 1] == s.drop_first()[a1]);
        }
        a1 + 1
    } else {
        assert(s.subrange(0, s.len() as int) =~= s);
        0
    }
}

proof fn trim_end_index(s: Seq<char>) -> (b: int)
    ensures
        0 <= b <= s.len(),
        trim_end(s) == s.subrange(0, b),
        forall|i: int| b <= i < s.len() ==> is_ws(#[trigger] s[i]),
        b > 0 ==> !is_ws(s[b - 1]),
    decreases s.len(),
{
    if s.len() > 0 && is_ws(s.last()) {
        let b1 = trim_end_index(s.drop_last());
        assert(s.drop_last().subrange(0, b1) =~= s.subrange(0, b1));
        assert forall|i: int| b1 <= i < s.len() implies is_ws(#[trigger] s[i]) by {
            if i < s.len() - 1 {
                assert(s[i] == s.drop_last()[i]);
            }
        }
        if b1 > 0 {
            assert(s[b1 - 1] == s.drop_last()[b1 - 1]);
        }
        b1
    } else {
        assert(s.subrange(0, s.len() as int) =~= s);
        s.len() as int
    }
}

/// Trimming cuts white space, and only white space, from both ends: the
/// result is the stretch `s[a..b]`, everything before `a` and from `b` on is
/// white space, and the stretch neither starts nor ends with white space.
pub proof fn law_trim_cuts_only_white_space(s: Seq<char>) -> (r: (int, int))
    ensures
        0 <= r.0 <= r.1 <= s.len(),
        trim(s) == s.subrange(r.0, r.1),
        forall|i: int| 0 <= i < r.0 ==> is_ws(#[trigger] s[i]),
        forall|i: int| r.1 <= i < s.len() ==> is_ws(#[trigger] s[i]),
        r.0 < r.1 ==> !is_ws(s[r.0]) && !is_ws(s[r.1 - 1]),
{
    let a = trim_start_index(s);
    let t = s.subrange(a, s.len() as int);
    let b = trim_end_index(t);
    assert(t.subrange(0, b) =~= s.subrange(a, a + b));
    assert forall|i: int| a + b <= i < s.len() implies is_ws(#[trigger] s[i]) by {
        assert(s[i] == t[i - a]);
    }
    if b > 0 {
        assert(s[a + b - 1] == t[b - 1]);
    }
    (a, a + b)
}

/// Removing backticks keeps every other character, in order: it is the
/// sequence filtered by "not a backtick".
pub proof fn law_backticks_removed(s: Seq<char>)
    ensures
        without_backticks(s) == s.filter(|c: char| c != '`'),
    decreases s.len(),
{
    reveal_with_fuel(Seq::<_>::filter, 1);
    if s.len() > 0 {
        law_backticks_removed(s.drop_last());
    }
}

/// The number a string of decimal digits stands for.
pub open spec fn digits_value(s: Seq<char>) -> int
    decreases s.len(),
{
    if s.len() == 0 {
        0
    } else {
        digits_value(s.drop_last()) * 10 + (s.last() as int - '0' as int)
    }
}

/// The decimal rendering of `n` is made of digits only, has no leading zero,
/// and stands for `n`.
pub proof fn law_decimal_reads_back(n: nat)
    ensures
        digits_value(decimal(n)) == n,
        decimal(n).len() >= 1,
        forall|i: int| 0 <= i < decimal(n).len() ==> '0' <= #[trigger] decimal(n)[i] <= '9',
        decimal(n).len() > 1 ==> decimal(n)[0] != '0',
        n >= 1 ==> decimal(n)[0] != '0',
    decreases n,
{
    let ds = seq!['0', '1', '2', '3', '4', '5', '6', '7', '8', '9'];
    assert forall|d: nat| d < 10 implies '0' <= #[trigger] digit_char(d) <= '9' && digit_char(d)
        as int - '0' as int == d by {
        assert(digit_char(d) == ds[d as int]);
    }
    if n >= 10 {
        law_decimal_reads_back(n / 10);
        let p = decimal(n / 10);
        assert(decimal(n) == p.push(digit_char(n % 10)));
        assert(decimal(n).drop_last() =~= p);
        assert(decimal(n)[0] == p[0]);
        assert(decimal(n).last() == digit_char(n % 10));
        assert(digit_char(n % 10) as int - '0' as int == n % 10);
        assert(digits_value(decimal(n)) == digits_value(p) * 10 + (n % 10) as int);
        assert(n == (n / 10) * 10 + n % 10);
    } else {
        assert(decimal(n) == seq![digit_char(n)]);
        assert(decimal(n).drop_last() =~= Seq::<char>::empty());
        assert(decimal(n).last() == digit_char(n));
        assert(digit_char(n) as int - '0' as int == n);
        assert(digits_value(Seq::<char>::empty()) == 0);
    }
}

/// A signed rendering starts with `-` exactly for negative numbers, and the
/// rest is the rendering of the magnitude.
pub proof fn law_signed_decimal(i: int)
    ensures
        i < 0 ==> signed_decimal(i)[0] == '-' && signed_decimal(i).skip(1) == decimal(
            (-i) as nat,
        ),
        i >= 0 ==> signed_decimal(i) == decimal(i as nat) && signed_decimal(i)[0] != '-',
{
    if i < 0 {
        assert((seq!['-'] + decimal((-i) as nat)).skip(1) =~= decimal((-i) as nat));
    } else {
        law_decimal_reads_back(i as nat);
    }
}

/// Removing the root directory, or starting a fork bomb, is refused however
/// the command is padded with white space or followed by more arguments.
pub proof fn law_blacklist_refuses_root_removal(cmd: Seq<char>)
    ensures
        trim(cmd) == "rm -rf /"@ ==> is_blacklisted(cmd),
        trim(cmd) == "rm -rf /*"@ ==> is_blacklisted(cmd),
        trim(cmd) == "rm -fr /"@ ==> is_blacklisted(cmd),
        trim(cmd) == "rm -fr /*"@ ==> is_blacklisted(cmd),
        trim(cmd) == ":(){ :|:& };:"@ ==> is_blacklisted(cmd),
        has_prefix(trim(cmd), "rm -rf /"@) && trim(cmd).len() > 8 && is_ws(trim(cmd)[8])
            ==> is_blacklisted(cmd),
        has_prefix(trim(cmd), "rm -fr /"@) && trim(cmd).len() > 8 && is_ws(trim(cmd)[8])
            ==> is_blacklisted(cmd),
{
    reveal_strlit("rm -rf /");
    reveal_strlit("rm -rf /*");
    reveal_strlit("rm -fr /");
    reveal_strlit("rm -fr /*");
    reveal_strlit(":(){ :|:& };:");
    let b = blocked_commands();
    if runs_blocked(cmd, b[0]) {
        assert(is_blacklisted(cmd));
    }
    if runs_blocked(cmd, b[1]) {
        assert(is_blacklisted(cmd));
    }
    if runs_blocked(cmd, b[2]) {
        assert(is_blacklisted(cmd));
    }
    if runs_blocked(cmd, b[3]) {
        assert(is_blacklisted(cmd));
    }
    if runs_blocked(cmd, b[4]) {
        assert(is_blacklisted(cmd));
    }
}

/// A command that, trimmed, starts neither with `rm -` nor with `:(){` is
/// never refused.
pub proof fn law_other_commands_run(cmd: Seq<char>)
    ensures
        !has_prefix(trim(cmd), "rm -"@) && !has_prefix(trim(cmd), ":(){"@) ==> !is_blacklisted(
            cmd,
        ),
{
    reveal_strlit("rm -rf /");
    reveal_strlit("rm -rf /*");
    reveal_strlit("rm -fr /");
    reveal_strlit("rm -fr /*");
    reveal_strlit(":(){ :|:& };:");
    reveal_strlit("rm -");
    reveal_strlit(":(){");
    let t = trim(cmd);
    if is_blacklisted(cmd) {
        let k = choose|k: int| 0 <= k < blocked_commands().len() && runs_blocked(
            cmd,
            #[trigger] blocked_commands()[k],
        );
        let p = blocked_commands()[k];
        assert(has_prefix(t, p)) by {
            if t == p {
                assert(t.subrange(0, p.len() as int) =~= t);
            }
        }
        assert(t.subrange(0, 4) =~= p.subrange(0, 4)) by {
            assert forall|i: int| 0 <= i < 4 implies t.subrange(0, 4)[i] == p.subrange(0, 4)[i] by {
                assert(t.subrange(0, p.len() as int)[i] == p[i]);
            }
        }
        if k < 4 {
            assert(t.subrange(0, 4) =~= "rm -"@);
        } else {
            assert(t.subrange(0, 4) =~= ":(){"@);
        }
    }
}

/// Planning keeps the last three messages and summarizing the last ten:
/// exactly `min(|history| + 1, 3)` and `min(|history| + 1, 10)` of them.
pub proof fn law_window_sizes<T>(history: Seq<T>, m: T)
    ensures
        keep_last(history.push(m), THINK_WINDOW as nat).len() == if history.len() + 1 < 3 {
            history.len() + 1int
        } else {
            3
        },
        keep_last(history.push(m), SUMMARY_WINDOW as nat).len() == if history.len() + 1 < 10 {
            history.len() + 1int
        } else {
            10
        },
{
}

/// Priorities 0 to 10 are accepted and any higher one refused.
pub proof fn law_priority_bound_is_ten(t: TaskView, p: u32)
    ensures
        p <= 10 ==> with_priority(t, p).priority == p,
        p > 10 ==> with_priority(t, p) == t,
{
}

/// A new agent may use up to a million tokens before its requests are refused.
pub proof fn law_default_allowance(used: usize)
    ensures
        budget_spent(used, DEFAULT_TOKEN_LIMIT) <==> used >= 1_000_000,
{
}

} // verus!
