//! Human-readable rendering of durations.

use vstd::prelude::*;

use crate::number::{decimal, decimal_string};

verus! {

pub open spec fn secs_per_day() -> nat {
    86400
}

pub open spec fn secs_per_hour() -> nat {
    3600
}

pub open spec fn secs_per_minute() -> nat {
    60
}

/// `"<n> <unit>"`, with the unit in the plural when `n` is above one.
pub open spec fn unit_phrase(n: nat, unit: Seq<char>) -> Seq<char> {
    decimal(n) + seq![' '] + unit + if n > 1 {
        seq!['s']
    } else {
        Seq::<char>::empty()
    }
}

/// The phrase for one unit, or nothing when its count is zero.
pub open spec fn phrase_if_nonzero(n: nat, unit: Seq<char>) -> Seq<Seq<char>> {
    if n > 0 {
        seq![unit_phrase(n, unit)]
    } else {
        Seq::empty()
    }
}

/// The nonzero parts of `secs` as days, hours, minutes and seconds, largest first.
pub open spec fn time_phrases(secs: nat) -> Seq<Seq<char>> {
    phrase_if_nonzero(secs / secs_per_day(), seq!['d', 'a', 'y'])
        + phrase_if_nonzero((secs % secs_per_day()) / secs_per_hour(), seq!['h', 'o', 'u', 'r'])
        + phrase_if_nonzero(
        (secs % secs_per_hour()) / secs_per_minute(),
        seq!['m', 'i', 'n', 'u', 't', 'e'],
    ) + phrase_if_nonzero(secs % secs_per_minute(), seq!['s', 'e', 'c', 'o', 'n', 'd'])
}

/// The first `k` phrases, each followed by `", "`.
pub open spec fn comma_prefix(ps: Seq<Seq<char>>, k: nat) -> Seq<char>
    decreases k,
{
    if k == 0 || k > ps.len() {
        Seq::empty()
    } else {
        comma_prefix(ps, (k - 1) as nat) + ps[k - 1] + seq![',', ' ']
    }
}

/// Phrases joined as an English list: `"a"`, `"a and b"`, `"a, b, and c"`.
pub open spec fn join_phrases(ps: Seq<Seq<char>>) -> Seq<char> {
    if ps.len() == 0 {
        Seq::empty()
    } else if ps.len() == 1 {
        ps[0]
    } else if ps.len() == 2 {
        ps[0] + seq![' ', 'a', 'n', 'd', ' '] + ps[1]
    } else {
        comma_prefix(ps, (ps.len() - 1) as nat) + seq!['a', 'n', 'd', ' '] + ps[ps.len() - 1]
    }
}

/// A duration of `secs` seconds as an English sentence fragment.
pub open spec fn readable_time(secs: nat) -> Seq<char> {
    join_phrases(time_phrases(secs))
}

fn push_unit(phrases: &mut Vec<String>, n: u64, unit: &str)
    ensures
        final(phrases)@.map_values(|s: String| s@) == old(phrases)@.map_values(|s: String| s@)
            + phrase_if_nonzero(n as nat, unit@),
{
    if n > 0 {
        let mut s = decimal_string(n);
        s.append(" ");
        proof {
            reveal_strlit(" ");
        }
        s.append(unit);
        if n > 1 {
            s.append("s");
            proof {
                reveal_strlit("s");
            }
        }
        proof {
            assert(s@ =~= unit_phrase(n as nat, unit@));
        }
        phrases.push(s);
        proof {
            assert(final(phrases)@.map_values(|s: String| s@) =~= old(phrases)@.map_values(
                |s: String| s@,
            ) + phrase_if_nonzero(n as nat, unit@));
        }
    } else {
        proof {
            assert(phrases@.map_values(|s: String| s@) =~= old(phrases)@.map_values(
                |s: String| s@,
            ) + phrase_if_nonzero(n as nat, unit@));
        }
    }
}

/// Renders a duration given in whole seconds, e.g. `"1 day, 2 hours, and 3 minutes"`;
/// the empty string for zero.
pub fn as_readable_time(secs: u64) -> (r: String)
    ensures
        r@ == readable_time(secs as nat),
{
    let mut phrases: Vec<String> = Vec::new();
    let day = "day";
    let hour = "hour";
    let minute = "minute";
    let second = "second";
    proof {
        reveal_strlit("day");
        reveal_strlit("hour");
        reveal_strlit("minute");
        reveal_strlit("second");
        assert(day@ =~= seq!['d', 'a', 'y']);
        assert(hour@ =~= seq!['h', 'o', 'u', 'r']);
        assert(minute@ =~= seq!['m', 'i', 'n', 'u', 't', 'e']);
        assert(second@ =~= seq!['s', 'e', 'c', 'o', 'n', 'd']);
        assert(phrases@.map_values(|s: String| s@) =~= Seq::<Seq<char>>::empty());
    }
    push_unit(&mut phrases, secs / 86400, day);
    push_unit(&mut phrases, (secs % 86400) / 3600, hour);
    push_unit(&mut phrases, (secs % 3600) / 60, minute);
    push_unit(&mut phrases, secs % 60, second);
    let ghost ps = phrases@.map_values(|s: String| s@);
    proof {
        assert(ps =~= time_phrases(secs as nat));
    }
    join_english(&phrases)
}

/// Joins phrases as an English list with a serial comma.
pub fn join_english(phrases: &Vec<String>) -> (r: String)
    ensures
        r@ == join_phrases(phrases@.map_values(|s: String| s@)),
{
    let ghost ps = phrases@.map_values(|s: String| s@);
    let n = phrases.len();
    if n == 0 {
        String::new()
    } else if n == 1 {
        phrases[0].clone()
    } else if n == 2 {
        let mut s = phrases[0].clone();
        s.append(" and ");
        s.append(phrases[1].as_str());
        proof {
            reveal_strlit(" and ");
            assert(s@ =~= join_phrases(ps));
        }
        s
    } else {
        let mut s = String::new();
        let mut i: usize = 0;
        while i < n - 1
            invariant
                n == phrases.len(),
                n >= 3,
                i <= n - 1,
                ps == phrases@.map_values(|s: String| s@),
                s@ == comma_prefix(ps, i as nat),
            decreases n - 1 - i,
        {
            s.append(phrases[i].as_str());
            s.append(", ");
            proof {
                reveal_strlit(", ");
                assert(s@ =~= comma_prefix(ps, (i + 1) as nat));
            }
            i = i + 1;
        }
        s.append("and ");
        s.append(phrases[n - 1].as_str());
        proof {
            reveal_strlit("and ");
            assert(s@ =~= join_phrases(ps));
        }
        s
    }
}

} // verus!
