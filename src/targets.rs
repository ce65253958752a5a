//! Parsing of capture target and window source identifiers, and merging of
//! window listings by process.
use std::collections::HashMap;
use vstd::prelude::*;
use vstd::string::StrSliceExecFns;

verus! {

broadcast use vstd::std_specs::hash::group_hash_axioms;

pub open spec fn is_digit(c: char) -> bool {
    48 <= (c as u32) <= 57
}

pub open spec fn all_digits(s: Seq<char>) -> bool {
    forall|i: int| 0 <= i < s.len() ==> is_digit(#[trigger] s[i])
}

/// The value of a run of decimal digits.
pub open spec fn digits_value(s: Seq<char>) -> nat
    decreases s.len(),
{
    if s.len() == 0 {
        0
    } else {
        digits_value(s.drop_last()) * 10 + ((s.last() as u32) - 48) as nat
    }
}

/// The text after an optional leading `+`.
pub open spec fn unsigned_digits(s: Seq<char>) -> Seq<char> {
    if s.len() > 0 && s[0] == '+' {
        s.drop_first()
    } else {
        s
    }
}

/// What `u32::from_str` gives: an optional `+`, then one or more decimal
/// digits whose value fits.
pub open spec fn decimal_u32(s: Seq<char>) -> Option<u32> {
    let d = unsigned_digits(s);
    if d.len() > 0 && all_digits(d) && digits_value(d) <= u32::MAX {
        Some(digits_value(d) as u32)
    } else {
        None
    }
}

/// What `isize::from_str` gives: an optional `+` or `-`, then one or more
/// decimal digits whose signed value fits.
pub open spec fn decimal_isize(s: Seq<char>) -> Option<isize> {
    if s.len() > 0 && s[0] == '-' {
        let d = s.drop_first();
        if d.len() > 0 && all_digits(d) && -(digits_value(d) as int) >= isize::MIN {
            Some((-(digits_value(d) as int)) as isize)
        } else {
            None
        }
    } else {
        let d = unsigned_digits(s);
        if d.len() > 0 && all_digits(d) && digits_value(d) <= isize::MAX {
            Some(digits_value(d) as isize)
        } else {
            None
        }
    }
}

proof fn lemma_digits_value_grows(s: Seq<char>, k: int)
    requires
        0 <= k <= s.len(),
        all_digits(s),
    ensures
        digits_value(s.subrange(0, k)) <= digits_value(s),
    decreases s.len(),
{
    if k < s.len() {
        let t = s.drop_last();
        assert(all_digits(t)) by {
            assert forall|i: int| 0 <= i < t.len() implies is_digit(#[trigger] t[i]) by {
                assert(t[i] == s[i]);
            }
        }
        lemma_digits_value_grows(t, k);
        assert(t.subrange(0, k) =~= s.subrange(0, k));
    } else {
        assert(s.subrange(0, k) =~= s);
    }
}

/// Reads the characters of `s` from `start` on as one or more decimal digits
/// whose value is at most `cap`.
fn digits_at_most(s: &str, start: usize, cap: u64) -> (r: Option<u64>)
    requires
        start <= s@.len(),
    ensures
        r.is_some() <==> {
            let d = s@.subrange(start as int, s@.len() as int);
            d.len() > 0 && all_digits(d) && digits_value(d) <= cap
        },
        r.is_some() ==> r.unwrap() == digits_value(s@.subrange(start as int, s@.len() as int)),
{
    let n = s.unicode_len();
    let ghost d = s@.subrange(start as int, s@.len() as int);
    if start >= n {
        return None;
    }
    let mut value: u64 = 0;
    let mut i: usize = start;
    while i < n
        invariant
            start <= i <= n,
            n == s@.len(),
            d == s@.subrange(start as int, s@.len() as int),
            all_digits(d.subrange(0, i - start)),
            value == digits_value(d.subrange(0, i - start)),
            value <= cap,
        decreases n - i,
    {
        let c = s.get_char(i);
        let ghost pre = d.subrange(0, i - start);
        let ghost next = d.subrange(0, i + 1 - start);
        proof {
            assert(next.drop_last() =~= pre);
            assert(next.last() == c);
        }
        if !((c as u32) >= 48 && (c as u32) <= 57) {
            proof {
                assert(!is_digit(d[i - start]));
            }
            return None;
        }
        let digit: u64 = ((c as u32) - 48) as u64;
        if digit > cap || value > (cap - digit) / 10 {
            proof {
                assert(digits_value(next) > cap) by (nonlinear_arith)
                    requires
                        digits_value(next) == value * 10 + digit,
                        digit > cap || value > (cap - digit) / 10,
                ;
                if all_digits(d) {
                    lemma_digits_value_grows(d, i + 1 - start);
                }
            }
            return None;
        }
        proof {
            assert(value * 10 + digit <= cap) by (nonlinear_arith)
                requires
                    value <= (cap - digit) / 10,
                    digit <= cap,
            ;
            assert forall|j: int| 0 <= j < next.len() implies is_digit(#[trigger] next[j]) by {
                if j < pre.len() {
                    assert(next[j] == pre[j]);
                }
            }
        }
        value = value * 10 + digit;
        i = i + 1;
    }
    proof {
        assert(d.subrange(0, d.len() as int) =~= d);
    }
    Some(value)
}

/// Reads the whole of `s` as `u32::from_str` does.
pub fn parse_decimal_u32(s: &str) -> (r: Option<u32>)
    ensures
        r == decimal_u32(s@),
{
    let n = s.unicode_len();
    let start: usize = if n > 0 && s.get_char(0) == '+' {
        1
    } else {
        0
    };
    proof {
        assert(unsigned_digits(s@) =~= s@.subrange(start as int, s@.len() as int));
    }
    match digits_at_most(s, start, 0xffff_ffff) {
        Some(v) => Some(v as u32),
        None => None,
    }
}

/// Reads the whole of `s` as `isize::from_str` does.
pub fn parse_decimal_isize(s: &str) -> (r: Option<isize>)
    ensures
        r == decimal_isize(s@),
{
    let n = s.unicode_len();
    if n > 0 && s.get_char(0) == '-' {
        let cap: u64 = isize::MAX as u64 + 1;
        proof {
            assert(s@.drop_first() =~= s@.subrange(1, s@.len() as int));
        }
        match digits_at_most(s, 1, cap) {
            Some(v) => Some((0i128 - v as i128) as isize),
            None => None,
        }
    } else {
        let start: usize = if n > 0 && s.get_char(0) == '+' {
            1
        } else {
            0
        };
        proof {
            assert(unsigned_digits(s@) =~= s@.subrange(start as int, s@.len() as int));
        }
        match digits_at_most(s, start, isize::MAX as u64) {
            Some(v) => Some(v as isize),
            None => None,
        }
    }
}

/// Whether `s` starts with `pid:`.
pub open spec fn has_pid_prefix(s: Seq<char>) -> bool {
    s.len() >= 4 && s[0] == 'p' && s[1] == 'i' && s[2] == 'd' && s[3] == ':'
}

/// The process id of a target id `pid:<decimal>`.
pub open spec fn target_pid(s: Seq<char>) -> Option<u32> {
    if has_pid_prefix(s) {
        decimal_u32(s.subrange(4, s.len() as int))
    } else {
        None
    }
}

/// Parses a target id of the form `pid:<decimal>`.
pub fn parse_target_pid(target_id: &str) -> (r: Option<u32>)
    ensures
        r == target_pid(target_id@),
{
    let n = target_id.unicode_len();
    if n < 4 || target_id.get_char(0) != 'p' || target_id.get_char(1) != 'i' || target_id.get_char(2)
        != 'd' || target_id.get_char(3) != ':' {
        return None;
    }
    parse_decimal_u32(target_id.substring_char(4, n))
}

/// The index of the first `:` at or after `start`, or the length of `s`.
pub open spec fn field_end(s: Seq<char>, start: int) -> int
    decreases s.len() - start,
{
    if start >= s.len() {
        s.len() as int
    } else if s[start] == ':' {
        start
    } else {
        field_end(s, start + 1)
    }
}

proof fn lemma_field_end_bounds(s: Seq<char>, start: int)
    requires
        0 <= start <= s.len(),
    ensures
        start <= field_end(s, start) <= s.len(),
        field_end(s, start) < s.len() ==> s[field_end(s, start)] == ':',
    decreases s.len() - start,
{
    if start < s.len() && s[start] != ':' {
        lemma_field_end_bounds(s, start + 1);
    }
}

/// Whether the first `:`-separated field of `s` is `window`.
pub open spec fn first_field_is_window(s: Seq<char>) -> bool {
    field_end(s, 0) == 6 && s[0] == 'w' && s[1] == 'i' && s[2] == 'n' && s[3] == 'd' && s[4] == 'o'
        && s[5] == 'w'
}

/// The window handle of a source id `window:<decimal>[:...]`: the second
/// `:`-separated field read as an `isize`.
pub open spec fn window_source_handle(s: Seq<char>) -> Option<isize> {
    if first_field_is_window(s) && 6 < s.len() {
        decimal_isize(s.subrange(7, field_end(s, 7)))
    } else {
        None
    }
}

/// Finds the first `:` at or after `start`.
fn find_field_end(s: &str, start: usize) -> (r: usize)
    requires
        start <= s@.len(),
    ensures
        r == field_end(s@, start as int),
{
    let n = s.unicode_len();
    let mut i = start;
    while i < n && s.get_char(i) != ':'
        invariant
            start <= i <= n,
            n == s@.len(),
            field_end(s@, i as int) == field_end(s@, start as int),
        decreases n - i,
    {
        i = i + 1;
    }
    i
}

/// Parses a window source id such as `window:1337:0` into its window handle.
pub fn parse_window_source_id(source_id: &str) -> (r: Option<isize>)
    ensures
        r == window_source_handle(source_id@),
{
    let n = source_id.unicode_len();
    let first_end = find_field_end(source_id, 0);
    proof {
        lemma_field_end_bounds(source_id@, 0);
    }
    if first_end != 6 || source_id.get_char(0) != 'w' || source_id.get_char(1) != 'i'
        || source_id.get_char(2) != 'n' || source_id.get_char(3) != 'd' || source_id.get_char(4)
        != 'o' || source_id.get_char(5) != 'w' || n <= 6 {
        return None;
    }
    proof {
        lemma_field_end_bounds(source_id@, 7);
    }
    let second_end = find_field_end(source_id, 7);
    parse_decimal_isize(source_id.substring_char(7, second_end))
}

/// The title kept for each process: the first that the listing gives it.
pub open spec fn first_titles(entries: Seq<(u32, String)>) -> Map<u32, String>
    decreases entries.len(),
{
    if entries.len() == 0 {
        Map::empty()
    } else {
        first_titles(entries.drop_first()).insert(entries[0].0, entries[0].1)
    }
}

/// Merges a window listing by process id, keeping the first title seen for
/// each process.
pub fn dedupe_window_entries_by_pid(entries: Vec<(u32, String)>) -> (r: HashMap<u32, String>)
    ensures
        r@ == first_titles(entries@),
{
    let mut entries = entries;
    let ghost all = entries@;
    let mut deduped: HashMap<u32, String> = HashMap::new();
    proof {
        assert(all.subrange(all.len() as int, all.len() as int) =~= Seq::<(u32, String)>::empty());
    }
    while entries.len() > 0
        invariant
            entries@ == all.subrange(0, entries@.len() as int),
            entries@.len() <= all.len(),
            deduped@ == first_titles(all.subrange(entries@.len() as int, all.len() as int)),
        decreases entries@.len(),
    {
        let ghost k = entries@.len() - 1;
        let entry = entries.pop().unwrap();
        proof {
            let suffix = all.subrange(k, all.len() as int);
            assert(suffix.drop_first() =~= all.subrange(k + 1, all.len() as int));
            assert(suffix[0] == all[k]);
            assert(entries@ =~= all.subrange(0, k));
        }
        let (pid, title) = entry;
        deduped.insert(pid, title);
    }
    proof {
        assert(all.subrange(0, all.len() as int) =~= all);
    }
    deduped
}

} // verus!
