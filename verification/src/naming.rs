//! Decimal formatting of counters and construction of sequential file
//! names of the shape `{prefix}_{n}`, plus splitting a file name into
//! its base name and its extension.

use vstd::prelude::*;

verus! {

/// The decimal digit character for a value below ten.
pub open spec fn digit_char(d: nat) -> char {
    if d == 0 {
        '0'
    } else if d == 1 {
        '1'
    } else if d == 2 {
        '2'
    } else if d == 3 {
        '3'
    } else if d == 4 {
        '4'
    } else if d == 5 {
        '5'
    } else if d == 6 {
        '6'
    } else if d == 7 {
        '7'
    } else if d == 8 {
        '8'
    } else {
        '9'
    }
}

/// The decimal representation of `n`, most significant digit first,
/// without leading zeros (a single `'0'` for zero).
pub open spec fn dec_rep(n: nat) -> Seq<char>
    decreases n,
{
    if n < 10 {
        seq![digit_char(n)]
    } else {
        dec_rep(n / 10) + seq![digit_char(n % 10)]
    }
}

fn digit_str(d: u64) -> (r: &'static str)
    requires
        d < 10,
    ensures
        r@ == seq![digit_char(d as nat)],
{
    let r: &'static str = if d == 0 {
        "0"
    } else if d == 1 {
        "1"
    } else if d == 2 {
        "2"
    } else if d == 3 {
        "3"
    } else if d == 4 {
        "4"
    } else if d == 5 {
        "5"
    } else if d == 6 {
        "6"
    } else if d == 7 {
        "7"
    } else if d == 8 {
        "8"
    } else {
        "9"
    };
    proof {
        reveal_strlit("0");
        reveal_strlit("1");
        reveal_strlit("2");
        reveal_strlit("3");
        reveal_strlit("4");
        reveal_strlit("5");
        reveal_strlit("6");
        reveal_strlit("7");
        reveal_strlit("8");
        reveal_strlit("9");
        assert(r@ =~= seq![digit_char(d as nat)]);
    }
    r
}

/// The sequential name `{prefix}_{n}`.
pub open spec fn sequential_name(prefix: Seq<char>, n: nat) -> Seq<char> {
    prefix + seq!['_'] + dec_rep(n)
}

/// Builds the sequential name `{prefix}_{n}`.
pub fn sequential_file_name(prefix: &str, n: u64) -> (r: String)
    ensures
        r@ == sequential_name(prefix@, n as nat),
{
    let mut r = prefix.to_owned();
    r.append("_");
    let num = u64_to_dec_string(n);
    r.append(num.as_str());
    proof {
        reveal_strlit("_");
        assert(r@ =~= sequential_name(prefix@, n as nat));
    }
    r
}

/// Formats `n` in decimal.
pub fn u64_to_dec_string(n: u64) -> (r: String)
    ensures
        r@ == dec_rep(n as nat),
    decreases n,
{
    let d = digit_str(n % 10);
    if n < 10 {
        d.to_owned()
    } else {
        let prefix = u64_to_dec_string(n / 10);
        let r = prefix.concat(d);
        proof {
            assert(r@ =~= dec_rep(n as nat));
        }
        r
    }
}

proof fn lemma_dec_rep_len(n: nat)
    ensures
        dec_rep(n).len() >= 1,
        n >= 10 ==> dec_rep(n).len() >= 2,
    decreases n,
{
    if n >= 10 {
        lemma_dec_rep_len(n / 10);
    }
}

/// Law: the decimal representation is injective — two numbers with the
/// same representation are the same number.
pub proof fn lemma_dec_rep_injective(m: nat, n: nat)
    requires
        dec_rep(m) == dec_rep(n),
    ensures
        m == n,
    decreases m,
{
    lemma_dec_rep_len(m);
    lemma_dec_rep_len(n);
    if m < 10 && n < 10 {
        let sm = seq![digit_char(m)];
        let sn = seq![digit_char(n)];
        assert(dec_rep(m) == sm && dec_rep(n) == sn);
        assert(sm[0] == digit_char(m) && sn[0] == digit_char(n));
    } else if m >= 10 && n >= 10 {
        let a = dec_rep(m / 10);
        let b = dec_rep(n / 10);
        let dm = a + seq![digit_char(m % 10)];
        let dn = b + seq![digit_char(n % 10)];
        assert(dec_rep(m) == dm);
        assert(dec_rep(n) == dn);
        assert(a.len() == b.len());
        assert(a =~= b) by {
            assert(forall|k: int| 0 <= k < a.len() ==> #[trigger] a[k] == dm[k]);
            assert(forall|k: int| 0 <= k < b.len() ==> #[trigger] b[k] == dn[k]);
        }
        lemma_dec_rep_injective(m / 10, n / 10);
        assert(dm[a.len() as int] == digit_char(m % 10));
        assert(dn[b.len() as int] == digit_char(n % 10));
        assert(m % 10 == n % 10);
        vstd::arithmetic::div_mod::lemma_fundamental_div_mod(m as int, 10);
        vstd::arithmetic::div_mod::lemma_fundamental_div_mod(n as int, 10);
    }
}

/// Law: with one prefix, distinct counter values give distinct
/// sequential names, so the names a sequential run assigns cannot
/// collide with one another.
pub proof fn lemma_sequential_name_injective(prefix: Seq<char>, m: nat, n: nat)
    requires
        sequential_name(prefix, m) == sequential_name(prefix, n),
    ensures
        m == n,
{
    let sm = sequential_name(prefix, m);
    let sn = sequential_name(prefix, n);
    assert(dec_rep(m) =~= sm.subrange(prefix.len() as int + 1, sm.len() as int));
    assert(dec_rep(n) =~= sn.subrange(prefix.len() as int + 1, sn.len() as int));
    lemma_dec_rep_injective(m, n);
}

/// The index of the last `'.'` of `name` that does not stand first,
/// or `-1` when no such dot exists. A dot in first position starts a
/// hidden file's name and opens no extension.
pub open spec fn last_dot(name: Seq<char>) -> int
    decreases name.len(),
{
    if name.len() <= 1 {
        -1
    } else if name[name.len() - 1] == '.' {
        name.len() - 1
    } else {
        last_dot(name.drop_last())
    }
}

/// The extension of a file name, formatted as `'.'` followed by the part
/// after the last dot, or empty when the name has no extension.
pub open spec fn formatted_extension(name: Seq<char>) -> Seq<char> {
    if last_dot(name) >= 1 {
        name.subrange(last_dot(name), name.len() as int)
    } else {
        Seq::empty()
    }
}

proof fn lemma_last_dot_at(name: Seq<char>, i: int)
    requires
        1 <= i < name.len(),
        name[i] == '.',
        forall|j: int| i < j < name.len() ==> name[j] != '.',
    ensures
        last_dot(name) == i,
    decreases name.len(),
{
    if i < name.len() - 1 {
        lemma_last_dot_at(name.drop_last(), i);
    }
}

proof fn lemma_last_dot_none(name: Seq<char>)
    requires
        forall|j: int| 1 <= j < name.len() ==> name[j] != '.',
    ensures
        last_dot(name) == -1,
    decreases name.len(),
{
    if name.len() > 1 {
        lemma_last_dot_none(name.drop_last());
    }
}

/// The extension of the file name `name`: `'.'` plus the part after the
/// last dot, or the empty string when there is no dot past the first
/// character.
pub fn file_extension(name: &str) -> (r: String)
    ensures
        r@ == formatted_extension(name@),
{
    let len = name.unicode_len();
    let mut i: usize = len;
    while i > 1
        invariant
            i <= len,
            len == name@.len(),
            forall|j: int| i <= j < len ==> name@[j] != '.',
        decreases i,
    {
        if name.get_char(i - 1) == '.' {
            proof {
                lemma_last_dot_at(name@, i - 1);
            }
            return name.substring_char(i - 1, len).to_owned();
        }
        i -= 1;
    }
    proof {
        lemma_last_dot_none(name@);
    }
    String::new()
}

/// `name` with every trailing occurrence of `pat` removed; `name`
/// unchanged when `pat` is empty.
pub open spec fn trim_trailing(name: Seq<char>, pat: Seq<char>) -> Seq<char>
    decreases name.len(),
{
    if pat.len() == 0 || name.len() < pat.len() {
        name
    } else if name.subrange(name.len() - pat.len(), name.len() as int) == pat {
        trim_trailing(name.subrange(0, name.len() - pat.len()), pat)
    } else {
        name
    }
}

fn region_eq(name: &str, from: usize, to: usize, pat: &str) -> (r: bool)
    requires
        from <= to <= name@.len(),
        to - from == pat@.len(),
    ensures
        r == (name@.subrange(from as int, to as int) == pat@),
{
    let width = to - from;
    let mut k: usize = 0;
    while k < width
        invariant
            k <= width,
            from + width <= name@.len(),
            width == to - from == pat@.len(),
            forall|m: int| 0 <= m < k ==> name@[from + m] == pat@[m],
        decreases width - k,
    {
        if name.get_char(from + k) != pat.get_char(k) {
            proof {
                assert(name@.subrange(from as int, to as int)[k as int] != pat@[k as int]);
            }
            return false;
        }
        k += 1;
    }
    proof {
        assert(name@.subrange(from as int, to as int) =~= pat@);
    }
    true
}

/// Whether `a` and `b` hold the same characters.
pub fn str_eq(a: &str, b: &str) -> (r: bool)
    ensures
        r == (a@ == b@),
{
    let alen = a.unicode_len();
    let blen = b.unicode_len();
    if alen != blen {
        return false;
    }
    let r = region_eq(a, 0, alen, b);
    proof {
        assert(a@.subrange(0, alen as int) =~= a@);
    }
    r
}

/// Removes every trailing occurrence of `pat` from `name`. An empty
/// `pat` removes nothing.
pub fn trim_end_occurrences(name: &str, pat: &str) -> (r: String)
    ensures
        r@ == trim_trailing(name@, pat@),
{
    let plen = pat.unicode_len();
    let len = name.unicode_len();
    if plen == 0 {
        return name.to_owned();
    }
    let mut end: usize = len;
    proof {
        assert(name@.subrange(0, len as int) =~= name@);
    }
    loop
        invariant
            end <= len,
            len == name@.len(),
            plen == pat@.len(),
            plen > 0,
            trim_trailing(name@.subrange(0, end as int), pat@) == trim_trailing(name@, pat@),
        ensures
            end <= len,
            name@.subrange(0, end as int) == trim_trailing(name@, pat@),
        decreases end,
    {
        proof {
            let s = name@.subrange(0, end as int);
            if plen <= end {
                assert(s.subrange(s.len() - plen, s.len() as int) =~= name@.subrange(
                    end - plen,
                    end as int,
                ));
                assert(s.subrange(0, s.len() - plen) =~= name@.subrange(0, end - plen));
            }
        }
        if end < plen {
            break;
        }
        let hit = region_eq(name, end - plen, end, pat);
        if !hit {
            break;
        }
        end -= plen;
    }
    name.substring_char(0, end).to_owned()
}

/// The base name of the file name `name`: `name` with every trailing
/// occurrence of its own formatted extension removed.
pub fn file_base_name(name: &str) -> (r: String)
    ensures
        r@ == trim_trailing(name@, formatted_extension(name@)),
{
    let ext = file_extension(name);
    trim_end_occurrences(name, ext.as_str())
}

} // verus!
