//! Parser for the firewall program's echoed output.
//!
//! Each non-empty line is one object. A line that starts with `add ` and ends with
//! `# handle N` (N a decimal that fits in `u64`) is `Add { handle: N }`; any other line is
//! `Other { raw }`.
use vstd::prelude::*;
use vstd::string::*;

verus! {

/// One object of the firewall program's output.
#[derive(Clone, Debug)]
pub enum NftObject {
    Add { handle: u64 },
    Other { raw: String },
}

pub open spec fn is_digit(c: char) -> bool {
    '0' <= c && c <= '9'
}

/// Value of a run of decimal digits.
pub open spec fn dec_value(d: Seq<char>) -> nat
    decreases d.len(),
{
    if d.len() == 0 {
        0
    } else {
        dec_value(d.drop_last()) * 10 + ((d.last() as u32 - '0' as u32) as nat)
    }
}

/// Start of the run of digits that ends at `k`.
pub open spec fn digits_start(line: Seq<char>, k: int) -> int
    decreases k,
{
    if k > 0 && k <= line.len() && is_digit(line[k - 1]) {
        digits_start(line, k - 1)
    } else {
        k
    }
}

pub open spec fn add_prefix() -> Seq<char> {
    seq!['a', 'd', 'd', ' ']
}

pub open spec fn handle_marker() -> Seq<char> {
    seq!['#', ' ', 'h', 'a', 'n', 'd', 'l', 'e', ' ']
}

/// The handle that a line announces, if it is an `add` line ending in `# handle N`.
pub open spec fn add_handle(line: Seq<char>) -> Option<u64> {
    let k = digits_start(line, line.len() as int);
    if line.len() >= 4 && line.subrange(0, 4) == add_prefix() && k < line.len() && k >= 9
        && line.subrange(k - 9, k) == handle_marker()
        && dec_value(line.subrange(k, line.len() as int)) <= u64::MAX {
        Some(dec_value(line.subrange(k, line.len() as int)) as u64)
    } else {
        None
    }
}

/// End of the line that starts at `i`: the next newline, or the end of the text.
pub open spec fn line_end(s: Seq<char>, i: int) -> int
    decreases s.len() - i,
{
    if i >= s.len() || s[i] == '\n' {
        i
    } else {
        line_end(s, i + 1)
    }
}

/// The non-empty lines of `s` from index `i` on.
pub open spec fn lines_from(s: Seq<char>, i: int) -> Seq<Seq<char>>
    decreases s.len() - i,
{
    if i >= s.len() || i < 0 {
        seq![]
    } else {
        let e = line_end(s, i);
        let rest = if i <= e < s.len() { lines_from(s, e + 1) } else { seq![] };
        if e <= i || e > s.len() {
            rest
        } else {
            seq![s.subrange(i, e)] + rest
        }
    }
}

/// The object that a line stands for.
pub open spec fn object_of(o: NftObject, line: Seq<char>) -> bool {
    match o {
        NftObject::Add { handle } => add_handle(line) == Some(handle),
        NftObject::Other { raw } => add_handle(line) is None && raw@ == line,
    }
}

/// `objs` are the objects of the non-empty lines of `s`, in order.
pub open spec fn parsed(s: Seq<char>, objs: Seq<NftObject>) -> bool {
    let ls = lines_from(s, 0);
    objs.len() == ls.len() && forall|k: int| 0 <= k < objs.len() ==> object_of(#[trigger] objs[k], ls[k])
}

proof fn lemma_line_end_bounds(s: Seq<char>, i: int)
    requires
        0 <= i <= s.len(),
    ensures
        i <= line_end(s, i) <= s.len(),
        forall|j: int| i <= j < line_end(s, i) ==> s[j] != '\n',
        line_end(s, i) < s.len() ==> s[line_end(s, i)] == '\n',
    decreases s.len() - i,
{
    if i < s.len() && s[i] != '\n' {
        lemma_line_end_bounds(s, i + 1);
    }
}

proof fn lemma_digits_start(line: Seq<char>, k: int)
    requires
        0 <= k <= line.len(),
    ensures
        0 <= digits_start(line, k) <= k,
        forall|j: int| digits_start(line, k) <= j < k ==> is_digit(#[trigger] line[j]),
        digits_start(line, k) > 0 ==> !is_digit(line[digits_start(line, k) - 1]),
    decreases k,
{
    if k > 0 && is_digit(line[k - 1]) {
        lemma_digits_start(line, k - 1);
    }
}

/// Reads the characters of `s` into a vector.
fn chars_of(s: &str) -> (r: Vec<char>)
    ensures
        r@ == s@,
{
    let n = s.unicode_len();
    let mut r: Vec<char> = Vec::new();
    let mut i: usize = 0;
    while i < n
        invariant
            n == s@.len(),
            0 <= i <= n,
            r@ == s@.subrange(0, i as int),
        decreases n - i,
    {
        r.push(s.get_char(i));
        i = i + 1;
    }
    assert(r@ =~= s@);
    r
}

/// Classifies the line `c[a..b]`: the announced handle, if any.
fn line_handle(c: &Vec<char>, a: usize, b: usize) -> (r: Option<u64>)
    requires
        a <= b <= c.len(),
    ensures
        r == add_handle(c@.subrange(a as int, b as int)),
{
    let ghost line = c@.subrange(a as int, b as int);
    let mut k: usize = b;
    while k > a && '0' <= c[k - 1] && c[k - 1] <= '9'
        invariant
            a <= k <= b <= c.len(),
            line == c@.subrange(a as int, b as int),
            digits_start(line, (k - a) as int) == digits_start(line, line.len() as int),
        decreases k,
    {
        assert(line[(k - 1 - a) as int] == c@[(k - 1) as int]);
        k = k - 1;
    }
    proof {
        lemma_digits_start(line, line.len() as int);
    }
    assert(digits_start(line, line.len() as int) == k - a);
    if b - a < 4 || k == b || k - a < 9 {
        return None;
    }
    if !(c[a] == 'a' && c[a + 1] == 'd' && c[a + 2] == 'd' && c[a + 3] == ' ') {
        assert(line.subrange(0, 4)[0] == line[0]);
        assert(line.subrange(0, 4)[1] == line[1]);
        assert(line.subrange(0, 4)[2] == line[2]);
        assert(line.subrange(0, 4)[3] == line[3]);
        return None;
    }
    assert(line.subrange(0, 4) =~= add_prefix());
    let m = k - 9;
    if !(c[m] == '#' && c[m + 1] == ' ' && c[m + 2] == 'h' && c[m + 3] == 'a' && c[m + 4] == 'n'
        && c[m + 5] == 'd' && c[m + 6] == 'l' && c[m + 7] == 'e' && c[m + 8] == ' ') {
        let ghost mk = line.subrange(k - a - 9, k - a);
        assert(mk[0] == c@[m as int] && mk[1] == c@[m + 1] && mk[2] == c@[m + 2]);
        assert(mk[3] == c@[m + 3] && mk[4] == c@[m + 4] && mk[5] == c@[m + 5]);
        assert(mk[6] == c@[m + 6] && mk[7] == c@[m + 7] && mk[8] == c@[m + 8]);
        return None;
    }
    assert(line.subrange(k - a - 9, k - a) =~= handle_marker());
    assert forall|t: int| k <= t < b implies is_digit(#[trigger] c@[t]) by {
        assert(line[t - a] == c@[t]);
    }
    assert(line.subrange(k - a, line.len() as int) =~= c@.subrange(k as int, b as int));
    let ghost tail = c@.subrange(k as int, b as int);
    assert(add_handle(line) == (if dec_value(tail) <= u64::MAX {
        Some(dec_value(tail) as u64)
    } else {
        None::<u64>
    }));
    let mut v: u64 = 0;
    let mut j: usize = k;
    while j < b
        invariant
            a <= k <= j <= b <= c.len(),
            line == c@.subrange(a as int, b as int),
            tail == c@.subrange(k as int, b as int),
            add_handle(line) == (if dec_value(tail) <= u64::MAX {
                Some(dec_value(tail) as u64)
            } else {
                None::<u64>
            }),
            forall|t: int| k <= t < b ==> is_digit(#[trigger] c@[t]),
            v == dec_value(c@.subrange(k as int, j as int)),
        decreases b - j,
    {
        assert(is_digit(c@[j as int]));
        let d = (c[j] as u32 - '0' as u32) as u64;
        assert(c@.subrange(k as int, j + 1).drop_last() =~= c@.subrange(k as int, j as int));
        assert(dec_value(c@.subrange(k as int, j + 1)) == v * 10 + d);
        if v > (u64::MAX - d) / 10 {
            assert(v * 10 + d > u64::MAX) by (nonlinear_arith)
                requires
                    v > (u64::MAX - d) / 10,
                    d <= 9,
            ;
            proof {
                lemma_dec_value_grows(c@.subrange(k as int, b as int), (j + 1 - k) as int);
                assert(c@.subrange(k as int, b as int).subrange(0, (j + 1 - k) as int)
                    =~= c@.subrange(k as int, j + 1));
                assert(line.subrange(k - a, line.len() as int) =~= c@.subrange(k as int, b as int));
            }
            return None;
        }
        v = v * 10 + d;
        j = j + 1;
    }
    assert(line.subrange(k - a, line.len() as int) =~= c@.subrange(k as int, b as int));
    Some(v)
}

/// Splits the output `s` into its objects, one per non-empty line.
pub fn parse_output(s: &str) -> (r: Vec<NftObject>)
    ensures
        parsed(s@, r@),
{
    let c = chars_of(s);
    let n = c.len();
    let ghost all = lines_from(c@, 0);
    let mut objs: Vec<NftObject> = Vec::new();
    let mut i: usize = 0;
    while i < n
        invariant
            0 <= i <= n,
            n == c.len(),
            c@ == s@,
            all == lines_from(c@, 0),
            objs.len() <= all.len(),
            lines_from(c@, i as int) == all.subrange(objs.len() as int, all.len() as int),
            forall|k: int| 0 <= k < objs.len() ==> object_of(#[trigger] objs@[k], all[k]),
        decreases n - i,
    {
        let mut e: usize = i;
        while e < n && c[e] != '\n'
            invariant
                i <= e <= n,
                n == c.len(),
                line_end(c@, e as int) == line_end(c@, i as int),
            decreases n - e,
        {
            e = e + 1;
        }
        proof {
            lemma_line_end_bounds(c@, i as int);
        }
        let ghost before = objs@;
        let ghost rest = lines_from(c@, i as int);
        if e > i {
            let obj = match line_handle(&c, i, e) {
                Some(h) => NftObject::Add { handle: h },
                None => NftObject::Other { raw: String::from_str(s.substring_char(i, e)) },
            };
            let ghost tail = if e < n { lines_from(c@, e + 1) } else { seq![] };
            assert(rest == seq![c@.subrange(i as int, e as int)] + tail);
            assert(rest[0] == all[before.len() as int]);
            objs.push(obj);
            assert(forall|k: int| 0 <= k < before.len() ==> objs@[k] == before[k]);
            assert(rest.subrange(1, rest.len() as int) =~= all.subrange(objs.len() as int, all.len() as int));
        }
        i = if e < n { e + 1 } else { n };
    }
    assert(all.subrange(objs.len() as int, all.len() as int).len() == 0);
    objs
}

/// The handle that the first object announces; an error when there is no object or the
/// first one is not an `Add`.
pub fn first_handle(objs: &Vec<NftObject>) -> (r: Option<u64>)
    ensures
        r == (if objs.len() > 0 && objs@[0] is Add { Some(objs@[0]->Add_handle) } else { None::<u64> }),
{
    if objs.len() == 0 {
        return None;
    }
    match &objs[0] {
        NftObject::Add { handle } => Some(*handle),
        NftObject::Other { .. } => None,
    }
}

/// A prefix of a digit run never has a larger value than the whole run.
proof fn lemma_dec_value_grows(d: Seq<char>, n: int)
    requires
        0 <= n <= d.len(),
    ensures
        dec_value(d.subrange(0, n)) <= dec_value(d),
    decreases d.len() - n,
{
    if n < d.len() {
        lemma_dec_value_grows(d, n + 1);
        assert(d.subrange(0, n + 1).drop_last() =~= d.subrange(0, n));
    } else {
        assert(d.subrange(0, n) =~= d);
    }
}

} // verus!
