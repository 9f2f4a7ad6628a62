//! Extraction of the host port published for the game port from a ports column
//! such as `0.0.0.0:25566->25565/tcp`.
use vstd::prelude::*;

verus! {

/// An ASCII decimal digit.
pub open spec fn is_digit(c: char) -> bool {
    '0' <= c && c <= '9'
}

/// A separator allowed after each of the four address groups.
pub open spec fn is_group_sep(c: char) -> bool {
    c == '.' || c == ':'
}

/// The text that follows the captured port: the container side of the mapping.
pub open spec fn mapping_suffix() -> Seq<char> {
    seq!['-', '>', '2', '5', '5', '6', '5', '/', 't', 'c', 'p']
}

/// End of the run of digits that starts at `i`.
pub open spec fn digits_end(s: Seq<char>, i: int) -> int
    decreases s.len() - i,
{
    if 0 <= i < s.len() && is_digit(s[i]) {
        digits_end(s, i + 1)
    } else {
        i
    }
}

/// Position after `k` groups of the form `digits` followed by `.` or `:`,
/// starting at `i`; `None` where they are not there.
pub open spec fn groups_end(s: Seq<char>, i: int, k: nat) -> Option<int>
    decreases k,
{
    if k == 0 {
        Some(i)
    } else {
        let j = digits_end(s, i);
        if j > i && j < s.len() && is_group_sep(s[j]) {
            groups_end(s, j + 1, (k - 1) as nat)
        } else {
            None
        }
    }
}

/// A mapping `a.b.c.d:PORT->25565/tcp` that starts at `i`: the bounds of `PORT`.
pub open spec fn mapping_at(s: Seq<char>, i: int) -> Option<(int, int)> {
    match groups_end(s, i, 4) {
        Some(p) => {
            let e = digits_end(s, p);
            if e > p && e + mapping_suffix().len() <= s.len() && s.subrange(
                e,
                e + mapping_suffix().len(),
            ) == mapping_suffix() {
                Some((p, e))
            } else {
                None
            }
        },
        None => None,
    }
}

/// The port of the leftmost mapping that starts at or after `i`, or the empty
/// text where there is none.
pub open spec fn port_from(s: Seq<char>, i: int) -> Seq<char>
    decreases s.len() - i,
{
    if i < 0 || i >= s.len() {
        Seq::empty()
    } else {
        match mapping_at(s, i) {
            Some((p, e)) => s.subrange(p, e),
            None => port_from(s, i + 1),
        }
    }
}

/// The published host port of a ports column: that of its leftmost mapping to
/// the game port, or the empty text.
pub open spec fn port_of(s: Seq<char>) -> Seq<char> {
    port_from(s, 0)
}

/// A non-empty text of ASCII digits.
pub open spec fn all_digits(t: Seq<char>) -> bool {
    t.len() > 0 && forall|k: int| 0 <= k < t.len() ==> is_digit(#[trigger] t[k])
}

/// The ports column of a single mapping `a.b.c.d:port->25565/tcp`.
pub open spec fn mapping_text(
    a: Seq<char>,
    b: Seq<char>,
    c: Seq<char>,
    d: Seq<char>,
    port: Seq<char>,
) -> Seq<char> {
    a + seq!['.'] + b + seq!['.'] + c + seq!['.'] + d + seq![':'] + port + mapping_suffix()
}

proof fn lemma_digits_end(s: Seq<char>, i: int, j: int)
    requires
        0 <= i <= j <= s.len(),
        forall|k: int| i <= k < j ==> is_digit(#[trigger] s[k]),
        j == s.len() || !is_digit(s[j]),
    ensures
        digits_end(s, i) == j,
    decreases j - i,
{
    if i < j {
        lemma_digits_end(s, i + 1, j);
    }
}

/// A group of digits `t` at `i`, followed by `sep`: the group ends at `i + t.len()`.
proof fn lemma_group(s: Seq<char>, i: int, t: Seq<char>)
    requires
        all_digits(t),
        0 <= i,
        i + t.len() < s.len(),
        s.subrange(i, i + t.len()) == t,
        !is_digit(s[i + t.len()]),
    ensures
        digits_end(s, i) == i + t.len(),
{
    assert forall|k: int| i <= k < i + t.len() implies is_digit(#[trigger] s[k]) by {
        assert(s[k] == s.subrange(i, i + t.len())[k - i]);
    }
    lemma_digits_end(s, i, i + t.len());
}

/// A ports column that is exactly one mapping `a.b.c.d:port->25565/tcp` has
/// `port` as its published port.
pub proof fn lemma_port_of_mapping(
    a: Seq<char>,
    b: Seq<char>,
    c: Seq<char>,
    d: Seq<char>,
    port: Seq<char>,
)
    requires
        all_digits(a),
        all_digits(b),
        all_digits(c),
        all_digits(d),
        all_digits(port),
    ensures
        port_of(mapping_text(a, b, c, d, port)) == port,
{
    let s = mapping_text(a, b, c, d, port);
    let pb: int = a.len() as int + 1;
    let pc: int = pb + b.len() + 1;
    let pd: int = pc + c.len() + 1;
    let p: int = pd + d.len() + 1;
    let e: int = p + port.len();
    assert(s.subrange(0, a.len() as int) =~= a);
    assert(s[a.len() as int] == '.');
    assert(s.subrange(pb, pb + b.len()) =~= b);
    assert(s[pb + b.len()] == '.');
    assert(s.subrange(pc, pc + c.len()) =~= c);
    assert(s[pc + c.len()] == '.');
    assert(s.subrange(pd, pd + d.len()) =~= d);
    assert(s[pd + d.len()] == ':');
    assert(s.subrange(p, e) =~= port);
    assert(s.subrange(e, e + mapping_suffix().len()) =~= mapping_suffix());
    assert(s[e] == '-');
    lemma_group(s, 0, a);
    lemma_group(s, pb, b);
    lemma_group(s, pc, c);
    lemma_group(s, pd, d);
    lemma_group(s, p, port);
    assert(groups_end(s, pd, 1) == Some(p)) by {
        assert(groups_end(s, p, 0) == Some(p));
    }
    assert(groups_end(s, pc, 2) == Some(p));
    assert(groups_end(s, pb, 3) == Some(p));
    assert(groups_end(s, 0, 4) == Some(p));
    assert(mapping_at(s, 0) == Some((p, e)));
}

/// A ports column in which no mapping to the game port starts has no
/// published port.
pub proof fn lemma_port_of_no_mapping(s: Seq<char>)
    requires
        forall|i: int| 0 <= i < s.len() ==> #[trigger] mapping_at(s, i) is None,
    ensures
        port_of(s) == Seq::<char>::empty(),
{
    lemma_port_from_no_mapping(s, 0);
}

proof fn lemma_port_from_no_mapping(s: Seq<char>, i: int)
    requires
        0 <= i,
        forall|j: int| 0 <= j < s.len() ==> #[trigger] mapping_at(s, j) is None,
    ensures
        port_from(s, i) == Seq::<char>::empty(),
    decreases s.len() - i,
{
    if i < s.len() {
        assert(mapping_at(s, i) is None);
        lemma_port_from_no_mapping(s, i + 1);
    }
}

fn digit_at(s: &str, n: usize, i: usize) -> (r: bool)
    requires
        n == s@.len(),
    ensures
        r == (i < n && is_digit(s@[i as int])),
{
    if i < n {
        let c = s.get_char(i);
        '0' <= c && c <= '9'
    } else {
        false
    }
}

fn find_digits_end(s: &str, n: usize, i: usize) -> (r: usize)
    requires
        n == s@.len(),
        i <= n,
    ensures
        r as int == digits_end(s@, i as int),
        i <= r <= n,
{
    let mut j: usize = i;
    while digit_at(s, n, j)
        invariant
            n == s@.len(),
            i <= j <= n,
            digits_end(s@, i as int) == digits_end(s@, j as int),
        decreases n - j,
    {
        j = j + 1;
    }
    j
}

fn find_groups_end(s: &str, n: usize, i: usize) -> (r: Option<usize>)
    requires
        n == s@.len(),
        i <= n,
    ensures
        match r {
            Some(p) => groups_end(s@, i as int, 4) == Some(p as int) && p <= n,
            None => groups_end(s@, i as int, 4) is None,
        },
{
    let mut pos: usize = i;
    let mut k: usize = 0;
    while k < 4
        invariant
            n == s@.len(),
            i <= pos <= n,
            k <= 4,
            groups_end(s@, i as int, 4) == groups_end(s@, pos as int, (4 - k) as nat),
        decreases 4 - k,
    {
        let j = find_digits_end(s, n, pos);
        if j > pos && j < n {
            let c = s.get_char(j);
            if c == '.' || c == ':' {
                pos = j + 1;
                k = k + 1;
            } else {
                return None;
            }
        } else {
            return None;
        }
    }
    Some(pos)
}

fn suffix_at(s: &str, n: usize, e: usize) -> (r: bool)
    requires
        n == s@.len(),
        e <= n,
    ensures
        r == (e + mapping_suffix().len() <= n && s@.subrange(
            e as int,
            e + mapping_suffix().len(),
        ) == mapping_suffix()),
{
    let want: Vec<char> = vec!['-', '>', '2', '5', '5', '6', '5', '/', 't', 'c', 'p'];
    assert(want@ =~= mapping_suffix());
    let m = want.len();
    if n - e < m {
        return false;
    }
    let mut k: usize = 0;
    while k < m
        invariant
            n == s@.len(),
            m == want@.len(),
            want@ == mapping_suffix(),
            e + m <= n,
            k <= m,
            forall|t: int| 0 <= t < k ==> s@[e + t] == want@[t],
        decreases m - k,
    {
        if s.get_char(e + k) != want[k] {
            assert(s@.subrange(e as int, e + m)[k as int] != mapping_suffix()[k as int]);
            return false;
        }
        k = k + 1;
    }
    assert(s@.subrange(e as int, e + m) =~= mapping_suffix());
    true
}

fn find_mapping_at(s: &str, n: usize, i: usize) -> (r: Option<(usize, usize)>)
    requires
        n == s@.len(),
        i <= n,
    ensures
        match r {
            Some((p, e)) => mapping_at(s@, i as int) == Some((p as int, e as int)) && p <= e
                <= n,
            None => mapping_at(s@, i as int) is None,
        },
{
    match find_groups_end(s, n, i) {
        Some(p) => {
            let e = find_digits_end(s, n, p);
            if e > p && suffix_at(s, n, e) {
                Some((p, e))
            } else {
                None
            }
        },
        None => None,
    }
}

/// The published host port of a ports column, or the empty string where the
/// column maps no host port to the game port.
pub fn extract_port(field: &str) -> (r: String)
    ensures
        r@ == port_of(field@),
{
    let n = field.unicode_len();
    let mut i: usize = 0;
    while i < n
        invariant
            n == field@.len(),
            i <= n,
            port_of(field@) == port_from(field@, i as int),
        decreases n - i,
    {
        match find_mapping_at(field, n, i) {
            Some((p, e)) => {
                return String::from_str(field.substring_char(p, e));
            },
            None => {},
        }
        i = i + 1;
    }
    String::new()
}

} // verus!
