//! The tune zone overview: sorting the zones by their number, and reading a
//! tune command ("name value # comment") typed for a zone.
use vstd::prelude::*;

verus! {

/// One action of sorting the tune zones: which zone (by its place in the
/// layer's list of zones) and whether the action clears it or puts it back.
#[derive(Clone, Copy, PartialEq, Eq, Debug, Structural)]
pub struct ZoneStep {
    pub zone: usize,
    pub clear: bool,
}

/// Some action among `r[from..to]` names zone `i`.
pub open spec fn names_zone(r: Seq<ZoneStep>, from: int, to: int, i: int) -> bool {
    exists|j: int| from <= j < to && (#[trigger] r[j]).zone == i
}

/// The order of the actions that sort the zones (`keys`: each zone's
/// number, in the layer's order): first every zone is cleared, in the
/// layer's order; then every zone is put back, by increasing number.
pub open spec fn sort_plan_ok(keys: Seq<u8>, r: Seq<ZoneStep>) -> bool {
    let n = keys.len();
    &&& r.len() == 2 * n
    &&& forall|i: int| 0 <= i < n ==> #[trigger] r[i] == (ZoneStep { zone: i as usize, clear: true })
    &&& forall|j: int| n <= j < 2 * n ==> !(#[trigger] r[j]).clear && r[j].zone < n
    &&& forall|j: int, k: int| n <= j < k < 2 * n ==> keys[(#[trigger] r[j]).zone as int] < keys[(
        #[trigger] r[k]).zone as int]
    &&& forall|i: int| 0 <= i < n ==> #[trigger] names_zone(r, n as int, 2 * n as int, i)
}

fn find_key(keys: &Vec<u8>, v: u8) -> (r: Option<usize>)
    ensures
        r matches Some(i) ==> i < keys@.len() && keys@[i as int] == v,
        r is None ==> forall|i: int| 0 <= i < keys@.len() ==> keys@[i] != v,
{
    let mut i: usize = 0;
    while i < keys.len()
        invariant
            i <= keys@.len(),
            forall|j: int| 0 <= j < i ==> keys@[j] != v,
        decreases keys@.len() - i,
    {
        if keys[i] == v {
            return Some(i);
        }
        i = i + 1;
    }
    None
}

/// The actions that sort the tune zones by number (see [`sort_plan_ok`]);
/// zone numbers are distinct, as the layer keeps them in a map.
pub fn sort_zone_plan(keys: &Vec<u8>) -> (r: Vec<ZoneStep>)
    requires
        keys@.no_duplicates(),
    ensures
        sort_plan_ok(keys@, r@),
{
    let n = keys.len();
    let mut r: Vec<ZoneStep> = Vec::new();
    let mut i: usize = 0;
    while i < n
        invariant
            n == keys@.len(),
            i <= n,
            r@.len() == i,
            forall|k: int| 0 <= k < i ==> #[trigger] r@[k] == (ZoneStep { zone: k as usize, clear: true }),
        decreases n - i,
    {
        r.push(ZoneStep { zone: i, clear: true });
        i = i + 1;
    }
    let mut v: u16 = 0;
    while v < 256
        invariant
            n == keys@.len(),
            keys@.no_duplicates(),
            v <= 256,
            n <= r@.len() <= 2 * n,
            forall|k: int| 0 <= k < n ==> #[trigger] r@[k] == (ZoneStep { zone: k as usize, clear: true }),
            forall|j: int| n <= j < r@.len() ==> !(#[trigger] r@[j]).clear && r@[j].zone < n && keys@[r@[j].zone as int] < v,
            forall|j: int, k: int| n <= j < k < r@.len() ==> keys@[(#[trigger] r@[j]).zone as int] < keys@[(
                #[trigger] r@[k]).zone as int],
            forall|i: int| 0 <= i < n && keys@[i] < v ==> #[trigger] names_zone(r@, n as int, r@.len() as int, i),
            forall|j: int, k: int| n <= j < k < r@.len() ==> (#[trigger] r@[j]).zone != (#[trigger] r@[k]).zone,
        decreases 256 - v,
    {
        let ghost before = r@;
        match find_key(keys, v as u8) {
            Some(z) => {
                proof {
                    assert forall|j: int| n <= j < r@.len() implies (#[trigger] r@[j]).zone != z by {
                        assert(keys@[r@[j].zone as int] < v);
                    }
                    lemma_placed_count(keys@, r@, n as int, v as int, z as int);
                }
                r.push(ZoneStep { zone: z, clear: false });
                proof {
                    assert forall|i: int| 0 <= i < n && keys@[i] < v + 1 implies #[trigger] names_zone(
                        r@,
                        n as int,
                        r@.len() as int,
                        i,
                    ) by {
                        if keys@[i] < v {
                            assert(names_zone(before, n as int, before.len() as int, i));
                            let j = choose|j: int| n <= j < before.len() && (#[trigger] before[j]).zone == i;
                            assert(r@[j] == before[j]);
                        } else {
                            assert(keys@[i] == keys@[z as int]);
                            assert(i == z as int);
                            assert(r@[r@.len() - 1].zone == i);
                        }
                    }
                    assert forall|j: int| n <= j < r@.len() implies !(#[trigger] r@[j]).clear && r@[j].zone < n
                        && keys@[r@[j].zone as int] < v + 1 by {
                        if j < before.len() {
                            assert(r@[j] == before[j]);
                        }
                    }
                    assert forall|j: int, k: int| n <= j < k < r@.len() implies keys@[(#[trigger] r@[j]).zone as int]
                        < keys@[(#[trigger] r@[k]).zone as int] by {
                        assert(r@[j] == before[j]);
                        if k < before.len() {
                            assert(r@[k] == before[k]);
                        }
                    }
                    assert forall|j: int, k: int| n <= j < k < r@.len() implies (#[trigger] r@[j]).zone != (
                        #[trigger] r@[k]).zone by {
                        assert(r@[j] == before[j]);
                        if k < before.len() {
                            assert(r@[k] == before[k]);
                        }
                    }
                    assert forall|k: int| 0 <= k < n implies #[trigger] r@[k] == (ZoneStep { zone: k as usize, clear: true }) by {
                        assert(r@[k] == before[k]);
                    }
                }
            },
            None => {
                proof {
                    assert forall|i: int| 0 <= i < n && keys@[i] < v + 1 implies #[trigger] names_zone(
                        r@,
                        n as int,
                        r@.len() as int,
                        i,
                    ) by {
                        assert(keys@[i] != v);
                    }
                }
            },
        }
        v = v + 1;
    }
    proof {
        assert(r@.len() == 2 * n) by {
            if r@.len() < 2 * n {
                lemma_all_placed_count(keys@, r@, n as int);
            }
        }
        assert forall|i: int| 0 <= i < n implies #[trigger] names_zone(r@, n as int, 2 * n as int, i) by {
            assert(keys@[i] < 256);
            assert(names_zone(r@, n as int, r@.len() as int, i));
        }
    }
    r
}

/// `r[n..]` holds distinct zones, each with a number below `v`; it misses
/// zone `z`, numbered `v`, so it holds fewer than `n` zones.
proof fn lemma_placed_count(keys: Seq<u8>, r: Seq<ZoneStep>, n: int, v: int, z: int)
    requires
        n == keys.len(),
        0 <= z < n,
        keys[z] == v,
        n <= r.len(),
        forall|j: int| n <= j < r.len() ==> (#[trigger] r[j]).zone < n && keys[r[j].zone as int] < v,
        forall|j: int, k: int| n <= j < k < r.len() ==> (#[trigger] r[j]).zone != (#[trigger] r[k]).zone,
    ensures
        r.len() < 2 * n,
{
    // the placed zones are `r.len() - n >= n` distinct values in `0..n`
    // without `z`: too many
    let tail = r.subrange(n, r.len() as int).map_values(|s: ZoneStep| s.zone as int);
    assert(tail.no_duplicates()) by {
        assert forall|a: int, b: int| 0 <= a < b < tail.len() implies tail[a] != tail[b] by {
            assert(r[n + a].zone != r[n + b].zone);
        }
    }
    tail.unique_seq_to_set();
    let range = Set::new(|i: int| 0 <= i < n && i != z);
    assert(tail.to_set().subset_of(range)) by {
        assert forall|i: int| tail.to_set().contains(i) implies range.contains(i) by {
            let a = choose|a: int| 0 <= a < tail.len() && tail[a] == i;
            assert(r[n + a].zone as int == i);
            assert(keys[i] < v);
        }
    }
    assert(range =~= vstd::set_lib::set_int_range(0, n).remove(z));
    vstd::set_lib::lemma_int_range(0, n);
    vstd::set_lib::lemma_len_subset(tail.to_set(), range);
}

/// `r[n..]` holds zones in `0..n`, each of the `n` zones at least once;
/// so it holds at least `n` actions.
proof fn lemma_all_placed_count(keys: Seq<u8>, r: Seq<ZoneStep>, n: int)
    requires
        n == keys.len(),
        n <= r.len(),
        forall|j: int| n <= j < r.len() ==> (#[trigger] r[j]).zone < n,
        forall|i: int| 0 <= i < n ==> #[trigger] names_zone(r, n, r.len() as int, i),
    ensures
        r.len() >= 2 * n,
{
    let tail = r.subrange(n, r.len() as int).map_values(|s: ZoneStep| s.zone as int);
    let range = vstd::set_lib::set_int_range(0, n);
    assert(range.subset_of(tail.to_set())) by {
        assert forall|i: int| range.contains(i) implies tail.to_set().contains(i) by {
            assert(names_zone(r, n, r.len() as int, i));
            let j = choose|j: int| n <= j < r.len() && (#[trigger] r[j]).zone == i;
            assert(tail[j - n] == i);
        }
    }
    vstd::set_lib::lemma_int_range(0, n);
    vstd::set_lib::lemma_len_subset(range, tail.to_set());
    tail.lemma_cardinality_of_set();
}

/// White space as `char::is_whitespace` sees it: the characters with the
/// Unicode White_Space property.
pub open spec fn white_space(c: char) -> bool {
    ||| '\u{9}' <= c <= '\u{d}'
    ||| c == ' '
    ||| c == '\u{85}'
    ||| c == '\u{a0}'
    ||| c == '\u{1680}'
    ||| '\u{2000}' <= c <= '\u{200a}'
    ||| c == '\u{2028}'
    ||| c == '\u{2029}'
    ||| c == '\u{202f}'
    ||| c == '\u{205f}'
    ||| c == '\u{3000}'
}

/// Whether `c` is white space (see [`white_space`]).
pub fn is_white_space(c: char) -> (r: bool)
    ensures
        r == white_space(c),
{
    ('\u{9}' <= c && c <= '\u{d}') || c == ' ' || c == '\u{85}' || c == '\u{a0}' || c == '\u{1680}'
        || ('\u{2000}' <= c && c <= '\u{200a}') || c == '\u{2028}' || c == '\u{2029}' || c == '\u{202f}'
        || c == '\u{205f}' || c == '\u{3000}'
}

/// Which characters a search looks for.
#[derive(Clone, Copy, PartialEq, Eq, Debug, Structural)]
pub enum CharClass {
    /// Not white space.
    Solid,
    /// White space.
    White,
    /// The comment sign `#`.
    Hash,
}

/// Whether `c` is in the class.
pub open spec fn in_class(k: CharClass, c: char) -> bool {
    match k {
        CharClass::Solid => !white_space(c),
        CharClass::White => white_space(c),
        CharClass::Hash => c == '#',
    }
}

fn is_in_class(k: CharClass, c: char) -> (r: bool)
    ensures
        r == in_class(k, c),
{
    match k {
        CharClass::Solid => !is_white_space(c),
        CharClass::White => is_white_space(c),
        CharClass::Hash => c == '#',
    }
}

/// Index of the first character of class `k` at or after `i`.
pub open spec fn first_from(s: Seq<char>, i: int, k: CharClass) -> Option<int>
    decreases s.len() - i,
{
    if i < 0 || i >= s.len() {
        None
    } else if in_class(k, s[i]) {
        Some(i)
    } else {
        first_from(s, i + 1, k)
    }
}

/// Index of the last character of class `k` before `j`.
pub open spec fn last_before(s: Seq<char>, j: int, k: CharClass) -> Option<int>
    decreases j,
{
    if j <= 0 || j > s.len() {
        None
    } else if in_class(k, s[j - 1]) {
        Some(j - 1)
    } else {
        last_before(s, j - 1, k)
    }
}

/// `s` without its leading and trailing white space (as `str::trim`).
pub open spec fn trim_spec(s: Seq<char>) -> Seq<char> {
    match first_from(s, 0, CharClass::Solid) {
        None => Seq::empty(),
        Some(a) => match last_before(s, s.len() as int, CharClass::Solid) {
            Some(b) => s.subrange(a, b + 1),
            None => Seq::empty(),
        },
    }
}

/// A tune command typed for a zone, read as "name value # comment": the
/// text trimmed; what follows the first `#`, trimmed, is the comment, and
/// what precedes it, trimmed, the command; the command splits at its first
/// white space into name and value (the value keeps further white space).
/// Empty text, or a command without white space, gives nothing.
pub open spec fn parse_tune_spec(s: Seq<char>) -> Option<(Seq<char>, Seq<char>, Option<Seq<char>>)> {
    if s.len() == 0 {
        None
    } else {
        let t = trim_spec(s);
        let (body, comment) = match first_from(t, 0, CharClass::Hash) {
            Some(i) => (trim_spec(t.take(i)), Some(trim_spec(t.skip(i + 1)))),
            None => (t, None),
        };
        match first_from(body, 0, CharClass::White) {
            Some(j) => Some((body.take(j), body.skip(j + 1), comment)),
            None => None,
        }
    }
}

/// The first character of class `k` at or after `from`.
pub(crate) fn find_first(s: &Vec<char>, from: usize, k: CharClass) -> (r: Option<usize>)
    ensures
        r matches Some(i) ==> first_from(s@, from as int, k) == Some(i as int),
        r matches Some(i) ==> from <= i && i < s@.len() && in_class(k, s@[i as int]),
        r is None ==> first_from(s@, from as int, k) is None,
{
    let mut i: usize = from;
    while i < s.len()
        invariant
            from <= i,
            first_from(s@, from as int, k) == first_from(s@, i as int, k),
        decreases s@.len() - i,
    {
        if is_in_class(k, s[i]) {
            return Some(i);
        }
        i = i + 1;
    }
    None
}

/// The last character of class `k` before `to`.
fn find_last(s: &Vec<char>, to: usize, k: CharClass) -> (r: Option<usize>)
    requires
        to <= s@.len(),
    ensures
        r matches Some(i) ==> last_before(s@, to as int, k) == Some(i as int) && i < to,
        r is None ==> last_before(s@, to as int, k) is None,
{
    let mut j: usize = to;
    while j > 0
        invariant
            j <= to <= s@.len(),
            last_before(s@, to as int, k) == last_before(s@, j as int, k),
        decreases j,
    {
        if is_in_class(k, s[j - 1]) {
            return Some(j - 1);
        }
        j = j - 1;
    }
    None
}

pub(crate) fn copy_range(s: &Vec<char>, a: usize, b: usize) -> (r: Vec<char>)
    requires
        a <= b <= s@.len(),
    ensures
        r@ == s@.subrange(a as int, b as int),
{
    let mut r: Vec<char> = Vec::new();
    let mut i: usize = a;
    while i < b
        invariant
            a <= i <= b,
            b <= s@.len(),
            r@ == s@.subrange(a as int, i as int),
        decreases b - i,
    {
        r.push(s[i]);
        i = i + 1;
    }
    r
}

pub(crate) fn trim_chars(s: &Vec<char>) -> (r: Vec<char>)
    ensures
        r@ == trim_spec(s@),
{
    match find_first(s, 0, CharClass::Solid) {
        None => Vec::new(),
        Some(a) => match find_last(s, s.len(), CharClass::Solid) {
            Some(b) => {
                proof {
                    if b < a {
                        // the solid character at `a` comes before the end, so the
                        // last solid one is at `a` or later
                        lemma_last_at_least(s@, s@.len() as int, a as int);
                    }
                }
                copy_range(s, a, b + 1)
            },
            None => {
                proof {
                    lemma_last_at_least(s@, s@.len() as int, a as int);
                }
                Vec::new()
            },
        },
    }
}

pub(crate) proof fn lemma_last_at_least(s: Seq<char>, j: int, a: int)
    requires
        0 <= a < j <= s.len(),
        in_class(CharClass::Solid, s[a]),
    ensures
        last_before(s, j, CharClass::Solid) matches Some(m) && a <= m,
    decreases j,
{
    if !in_class(CharClass::Solid, s[j - 1]) {
        lemma_last_at_least(s, j - 1, a);
    }
}

/// Reads a tune command typed for a zone: its name, value and comment (see
/// [`parse_tune_spec`]).
pub fn parse_tune_command(s: &Vec<char>) -> (r: Option<(Vec<char>, Vec<char>, Option<Vec<char>>)>)
    ensures
        match parse_tune_spec(s@) {
            None => r is None,
            Some((name, value, comment)) => r matches Some((n, v, c)) && n@ == name && v@ == value
                && match comment {
                None => c is None,
                Some(cm) => c matches Some(cc) && cc@ == cm,
            },
        },
{
    if s.len() == 0 {
        return None;
    }
    let t = trim_chars(s);
    let (body, comment) = match find_first(&t, 0, CharClass::Hash) {
        Some(i) => {
            let before = copy_range(&t, 0, i);
            let after = copy_range(&t, i + 1, t.len());
            proof {
                assert(before@ == t@.take(i as int));
                assert(after@ == t@.skip(i as int + 1));
            }
            (trim_chars(&before), Some(trim_chars(&after)))
        },
        None => (t, None),
    };
    match find_first(&body, 0, CharClass::White) {
        Some(j) => {
            let n = body.len();
            let name = copy_range(&body, 0, j);
            let value = copy_range(&body, j + 1, n);
            proof {
                assert(name@ == body@.take(j as int));
                assert(value@ == body@.skip(j as int + 1));
            }
            Some((name, value, comment))
        },
        None => None,
    }
}

} // verus!
