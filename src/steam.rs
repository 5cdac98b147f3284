use vstd::prelude::*;
use vstd::utf8::char_u32_cast;
use crate::text::{views, owned, join2, join3};

verus! {

/// The separators tolerated between a key and its value: the Unicode
/// White_Space characters.
pub open spec fn is_space(c: char) -> bool {
    let x = c as u32;
    (9 <= x <= 13) || x == 32 || x == 0x85 || x == 0xA0 || x == 0x1680 || (0x2000 <= x <= 0x200A)
        || x == 0x2028 || x == 0x2029 || x == 0x202F || x == 0x205F || x == 0x3000
}

/// A code point with ASCII upper case folded to lower case.
pub open spec fn fold(x: u32) -> u32 {
    if 65 <= x <= 90 {
        (x + 32) as u32
    } else {
        x
    }
}

/// Two characters equal up to ASCII case.
pub open spec fn same_letter(a: char, b: char) -> bool {
    fold(a as u32) == fold(b as u32)
}

/// Two texts equal up to ASCII case.
pub open spec fn same_folded(a: Seq<char>, b: Seq<char>) -> bool {
    a.len() == b.len() && forall|i: int| 0 <= i < a.len() ==> same_letter(#[trigger] a[i], b[i])
}

/// Whether the quoted key `"key"` (any ASCII case) starts at `i`.
pub open spec fn key_at(s: Seq<char>, key: Seq<char>, i: int) -> bool {
    &&& 0 <= i
    &&& i + key.len() + 2 <= s.len()
    &&& s[i] == '"'
    &&& same_folded(s.subrange(i + 1, i + 1 + key.len()), key)
    &&& s[i + 1 + key.len()] == '"'
}

/// The first index at or after `j` that is not a separator.
pub open spec fn skip_spaces(s: Seq<char>, j: int) -> int
    decreases s.len() - j,
{
    if 0 <= j < s.len() && is_space(s[j]) {
        skip_spaces(s, j + 1)
    } else {
        j
    }
}

/// The first index at or after `j` that holds a quote, or the length.
pub open spec fn next_quote(s: Seq<char>, j: int) -> int
    decreases s.len() - j,
{
    if 0 <= j < s.len() && s[j] != '"' {
        next_quote(s, j + 1)
    } else {
        j
    }
}

/// Where the value of a key found at `i` opens: the quote after the separators.
pub open spec fn value_open(s: Seq<char>, key: Seq<char>, i: int) -> int {
    skip_spaces(s, i + key.len() + 2)
}

/// Where that value closes.
pub open spec fn value_close(s: Seq<char>, key: Seq<char>, i: int) -> int {
    next_quote(s, value_open(s, key, i) + 1)
}

/// Whether `"key"`, at least one separator and a non-empty quoted value start
/// at `i`.
pub open spec fn entry_at(s: Seq<char>, key: Seq<char>, i: int) -> bool {
    let after = i + key.len() + 2;
    let open = value_open(s, key, i);
    let close = value_close(s, key, i);
    &&& key_at(s, key, i)
    &&& after < s.len()
    &&& is_space(s[after])
    &&& open < s.len()
    &&& s[open] == '"'
    &&& open + 1 < close < s.len()
}

/// The values of every `"key" "value"` entry from `i` on, left to right, each
/// entry taken up before the search goes on after it.
pub open spec fn values_from(s: Seq<char>, key: Seq<char>, i: int) -> Seq<Seq<char>>
    decreases s.len() - i,
{
    if i < 0 || i >= s.len() {
        Seq::empty()
    } else if entry_at(s, key, i) && value_close(s, key, i) > i {
        let open = value_open(s, key, i);
        let close = value_close(s, key, i);
        seq![s.subrange(open + 1, close)] + values_from(s, key, close + 1)
    } else {
        values_from(s, key, i + 1)
    }
}

/// The values of every entry of `key` in a text.
pub open spec fn entry_values(s: Seq<char>, key: Seq<char>) -> Seq<Seq<char>> {
    values_from(s, key, 0)
}

/// A text with each doubled backslash read as one.
pub open spec fn unescaped(s: Seq<char>) -> Seq<char>
    decreases s.len(),
{
    if s.len() < 2 {
        s
    } else if s[0] == '\\' && s[1] == '\\' {
        seq!['\\'] + unescaped(s.subrange(2, s.len() as int))
    } else {
        seq![s[0]] + unescaped(s.subrange(1, s.len() as int))
    }
}

/// The separator that a path uses: a backslash where it holds one, else a slash.
pub open spec fn separator_of(base: Seq<char>) -> Seq<char> {
    if base.contains('\\') {
        seq!['\\']
    } else {
        seq!['/']
    }
}

/// `name` under the directory `base`.
pub open spec fn joined(base: Seq<char>, name: Seq<char>) -> Seq<char> {
    if base.len() > 0 && (base.last() == '\\' || base.last() == '/') {
        base + name
    } else {
        base + separator_of(base) + name
    }
}

/// The rank of a character when paths are ordered: the separators rank below
/// every other character, so that paths order component by component.
pub open spec fn rank(c: char) -> int {
    if c == '/' {
        0
    } else if c == '\\' {
        1
    } else {
        c as u32 + 2
    }
}

/// Whether path `a` orders before path `b`.
pub open spec fn path_lt(a: Seq<char>, b: Seq<char>) -> bool
    decreases a.len(),
{
    if a.len() == 0 {
        b.len() > 0
    } else if b.len() == 0 {
        false
    } else if a[0] != b[0] {
        rank(a[0]) < rank(b[0])
    } else {
        path_lt(a.drop_first(), b.drop_first())
    }
}

/// A list in strictly ascending path order, so free of duplicates.
pub open spec fn sorted_paths(s: Seq<Seq<char>>) -> bool {
    forall|i: int, j: int| 0 <= i < j < s.len() ==> path_lt(#[trigger] s[i], #[trigger] s[j])
}

pub proof fn lemma_path_lt_irreflexive(a: Seq<char>)
    ensures
        !path_lt(a, a),
    decreases a.len(),
{
    if a.len() > 0 {
        lemma_path_lt_irreflexive(a.drop_first());
    }
}

pub proof fn lemma_path_lt_total(a: Seq<char>, b: Seq<char>)
    ensures
        a == b || path_lt(a, b) || path_lt(b, a),
    decreases a.len(),
{
    if a.len() > 0 && b.len() > 0 {
        if a[0] == b[0] {
            lemma_path_lt_total(a.drop_first(), b.drop_first());
            if a.drop_first() == b.drop_first() {
                assert(a =~= seq![a[0]] + a.drop_first());
                assert(b =~= seq![b[0]] + b.drop_first());
            }
        } else {
            char_u32_cast(a[0], a[0] as u32);
            char_u32_cast(b[0], b[0] as u32);
        }
    } else if a.len() == 0 && b.len() == 0 {
        assert(a =~= b);
    }
}

pub proof fn lemma_path_lt_transitive(a: Seq<char>, b: Seq<char>, c: Seq<char>)
    requires
        path_lt(a, b),
        path_lt(b, c),
    ensures
        path_lt(a, c),
    decreases a.len(),
{
    if a.len() > 0 && a[0] == b[0] && b[0] == c[0] {
        lemma_path_lt_transitive(a.drop_first(), b.drop_first(), c.drop_first());
    } else if a.len() > 0 && a[0] != c[0] {
        assert(rank(a[0]) < rank(c[0]));
    } else if a.len() > 0 {
        assert(a[0] != b[0] || b[0] != c[0]);
        assert(rank(a[0]) <= rank(b[0]) && rank(b[0]) <= rank(c[0]));
        assert(rank(a[0]) < rank(c[0]));
    }
}

/// The libraries that a Steam installation may have: its own `steamapps`, then
/// the `steamapps` of each library path that `libraryfolders.vdf` declares.
pub open spec fn library_candidates(root: Seq<char>, vdf: Seq<Seq<char>>) -> Seq<Seq<char>> {
    seq![joined(root, "steamapps"@)] + vdf.map_values(
        |p: Seq<char>| joined(unescaped(p), "steamapps"@),
    )
}

/// The characters of a text, one per element.
pub fn chars_of(s: &str) -> (r: Vec<char>)
    ensures
        r@ == s@,
{
    let n = s.unicode_len();
    let mut r: Vec<char> = Vec::new();
    let mut i: usize = 0;
    while i < n
        invariant
            n == s@.len(),
            i <= n,
            r@ == s@.subrange(0, i as int),
        decreases n - i,
    {
        r.push(s.get_char(i));
        i = i + 1;
        assert(r@ =~= s@.subrange(0, i as int));
    }
    assert(r@ =~= s@);
    r
}

fn fold_char(c: char) -> (r: u32)
    ensures
        r == fold(c as u32),
{
    let x = c as u32;
    if 65 <= x && x <= 90 {
        x + 32
    } else {
        x
    }
}

fn space(c: char) -> (r: bool)
    ensures
        r == is_space(c),
{
    let x = c as u32;
    (9 <= x && x <= 13) || x == 32 || x == 0x85 || x == 0xA0 || x == 0x1680 || (0x2000 <= x && x
        <= 0x200A) || x == 0x2028 || x == 0x2029 || x == 0x202F || x == 0x205F || x == 0x3000
}

/// Whether two texts are equal up to ASCII case.
pub fn eq_ignore_ascii_case(a: &Vec<char>, b: &Vec<char>) -> (r: bool)
    ensures
        r == same_folded(a@, b@),
{
    if a.len() != b.len() {
        return false;
    }
    let mut i: usize = 0;
    while i < a.len()
        invariant
            a@.len() == b@.len(),
            i <= a@.len(),
            forall|k: int| 0 <= k < i ==> same_letter(#[trigger] a@[k], b@[k]),
        decreases a@.len() - i,
    {
        if fold_char(a[i]) != fold_char(b[i]) {
            return false;
        }
        i = i + 1;
    }
    true
}

fn key_matches(s: &Vec<char>, key: &Vec<char>, i: usize) -> (r: bool)
    ensures
        r == key_at(s@, key@, i as int),
{
    let n = s.len();
    if key.len() > n || n - key.len() < 2 || i > n - key.len() - 2 {
        return false;
    }
    if s[i] != '"' || s[i + 1 + key.len()] != '"' {
        return false;
    }
    let mut k: usize = 0;
    while k < key.len()
        invariant
            n == s@.len(),
            i + key@.len() + 2 <= s@.len(),
            k <= key@.len(),
            forall|m: int| 0 <= m < k ==> same_letter(#[trigger] s@[i + 1 + m], key@[m]),
        decreases key@.len() - k,
    {
        if fold_char(s[i + 1 + k]) != fold_char(key[k]) {
            assert(!same_letter(s@.subrange(i + 1, i + 1 + key@.len())[k as int], key@[k as int]));
            return false;
        }
        k = k + 1;
    }
    assert(same_folded(s@.subrange(i + 1, i + 1 + key@.len()), key@)) by {
        assert forall|m: int| 0 <= m < key@.len() implies same_letter(
            #[trigger] s@.subrange(i + 1, i + 1 + key@.len())[m],
            key@[m],
        ) by {
            assert(same_letter(s@[i + 1 + m], key@[m]));
        }
    }
    true
}

fn skip_spaces_from(s: &Vec<char>, j: usize) -> (r: usize)
    requires
        j <= s@.len(),
    ensures
        r as int == skip_spaces(s@, j as int),
        j <= r <= s@.len(),
{
    let mut k = j;
    while k < s.len() && space(s[k])
        invariant
            j <= k <= s@.len(),
            skip_spaces(s@, k as int) == skip_spaces(s@, j as int),
        decreases s@.len() - k,
    {
        k = k + 1;
    }
    k
}

fn next_quote_from(s: &Vec<char>, j: usize) -> (r: usize)
    requires
        j <= s@.len(),
    ensures
        r as int == next_quote(s@, j as int),
        j <= r <= s@.len(),
{
    let mut k = j;
    while k < s.len() && s[k] != '"'
        invariant
            j <= k <= s@.len(),
            next_quote(s@, k as int) == next_quote(s@, j as int),
        decreases s@.len() - k,
    {
        k = k + 1;
    }
    k
}

/// The bounds of the value of an entry of `key` that starts at `i`, if one does.
fn entry_bounds(s: &Vec<char>, key: &Vec<char>, i: usize) -> (r: Option<(usize, usize)>)
    requires
        i < s@.len(),
    ensures
        r is Some <==> entry_at(s@, key@, i as int),
        r matches Some((o, c)) ==> o as int == value_open(s@, key@, i as int) && c as int
            == value_close(s@, key@, i as int) && i < c < s@.len(),
{
    let n = s.len();
    if !key_matches(s, key, i) {
        return None;
    }
    let after = i + key.len() + 2;
    if after >= s.len() || !space(s[after]) {
        return None;
    }
    let open = skip_spaces_from(s, after);
    if open >= s.len() || s[open] != '"' {
        return None;
    }
    let close = next_quote_from(s, open + 1);
    if close <= open + 1 || close >= s.len() {
        return None;
    }
    Some((open, close))
}

/// The values of every `"key" "value"` entry of a text, in order. The key
/// matches in any ASCII case; key and value are parted by one or more
/// whitespace characters; a value is a non-empty run of characters other than a
/// quote.
pub fn quoted_values(text: &str, key: &str) -> (r: Vec<String>)
    ensures
        views(r@) == entry_values(text@, key@),
{
    let s = chars_of(text);
    let k = chars_of(key);
    let mut r: Vec<String> = Vec::new();
    let mut i: usize = 0;
    while i < s.len()
        invariant
            s@ == text@,
            k@ == key@,
            i <= s@.len(),
            views(r@) + values_from(s@, k@, i as int) == values_from(s@, k@, 0),
        decreases s@.len() - i,
    {
        match entry_bounds(&s, &k, i) {
            Some((open, close)) => {
                let v = text.substring_char(open + 1, close).to_owned();
                let ghost prev = r@;
                r.push(v);
                proof {
                    assert(views(r@) =~= views(prev).push(v@));
                    assert(values_from(s@, k@, i as int) == seq![s@.subrange(open + 1, close as int)]
                        + values_from(s@, k@, close + 1));
                    assert(views(r@) + values_from(s@, k@, close + 1) =~= views(prev)
                        + values_from(s@, k@, i as int));
                }
                i = close + 1;
            },
            None => {
                i = i + 1;
            },
        }
    }
    proof {
        assert(values_from(s@, k@, i as int) == Seq::<Seq<char>>::empty());
        assert(views(r@) =~= views(r@) + Seq::<Seq<char>>::empty());
    }
    r
}

/// Reads each doubled backslash of a text as a single one.
pub fn unescape_separators(s: &str) -> (r: String)
    ensures
        r@ == unescaped(s@),
{
    let c = chars_of(s);
    let n = c.len();
    let mut r = String::new();
    let mut i: usize = 0;
    proof {
        assert(s@.subrange(0, n as int) =~= s@);
    }
    while i < n
        invariant
            c@ == s@,
            n == s@.len(),
            i <= n,
            r@ + unescaped(s@.subrange(i as int, n as int)) == unescaped(s@),
        decreases n - i,
    {
        let ghost rest = s@.subrange(i as int, n as int);
        if i + 1 < n && c[i] == '\\' && c[i + 1] == '\\' {
            r.append("\\");
            proof {
                reveal_strlit("\\");
                assert(rest.subrange(2, rest.len() as int) =~= s@.subrange(i + 2, n as int));
            }
            i = i + 2;
        } else {
            r.append(s.substring_char(i, i + 1));
            proof {
                if rest.len() < 2 {
                    assert(s@.subrange(i + 1, n as int) =~= Seq::<char>::empty());
                    assert(rest =~= seq![rest[0]]);
                    assert(unescaped(s@.subrange(i + 1, n as int)) == Seq::<char>::empty());
                } else {
                    assert(rest.subrange(1, rest.len() as int) =~= s@.subrange(i + 1, n as int));
                }
                assert(s@.subrange(i as int, i + 1) =~= seq![rest[0]]);
            }
            i = i + 1;
        }
    }
    proof {
        assert(s@.subrange(n as int, n as int) =~= Seq::<char>::empty());
        assert(r@ =~= r@ + Seq::<char>::empty());
    }
    r
}

fn holds_backslash(c: &Vec<char>) -> (r: bool)
    ensures
        r == c@.contains('\\'),
{
    let mut i: usize = 0;
    while i < c.len()
        invariant
            i <= c@.len(),
            forall|k: int| 0 <= k < i ==> c@[k] != '\\',
        decreases c@.len() - i,
    {
        if c[i] == '\\' {
            assert(c@[i as int] == '\\');
            return true;
        }
        i = i + 1;
    }
    false
}

/// The path of `name` inside the directory `base`, with the separator that
/// `base` already uses.
pub fn join_path(base: &str, name: &str) -> (r: String)
    ensures
        r@ == joined(base@, name@),
{
    let c = chars_of(base);
    let n = c.len();
    if n > 0 && (c[n - 1] == '\\' || c[n - 1] == '/') {
        return join2(base, name);
    }
    if holds_backslash(&c) {
        let r = join3(base, "\\", name);
        proof {
            reveal_strlit("\\");
            assert("\\"@ =~= seq!['\\']);
        }
        r
    } else {
        let r = join3(base, "/", name);
        proof {
            reveal_strlit("/");
            assert("/"@ =~= seq!['/']);
        }
        r
    }
}

fn rank_of(c: char) -> (r: u64)
    ensures
        r as int == rank(c),
{
    if c == '/' {
        0
    } else if c == '\\' {
        1
    } else {
        c as u64 + 2
    }
}

/// Whether path `a` orders before path `b`.
pub fn path_precedes(a: &Vec<char>, b: &Vec<char>) -> (r: bool)
    ensures
        r == path_lt(a@, b@),
{
    let mut i: usize = 0;
    proof {
        assert(a@.subrange(0, a@.len() as int) =~= a@);
        assert(b@.subrange(0, b@.len() as int) =~= b@);
    }
    while i < a.len() && i < b.len() && a[i] == b[i]
        invariant
            i <= a@.len(),
            i <= b@.len(),
            path_lt(a@, b@) == path_lt(
                a@.subrange(i as int, a@.len() as int),
                b@.subrange(i as int, b@.len() as int),
            ),
        decreases a@.len() - i,
    {
        proof {
            let sa = a@.subrange(i as int, a@.len() as int);
            let sb = b@.subrange(i as int, b@.len() as int);
            assert(sa.drop_first() =~= a@.subrange(i + 1, a@.len() as int));
            assert(sb.drop_first() =~= b@.subrange(i + 1, b@.len() as int));
        }
        i = i + 1;
    }
    if i == a.len() {
        i < b.len()
    } else if i == b.len() {
        false
    } else {
        rank_of(a[i]) < rank_of(b[i])
    }
}

/// The paths of a list in ascending path order, each once.
pub fn sort_paths(c: &Vec<String>) -> (r: Vec<String>)
    ensures
        sorted_paths(views(r@)),
        forall|p: Seq<char>| views(r@).contains(p) <==> views(c@).contains(p),
{
    let mut r: Vec<String> = Vec::new();
    let mut rc: Vec<Vec<char>> = Vec::new();
    let mut i: usize = 0;
    while i < c.len()
        invariant
            i <= c@.len(),
            rc@.len() == r@.len(),
            forall|m: int| 0 <= m < r@.len() ==> #[trigger] rc@[m]@ == r@[m]@,
            sorted_paths(views(r@)),
            forall|p: Seq<char>| views(r@).contains(p) <==> views(c@).take(i as int).contains(p),
        decreases c@.len() - i,
    {
        let x = chars_of(c[i].as_str());
        let mut k: usize = 0;
        while k < rc.len() && path_precedes(&rc[k], &x)
            invariant
                k <= rc@.len(),
                rc@.len() == r@.len(),
                x@ == c@[i as int]@,
                i < c@.len(),
                forall|m: int| 0 <= m < k ==> path_lt(#[trigger] rc@[m]@, x@),
            decreases rc@.len() - k,
        {
            k = k + 1;
        }
        let ghost old_r = views(r@);
        let ghost xv = x@;
        proof {
            assert(views(c@).take(i + 1) =~= views(c@).take(i as int).push(xv));
            assert forall|m: int| 0 <= m < k implies path_lt(#[trigger] old_r[m], xv) by {
                assert(old_r[m] == rc@[m]@);
            }
        }
        if k < r.len() && r[k] == c[i] {
            proof {
                assert(old_r[k as int] == xv);
                assert forall|p: Seq<char>| old_r.contains(p) <==> views(c@).take(i + 1).contains(
                    p,
                ) by {
                    if p == xv {
                        assert(old_r[k as int] == p);
                    }
                    if views(c@).take(i + 1).contains(p) && p != xv {
                        let w = choose|w: int|
                            0 <= w < views(c@).take(i + 1).len() && #[trigger] views(c@).take(i + 1)[w] == p;
                        assert(views(c@).take(i as int)[w] == p);
                    }
                }
            }
        } else {
            proof {
                if k < r@.len() {
                    assert(old_r[k as int] == rc@[k as int]@);
                    assert(!path_lt(old_r[k as int], xv));
                    assert(old_r[k as int] != xv);
                    lemma_path_lt_total(old_r[k as int], xv);
                }
            }
            let ghost old_rc = rc@;
            let ghost old_rs = r@;
            r.insert(k, c[i].clone());
            rc.insert(k, x);
            proof {
                let nr = views(r@);
                assert(nr =~= old_r.insert(k as int, xv));
                assert forall|a: int, b: int| 0 <= a < b < nr.len() implies path_lt(
                    #[trigger] nr[a],
                    #[trigger] nr[b],
                ) by {
                    if b < k {
                        assert(nr[a] == old_r[a] && nr[b] == old_r[b]);
                    } else if b == k {
                        assert(nr[a] == old_r[a]);
                    } else if a < k {
                        assert(nr[a] == old_r[a] && nr[b] == old_r[b - 1]);
                        assert(path_lt(old_r[a], xv));
                        assert(path_lt(xv, old_r[k as int]));
                        if b - 1 > k {
                            assert(path_lt(old_r[k as int], old_r[b - 1]));
                            lemma_path_lt_transitive(xv, old_r[k as int], old_r[b - 1]);
                        }
                        lemma_path_lt_transitive(old_r[a], xv, old_r[b - 1]);
                    } else if a == k {
                        assert(nr[b] == old_r[b - 1]);
                        if b - 1 > k {
                            assert(path_lt(old_r[k as int], old_r[b - 1]));
                            lemma_path_lt_transitive(xv, old_r[k as int], old_r[b - 1]);
                        }
                    } else {
                        assert(nr[a] == old_r[a - 1] && nr[b] == old_r[b - 1]);
                    }
                }
                assert forall|m: int| 0 <= m < r@.len() implies #[trigger] rc@[m]@ == r@[m]@ by {
                    if m > k {
                        assert(rc@[m] == old_rc[m - 1] && r@[m] == old_rs[m - 1]);
                    } else if m < k {
                        assert(rc@[m] == old_rc[m] && r@[m] == old_rs[m]);
                    }
                }
                assert forall|p: Seq<char>| nr.contains(p) <==> views(c@).take(i + 1).contains(
                    p,
                ) by {
                    let upto = views(c@).take(i + 1);
                    if nr.contains(p) {
                        let w = choose|w: int| 0 <= w < nr.len() && #[trigger] nr[w] == p;
                        if w == k {
                            assert(upto[i as int] == p);
                        } else {
                            if w < k {
                                assert(old_r[w] == p);
                            } else {
                                assert(old_r[w - 1] == p);
                            }
                            assert(old_r.contains(p));
                            assert(views(c@).take(i as int).contains(p));
                            let v = choose|v: int|
                                0 <= v < i && #[trigger] views(c@).take(i as int)[v] == p;
                            assert(upto[v] == p);
                        }
                    }
                    if views(c@).take(i + 1).contains(p) {
                        if p == xv {
                            assert(nr[k as int] == p);
                        } else {
                            let w = choose|w: int|
                                0 <= w < views(c@).take(i + 1).len() && #[trigger] views(c@).take(
                                    i + 1,
                                )[w] == p;
                            assert(views(c@).take(i as int)[w] == p);
                            assert(old_r.contains(p));
                            let u = choose|u: int| 0 <= u < old_r.len() && #[trigger] old_r[u] == p;
                            if u < k {
                                assert(nr[u] == p);
                            } else {
                                assert(nr[u + 1] == p);
                            }
                        }
                    }
                }
            }
        }
        i = i + 1;
    }
    assert(views(c@).take(c@.len() as int) =~= views(c@));
    r
}

/// The Steam installation: the first of the candidate directories that exists.
pub fn get_steam_root(candidates: &Vec<String>, exists: &Vec<bool>) -> (r: Option<String>)
    requires
        candidates@.len() == exists@.len(),
    ensures
        r is None <==> forall|i: int| 0 <= i < exists@.len() ==> !exists@[i],
        r matches Some(p) ==> exists|i: int|
            0 <= i < exists@.len() && exists@[i] && p@ == candidates@[i]@ && forall|k: int|
                0 <= k < i ==> !exists@[k],
{
    let mut i: usize = 0;
    while i < candidates.len()
        invariant
            candidates@.len() == exists@.len(),
            i <= exists@.len(),
            forall|k: int| 0 <= k < i ==> !exists@[k],
        decreases exists@.len() - i,
    {
        if exists[i] {
            return Some(candidates[i].clone());
        }
        i = i + 1;
    }
    None
}

/// The places where Steam is usually installed, most common first.
pub fn steam_root_candidates(local_app_data: &str) -> (r: Vec<String>)
    ensures
        views(r@) == seq![
            "C:\\Program Files (x86)\\Steam"@,
            "C:\\Program Files\\Steam"@,
            joined(local_app_data@, "Steam"@),
        ],
{
    let r = vec![
        owned("C:\\Program Files (x86)\\Steam"),
        owned("C:\\Program Files\\Steam"),
        join_path(local_app_data, "Steam"),
    ];
    assert(views(r@) =~= seq![
        "C:\\Program Files (x86)\\Steam"@,
        "C:\\Program Files\\Steam"@,
        joined(local_app_data@, "Steam"@),
    ]);
    r
}

/// The library directories of a Steam installation: its own `steamapps` and
/// the `steamapps` of each library that `libraryfolders.vdf` declares (when its
/// text could be read), sorted in path order, each listed once. Which of them
/// exist is the caller's to check.
pub fn get_library_folders(steam_root: &str, library_folders_vdf: Option<&str>) -> (r: Vec<
    String,
>)
    ensures
        sorted_paths(views(r@)),
        forall|p: Seq<char>|
            views(r@).contains(p) <==> library_candidates(
                steam_root@,
                match library_folders_vdf {
                    Some(t) => entry_values(t@, "path"@),
                    None => Seq::empty(),
                },
            ).contains(p),
{
    let mut candidates: Vec<String> = Vec::new();
    candidates.push(join_path(steam_root, "steamapps"));
    let declared: Vec<String> = match library_folders_vdf {
        Some(t) => quoted_values(t, "path"),
        None => Vec::new(),
    };
    let ghost vdf = views(declared@);
    let mut i: usize = 0;
    while i < declared.len()
        invariant
            i <= declared@.len(),
            vdf == views(declared@),
            views(candidates@) == seq![joined(steam_root@, "steamapps"@)] + vdf.take(
                i as int,
            ).map_values(|p: Seq<char>| joined(unescaped(p), "steamapps"@)),
        decreases declared@.len() - i,
    {
        let p = unescape_separators(declared[i].as_str());
        let lib = join_path(p.as_str(), "steamapps");
        let ghost prev = views(candidates@);
        candidates.push(lib);
        proof {
            assert(views(candidates@) =~= prev.push(lib@));
            assert(vdf.take(i + 1) =~= vdf.take(i as int).push(vdf[i as int]));
            assert(vdf.take(i + 1).map_values(|p: Seq<char>| joined(unescaped(p), "steamapps"@))
                =~= vdf.take(i as int).map_values(
                |p: Seq<char>| joined(unescaped(p), "steamapps"@),
            ).push(joined(unescaped(vdf[i as int]), "steamapps"@)));
        }
        i = i + 1;
    }
    proof {
        assert(vdf.take(declared@.len() as int) =~= vdf);
        match library_folders_vdf {
            Some(t) => {},
            None => {
                assert(vdf =~= Seq::<Seq<char>>::empty());
            },
        }
    }
    sort_paths(&candidates)
}

/// The install directory that an app manifest declares: the value of its first
/// `"installdir"` entry.
pub fn manifest_install_dir(manifest: &str) -> (r: Option<String>)
    ensures
        r is None <==> entry_values(manifest@, "installdir"@).len() == 0,
        r matches Some(d) ==> d@ == entry_values(manifest@, "installdir"@)[0],
{
    let values = quoted_values(manifest, "installdir");
    if values.len() == 0 {
        None
    } else {
        let first = values[0].clone();
        assert(views(values@)[0] == values@[0]@);
        Some(first)
    }
}

/// Whether a file name is that of an app manifest: `appmanifest_*.acf`.
pub open spec fn manifest_file_name(name: Seq<char>) -> bool {
    &&& name.len() >= 16
    &&& name.subrange(0, 12) == "appmanifest_"@
    &&& name.subrange(name.len() - 4, name.len() as int) == ".acf"@
}

fn holds_at(s: &Vec<char>, part: &Vec<char>, at: usize) -> (r: bool)
    requires
        at + part@.len() <= s@.len(),
    ensures
        r == (s@.subrange(at as int, at + part@.len()) == part@),
{
    let n = s.len();
    let mut k: usize = 0;
    while k < part.len()
        invariant
            n == s@.len(),
            at + part@.len() <= s@.len(),
            k <= part@.len(),
            forall|m: int| 0 <= m < k ==> s@[at + m] == part@[m],
        decreases part@.len() - k,
    {
        if s[at + k] != part[k] {
            assert(s@.subrange(at as int, at + part@.len())[k as int] != part@[k as int]);
            return false;
        }
        k = k + 1;
    }
    assert(s@.subrange(at as int, at + part@.len()) =~= part@);
    true
}

/// Whether a file name is that of an app manifest: `appmanifest_*.acf`.
pub fn is_manifest_name(name: &str) -> (r: bool)
    ensures
        r == manifest_file_name(name@),
{
    let c = chars_of(name);
    let head = chars_of("appmanifest_");
    let tail = chars_of(".acf");
    proof {
        reveal_strlit("appmanifest_");
        reveal_strlit(".acf");
    }
    let n = c.len();
    if n < 16 {
        return false;
    }
    holds_at(&c, &head, 0) && holds_at(&c, &tail, n - 4)
}

} // verus!
