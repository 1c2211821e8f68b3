//! Strings as sequences of characters: comparison, search, trimming and the
//! rendering of numbers.

use vstd::prelude::*;
use vstd::string::*;
use vstd::utf8::*;

verus! {

/// `String::push` of std: appends one character.
pub assume_specification[ String::push ](s: &mut String, c: char)
    ensures
        final(s)@ == old(s)@.push(c),
;

/// The text of a string that may be missing.
pub open spec fn text_of(s: Option<String>) -> Option<Seq<char>> {
    match s {
        Some(t) => Some(t@),
        None => None,
    }
}

/// The texts of a list of strings.
pub open spec fn texts(v: Seq<String>) -> Seq<Seq<char>> {
    v.map_values(|s: String| s@)
}

/// Appends a string to a list.
pub fn push_text(v: &mut Vec<String>, s: String)
    ensures
        texts(final(v)@) == texts(old(v)@).push(s@),
{
    v.push(s);
    assert(texts(v@) =~= texts(old(v)@).push(s@));
}

/// Whether two strings that may be missing are the same.
pub fn same_text(a: &Option<String>, b: &Option<String>) -> (r: bool)
    ensures
        r == (text_of(*a) == text_of(*b)),
{
    match (a, b) {
        (Some(x), Some(y)) => same(x.as_str(), y.as_str()),
        (None, None) => true,
        _ => false,
    }
}

/// The characters of `s`, in order.
pub fn chars_of(s: &str) -> (v: Vec<char>)
    ensures
        v@ == s@,
{
    let mut v: Vec<char> = Vec::new();
    for c in it: s.chars()
        invariant
            it.seq() == s@,
            v@ == s@.take(it.index()),
    {
        v.push(c);
        assert(s@.take(it.index() + 1) == s@.take(it.index()).push(c));
    }
    assert(s@.take(s@.len() as int) == s@);
    v
}

/// The string made of the characters of `v`.
pub fn string_of(v: &[char]) -> (s: String)
    ensures
        s@ == v@,
{
    let mut s = String::new();
    let mut i: usize = 0;
    while i < v.len()
        invariant
            i <= v@.len(),
            s@ == v@.take(i as int),
        decreases v@.len() - i,
    {
        s.push(v[i]);
        assert(v@.take(i + 1) == v@.take(i as int).push(v@[i as int]));
        i += 1;
    }
    assert(v@.take(v@.len() as int) == v@);
    s
}

/// Whether two strings hold the same characters.
pub fn same(a: &str, b: &str) -> (r: bool)
    ensures
        r == (a@ == b@),
{
    let x = chars_of(a);
    let y = chars_of(b);
    if x.len() != y.len() {
        return false;
    }
    let mut i: usize = 0;
    while i < x.len()
        invariant
            i <= x@.len(),
            x@.len() == y@.len(),
            x@ == a@,
            y@ == b@,
            forall|j: int| 0 <= j < i ==> x@[j] == y@[j],
        decreases x@.len() - i,
    {
        if x[i] != y[i] {
            return false;
        }
        i += 1;
    }
    assert(x@ =~= y@);
    true
}

/// Whether `needle` stands in `hay` from position `at` on.
pub open spec fn occurs_at(hay: Seq<char>, needle: Seq<char>, at: int) -> bool {
    0 <= at && at + needle.len() <= hay.len() && hay.subrange(at, at + needle.len()) == needle
}

/// Whether `needle` stands somewhere in `hay`.
pub open spec fn occurs(hay: Seq<char>, needle: Seq<char>) -> bool {
    exists|at: int| #[trigger] occurs_at(hay, needle, at)
}

/// Whether `needle` stands in `hay` from position `at` on.
pub fn matches_at(hay: &[char], needle: &[char], at: usize) -> (r: bool)
    requires
        at <= hay@.len(),
    ensures
        r == occurs_at(hay@, needle@, at as int),
{
    if needle.len() > hay.len() - at {
        return false;
    }
    let mut i: usize = 0;
    while i < needle.len()
        invariant
            i <= needle@.len(),
            at + needle@.len() <= hay@.len() <= usize::MAX,
            forall|j: int| 0 <= j < i ==> hay@[at + j] == needle@[j],
        decreases needle@.len() - i,
    {
        if hay[at + i] != needle[i] {
            assert(hay@.subrange(at as int, at + needle@.len())[i as int] != needle@[i as int]);
            return false;
        }
        i += 1;
    }
    assert(hay@.subrange(at as int, at + needle@.len()) =~= needle@);
    true
}

/// The first position at or after `from` where `needle` stands in `hay`.
pub open spec fn first_from(hay: Seq<char>, needle: Seq<char>, from: int) -> Option<int>
    decreases hay.len() + 1 - from,
{
    if from < 0 || from + needle.len() > hay.len() {
        None
    } else if occurs_at(hay, needle, from) {
        Some(from)
    } else {
        first_from(hay, needle, from + 1)
    }
}

/// A first position is one where the needle stands; without one it stands
/// nowhere from there on.
pub proof fn lemma_first_from(hay: Seq<char>, needle: Seq<char>, from: int)
    requires
        0 <= from,
    ensures
        match first_from(hay, needle, from) {
            Some(at) => {
                &&& from <= at
                &&& occurs_at(hay, needle, at)
                &&& forall|k: int| from <= k < at ==> !#[trigger] occurs_at(hay, needle, k)
            },
            None => forall|k: int| from <= k ==> !#[trigger] occurs_at(hay, needle, k),
        },
    decreases hay.len() + 1 - from,
{
    if from + needle.len() <= hay.len() && !occurs_at(hay, needle, from) {
        lemma_first_from(hay, needle, from + 1);
    }
}

/// The first position at or after `from` where `needle` stands in `hay`.
pub fn find_from(hay: &[char], needle: &[char], from: usize) -> (r: Option<usize>)
    ensures
        match r {
            Some(at) => first_from(hay@, needle@, from as int) == Some(at as int),
            None => first_from(hay@, needle@, from as int) is None,
        },
        r is Some ==> r->0 + needle@.len() <= hay@.len(),
{
    let mut i: usize = from;
    while i < hay.len() && needle.len() <= hay.len() - i
        invariant
            from <= i,
            first_from(hay@, needle@, from as int) == first_from(hay@, needle@, i as int),
        decreases hay@.len() - i,
    {
        if matches_at(hay, needle, i) {
            return Some(i);
        }
        i += 1;
    }
    if i == hay.len() && needle.len() == 0 {
        assert(hay@.subrange(i as int, i as int) =~= needle@);
        return Some(i);
    }
    None
}

/// Whether `needle` stands somewhere in `hay`.
pub fn contains(hay: &str, needle: &str) -> (r: bool)
    ensures
        r == occurs(hay@, needle@),
{
    let h = chars_of(hay);
    let n = chars_of(needle);
    proof {
        lemma_first_from(hay@, needle@, 0);
    }
    match find_from(h.as_slice(), n.as_slice(), 0) {
        Some(at) => {
            assert(occurs_at(hay@, needle@, at as int));
            true
        },
        None => {
            assert forall|k: int| !#[trigger] occurs_at(hay@, needle@, k) by {
                if k < 0 {
                    assert(!(0 <= k));
                }
            }
            false
        },
    }
}

/// Whether `c` is one of the characters.
pub fn contains_char(v: &[char], c: char) -> (r: bool)
    ensures
        r == v@.contains(c),
{
    let mut i: usize = 0;
    while i < v.len()
        invariant
            i <= v@.len(),
            forall|j: int| 0 <= j < i ==> v@[j] != c,
        decreases v@.len() - i,
    {
        if v[i] == c {
            return true;
        }
        i += 1;
    }
    false
}

/// One string after the other.
pub fn concat2(a: &str, b: &str) -> (r: String)
    ensures
        r@ == a@ + b@,
{
    let mut s = String::from_str(a);
    s.append(b);
    s
}

/// Three strings, one after the other.
pub fn concat3(a: &str, b: &str, c: &str) -> (r: String)
    ensures
        r@ == a@ + b@ + c@,
{
    let mut s = concat2(a, b);
    s.append(c);
    s
}

/// The decimal digit for `d`, which is below ten.
pub open spec fn digit(d: nat) -> char {
    (48 + d) as char
}

/// `n` in decimal, without leading zeros.
pub open spec fn decimal(n: nat) -> Seq<char>
    decreases n,
{
    if n < 10 {
        seq![digit(n)]
    } else {
        decimal(n / 10).push(digit(n % 10))
    }
}

/// `n` in decimal, with a minus sign where it is negative.
pub open spec fn decimal_signed(n: int) -> Seq<char> {
    if n < 0 {
        seq!['-'] + decimal((-n) as nat)
    } else {
        decimal(n as nat)
    }
}

/// Decimal numbers are made of digits, at least one.
pub proof fn lemma_decimal_digits(n: nat)
    ensures
        decimal(n).len() > 0,
        forall|i: int| 0 <= i < decimal(n).len() ==> '0' <= #[trigger] decimal(n)[i] <= '9',
    decreases n,
{
    if n >= 10 {
        lemma_decimal_digits(n / 10);
    }
}

/// Different numbers differ in decimal.
pub proof fn lemma_decimal_tells_apart(n: nat, m: nat)
    requires
        decimal(n) == decimal(m),
    ensures
        n == m,
    decreases n,
{
    lemma_decimal_digits(n / 10);
    lemma_decimal_digits(m / 10);
    let a = decimal(n);
    let b = decimal(m);
    if n >= 10 && m >= 10 {
        assert(a.drop_last() =~= decimal(n / 10));
        assert(b.drop_last() =~= decimal(m / 10));
        lemma_decimal_tells_apart(n / 10, m / 10);
        assert(a.last() == digit(n % 10) && b.last() == digit(m % 10));
    } else if n < 10 && m < 10 {
        assert(a[0] == digit(n) && b[0] == digit(m));
    } else if n < 10 {
        assert(a.len() == 1);
        assert(b.len() == decimal(m / 10).len() + 1);
    } else {
        assert(a.len() == decimal(n / 10).len() + 1);
        assert(b.len() == 1);
    }
}

/// Different signed numbers differ in decimal, and none holds anything but
/// digits and the sign.
pub proof fn lemma_decimal_signed_tells_apart(n: int, m: int)
    ensures
        decimal_signed(n) == decimal_signed(m) ==> n == m,
        forall|i: int|
            0 <= i < decimal_signed(n).len() ==> {
                ||| '0' <= #[trigger] decimal_signed(n)[i] <= '9'
                ||| decimal_signed(n)[i] == '-'
            },
{
    let x = if n < 0 { (-n) as nat } else { n as nat };
    let y = if m < 0 { (-m) as nat } else { m as nat };
    lemma_decimal_digits(x);
    lemma_decimal_digits(y);
    if decimal_signed(n) == decimal_signed(m) {
        let a = decimal_signed(n);
        let b = decimal_signed(m);
        if n < 0 {
            assert(a[0] == '-');
            assert(m < 0) by {
                if m >= 0 {
                    assert('0' <= decimal(y)[0]);
                }
            }
            assert(a.skip(1) =~= decimal(x));
            assert(b.skip(1) =~= decimal(y));
        } else if m < 0 {
            assert(b[0] == '-');
            assert('0' <= decimal(x)[0]);
        }
        lemma_decimal_tells_apart(x, y);
    }
}

/// Appends `n` in decimal.
pub fn push_decimal(s: &mut String, n: u64)
    ensures
        final(s)@ == old(s)@ + decimal(n as nat),
    decreases n,
{
    let d: u8 = 48 + (n % 10) as u8;
    if n < 10 {
        s.push(d as char);
        assert(s@ =~= old(s)@ + decimal(n as nat));
    } else {
        push_decimal(s, n / 10);
        s.push(d as char);
        assert(s@ =~= old(s)@ + decimal(n as nat));
    }
}

/// `n` in decimal.
pub fn decimal_of(n: u64) -> (s: String)
    ensures
        s@ == decimal(n as nat),
{
    let mut s = String::new();
    push_decimal(&mut s, n);
    assert(s@ =~= decimal(n as nat));
    s
}

/// `n` in decimal, with a minus sign where it is negative.
pub fn decimal_signed_of(n: i64) -> (s: String)
    ensures
        s@ == decimal_signed(n as int),
{
    let mut s = String::new();
    if n < 0 {
        s.push('-');
        let m: u64 = if n == i64::MIN { 0x8000_0000_0000_0000 } else { (-n) as u64 };
        push_decimal(&mut s, m);
        assert(s@ =~= decimal_signed(n as int));
    } else {
        push_decimal(&mut s, n as u64);
        assert(s@ =~= decimal_signed(n as int));
    }
    s
}

/// Whether a character is white space: the Unicode property `White_Space`.
pub open spec fn white_space(c: char) -> bool {
    let n = c as u32;
    ||| 0x9 <= n <= 0xd
    ||| n == 0x20
    ||| n == 0x85
    ||| n == 0xa0
    ||| n == 0x1680
    ||| 0x2000 <= n <= 0x200a
    ||| n == 0x2028
    ||| n == 0x2029
    ||| n == 0x202f
    ||| n == 0x205f
    ||| n == 0x3000
}

/// Whether a character is white space.
pub(crate) fn is_white_space(c: char) -> (r: bool)
    ensures
        r == white_space(c),
{
    let n: u32 = c as u32;
    (0x9 <= n && n <= 0xd) || n == 0x20 || n == 0x85 || n == 0xa0 || n == 0x1680 || (0x2000 <= n
        && n <= 0x200a) || n == 0x2028 || n == 0x2029 || n == 0x202f || n == 0x205f || n == 0x3000
}

/// Whether a character is a control code: the Unicode category `Cc`.
pub open spec fn control_code(c: char) -> bool {
    c as u32 <= 0x1f || 0x7f <= c as u32 <= 0x9f
}

/// Whether a character is a control code.
pub(crate) fn is_control_code(c: char) -> (r: bool)
    ensures
        r == control_code(c),
{
    let n: u32 = c as u32;
    n <= 0x1f || (0x7f <= n && n <= 0x9f)
}

/// What `str::to_lowercase` makes of a string.
pub uninterp spec fn lowercase(s: Seq<char>) -> Seq<char>;

/// `str::to_lowercase` of std, by name: the Unicode lowercase mapping of the
/// whole string, which depends on the string alone.
#[verifier::external_body]
pub(crate) fn to_lower(s: &str) -> (r: String)
    ensures
        r@ == lowercase(s@),
{
    s.to_lowercase()
}

/// `std::str::from_utf8`: the text of bytes that are UTF-8, and nothing for
/// others.
#[verifier::external_body]
pub(crate) fn utf8_text(bytes: &[u8]) -> (r: Option<&str>)
    ensures
        match r {
            Some(s) => valid_utf8(bytes@) && s@ == decode_utf8(bytes@),
            None => !valid_utf8(bytes@),
        },
{
    std::str::from_utf8(bytes).ok()
}

/// `s` without the white space it starts with.
pub open spec fn trim_start(s: Seq<char>) -> Seq<char>
    decreases s.len(),
{
    if s.len() > 0 && white_space(s[0]) {
        trim_start(s.drop_first())
    } else {
        s
    }
}

/// `s` without the white space it ends with.
pub open spec fn trim_end(s: Seq<char>) -> Seq<char>
    decreases s.len(),
{
    if s.len() > 0 && white_space(s.last()) {
        trim_end(s.drop_last())
    } else {
        s
    }
}

/// `s` without the white space at either end.
pub open spec fn trimmed(s: Seq<char>) -> Seq<char> {
    trim_end(trim_start(s))
}

/// The characters of `v` without the white space at either end.
pub fn trim_chars(v: &[char]) -> (r: Vec<char>)
    ensures
        r@ == trimmed(v@),
{
    let mut lo: usize = 0;
    assert(v@.skip(0) =~= v@);
    while lo < v.len() && is_white_space(v[lo])
        invariant
            lo <= v@.len(),
            trim_start(v@) == trim_start(v@.skip(lo as int)),
        decreases v@.len() - lo,
    {
        assert(v@.skip(lo as int).drop_first() =~= v@.skip(lo + 1));
        lo += 1;
    }
    let ghost rest = v@.skip(lo as int);
    assert(trim_start(v@) == rest);
    let mut hi: usize = v.len();
    while hi > lo && is_white_space(v[hi - 1])
        invariant
            lo <= hi <= v@.len(),
            trim_end(rest) == trim_end(v@.subrange(lo as int, hi as int)),
        decreases hi,
    {
        assert(v@.subrange(lo as int, hi as int).drop_last() =~= v@.subrange(lo as int, hi - 1));
        assert(v@.subrange(lo as int, hi as int).last() == v@[hi - 1]);
        hi -= 1;
    }
    let mut r: Vec<char> = Vec::new();
    let mut i: usize = lo;
    while i < hi
        invariant
            lo <= i <= hi <= v@.len(),
            r@ == v@.subrange(lo as int, i as int),
        decreases hi - i,
    {
        r.push(v[i]);
        assert(v@.subrange(lo as int, i + 1) =~= v@.subrange(lo as int, i as int).push(v@[i as int]));
        i += 1;
    }
    r
}

/// `s` without the white space at either end.
pub fn trim(s: &str) -> (r: String)
    ensures
        r@ == trimmed(s@),
{
    let v = chars_of(s);
    let t = trim_chars(v.as_slice());
    string_of(t.as_slice())
}

/// The pieces of `s` between the characters that are cuts.
pub open spec fn pieces(s: Seq<char>, cut: spec_fn(char) -> bool) -> Seq<Seq<char>>
    decreases s.len(),
{
    if s.len() == 0 {
        seq![Seq::empty()]
    } else {
        let before = pieces(s.drop_last(), cut);
        if cut(s.last()) {
            before.push(Seq::empty())
        } else {
            before.update(before.len() - 1, before.last().push(s.last()))
        }
    }
}

/// Cutting at one character.
pub open spec fn at_char(c: char) -> spec_fn(char) -> bool {
    |d: char| d == c
}

/// Cutting at white space.
pub open spec fn at_white_space() -> spec_fn(char) -> bool {
    |c: char| white_space(c)
}

/// Pieces that hold something.
pub open spec fn non_empty() -> spec_fn(Seq<char>) -> bool {
    |w: Seq<char>| w.len() > 0
}

/// The words of `s`: what stands between its white space.
pub open spec fn words(s: Seq<char>) -> Seq<Seq<char>> {
    pieces(s, at_white_space()).filter(non_empty())
}

/// The contents of a list of character lists.
pub open spec fn grouped(v: Seq<Vec<char>>) -> Seq<Seq<char>> {
    v.map_values(|w: Vec<char>| w@)
}

proof fn lemma_grouped_push(v: Seq<Vec<char>>, w: Vec<char>)
    ensures
        grouped(v.push(w)) == grouped(v).push(w@),
{
    assert(grouped(v.push(w)) =~= grouped(v).push(w@));
}

/// There is always a last piece.
pub proof fn lemma_pieces_non_empty(s: Seq<char>, cut: spec_fn(char) -> bool)
    ensures
        pieces(s, cut).len() > 0,
    decreases s.len(),
{
    if s.len() > 0 {
        lemma_pieces_non_empty(s.drop_last(), cut);
    }
}

/// No piece holds a cut, or anything that `s` does not hold.
pub proof fn lemma_pieces_hold_no_cut(s: Seq<char>, cut: spec_fn(char) -> bool)
    ensures
        forall|i: int, j: int|
            0 <= i < pieces(s, cut).len() && 0 <= j < pieces(s, cut)[i].len() ==> {
                let c = #[trigger] pieces(s, cut)[i][j];
                !cut(c) && s.contains(c)
            },
    decreases s.len(),
{
    lemma_pieces_non_empty(s, cut);
    if s.len() > 0 {
        let before = pieces(s.drop_last(), cut);
        let all = pieces(s, cut);
        lemma_pieces_non_empty(s.drop_last(), cut);
        lemma_pieces_hold_no_cut(s.drop_last(), cut);
        assert forall|i: int, j: int| 0 <= i < all.len() && 0 <= j < all[i].len() implies {
            let c = #[trigger] all[i][j];
            !cut(c) && s.contains(c)
        } by {
            let c = all[i][j];
            if i < before.len() && j < before[i].len() {
                assert(c == before[i][j]);
                let k = choose|k: int| 0 <= k < s.drop_last().len() && s.drop_last()[k] == c;
                assert(s[k] == c);
            } else {
                assert(c == s.last());
                assert(s[s.len() - 1] == c);
            }
        }
    }
}

/// What is left of a list without its empty pieces is of that list, and holds
/// something.
pub proof fn lemma_what_is_left(list: Seq<Seq<char>>)
    ensures
        forall|i: int|
            0 <= i < list.filter(non_empty()).len() ==> {
                let w = #[trigger] list.filter(non_empty())[i];
                w.len() > 0 && list.contains(w)
            },
    decreases list.len(),
{
    reveal(Seq::filter);
    if list.len() > 0 {
        let head = list.drop_last();
        let left = list.filter(non_empty());
        lemma_what_is_left(head);
        assert forall|i: int| 0 <= i < left.len() implies {
            let w = #[trigger] left[i];
            w.len() > 0 && list.contains(w)
        } by {
            let w = left[i];
            if i < head.filter(non_empty()).len() {
                assert(w == head.filter(non_empty())[i]);
                let k = choose|k: int| 0 <= k < head.len() && head[k] == w;
                assert(list[k] == w);
            } else {
                assert(list[list.len() - 1] == w);
            }
        }
    }
}

/// Nothing is left out of a list that holds nothing empty.
pub proof fn lemma_nothing_empty(list: Seq<Seq<char>>)
    requires
        forall|i: int| 0 <= i < list.len() ==> (#[trigger] list[i]).len() > 0,
    ensures
        list.filter(non_empty()) == list,
    decreases list.len(),
{
    reveal(Seq::filter);
    if list.len() > 0 {
        lemma_nothing_empty(list.drop_last());
        assert(list[list.len() - 1].len() > 0);
        assert(list.drop_last().push(list.last()) =~= list);
    } else {
        assert(list =~= Seq::empty());
    }
}

/// The pieces of `v` between the occurrences of `c`.
pub fn split_at_char(v: &[char], c: char) -> (r: Vec<Vec<char>>)
    ensures
        grouped(r@) == pieces(v@, at_char(c)),
{
    let mut done: Vec<Vec<char>> = Vec::new();
    let mut cur: Vec<char> = Vec::new();
    let mut i: usize = 0;
    assert(grouped(done@).push(cur@) =~= pieces(v@.take(0), at_char(c)));
    while i < v.len()
        invariant
            i <= v@.len(),
            grouped(done@).push(cur@) == pieces(v@.take(i as int), at_char(c)),
        decreases v@.len() - i,
    {
        assert(v@.take(i + 1).drop_last() =~= v@.take(i as int));
        let ghost before = grouped(done@).push(cur@);
        if v[i] == c {
            proof {
                lemma_grouped_push(done@, cur);
            }
            done.push(cur);
            cur = Vec::new();
            assert(grouped(done@).push(cur@) =~= before.push(Seq::empty()));
        } else {
            cur.push(v[i]);
            assert(grouped(done@).push(cur@) =~= before.update(
                before.len() - 1,
                before.last().push(v@[i as int]),
            ));
        }
        i += 1;
    }
    assert(v@.take(v@.len() as int) =~= v@);
    proof {
        lemma_grouped_push(done@, cur);
    }
    done.push(cur);
    done
}

/// The words of `v`.
pub fn split_words(v: &[char]) -> (r: Vec<Vec<char>>)
    ensures
        grouped(r@) == words(v@),
{
    let mut done: Vec<Vec<char>> = Vec::new();
    let mut cur: Vec<char> = Vec::new();
    let mut i: usize = 0;
    proof {
        reveal(Seq::filter);
        assert(pieces(v@.take(0), at_white_space()).drop_last() =~= Seq::empty());
        assert(grouped(done@) =~= Seq::empty());
        assert(cur@ =~= pieces(v@.take(0), at_white_space()).last());
    }
    while i < v.len()
        invariant
            i <= v@.len(),
            pieces(v@.take(i as int), at_white_space()).len() > 0,
            cur@ == pieces(v@.take(i as int), at_white_space()).last(),
            grouped(done@) == pieces(v@.take(i as int), at_white_space()).drop_last().filter(
                non_empty(),
            ),
        decreases v@.len() - i,
    {
        assert(v@.take(i + 1).drop_last() =~= v@.take(i as int));
        let ghost before = pieces(v@.take(i as int), at_white_space());
        let ghost after = pieces(v@.take(i + 1), at_white_space());
        if is_white_space(v[i]) {
            assert(after == before.push(Seq::empty()));
            assert(after.drop_last() =~= before);
            proof {
                reveal(Seq::filter);
            }
            if cur.len() > 0 {
                proof {
                    lemma_grouped_push(done@, cur);
                }
                done.push(cur);
            }
            cur = Vec::new();
            assert(cur@ =~= after.last());
        } else {
            cur.push(v[i]);
            assert(after.drop_last() =~= before.drop_last());
        }
        i += 1;
    }
    assert(v@.take(v@.len() as int) =~= v@);
    let ghost all = pieces(v@, at_white_space());
    proof {
        reveal(Seq::filter);
    }
    if cur.len() > 0 {
        proof {
            lemma_grouped_push(done@, cur);
        }
        done.push(cur);
    }
    assert(grouped(done@) == all.filter(non_empty()));
    done
}

/// Whether all characters are decimal digits.
pub open spec fn all_digits(s: Seq<char>) -> bool {
    forall|i: int| 0 <= i < s.len() ==> '0' <= #[trigger] s[i] <= '9'
}

/// The number that decimal digits stand for.
pub open spec fn digits_value(s: Seq<char>) -> nat
    decreases s.len(),
{
    if s.len() == 0 {
        0
    } else {
        10 * digits_value(s.drop_last()) + (s.last() as nat - '0' as nat) as nat
    }
}

/// The number a string of decimal digits stands for, where a `u64` can hold
/// it.
pub open spec fn digits_number(s: Seq<char>) -> Option<u64> {
    if s.len() > 0 && all_digits(s) && digits_value(s) <= u64::MAX {
        Some(digits_value(s) as u64)
    } else {
        None
    }
}

/// Reads decimal digits.
pub fn parse_digits(v: &[char]) -> (r: Option<u64>)
    ensures
        r == digits_number(v@),
{
    if v.len() == 0 {
        return None;
    }
    let mut n: u64 = 0;
    let mut i: usize = 0;
    let mut over = false;
    while i < v.len()
        invariant
            i <= v@.len(),
            forall|j: int| 0 <= j < i ==> '0' <= #[trigger] v@[j] <= '9',
            !over ==> n == digits_value(v@.take(i as int)),
            over ==> digits_value(v@.take(i as int)) > u64::MAX,
        decreases v@.len() - i,
    {
        let c: char = v[i];
        if c < '0' || c > '9' {
            return None;
        }
        assert(v@.take(i + 1).drop_last() =~= v@.take(i as int));
        let d: u64 = c as u64 - '0' as u64;
        if !over {
            if n > 1_844_674_407_370_955_161 || (n == 1_844_674_407_370_955_161 && d > 5) {
                over = true;
            } else {
                n = n * 10 + d;
            }
        }
        i += 1;
    }
    assert(v@.take(v@.len() as int) =~= v@);
    if over {
        None
    } else {
        Some(n)
    }
}

/// The number that an optional sign and decimal digits stand for, where an
/// `i32` can hold it.
pub open spec fn signed_number(s: Seq<char>) -> Option<i32> {
    let digits = if s.len() > 0 && (s[0] == '-' || s[0] == '+') {
        s.drop_first()
    } else {
        s
    };
    let magnitude = digits_value(digits) as int;
    let value = if s.len() > 0 && s[0] == '-' {
        -magnitude
    } else {
        magnitude
    };
    if digits.len() > 0 && all_digits(digits) && i32::MIN <= value <= i32::MAX {
        Some(value as i32)
    } else {
        None
    }
}

/// Reads an optional sign and decimal digits.
pub fn parse_signed(v: &[char]) -> (r: Option<i32>)
    ensures
        r == signed_number(v@),
{
    let mut digits: Vec<char> = Vec::new();
    let mut i: usize = 0;
    let mut negative = false;
    if v.len() > 0 && (v[0] == '-' || v[0] == '+') {
        negative = v[0] == '-';
        i = 1;
    }
    let ghost from = i as int;
    while i < v.len()
        invariant
            0 <= from <= i <= v@.len(),
            digits@ == v@.subrange(from, i as int),
        decreases v@.len() - i,
    {
        digits.push(v[i]);
        assert(v@.subrange(from, i + 1) =~= v@.subrange(from, i as int).push(v@[i as int]));
        i += 1;
    }
    proof {
        if from == 1 {
            assert(digits@ =~= v@.drop_first());
        } else {
            assert(digits@ =~= v@);
        }
    }
    match parse_digits(digits.as_slice()) {
        None => None,
        Some(n) => if negative {
            if n <= 2_147_483_648 {
                Some((0 - n as i64) as i32)
            } else {
                None
            }
        } else if n <= 2_147_483_647 {
            Some(n as i32)
        } else {
            None
        },
    }
}

/// Texts one after the other, with a separator between them.
pub open spec fn joined(list: Seq<Seq<char>>, sep: Seq<char>) -> Seq<char>
    decreases list.len(),
{
    if list.len() == 0 {
        Seq::empty()
    } else if list.len() == 1 {
        list[0]
    } else {
        joined(list.drop_last(), sep) + sep + list.last()
    }
}

/// Strings one after the other, with a separator between them.
pub fn join(list: &Vec<String>, sep: &str) -> (r: String)
    ensures
        r@ == joined(texts(list@), sep@),
{
    let mut s = String::new();
    let mut i: usize = 0;
    assert(s@ =~= joined(texts(list@).take(0), sep@));
    while i < list.len()
        invariant
            i <= list@.len(),
            s@ == joined(texts(list@).take(i as int), sep@),
        decreases list@.len() - i,
    {
        let ghost before = s@;
        let ghost next = texts(list@).take(i + 1);
        assert(next.drop_last() =~= texts(list@).take(i as int));
        assert(next.last() == list@[i as int]@);
        if i > 0 {
            s.append(sep);
        }
        s.append(list[i].as_str());
        assert(s@ =~= joined(next, sep@));
        i += 1;
    }
    assert(texts(list@).take(list@.len() as int) =~= texts(list@));
    s
}

/// Whether one of the strings is `s`.
pub fn is_listed(list: &Vec<String>, s: &str) -> (r: bool)
    ensures
        r == texts(list@).contains(s@),
{
    let mut i: usize = 0;
    while i < list.len()
        invariant
            i <= list@.len(),
            forall|j: int| 0 <= j < i ==> (#[trigger] list@[j])@ != s@,
        decreases list@.len() - i,
    {
        if same(list[i].as_str(), s) {
            assert(texts(list@)[i as int] == s@);
            return true;
        }
        i += 1;
    }
    assert forall|j: int| 0 <= j < texts(list@).len() implies texts(list@)[j] != s@ by {
        assert(texts(list@)[j] == list@[j]@);
    }
    false
}

/// A relative path below a directory.
pub open spec fn path_below(dir: Seq<char>, rel: Seq<char>) -> Seq<char> {
    if dir.len() == 0 || dir.last() == '/' {
        dir + rel
    } else {
        dir + "/"@ + rel
    }
}

/// A relative path below a directory.
pub fn join_path(dir: &str, rel: &str) -> (r: String)
    ensures
        r@ == path_below(dir@, rel@),
{
    let v = chars_of(dir);
    if v.len() == 0 || v[v.len() - 1] == '/' {
        concat2(dir, rel)
    } else {
        concat3(dir, "/", rel)
    }
}

/// Trimming takes white space off both ends and nothing else: what is left
/// stands in the text between white space, and has none at its ends.
pub proof fn law_trimming_takes_only_white_space(s: Seq<char>)
    ensures
        exists|i: int, j: int|
            {
                &&& 0 <= i <= j <= s.len()
                &&& trimmed(s) == #[trigger] s.subrange(i, j)
                &&& forall|k: int| 0 <= k < i ==> white_space(#[trigger] s[k])
                &&& forall|k: int| j <= k < s.len() ==> white_space(#[trigger] s[k])
            },
        trimmed(s).len() > 0 ==> !white_space(trimmed(s)[0]) && !white_space(trimmed(s).last()),
        white_space(' ') && white_space('\t') && white_space('\n') && white_space('\r'),
        !white_space('a') && !white_space('0') && !white_space('_') && !white_space('-'),
{
    let i = lemma_trim_start(s);
    let t = trim_start(s);
    let n = lemma_trim_end(t);
    let j = i + n;
    assert(s.subrange(i, j) =~= t.take(n));
    assert forall|k: int| j <= k < s.len() implies white_space(#[trigger] s[k]) by {
        assert(t[k - i] == s[k]);
    }
    if n > 0 {
        assert(t.take(n)[0] == t[0]);
        assert(t.take(n).last() == t[n - 1]);
    }
}

proof fn lemma_trim_start(s: Seq<char>) -> (i: int)
    ensures
        0 <= i <= s.len(),
        trim_start(s) == s.skip(i),
        forall|k: int| 0 <= k < i ==> white_space(#[trigger] s[k]),
        i < s.len() ==> !white_space(s[i]),
    decreases s.len(),
{
    if s.len() > 0 && white_space(s[0]) {
        let rest = s.drop_first();
        let i = lemma_trim_start(rest);
        assert(rest.skip(i) =~= s.skip(i + 1));
        assert forall|k: int| 0 <= k < i + 1 implies white_space(#[trigger] s[k]) by {
            if k > 0 {
                assert(rest[k - 1] == s[k]);
            }
        }
        i + 1
    } else {
        assert(s.skip(0) =~= s);
        0
    }
}

proof fn lemma_trim_end(s: Seq<char>) -> (n: int)
    ensures
        0 <= n <= s.len(),
        trim_end(s) == s.take(n),
        forall|k: int| n <= k < s.len() ==> white_space(#[trigger] s[k]),
        n > 0 ==> !white_space(s[n - 1]),
    decreases s.len(),
{
    if s.len() > 0 && white_space(s.last()) {
        let head = s.drop_last();
        let n = lemma_trim_end(head);
        assert(head.take(n) =~= s.take(n));
        assert forall|k: int| n <= k < s.len() implies white_space(#[trigger] s[k]) by {
            if k < head.len() {
                assert(head[k] == s[k]);
            }
        }
        n
    } else {
        assert(s.take(s.len() as int) =~= s);
        s.len() as int
    }
}

/// Reading a number gives back the number that was written, where an `i32` can
/// hold it; a plus sign in front changes nothing.
pub proof fn law_numbers_read_back(n: int)
    requires
        i32::MIN <= n <= i32::MAX,
    ensures
        signed_number(decimal_signed(n)) == Some(n as i32),
        n >= 0 ==> signed_number(seq!['+'] + decimal_signed(n)) == Some(n as i32),
        n >= 0 ==> digits_number(decimal_signed(n)) == Some(n as u64),
{
    let m = if n < 0 {
        (-n) as nat
    } else {
        n as nat
    };
    lemma_decimal_digits(m);
    lemma_decimal_value(m);
    let d = decimal(m);
    assert(d[0] >= '0');
    assert((seq!['-'] + d).drop_first() =~= d);
    assert((seq!['+'] + d).drop_first() =~= d);
}

/// Anything but digits behind an optional sign is no number.
pub proof fn law_only_digits_make_a_number(s: Seq<char>, i: int)
    requires
        0 <= i < s.len(),
        s[i] < '0' || s[i] > '9',
    ensures
        digits_number(s) is None,
        i > 0 || (s[i] != '-' && s[i] != '+') || s.len() == 1 ==> signed_number(s) is None,
{
    let rest = s.drop_first();
    if s[0] == '-' || s[0] == '+' {
        if i > 0 {
            assert(rest[i - 1] == s[i]);
        }
    }
}

proof fn lemma_decimal_value(n: nat)
    ensures
        digits_value(decimal(n)) == n,
        all_digits(decimal(n)),
    decreases n,
{
    lemma_decimal_digits(n);
    if n >= 10 {
        lemma_decimal_value(n / 10);
        let d = decimal(n / 10);
        assert(d.push(digit(n % 10)).drop_last() =~= d);
    } else {
        assert(seq![digit(n)].drop_last() =~= Seq::<char>::empty());
        assert(digits_value(Seq::<char>::empty()) == 0);
    }
}

/// Splitting a text undoes joining it: pieces without the separator come back
/// as they were.
pub proof fn law_split_undoes_join(list: Seq<Seq<char>>, c: char)
    requires
        list.len() > 0,
        forall|i: int, j: int|
            0 <= i < list.len() && 0 <= j < list[i].len() ==> #[trigger] list[i][j] != c,
    ensures
        pieces(joined(list, seq![c]), at_char(c)) == list,
    decreases list.len(),
{
    let w = list.last();
    let head = list.drop_last();
    assert forall|j: int| 0 <= j < w.len() implies #[trigger] w[j] != c by {
        assert(list[list.len() - 1][j] != c);
    }
    if head.len() == 0 {
        lemma_pieces_of_one(w, c);
        assert(list =~= seq![w]);
    } else {
        assert forall|i: int, j: int|
            0 <= i < head.len() && 0 <= j < head[i].len() implies #[trigger] head[i][j] != c by {
            assert(list[i][j] != c);
        }
        law_split_undoes_join(head, c);
        lemma_pieces_of_one_more(joined(head, seq![c]), w, c);
        assert(head.push(w) =~= list);
    }
}

proof fn lemma_pieces_of_one(w: Seq<char>, c: char)
    requires
        forall|j: int| 0 <= j < w.len() ==> #[trigger] w[j] != c,
    ensures
        pieces(w, at_char(c)) == seq![w],
    decreases w.len(),
{
    if w.len() == 0 {
        assert(w =~= Seq::empty());
    } else {
        let rest = w.drop_last();
        assert forall|j: int| 0 <= j < rest.len() implies #[trigger] rest[j] != c by {
            assert(w[j] != c);
        }
        lemma_pieces_of_one(rest, c);
        assert(w[w.len() - 1] != c);
        assert(!at_char(c)(w.last()));
        assert(rest.push(w.last()) =~= w);
        assert(seq![rest].update(0, w) =~= seq![w]);
    }
}

proof fn lemma_pieces_of_one_more(head: Seq<char>, w: Seq<char>, c: char)
    requires
        forall|j: int| 0 <= j < w.len() ==> #[trigger] w[j] != c,
    ensures
        pieces(head + seq![c] + w, at_char(c)) == pieces(head, at_char(c)).push(w),
    decreases w.len(),
{
    let all = head + seq![c] + w;
    let before = pieces(head, at_char(c));
    if w.len() == 0 {
        assert(all.drop_last() =~= head);
        assert(all.last() == c);
        assert(at_char(c)(c));
        assert(w =~= Seq::empty());
    } else {
        let rest = w.drop_last();
        assert forall|j: int| 0 <= j < rest.len() implies #[trigger] rest[j] != c by {
            assert(w[j] != c);
        }
        lemma_pieces_of_one_more(head, rest, c);
        assert(w[w.len() - 1] != c);
        assert(!at_char(c)(w.last()));
        assert(all.drop_last() =~= head + seq![c] + rest);
        assert(all.last() == w.last());
        assert(rest.push(w.last()) =~= w);
        assert(before.push(rest).update(before.len() as int, w) =~= before.push(w));
    }
}

/// The first piece of a text reaches up to its first separator.
pub proof fn law_the_first_piece_ends_at_the_separator(head: Seq<char>, tail: Seq<char>, c: char)
    requires
        forall|j: int| 0 <= j < head.len() ==> #[trigger] head[j] != c,
    ensures
        pieces(head + seq![c] + tail, at_char(c))[0] == head,
        pieces(head, at_char(c))[0] == head,
    decreases tail.len(),
{
    let all = head + seq![c] + tail;
    lemma_pieces_of_one(head, c);
    if tail.len() == 0 {
        assert(all.drop_last() =~= head);
        assert(at_char(c)(all.last()));
    } else {
        law_the_first_piece_ends_at_the_separator(head, tail.drop_last(), c);
        assert(all.drop_last() =~= head + seq![c] + tail.drop_last());
        lemma_more_than_one(head, tail.drop_last(), c);
    }
}

proof fn lemma_more_than_one(head: Seq<char>, tail: Seq<char>, c: char)
    ensures
        pieces(head + seq![c] + tail, at_char(c)).len() > 1,
    decreases tail.len(),
{
    let all = head + seq![c] + tail;
    lemma_pieces_non_empty(head, at_char(c));
    if tail.len() == 0 {
        assert(all.drop_last() =~= head);
        assert(at_char(c)(all.last()));
    } else {
        lemma_more_than_one(head, tail.drop_last(), c);
        assert(all.drop_last() =~= head + seq![c] + tail.drop_last());
    }
}

/// One slash stands between a directory and what is below it: where the
/// directory ends in one, or is empty, none is put in.
pub proof fn law_one_slash_between(dir: Seq<char>, rel: Seq<char>)
    ensures
        path_below(dir.push('/'), rel) == dir.push('/') + rel,
        path_below(Seq::empty(), rel) == rel,
        dir.len() > 0 && dir.last() != '/' ==> path_below(dir, rel) == path_below(
            dir.push('/'),
            rel,
        ),
{
    reveal_strlit("/");
    assert(dir + "/"@ =~= dir.push('/'));
    assert(Seq::<char>::empty() + rel =~= rel);
}

/// Of the characters that print in ASCII only the space is white space, and
/// none is a control code; tab and line ends are both.
pub proof fn law_what_is_white_space(c: char)
    ensures
        0x20 < c as u32 <= 0x7e ==> !white_space(c) && !control_code(c),
        white_space(' ') && !control_code(' '),
        c == '\t' || c == '\n' || c == '\r' ==> white_space(c) && control_code(c),
{
}

} // verus!
