//! Text as bytes: the pieces of `str` and path handling that the library
//! needs, stated over `Seq<u8>` and implemented on byte slices.
use vstd::prelude::*;

verus! {

/// The ASCII white space: tab, line feed, vertical tab, form feed,
/// carriage return and space.
pub open spec fn is_ws(b: u8) -> bool {
    b == 0x20u8 || b == 0x09u8 || b == 0x0au8 || b == 0x0bu8 || b == 0x0cu8 || b == 0x0du8
}

/// The UTF-8 encodings of two bytes of the white-space characters U+0085
/// and U+00A0.
pub open spec fn is_ws2(a: u8, b: u8) -> bool {
    a == 0xc2u8 && (b == 0x85u8 || b == 0xa0u8)
}

/// The UTF-8 encodings of three bytes of the white-space characters
/// U+1680, U+2000 to U+200A, U+2028, U+2029, U+202F, U+205F and U+3000.
pub open spec fn is_ws3(a: u8, b: u8, c: u8) -> bool {
    ||| a == 0xe1u8 && b == 0x9au8 && c == 0x80u8
    ||| a == 0xe2u8 && b == 0x80u8 && (0x80u8 <= c <= 0x8au8 || c == 0xa8u8 || c == 0xa9u8 || c == 0xafu8)
    ||| a == 0xe2u8 && b == 0x81u8 && c == 0x9fu8
    ||| a == 0xe3u8 && b == 0x80u8 && c == 0x80u8
}

/// The length of the white-space character that the UTF-8 text `s` begins
/// with, or 0. White space is what `char::is_whitespace` calls so: the
/// characters with Unicode's `White_Space` property.
pub open spec fn ws_prefix(s: Seq<u8>) -> int {
    if s.len() >= 1 && is_ws(s[0]) {
        1
    } else if s.len() >= 2 && is_ws2(s[0], s[1]) {
        2
    } else if s.len() >= 3 && is_ws3(s[0], s[1], s[2]) {
        3
    } else {
        0
    }
}

/// The length of the white-space character that the UTF-8 text `s` ends
/// with, or 0.
pub open spec fn ws_suffix(s: Seq<u8>) -> int {
    let n = s.len() as int;
    if n >= 1 && is_ws(s[n - 1]) {
        1
    } else if n >= 2 && is_ws2(s[n - 2], s[n - 1]) {
        2
    } else if n >= 3 && is_ws3(s[n - 3], s[n - 2], s[n - 1]) {
        3
    } else {
        0
    }
}

pub open spec fn is_digit(b: u8) -> bool {
    0x30u8 <= b <= 0x39u8
}

pub open spec fn starts_with(s: Seq<u8>, p: Seq<u8>) -> bool {
    p.len() <= s.len() && s.subrange(0, p.len() as int) == p
}

pub open spec fn ends_with(s: Seq<u8>, p: Seq<u8>) -> bool {
    p.len() <= s.len() && s.subrange(s.len() - p.len(), s.len() as int) == p
}

/// `s` without its leading white space.
pub open spec fn trim_start(s: Seq<u8>) -> Seq<u8>
    decreases s.len(),
{
    if ws_prefix(s) > 0 {
        trim_start(s.subrange(ws_prefix(s), s.len() as int))
    } else {
        s
    }
}

/// `s` without its trailing white space.
pub open spec fn trim_end(s: Seq<u8>) -> Seq<u8>
    decreases s.len(),
{
    if ws_suffix(s) > 0 {
        trim_end(s.subrange(0, s.len() - ws_suffix(s)))
    } else {
        s
    }
}

pub open spec fn trim(s: Seq<u8>) -> Seq<u8> {
    trim_end(trim_start(s))
}

/// `s` without the copies of `c` that it starts with.
pub open spec fn trim_start_byte(s: Seq<u8>, c: u8) -> Seq<u8>
    decreases s.len(),
{
    if s.len() > 0 && s[0] == c {
        trim_start_byte(s.drop_first(), c)
    } else {
        s
    }
}

/// `s` without the copies of `c` that it ends with.
pub open spec fn trim_end_byte(s: Seq<u8>, c: u8) -> Seq<u8>
    decreases s.len(),
{
    if s.len() > 0 && s.last() == c {
        trim_end_byte(s.drop_last(), c)
    } else {
        s
    }
}

/// The leading run of `s` that holds no white space.
pub open spec fn leading_word(s: Seq<u8>) -> Seq<u8>
    decreases s.len(),
{
    if s.len() == 0 || ws_prefix(s) > 0 {
        Seq::empty()
    } else {
        seq![s[0]] + leading_word(s.drop_first())
    }
}

/// The first word of `s` split at white space, or nothing.
pub open spec fn first_word(s: Seq<u8>) -> Seq<u8> {
    leading_word(trim_start(s))
}

pub open spec fn occurs_at(s: Seq<u8>, p: Seq<u8>, i: int) -> bool {
    0 <= i && i + p.len() <= s.len() && s.subrange(i, i + p.len()) == p
}

/// The first place at or after `i` where `p` occurs in `s`, or -1.
pub open spec fn find_from(s: Seq<u8>, p: Seq<u8>, i: nat) -> int
    decreases s.len() + 1 - i,
{
    if i + p.len() > s.len() {
        -1
    } else if occurs_at(s, p, i as int) {
        i as int
    } else {
        find_from(s, p, i + 1)
    }
}

/// The first place where `p` occurs in `s`, or -1.
pub open spec fn find(s: Seq<u8>, p: Seq<u8>) -> int {
    find_from(s, p, 0)
}

/// The last place of `c` in `s`, or -1.
pub open spec fn rfind_byte(s: Seq<u8>, c: u8) -> int
    decreases s.len(),
{
    if s.len() == 0 {
        -1
    } else if s.last() == c {
        s.len() - 1
    } else {
        rfind_byte(s.drop_last(), c)
    }
}

pub proof fn lemma_rfind_byte(s: Seq<u8>, c: u8)
    ensures
        -1 <= rfind_byte(s, c) < s.len(),
        rfind_byte(s, c) >= 0 ==> s[rfind_byte(s, c)] == c,
        forall|j: int| rfind_byte(s, c) < j < s.len() ==> s[j] != c,
    decreases s.len(),
{
    if s.len() > 0 && s.last() != c {
        lemma_rfind_byte(s.drop_last(), c);
        assert forall|j: int| rfind_byte(s, c) < j < s.len() implies s[j] != c by {
            if j < s.len() - 1 {
                assert(s.drop_last()[j] == s[j]);
            }
        }
    }
}

/// The pieces of `s` between the copies of `c`, as `str::split` gives them:
/// there is always one more piece than there are copies of `c`.
pub open spec fn split_byte(s: Seq<u8>, c: u8) -> Seq<Seq<u8>>
    decreases s.len(),
{
    let i = rfind_byte(s, c);
    if i < 0 {
        seq![s]
    } else {
        proof {
            lemma_rfind_byte(s, c);
        }
        split_byte(s.subrange(0, i), c).push(s.subrange(i + 1, s.len() as int))
    }
}

/// The contents of a sequence of byte vectors.
pub open spec fn views(v: Seq<Vec<u8>>) -> Seq<Seq<u8>> {
    v.map_values(|x: Vec<u8>| x@)
}

/// The lines of a text. Each use trims its line, so the carriage return of a
/// `\r\n` ending and the empty piece after a final newline have no effect.
pub open spec fn lines(s: Seq<u8>) -> Seq<Seq<u8>> {
    split_byte(s, 0x0au8)
}

/// The pieces of `s` before position `p`, where `p` follows a copy of `c`
/// (or is 0).
pub open spec fn split_before(s: Seq<u8>, c: u8, p: int) -> Seq<Seq<u8>> {
    if p <= 0 {
        Seq::empty()
    } else {
        split_byte(s.subrange(0, p - 1), c)
    }
}

/// The pieces joined again, with `sep` between neighbours.
pub open spec fn join(parts: Seq<Seq<u8>>, sep: u8) -> Seq<u8>
    decreases parts.len(),
{
    if parts.len() == 0 {
        Seq::empty()
    } else if parts.len() == 1 {
        parts[0]
    } else {
        join(parts.drop_last(), sep).push(sep) + parts.last()
    }
}

/// Decimal digits of `n`, as `format!("{}", n)` writes them.
pub open spec fn dec(n: nat) -> Seq<u8>
    decreases n,
{
    if n < 10 {
        seq![(0x30 + n) as u8]
    } else {
        dec(n / 10).push((0x30 + n % 10) as u8)
    }
}

pub open spec fn hex_digit(d: nat) -> u8 {
    if d < 10 {
        (0x30 + d) as u8
    } else {
        (0x61 + d - 10) as u8
    }
}

/// Lower-case hexadecimal digits of `n`, as `format!("{:x}", n)` writes them.
pub open spec fn hex(n: nat) -> Seq<u8>
    decreases n,
{
    if n < 16 {
        seq![hex_digit(n)]
    } else {
        hex(n / 16).push(hex_digit(n % 16))
    }
}

proof fn lemma_rfind_at(s: Seq<u8>, c: u8, j: int)
    requires
        0 <= j < s.len(),
        s[j] == c,
        forall|k: int| j < k < s.len() ==> s[k] != c,
    ensures
        rfind_byte(s, c) == j,
    decreases s.len(),
{
    if s.last() != c {
        assert(s.drop_last()[j] == c);
        lemma_rfind_at(s.drop_last(), c, j);
    }
}

proof fn lemma_rfind_none(s: Seq<u8>, c: u8)
    requires
        forall|k: int| 0 <= k < s.len() ==> s[k] != c,
    ensures
        rfind_byte(s, c) == -1,
    decreases s.len(),
{
    if s.len() > 0 {
        lemma_rfind_none(s.drop_last(), c);
    }
}

/// One more piece: the bytes from `p` (just after a copy of `c`, or the
/// start) up to `q` (a copy of `c`, or the end), with no `c` between.
pub proof fn lemma_split_step(s: Seq<u8>, c: u8, p: int, q: int)
    requires
        0 <= p <= q <= s.len(),
        p > 0 ==> s[p - 1] == c,
        forall|k: int| p <= k < q ==> s[k] != c,
    ensures
        split_byte(s.subrange(0, q), c) == split_before(s, c, p).push(s.subrange(p, q)),
{
    let t = s.subrange(0, q);
    if p == 0 {
        lemma_rfind_none(t, c);
        assert(t == s.subrange(p, q));
        assert(split_byte(t, c) =~= seq![t]);
    } else {
        lemma_rfind_at(t, c, p - 1);
        assert(t.subrange(0, p - 1) == s.subrange(0, p - 1));
        assert(t.subrange(p, t.len() as int) == s.subrange(p, q));
    }
}

/// Appends `s` to `out`.
pub fn push_all(out: &mut Vec<u8>, s: &[u8])
    ensures
        final(out)@ == old(out)@ + s@,
{
    let mut i: usize = 0;
    while i < s.len()
        invariant
            i <= s@.len(),
            out@ == old(out)@ + s@.subrange(0, i as int),
        decreases s@.len() - i,
    {
        out.push(s[i]);
        i += 1;
        assert(s@.subrange(0, i as int) == s@.subrange(0, i - 1).push(s@[i - 1]));
    }
    assert(s@.subrange(0, s@.len() as int) == s@);
}

/// A copy of the bytes of `s` from `lo` up to `hi`.
pub fn copy_range(s: &[u8], lo: usize, hi: usize) -> (r: Vec<u8>)
    requires
        lo <= hi <= s@.len(),
    ensures
        r@ == s@.subrange(lo as int, hi as int),
{
    let mut r: Vec<u8> = Vec::new();
    let mut i: usize = lo;
    while i < hi
        invariant
            lo <= i <= hi <= s@.len(),
            r@ == s@.subrange(lo as int, i as int),
        decreases hi - i,
    {
        r.push(s[i]);
        i += 1;
        assert(s@.subrange(lo as int, i as int) == s@.subrange(lo as int, i - 1).push(s@[i - 1]));
    }
    r
}

/// A copy of `s`.
pub fn copy_all(s: &[u8]) -> (r: Vec<u8>)
    ensures
        r@ == s@,
{
    let r = copy_range(s, 0, s.len());
    assert(s@.subrange(0, s@.len() as int) == s@);
    r
}

pub fn bytes_eq(a: &[u8], b: &[u8]) -> (r: bool)
    ensures
        r == (a@ == b@),
{
    if a.len() != b.len() {
        return false;
    }
    let mut i: usize = 0;
    while i < a.len()
        invariant
            a@.len() == b@.len(),
            i <= a@.len(),
            forall|j: int| 0 <= j < i ==> a@[j] == b@[j],
        decreases a@.len() - i,
    {
        if a[i] != b[i] {
            assert(a@[i as int] != b@[i as int]);
            return false;
        }
        i += 1;
    }
    assert(a@ =~= b@);
    true
}

/// Whether `p` occurs in `s` at `i`.
pub fn occurs_at_exec(s: &[u8], p: &[u8], i: usize) -> (r: bool)
    ensures
        r == occurs_at(s@, p@, i as int),
{
    if i > s.len() || p.len() > s.len() - i {
        return false;
    }
    let n = s.len();
    let mut k: usize = 0;
    while k < p.len()
        invariant
            n == s@.len(),
            i + p@.len() <= s@.len(),
            k <= p@.len(),
            forall|j: int| 0 <= j < k ==> s@[i + j] == p@[j],
        decreases p@.len() - k,
    {
        if s[i + k] != p[k] {
            assert(s@.subrange(i as int, i + p@.len())[k as int] != p@[k as int]);
            return false;
        }
        k += 1;
    }
    assert(s@.subrange(i as int, i + p@.len()) =~= p@);
    true
}

pub fn starts_with_exec(s: &[u8], p: &[u8]) -> (r: bool)
    ensures
        r == starts_with(s@, p@),
{
    occurs_at_exec(s, p, 0)
}

pub fn ends_with_exec(s: &[u8], p: &[u8]) -> (r: bool)
    ensures
        r == ends_with(s@, p@),
{
    if p.len() > s.len() {
        return false;
    }
    occurs_at_exec(s, p, s.len() - p.len())
}

/// `s` without the prefix `p`, where it has it.
pub fn strip_prefix(s: &[u8], p: &[u8]) -> (r: Option<Vec<u8>>)
    ensures
        r is Some <==> starts_with(s@, p@),
        r is Some ==> r->0@ == s@.subrange(p@.len() as int, s@.len() as int),
{
    if starts_with_exec(s, p) {
        Some(copy_range(s, p.len(), s.len()))
    } else {
        None
    }
}

/// `s` without the suffix `p`, where it has it.
pub fn strip_suffix(s: &[u8], p: &[u8]) -> (r: Option<Vec<u8>>)
    ensures
        r is Some <==> ends_with(s@, p@),
        r is Some ==> r->0@ == s@.subrange(0, s@.len() - p@.len()),
{
    if ends_with_exec(s, p) {
        Some(copy_range(s, 0, s.len() - p.len()))
    } else {
        None
    }
}

/// The first place where `p` occurs in `s`.
pub fn find_exec(s: &[u8], p: &[u8]) -> (r: Option<usize>)
    ensures
        r is Some <==> find(s@, p@) >= 0,
        r is Some ==> r->0 == find(s@, p@) && r->0 + p@.len() <= s@.len(),
{
    if p.len() > s.len() {
        return None;
    }
    let last = s.len() - p.len();
    let mut i: usize = 0;
    loop
        invariant
            i <= last,
            last == s@.len() - p@.len(),
            find(s@, p@) == find_from(s@, p@, i as nat),
        decreases last - i,
    {
        if occurs_at_exec(s, p, i) {
            return Some(i);
        }
        if i == last {
            assert(find_from(s@, p@, (i + 1) as nat) == -1);
            return None;
        }
        i += 1;
    }
}

/// The length of the white-space character at position `i` of `s`, or 0.
pub fn ws_prefix_at(s: &[u8], i: usize) -> (r: usize)
    requires
        i <= s@.len(),
    ensures
        r == ws_prefix(s@.subrange(i as int, s@.len() as int)),
        r <= s@.len() - i,
{
    let n = s.len();
    if i < n && is_ws_exec(s[i]) {
        1
    } else if n - i > 1 && s[i] == 0xc2 && (s[i + 1] == 0x85 || s[i + 1] == 0xa0) {
        2
    } else if n - i > 2 && ((s[i] == 0xe1 && s[i + 1] == 0x9a && s[i + 2] == 0x80) || (s[i] == 0xe2
        && s[i + 1] == 0x80 && ((0x80 <= s[i + 2] && s[i + 2] <= 0x8a) || s[i + 2] == 0xa8 || s[i
        + 2] == 0xa9 || s[i + 2] == 0xaf)) || (s[i] == 0xe2 && s[i + 1] == 0x81 && s[i + 2] == 0x9f)
        || (s[i] == 0xe3 && s[i + 1] == 0x80 && s[i + 2] == 0x80)) {
        3
    } else {
        0
    }
}

/// The length of the white-space character that ends `s[lo..j]`, or 0.
pub fn ws_suffix_at(s: &[u8], lo: usize, j: usize) -> (r: usize)
    requires
        lo <= j <= s@.len(),
    ensures
        r == ws_suffix(s@.subrange(lo as int, j as int)),
        r <= j - lo,
{
    if j - lo >= 1 && is_ws_exec(s[j - 1]) {
        1
    } else if j - lo >= 2 && s[j - 2] == 0xc2 && (s[j - 1] == 0x85 || s[j - 1] == 0xa0) {
        2
    } else if j - lo >= 3 && ((s[j - 3] == 0xe1 && s[j - 2] == 0x9a && s[j - 1] == 0x80) || (s[j - 3]
        == 0xe2 && s[j - 2] == 0x80 && ((0x80 <= s[j - 1] && s[j - 1] <= 0x8a) || s[j - 1] == 0xa8
        || s[j - 1] == 0xa9 || s[j - 1] == 0xaf)) || (s[j - 3] == 0xe2 && s[j - 2] == 0x81 && s[j
        - 1] == 0x9f) || (s[j - 3] == 0xe3 && s[j - 2] == 0x80 && s[j - 1] == 0x80)) {
        3
    } else {
        0
    }
}

/// The index at which `s[i..]` has no more leading white space.
fn skip_ws(s: &[u8], i0: usize) -> (i: usize)
    requires
        i0 <= s@.len(),
    ensures
        i0 <= i <= s@.len(),
        trim_start(s@.subrange(i0 as int, s@.len() as int)) == s@.subrange(i as int, s@.len() as int),
{
    let mut i = i0;
    while i < s.len() && ws_prefix_at(s, i) > 0
        invariant
            i0 <= i <= s@.len(),
            trim_start(s@.subrange(i0 as int, s@.len() as int)) == trim_start(
                s@.subrange(i as int, s@.len() as int),
            ),
        decreases s@.len() - i,
    {
        let k = ws_prefix_at(s, i);
        let ghost t = s@.subrange(i as int, s@.len() as int);
        assert(t.subrange(k as int, t.len() as int) == s@.subrange(i + k, s@.len() as int));
        i += k;
    }
    if i < s.len() {
        assert(ws_prefix(s@.subrange(i as int, s@.len() as int)) == 0);
    } else {
        assert(s@.subrange(i as int, s@.len() as int).len() == 0);
    }
    i
}

/// `s` without leading and trailing white space.
pub fn trim_exec(s: &[u8]) -> (r: Vec<u8>)
    ensures
        r@ == trim(s@),
{
    assert(s@.subrange(0, s@.len() as int) == s@);
    let i = skip_ws(s, 0);
    let mut j: usize = s.len();
    while j > i && ws_suffix_at(s, i, j) > 0
        invariant
            i <= j <= s@.len(),
            trim(s@) == trim_end(s@.subrange(i as int, j as int)),
        decreases j,
    {
        let k = ws_suffix_at(s, i, j);
        let ghost t = s@.subrange(i as int, j as int);
        assert(t.subrange(0, t.len() - k) == s@.subrange(i as int, j - k));
        j -= k;
    }
    assert(ws_suffix(s@.subrange(i as int, j as int)) == 0);
    copy_range(s, i, j)
}

/// `s` without leading copies of `c`.
pub fn trim_start_byte_exec(s: &[u8], c: u8) -> (r: Vec<u8>)
    ensures
        r@ == trim_start_byte(s@, c),
{
    let mut i: usize = 0;
    assert(s@.subrange(0, s@.len() as int) == s@);
    while i < s.len() && s[i] == c
        invariant
            i <= s@.len(),
            trim_start_byte(s@, c) == trim_start_byte(s@.subrange(i as int, s@.len() as int), c),
        decreases s@.len() - i,
    {
        assert(s@.subrange(i as int, s@.len() as int).drop_first() == s@.subrange(
            i + 1,
            s@.len() as int,
        ));
        i += 1;
    }
    copy_range(s, i, s.len())
}

/// `s` without trailing copies of `c`.
pub fn trim_end_byte_exec(s: &[u8], c: u8) -> (r: Vec<u8>)
    ensures
        r@ == trim_end_byte(s@, c),
{
    let mut j: usize = s.len();
    assert(s@.subrange(0, s@.len() as int) == s@);
    while j > 0 && s[j - 1] == c
        invariant
            j <= s@.len(),
            trim_end_byte(s@, c) == trim_end_byte(s@.subrange(0, j as int), c),
        decreases j,
    {
        assert(s@.subrange(0, j as int).drop_last() == s@.subrange(0, j - 1));
        j -= 1;
    }
    copy_range(s, 0, j)
}

/// The first white-space separated word of `s`, or an empty word.
pub fn first_word_exec(s: &[u8]) -> (r: Vec<u8>)
    ensures
        r@ == first_word(s@),
{
    assert(s@.subrange(0, s@.len() as int) == s@);
    let i = skip_ws(s, 0);
    let ghost t = s@.subrange(i as int, s@.len() as int);
    assert(trim_start(s@) == t);
    let mut j: usize = i;
    while j < s.len() && ws_prefix_at(s, j) == 0
        invariant
            i <= j <= s@.len(),
            t == s@.subrange(i as int, s@.len() as int),
            leading_word(t) == s@.subrange(i as int, j as int) + leading_word(
                s@.subrange(j as int, s@.len() as int),
            ),
        decreases s@.len() - j,
    {
        let ghost u = s@.subrange(j as int, s@.len() as int);
        assert(u.drop_first() == s@.subrange(j + 1, s@.len() as int));
        assert(s@.subrange(i as int, j + 1) == s@.subrange(i as int, j as int) + seq![s@[j as int]]);
        j += 1;
    }
    assert(s@.subrange(i as int, j as int) + Seq::<u8>::empty() == s@.subrange(i as int, j as int));
    copy_range(s, i, j)
}

/// The pieces of `s` between the copies of `c`.
pub fn split_byte_exec(s: &[u8], c: u8) -> (r: Vec<Vec<u8>>)
    ensures
        views(r@) == split_byte(s@, c),
{
    let mut r: Vec<Vec<u8>> = Vec::new();
    let mut p: usize = 0;
    let mut q: usize = 0;
    loop
        invariant
            p <= q <= s@.len(),
            p > 0 ==> s@[p - 1] == c,
            forall|k: int| p <= k < q ==> s@[k] != c,
            views(r@) == split_before(s@, c, p as int),
        decreases s@.len() - q,
    {
        if q == s.len() || s[q] == c {
            proof {
                lemma_split_step(s@, c, p as int, q as int);
            }
            let piece = copy_range(s, p, q);
            r.push(piece);
            proof {
                assert(views(r@) =~= split_before(s@, c, p as int).push(s@.subrange(p as int, q as int)));
            }
            if q == s.len() {
                assert(s@.subrange(0, q as int) == s@);
                return r;
            }
            q += 1;
            p = q;
        } else {
            q += 1;
        }
    }
}

/// The pieces `parts[lo..hi]` joined with `sep` between neighbours.
pub fn join_exec(parts: &Vec<Vec<u8>>, lo: usize, hi: usize, sep: u8) -> (r: Vec<u8>)
    requires
        lo <= hi <= parts@.len(),
    ensures
        r@ == join(views(parts@).subrange(lo as int, hi as int), sep),
{
    let mut r: Vec<u8> = Vec::new();
    let mut i: usize = lo;
    while i < hi
        invariant
            lo <= i <= hi <= parts@.len(),
            r@ == join(views(parts@).subrange(lo as int, i as int), sep),
        decreases hi - i,
    {
        let ghost before = views(parts@).subrange(lo as int, i as int);
        let ghost after = views(parts@).subrange(lo as int, i + 1);
        assert(after.drop_last() == before);
        assert(after.last() == parts[i as int]@);
        if i > lo {
            r.push(sep);
        } else {
            assert(before.len() == 0);
        }
        push_all(&mut r, parts[i].as_slice());
        i += 1;
    }
    r
}

/// The decimal digits of `n`.
pub fn fmt_dec(n: u32) -> (r: Vec<u8>)
    ensures
        r@ == dec(n as nat),
    decreases n,
{
    if n < 10 {
        let d: u8 = 0x30u8 + (n as u8);
        let mut r: Vec<u8> = Vec::new();
        r.push(d);
        assert(r@ =~= seq![(0x30 + n) as u8]);
        r
    } else {
        let mut r = fmt_dec(n / 10);
        let d: u8 = 0x30u8 + ((n % 10) as u8);
        r.push(d);
        r
    }
}

/// The lower-case hexadecimal digits of `n`.
pub fn fmt_hex(n: u32) -> (r: Vec<u8>)
    ensures
        r@ == hex(n as nat),
    decreases n,
{
    let low: u8 = (n % 16) as u8;
    let d: u8 = if low < 10 {
        0x30u8 + low
    } else {
        0x61u8 + low - 10
    };
    if n < 16 {
        let mut r: Vec<u8> = Vec::new();
        r.push(d);
        assert(r@ =~= seq![hex_digit(n as nat)]);
        r
    } else {
        let mut r = fmt_hex(n / 16);
        r.push(d);
        r
    }
}

/// Whether one of the byte strings in `v` equals `k`.
pub fn contains_bytes(v: &Vec<Vec<u8>>, k: &[u8]) -> (r: bool)
    ensures
        r == views(v@).contains(k@),
{
    let mut i: usize = 0;
    while i < v.len()
        invariant
            i <= v@.len(),
            forall|j: int| 0 <= j < i ==> v@[j]@ != k@,
        decreases v@.len() - i,
    {
        if bytes_eq(v[i].as_slice(), k) {
            assert(views(v@)[i as int] == k@);
            return true;
        }
        i += 1;
    }
    assert forall|j: int| 0 <= j < views(v@).len() implies views(v@)[j] != k@ by {
        assert(views(v@)[j] == v@[j]@);
    }
    false
}

// ── characters ───────────────────────────────────────────────────────────────

/// The width of the UTF-8 sequence that the byte `b` leads.
pub open spec fn utf8_width(b: u8) -> int {
    if b < 0x80u8 {
        1
    } else if b < 0xe0u8 {
        2
    } else if b < 0xf0u8 {
        3
    } else {
        4
    }
}

/// The code point that the `w` bytes of `t` from `i` encode in UTF-8.
pub open spec fn utf8_code(t: Seq<u8>, i: int, w: int) -> u32 {
    if w == 1 {
        t[i] as u32
    } else if w == 2 {
        ((t[i] & 0x1fu8) as u32) << 6u32 | ((t[i + 1] & 0x3fu8) as u32)
    } else if w == 3 {
        ((t[i] & 0x0fu8) as u32) << 12u32 | ((t[i + 1] & 0x3fu8) as u32) << 6u32 | ((t[i + 2]
            & 0x3fu8) as u32)
    } else {
        ((t[i] & 0x07u8) as u32) << 18u32 | ((t[i + 1] & 0x3fu8) as u32) << 12u32 | ((t[i + 2]
            & 0x3fu8) as u32) << 6u32 | ((t[i + 3] & 0x3fu8) as u32)
    }
}

/// The width of the UTF-8 sequence that the byte `b` leads.
pub fn utf8_width_exec(b: u8) -> (r: usize)
    ensures
        r == utf8_width(b),
{
    if b < 0x80 {
        1
    } else if b < 0xe0 {
        2
    } else if b < 0xf0 {
        3
    } else {
        4
    }
}

/// The code point that the `w` bytes of `t` from `i` encode in UTF-8.
pub fn utf8_code_exec(t: &[u8], i: usize, w: usize) -> (r: u32)
    requires
        1 <= w <= 4,
        i + w <= t@.len(),
    ensures
        r == utf8_code(t@, i as int, w as int),
{
    if w == 1 {
        t[i] as u32
    } else if w == 2 {
        ((t[i] & 0x1f) as u32) << 6u32 | ((t[i + 1] & 0x3f) as u32)
    } else if w == 3 {
        ((t[i] & 0x0f) as u32) << 12u32 | ((t[i + 1] & 0x3f) as u32) << 6u32 | ((t[i + 2] & 0x3f)
            as u32)
    } else {
        ((t[i] & 0x07) as u32) << 18u32 | ((t[i + 1] & 0x3f) as u32) << 12u32 | ((t[i + 2] & 0x3f)
            as u32) << 6u32 | ((t[i + 3] & 0x3f) as u32)
    }
}

/// Whether `char::is_lowercase` holds of `c` (Unicode's `Lowercase`
/// property).
pub uninterp spec fn char_lowercase(c: char) -> bool;

/// `char::is_lowercase`. Its result is named, not stated: it follows
/// Unicode's tables.
#[verifier::external_body]
pub(crate) fn is_lowercase_char(c: char) -> (r: bool)
    ensures
        r == char_lowercase(c),
{
    c.is_lowercase()
}

/// `char::from_u32`, which its documentation says gives the character
/// with code point `cp` when `cp` is a Unicode scalar value and `None`
/// otherwise.
#[verifier::external_body]
pub(crate) fn char_from_u32(cp: u32) -> (r: Option<char>)
    ensures
        r is Some <==> vstd::utf8::is_scalar(cp),
        r matches Some(c) ==> c as u32 == cp,
{
    char::from_u32(cp)
}

/// The UTF-8 bytes of `str::to_uppercase` of the text `s`.
pub uninterp spec fn utf8_uppercase(s: Seq<u8>) -> Seq<u8>;

/// The UTF-8 bytes of `str::to_lowercase` of the text `s`.
pub uninterp spec fn utf8_lowercase(s: Seq<u8>) -> Seq<u8>;

/// `str::to_uppercase` on UTF-8 bytes. Its result is named, not stated:
/// it follows Unicode's case mapping. Bytes that are not UTF-8 come back
/// as they are.
#[verifier::external_body]
pub(crate) fn to_uppercase_utf8(s: &[u8]) -> (r: Vec<u8>)
    ensures
        r@ == utf8_uppercase(s@),
{
    match std::str::from_utf8(s) {
        Ok(t) => t.to_uppercase().into_bytes(),
        Err(_) => s.to_vec(),
    }
}

/// `str::to_lowercase` on UTF-8 bytes. Its result is named, not stated:
/// it follows Unicode's case mapping, including the final sigma. Bytes
/// that are not UTF-8 come back as they are.
#[verifier::external_body]
pub(crate) fn to_lowercase_utf8(s: &[u8]) -> (r: Vec<u8>)
    ensures
        r@ == utf8_lowercase(s@),
{
    match std::str::from_utf8(s) {
        Ok(t) => t.to_lowercase().into_bytes(),
        Err(_) => s.to_vec(),
    }
}

pub fn is_ws_exec(b: u8) -> (r: bool)
    ensures
        r == is_ws(b),
{
    b == 0x20 || b == 0x09 || b == 0x0a || b == 0x0b || b == 0x0c || b == 0x0d
}

} // verus!
