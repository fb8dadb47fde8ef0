//! Character-level text operations with exact specifications.
use vstd::prelude::*;

verus! {

broadcast use vstd::string::group_string_axioms;

/// The characters of a string slice, in order.
pub fn chars_of(s: &str) -> (v: Vec<char>)
    ensures
        v@ == s@,
{
    let mut v: Vec<char> = Vec::new();
    for c in it: s.chars()
        invariant
            it.seq() == s@,
            v@ == it.seq().take(it.index()),
    {
        v.push(c);
    }
    v
}

} // verus!

verus! {

/// Whether `c` is white space in the sense of the Unicode `White_Space` property, which is
/// what `char::is_whitespace` (and so `str::trim`) tests.
pub open spec fn is_space(c: char) -> bool {
    ||| c == ' '
    ||| ('\u{9}' <= c && c <= '\u{d}')
    ||| c == '\u{85}'
    ||| c == '\u{a0}'
    ||| c == '\u{1680}'
    ||| ('\u{2000}' <= c && c <= '\u{200a}')
    ||| c == '\u{2028}'
    ||| c == '\u{2029}'
    ||| c == '\u{202f}'
    ||| c == '\u{205f}'
    ||| c == '\u{3000}'
}

/// Decides `is_space`.
pub fn char_is_space(c: char) -> (b: bool)
    ensures
        b == is_space(c),
{
    c == ' ' || ('\u{9}' <= c && c <= '\u{d}') || c == '\u{85}' || c == '\u{a0}' || c == '\u{1680}'
        || ('\u{2000}' <= c && c <= '\u{200a}') || c == '\u{2028}' || c == '\u{2029}' || c
        == '\u{202f}' || c == '\u{205f}' || c == '\u{3000}'
}

/// `s` without its leading white space.
pub open spec fn trim_start(s: Seq<char>) -> Seq<char>
    decreases s.len(),
{
    if s.len() > 0 && is_space(s[0]) {
        trim_start(s.drop_first())
    } else {
        s
    }
}

/// `s` without its trailing white space.
pub open spec fn trim_end(s: Seq<char>) -> Seq<char>
    decreases s.len(),
{
    if s.len() > 0 && is_space(s.last()) {
        trim_end(s.drop_last())
    } else {
        s
    }
}

/// `s` without leading and trailing white space, as `str::trim` gives it.
pub open spec fn trim(s: Seq<char>) -> Seq<char> {
    trim_end(trim_start(s))
}

proof fn lemma_trim_start_skip(s: Seq<char>, i: int)
    requires
        0 <= i <= s.len(),
        forall|k: int| 0 <= k < i ==> is_space(#[trigger] s[k]),
    ensures
        trim_start(s) == trim_start(s.subrange(i, s.len() as int)),
    decreases i,
{
    if i > 0 {
        assert(is_space(s[0]));
        assert(trim_start(s) == trim_start(s.drop_first()));
        let t = s.drop_first();
        assert forall|k: int| 0 <= k < i - 1 implies is_space(#[trigger] t[k]) by {
            assert(t[k] == s[k + 1]);
        }
        lemma_trim_start_skip(t, i - 1);
        assert(t.subrange(i - 1, t.len() as int) == s.subrange(i, s.len() as int));
    } else {
        assert(s.subrange(0, s.len() as int) == s);
    }
}

proof fn lemma_trim_end_skip(s: Seq<char>, j: int)
    requires
        0 <= j <= s.len(),
        forall|k: int| j <= k < s.len() ==> is_space(#[trigger] s[k]),
    ensures
        trim_end(s) == trim_end(s.subrange(0, j)),
    decreases s.len() - j,
{
    if j < s.len() {
        let t = s.drop_last();
        assert forall|k: int| j <= k < t.len() implies is_space(#[trigger] t[k]) by {
            assert(t[k] == s[k]);
        }
        lemma_trim_end_skip(t, j);
        assert(t.subrange(0, j) == s.subrange(0, j));
    } else {
        assert(s.subrange(0, j) == s);
    }
}

/// Trimming ASCII text leaves ASCII text.
pub proof fn lemma_trim_ascii(s: Seq<char>)
    requires
        vstd::utf8::is_ascii_chars(s),
    ensures
        vstd::utf8::is_ascii_chars(trim_start(s)),
        vstd::utf8::is_ascii_chars(trim(s)),
    decreases s.len(),
{
    if s.len() > 0 && is_space(s[0]) {
        let t = s.drop_first();
        assert forall|i: int| 0 <= i < t.len() implies '\0' <= #[trigger] t[i] <= '\u{7f}' by {
            assert(t[i] == s[i + 1]);
        }
        lemma_trim_ascii(t);
    }
    lemma_trim_end_ascii(trim_start(s));
}

proof fn lemma_trim_end_ascii(s: Seq<char>)
    requires
        vstd::utf8::is_ascii_chars(s),
    ensures
        vstd::utf8::is_ascii_chars(trim_end(s)),
    decreases s.len(),
{
    if s.len() > 0 && is_space(s.last()) {
        let t = s.drop_last();
        assert forall|i: int| 0 <= i < t.len() implies '\0' <= #[trigger] t[i] <= '\u{7f}' by {
            assert(t[i] == s[i]);
        }
        lemma_trim_end_ascii(t);
    }
}

/// The characters of `s[lo..hi]` as a new vector.
pub fn slice_chars(s: &[char], lo: usize, hi: usize) -> (v: Vec<char>)
    requires
        lo <= hi <= s@.len(),
    ensures
        v@ == s@.subrange(lo as int, hi as int),
{
    let mut v: Vec<char> = Vec::new();
    let mut i = lo;
    while i < hi
        invariant
            lo <= i <= hi <= s@.len(),
            v@ == s@.subrange(lo as int, i as int),
        decreases hi - i,
    {
        v.push(s[i]);
        i += 1;
    }
    v
}

/// `s` without leading and trailing white space.
pub fn trim_chars(s: &[char]) -> (v: Vec<char>)
    ensures
        v@ == trim(s@),
{
    let n = s.len();
    let mut i: usize = 0;
    while i < n && char_is_space(s[i])
        invariant
            i <= n == s@.len(),
            forall|k: int| 0 <= k < i ==> is_space(#[trigger] s@[k]),
        decreases n - i,
    {
        i += 1;
    }
    proof {
        lemma_trim_start_skip(s@, i as int);
    }
    let ghost mid = s@.subrange(i as int, n as int);
    assert(trim_start(mid) == mid);
    let mut j: usize = n;
    while j > i && char_is_space(s[j - 1])
        invariant
            i <= j <= n == s@.len(),
            forall|k: int| j <= k < n ==> is_space(#[trigger] s@[k]),
        decreases j,
    {
        j -= 1;
    }
    proof {
        let m = j - i;
        assert forall|k: int| m <= k < mid.len() implies is_space(#[trigger] mid[k]) by {
            assert(mid[k] == s@[k + i]);
        }
        lemma_trim_end_skip(mid, m as int);
        assert(mid.subrange(0, m as int) == s@.subrange(i as int, j as int));
        if j > i {
            assert(s@.subrange(i as int, j as int).last() == s@[j - 1]);
        }
    }
    slice_chars(s, i, j)
}

} // verus!

verus! {

/// Index of the first `c` in `s` at or after `i`, or `s.len()` when there is none.
pub open spec fn find_from(s: Seq<char>, c: char, i: int) -> int
    decreases s.len() - i,
{
    if i < 0 || i >= s.len() {
        s.len() as int
    } else if s[i] == c {
        i
    } else {
        find_from(s, c, i + 1)
    }
}

/// `find_from` lands between `i` and the end, on a `c` when before the end, past no `c`.
pub proof fn lemma_find_from_bounds(s: Seq<char>, c: char, i: int)
    requires
        0 <= i <= s.len(),
    ensures
        i <= find_from(s, c, i) <= s.len(),
        find_from(s, c, i) < s.len() ==> s[find_from(s, c, i)] == c,
        forall|k: int| i <= k < find_from(s, c, i) ==> s[k] != c,
    decreases s.len() - i,
{
    if i < s.len() && s[i] != c {
        lemma_find_from_bounds(s, c, i + 1);
    }
}

/// `line` without one trailing carriage return.
pub open spec fn strip_cr(line: Seq<char>) -> Seq<char> {
    if line.len() > 0 && line.last() == '\r' {
        line.drop_last()
    } else {
        line
    }
}

/// The lines of `s` from position `pos` on, split as `str::lines` splits them: at each
/// `\n`, dropping a `\r` just before it; a last line without `\n` is kept as it is, and no
/// empty line follows a final `\n`.
pub open spec fn lines_from(s: Seq<char>, pos: int) -> Seq<Seq<char>>
    decreases s.len() - pos,
{
    if pos < 0 || pos >= s.len() {
        seq![]
    } else {
        let k = find_from(s, '\n', pos);
        if k >= s.len() {
            seq![s.subrange(pos, s.len() as int)]
        } else {
            proof {
                lemma_find_from_bounds(s, '\n', pos);
            }
            seq![strip_cr(s.subrange(pos, k))] + lines_from(s, k + 1)
        }
    }
}

/// The lines of `s`, as `str::lines` yields them.
pub open spec fn split_lines(s: Seq<char>) -> Seq<Seq<char>> {
    lines_from(s, 0)
}

/// The lines of ASCII text are ASCII.
pub proof fn lemma_lines_ascii(s: Seq<char>, pos: int)
    requires
        vstd::utf8::is_ascii_chars(s),
    ensures
        forall|i: int| 0 <= i < lines_from(s, pos).len() ==> vstd::utf8::is_ascii_chars(
            #[trigger] lines_from(s, pos)[i],
        ),
    decreases s.len() - pos,
{
    if 0 <= pos < s.len() {
        let k = find_from(s, '\n', pos);
        lemma_find_from_bounds(s, '\n', pos);
        if k >= s.len() {
            let l = s.subrange(pos, s.len() as int);
            assert forall|j: int| 0 <= j < l.len() implies '\0' <= #[trigger] l[j] <= '\u{7f}' by {
                assert(l[j] == s[pos + j]);
            }
            assert(lines_from(s, pos) == seq![l]);
        } else {
            let l = s.subrange(pos, k);
            let c = strip_cr(l);
            assert forall|j: int| 0 <= j < c.len() implies '\0' <= #[trigger] c[j] <= '\u{7f}' by {
                assert(c[j] == l[j]);
                assert(l[j] == s[pos + j]);
            }
            lemma_lines_ascii(s, k + 1);
            let rest = lines_from(s, k + 1);
            assert(lines_from(s, pos) == seq![c] + rest);
            assert forall|i: int| 0 <= i < lines_from(s, pos).len() implies vstd::utf8::is_ascii_chars(
                #[trigger] lines_from(s, pos)[i],
            ) by {
                if i > 0 {
                    assert(lines_from(s, pos)[i] == rest[i - 1]);
                }
            }
        }
    }
}

/// Index of the first `c` in `s` at or after `i`, or `s.len()`.
pub fn find_char_from(s: &[char], c: char, i: usize) -> (k: usize)
    requires
        i <= s@.len(),
    ensures
        k == find_from(s@, c, i as int),
{
    let mut k = i;
    while k < s.len() && s[k] != c
        invariant
            i <= k <= s@.len(),
            find_from(s@, c, i as int) == find_from(s@, c, k as int),
        decreases s@.len() - k,
    {
        k += 1;
    }
    k
}

/// The contents of a list of character vectors.
pub open spec fn seqs_of(v: Seq<Vec<char>>) -> Seq<Seq<char>> {
    v.map_values(|l: Vec<char>| l@)
}

/// The lines of `s`, split as `str::lines` splits them.
pub fn lines(s: &[char]) -> (v: Vec<Vec<char>>)
    ensures
        seqs_of(v@) == split_lines(s@),
{
    let n = s.len();
    let mut v: Vec<Vec<char>> = Vec::new();
    let mut pos: usize = 0;
    while pos < n
        invariant
            n == s@.len(),
            pos <= n,
            split_lines(s@) == seqs_of(v@) + lines_from(s@, pos as int),
        decreases n - pos,
    {
        let k = find_char_from(s, '\n', pos);
        proof {
            lemma_find_from_bounds(s@, '\n', pos as int);
        }
        let ghost before = seqs_of(v@);
        if k >= n {
            let line = slice_chars(s, pos, n);
            v.push(line);
            assert(seqs_of(v@) =~= before.push(line@));
            assert(lines_from(s@, n as int) == Seq::<Seq<char>>::empty());
            pos = n;
        } else {
            let mut line = slice_chars(s, pos, k);
            if line.len() > 0 && line[line.len() - 1] == '\r' {
                line.pop();
            }
            v.push(line);
            assert(seqs_of(v@) =~= before.push(line@));
            pos = k + 1;
        }
    }
    v
}

/// Whether `s` begins with `p`.
pub open spec fn starts_with(s: Seq<char>, p: Seq<char>) -> bool {
    p.len() <= s.len() && s.subrange(0, p.len() as int) == p
}

/// Whether `needle` occurs in `s` at position `i`.
pub open spec fn occurs_at(s: Seq<char>, needle: Seq<char>, i: int) -> bool {
    0 <= i && i + needle.len() <= s.len() && s.subrange(i, i + needle.len()) == needle
}

/// Whether `needle` occurs in `s`.
pub open spec fn contains(s: Seq<char>, needle: Seq<char>) -> bool {
    exists|i: int| occurs_at(s, needle, i)
}

/// Decides `occurs_at`.
pub fn chars_occur_at(s: &[char], needle: &[char], i: usize) -> (b: bool)
    ensures
        b == occurs_at(s@, needle@, i as int),
{
    if i > s.len() || needle.len() > s.len() - i {
        return false;
    }
    let mut k: usize = 0;
    while k < needle.len()
        invariant
            i + needle@.len() <= s@.len(),
            s@.len() == s.len(),
            needle@.len() == needle.len(),
            k <= needle@.len(),
            forall|j: int| 0 <= j < k ==> s@[i + j] == needle@[j],
        decreases needle@.len() - k,
    {
        if s[i + k] != needle[k] {
            assert(s@.subrange(i as int, i + needle@.len())[k as int] != needle@[k as int]);
            return false;
        }
        k += 1;
    }
    assert(s@.subrange(i as int, i + needle@.len()) == needle@);
    true
}

/// Decides `starts_with`.
pub fn chars_start_with(s: &[char], p: &[char]) -> (b: bool)
    ensures
        b == starts_with(s@, p@),
{
    chars_occur_at(s, p, 0)
}

/// Decides `contains`.
pub fn chars_contain(s: &[char], needle: &[char]) -> (b: bool)
    ensures
        b == contains(s@, needle@),
{
    if needle.len() > s.len() {
        return false;
    }
    let last = s.len() - needle.len();
    let mut i: usize = 0;
    loop
        invariant
            last + needle@.len() == s@.len(),
            i <= last,
            forall|j: int| 0 <= j < i ==> !occurs_at(s@, needle@, j),
        ensures
            forall|j: int| 0 <= j <= last ==> !occurs_at(s@, needle@, j),
        decreases last - i,
    {
        if chars_occur_at(s, needle, i) {
            return true;
        }
        if i == last {
            break;
        }
        i += 1;
    }
    assert forall|j: int| !occurs_at(s@, needle@, j) by {
        if 0 <= j <= last {
        }
    }
    false
}

} // verus!

verus! {

/// `String::push`: appends one character.
#[verifier::external_body]
pub(crate) fn push_char(s: &mut String, c: char)
    ensures
        final(s)@ == old(s)@.push(c),
{
    s.push(c)
}

/// Appends a string slice.
pub fn push_str(s: &mut String, t: &str)
    ensures
        final(s)@ == old(s)@ + t@,
{
    s.append(t);
}

/// A string holding exactly the given characters.
pub fn string_from_chars(v: &[char]) -> (r: String)
    ensures
        r@ == v@,
{
    let mut r = String::new();
    let mut i: usize = 0;
    while i < v.len()
        invariant
            i <= v@.len(),
            r@ == v@.subrange(0, i as int),
        decreases v@.len() - i,
    {
        push_char(&mut r, v[i]);
        i += 1;
    }
    assert(v@.subrange(0, v@.len() as int) == v@);
    r
}

/// A copy of a string slice as an owned string.
pub fn owned(s: &str) -> (r: String)
    ensures
        r@ == s@,
{
    String::from_str(s)
}

/// Whether two strings hold the same characters.
pub fn str_eq(a: &str, b: &str) -> (r: bool)
    ensures
        r == (a@ == b@),
{
    let x = owned(a);
    let y = owned(b);
    x == y
}

/// The lowercase form of a string, as `str::to_lowercase` computes it (by the Unicode
/// `Lowercase` mapping). Only the outside function defines it.
pub uninterp spec fn lowercase(s: Seq<char>) -> Seq<char>;

/// The ASCII lower-case form of a character: `'A'..='Z'` to `'a'..='z'`, every other
/// character unchanged.
pub open spec fn ascii_lower_char(c: char) -> char {
    if 'A' <= c && c <= 'Z' {
        ((c as u32) + 32) as char
    } else {
        c
    }
}

/// The ASCII lower-case form of a string, character by character.
pub open spec fn ascii_lowercase(s: Seq<char>) -> Seq<char> {
    s.map_values(|c: char| ascii_lower_char(c))
}

/// `str::to_lowercase`. The contract ties the result to the name `lowercase` of its
/// argument; which characters map to which is left to the Unicode tables of std. It also
/// states the one case that takes no tables: std documents the result as the Unicode
/// lowercase mapping, which for an ASCII string is the mapping that
/// `str::to_ascii_lowercase` documents (`'A'..='Z'` to `'a'..='z'`, the rest unchanged).
#[verifier::external_body]
pub(crate) fn to_lowercase(s: &str) -> (r: String)
    ensures
        r@ == lowercase(s@),
        vstd::utf8::is_ascii_chars(s@) ==> r@ == ascii_lowercase(s@),
{
    s.to_lowercase()
}

/// The digit character for a value below 16 (lower-case for 10 to 15).
pub open spec fn digit_char(d: nat) -> char {
    if d < 10 {
        (d + 48) as char
    } else {
        (d + 87) as char
    }
}

/// The decimal digits of `n`, without leading zeros.
pub open spec fn decimal(n: nat) -> Seq<char>
    decreases n,
{
    if n < 10 {
        seq![digit_char(n)]
    } else {
        decimal(n / 10).push(digit_char(n % 10))
    }
}

/// The lower-case hexadecimal digits of `n`, without leading zeros.
pub open spec fn hex(n: nat) -> Seq<char>
    decreases n,
{
    if n < 16 {
        seq![digit_char(n)]
    } else {
        hex(n / 16).push(digit_char(n % 16))
    }
}

/// `s` padded on the left with `'0'` to at least `width` characters.
pub open spec fn zero_pad(s: Seq<char>, width: nat) -> Seq<char> {
    if s.len() >= width {
        s
    } else {
        Seq::new((width - s.len()) as nat, |i: int| '0') + s
    }
}

/// An integer as `format!("{:0w$}")` prints it: a minus sign for negative values, then
/// the decimal digits of the magnitude zero-padded so that the whole is `width` long.
pub open spec fn signed_padded(v: int, width: nat) -> Seq<char> {
    if v < 0 {
        seq!['-'] + zero_pad(decimal((-v) as nat), if width >= 1 { (width - 1) as nat } else { 0 })
    } else {
        zero_pad(decimal(v as nat), width)
    }
}

fn digit(d: u8) -> (c: char)
    requires
        d < 16,
    ensures
        c == digit_char(d as nat),
{
    if d < 10 {
        (d + 48) as char
    } else {
        (d + 87) as char
    }
}

fn append_decimal(s: &mut String, n: u128)
    ensures
        final(s)@ == old(s)@ + decimal(n as nat),
    decreases n,
{
    if n >= 10 {
        append_decimal(s, n / 10);
    }
    push_char(s, digit((n % 10) as u8));
}

fn append_hex(s: &mut String, n: u128)
    ensures
        final(s)@ == old(s)@ + hex(n as nat),
    decreases n,
{
    if n >= 16 {
        append_hex(s, n / 16);
    }
    push_char(s, digit((n % 16) as u8));
}

/// The decimal text of `n`, as `n.to_string()` gives it.
pub fn decimal_string(n: u128) -> (r: String)
    ensures
        r@ == decimal(n as nat),
{
    let mut r = String::new();
    append_decimal(&mut r, n);
    r
}

/// Appends `t` to `s` after enough `'0'` characters to make the appended part at least
/// `width` long.
fn append_zero_padded(s: &mut String, t: &str, width: usize)
    ensures
        final(s)@ == old(s)@ + zero_pad(t@, width as nat),
{
    let n = t.unicode_len();
    let ghost start = s@;
    if n < width {
        let mut i: usize = 0;
        while i < width - n
            invariant
                n < width,
                i <= width - n,
                s@ == start + Seq::new(i as nat, |k: int| '0'),
            decreases width - n - i,
        {
            push_char(s, '0');
            i += 1;
            assert(s@ =~= start + Seq::new(i as nat, |k: int| '0'));
        }
    }
    s.append(t);
    assert(s@ =~= start + zero_pad(t@, width as nat));
}

/// An unsigned number as `format!("{:0w$}")` prints it.
pub fn padded_decimal(n: u128, width: usize) -> (r: String)
    ensures
        r@ == zero_pad(decimal(n as nat), width as nat),
{
    let digits = decimal_string(n);
    let mut r = String::new();
    append_zero_padded(&mut r, digits.as_str(), width);
    r
}

/// A signed number as `format!("{:0w$}")` prints it.
pub fn padded_signed(v: i64, width: usize) -> (r: String)
    ensures
        r@ == signed_padded(v as int, width as nat),
{
    let mut r = String::new();
    if v < 0 {
        push_char(&mut r, '-');
        let mag: u128 = if v == i64::MIN { 9223372036854775808u128 } else { (-v) as u128 };
        let digits = decimal_string(mag);
        let w = if width >= 1 { width - 1 } else { 0 };
        append_zero_padded(&mut r, digits.as_str(), w);
    } else {
        let digits = decimal_string(v as u128);
        append_zero_padded(&mut r, digits.as_str(), width);
    }
    r
}

/// A number as `format!("{:016x}")` prints it.
pub fn padded_hex(n: u128, width: usize) -> (r: String)
    ensures
        r@ == zero_pad(hex(n as nat), width as nat),
{
    let mut digits = String::new();
    append_hex(&mut digits, n);
    let mut r = String::new();
    append_zero_padded(&mut r, digits.as_str(), width);
    r
}

} // verus!

verus! {

/// The first position at or after `i` where `needle` occurs in `s`, if any.
pub open spec fn find_sub_from(s: Seq<char>, needle: Seq<char>, i: int) -> Option<int>
    decreases s.len() + 1 - i,
{
    if i < 0 || i + needle.len() > s.len() {
        None
    } else if occurs_at(s, needle, i) {
        Some(i)
    } else {
        find_sub_from(s, needle, i + 1)
    }
}

/// The last position of `c` in the first `n` characters of `s`, if any.
pub open spec fn last_index_before(s: Seq<char>, c: char, n: int) -> Option<int>
    decreases n,
{
    if n <= 0 {
        None
    } else if s[n - 1] == c {
        Some(n - 1)
    } else {
        last_index_before(s, c, n - 1)
    }
}

/// The first position where `needle` occurs in `s`.
pub fn chars_find(s: &[char], needle: &[char]) -> (r: Option<usize>)
    ensures
        match r {
            Some(i) => find_sub_from(s@, needle@, 0) == Some(i as int),
            None => find_sub_from(s@, needle@, 0) is None,
        },
{
    if needle.len() > s.len() {
        return None;
    }
    let last = s.len() - needle.len();
    let mut i: usize = 0;
    loop
        invariant
            last + needle@.len() == s@.len(),
            i <= last,
            find_sub_from(s@, needle@, 0) == find_sub_from(s@, needle@, i as int),
        ensures
            find_sub_from(s@, needle@, 0) is None,
        decreases last - i,
    {
        if chars_occur_at(s, needle, i) {
            return Some(i);
        }
        if i == last {
            assert(find_sub_from(s@, needle@, i + 1) is None);
            break;
        }
        i += 1;
    }
    None
}

/// The last position of `c` among the first `n` characters of `s`.
pub fn chars_rfind(s: &[char], c: char, n: usize) -> (r: Option<usize>)
    requires
        n <= s@.len(),
    ensures
        match r {
            Some(i) => last_index_before(s@, c, n as int) == Some(i as int),
            None => last_index_before(s@, c, n as int) is None,
        },
{
    let mut k = n;
    while k > 0
        invariant
            k <= n <= s@.len(),
            last_index_before(s@, c, n as int) == last_index_before(s@, c, k as int),
        decreases k,
    {
        if s[k - 1] == c {
            return Some(k - 1);
        }
        k -= 1;
    }
    None
}

} // verus!

verus! {

/// A found occurrence lies within `s`, at or after `i`.
pub proof fn lemma_find_sub_bounds(s: Seq<char>, needle: Seq<char>, i: int)
    requires
        0 <= i,
    ensures
        find_sub_from(s, needle, i) matches Some(k) ==> i <= k && k + needle.len() <= s.len(),
    decreases s.len() + 1 - i,
{
    if i + needle.len() <= s.len() && !occurs_at(s, needle, i) {
        lemma_find_sub_bounds(s, needle, i + 1);
    }
}

/// A found position lies among the first `n` characters.
pub proof fn lemma_last_index_bounds(s: Seq<char>, c: char, n: int)
    ensures
        last_index_before(s, c, n) matches Some(j) ==> 0 <= j < n,
    decreases n,
{
    if n > 0 && s[n - 1] != c {
        lemma_last_index_bounds(s, c, n - 1);
    }
}

} // verus!

verus! {

/// Lexicographic order of strings by character (which is also the order of their UTF-8
/// bytes, the order of `String`'s `Ord`).
pub open spec fn lex_lt(a: Seq<char>, b: Seq<char>) -> bool
    decreases a.len(),
{
    if a.len() == 0 {
        b.len() > 0
    } else if b.len() == 0 {
        false
    } else if (a[0] as u32) < (b[0] as u32) {
        true
    } else if (a[0] as u32) > (b[0] as u32) {
        false
    } else {
        lex_lt(a.drop_first(), b.drop_first())
    }
}

/// Two strings are ordered one way, the other way, or equal, and only one of these.
pub proof fn lemma_lex_trichotomy(a: Seq<char>, b: Seq<char>)
    ensures
        lex_lt(a, b) || lex_lt(b, a) || a == b,
        !(lex_lt(a, b) && lex_lt(b, a)),
        lex_lt(a, b) ==> a != b,
    decreases a.len(),
{
    if a.len() > 0 && b.len() > 0 {
        lemma_lex_trichotomy(a.drop_first(), b.drop_first());
        if (a[0] as u32) == (b[0] as u32) {
            vstd::utf8::char_u32_cast(a[0], a[0] as u32);
            vstd::utf8::char_u32_cast(b[0], b[0] as u32);
            assert(a[0] == b[0]);
            if a.drop_first() == b.drop_first() {
                assert(a =~= seq![a[0]] + a.drop_first());
                assert(b =~= seq![b[0]] + b.drop_first());
            }
        }
    } else if a.len() == 0 && b.len() == 0 {
        assert(a =~= b);
    }
}

/// The order of two strings: -1, 0 or 1.
pub fn compare_strs(a: &str, b: &str) -> (r: i8)
    ensures
        r == -1 <==> lex_lt(a@, b@),
        r == 0 <==> a@ == b@,
        r == 1 <==> lex_lt(b@, a@),
        -1 <= r <= 1,
{
    let x = chars_of(a);
    let y = chars_of(b);
    proof {
        lemma_lex_trichotomy(a@, b@);
    }
    let mut i: usize = 0;
    assert(x@.skip(0) == x@);
    assert(y@.skip(0) == y@);
    while i < x.len() && i < y.len() && x[i] == y[i]
        invariant
            i <= x@.len(),
            i <= y@.len(),
            x@.subrange(0, i as int) == y@.subrange(0, i as int),
            lex_lt(x@, y@) == lex_lt(x@.skip(i as int), y@.skip(i as int)),
            lex_lt(y@, x@) == lex_lt(y@.skip(i as int), x@.skip(i as int)),
        decreases x@.len() - i,
    {
        assert(x@.skip(i as int).drop_first() == x@.skip(i + 1));
        assert(y@.skip(i as int).drop_first() == y@.skip(i + 1));
        assert(x@.subrange(0, i + 1) == x@.subrange(0, i as int).push(x@[i as int]));
        assert(y@.subrange(0, i + 1) == y@.subrange(0, i as int).push(y@[i as int]));
        i += 1;
    }
    if i == x.len() && i == y.len() {
        assert(x@ == x@.subrange(0, i as int));
        assert(y@ == y@.subrange(0, i as int));
        0
    } else if i == x.len() {
        assert(x@.skip(i as int).len() == 0);
        -1
    } else if i == y.len() {
        assert(y@.skip(i as int).len() == 0);
        1
    } else if (x[i] as u32) < (y[i] as u32) {
        -1
    } else {
        assert(x@[i as int] != y@[i as int]);
        if (x[i] as u32) == (y[i] as u32) {
            proof {
                vstd::utf8::char_u32_cast(x@[i as int], x@[i as int] as u32);
                vstd::utf8::char_u32_cast(y@[i as int], y@[i as int] as u32);
            }
        }
        1
    }
}

} // verus!

verus! {

/// The order of strings is transitive.
pub proof fn lemma_lex_transitive(a: Seq<char>, b: Seq<char>, c: Seq<char>)
    requires
        lex_lt(a, b),
        lex_lt(b, c),
    ensures
        lex_lt(a, c),
    decreases a.len(),
{
    if a.len() > 0 && b.len() > 0 && c.len() > 0 {
        if (a[0] as u32) == (b[0] as u32) && (b[0] as u32) == (c[0] as u32) {
            lemma_lex_transitive(a.drop_first(), b.drop_first(), c.drop_first());
        }
    }
}

} // verus!

verus! {

/// `s` without leading and trailing white space, as a new string.
pub fn trimmed(s: &str) -> (r: String)
    ensures
        r@ == trim(s@),
{
    let cs = chars_of(s);
    let t = trim_chars(&cs);
    string_from_chars(&t)
}

/// Whether `s` is empty once trimmed.
pub fn is_blank(s: &str) -> (b: bool)
    ensures
        b == (trim(s@).len() == 0),
{
    let cs = chars_of(s);
    let t = trim_chars(&cs);
    t.len() == 0
}

} // verus!
