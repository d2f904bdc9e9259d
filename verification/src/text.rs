//! Character-level text utilities used when reading spreadsheets and CSV files.
use vstd::prelude::*;

verus! {

/// The characters of a string slice, in order.
pub fn chars_of(s: &str) -> (r: Vec<char>)
    ensures
        r@ == s@,
{
    let mut r: Vec<char> = Vec::new();
    for c in it: s.chars()
        invariant
            r@ == it.seq().take(it.index() as int),
    {
        r.push(c);
    }
    r
}

/// Builds a `String` from characters (`String::from_iter`).
#[verifier::external_body]
pub(crate) fn string_of(cs: &[char]) -> (r: String)
    ensures
        r@ == cs@,
{
    String::from_iter(cs.iter())
}

} // verus!

verus! {

/// Rust's `char::is_whitespace`: the Unicode `White_Space` property.
pub open spec fn is_white_space(c: char) -> bool {
    ||| '\u{9}' <= c <= '\u{d}'
    ||| c == ' '
    ||| c == '\u{85}'
    ||| c == '\u{a0}'
    ||| c == '\u{1680}'
    ||| '\u{2000}' <= c <= '\u{200a}'
    ||| c == '\u{2028}'
    ||| c == '\u{2029}'
    ||| c == '\u{202f}'
    ||| c == '\u{205f}'
    ||| c == '\u{3000}'
}

/// `s` without its leading white space.
pub open spec fn trim_start(s: Seq<char>) -> Seq<char>
    decreases s.len(),
{
    if s.len() > 0 && is_white_space(s[0]) {
        trim_start(s.drop_first())
    } else {
        s
    }
}

/// `s` without its trailing white space.
pub open spec fn trim_end(s: Seq<char>) -> Seq<char>
    decreases s.len(),
{
    if s.len() > 0 && is_white_space(s.last()) {
        trim_end(s.drop_last())
    } else {
        s
    }
}

/// `s` without leading and trailing white space (`str::trim`).
pub open spec fn trimmed(s: Seq<char>) -> Seq<char> {
    trim_end(trim_start(s))
}

pub fn is_white_space_char(c: char) -> (b: bool)
    ensures
        b == is_white_space(c),
{
    ('\u{9}' <= c && c <= '\u{d}') || c == ' ' || c == '\u{85}' || c == '\u{a0}' || c == '\u{1680}'
        || ('\u{2000}' <= c && c <= '\u{200a}') || c == '\u{2028}' || c == '\u{2029}' || c
        == '\u{202f}' || c == '\u{205f}' || c == '\u{3000}'
}

/// Removes leading and trailing white space.
pub fn trim_chars(cs: &[char]) -> (r: Vec<char>)
    ensures
        r@ == trimmed(cs@),
{
    let n = cs.len();
    let mut i: usize = 0;
    assert(cs@.skip(0) =~= cs@);
    while i < n && is_white_space_char(cs[i])
        invariant
            i <= n,
            n == cs@.len(),
            trim_start(cs@) == trim_start(cs@.skip(i as int)),
        decreases n - i,
    {
        assert(cs@.skip(i as int).drop_first() =~= cs@.skip(i + 1));
        i = i + 1;
    }
    assert(trim_start(cs@) == cs@.subrange(i as int, n as int)) by {
        assert(cs@.skip(i as int) =~= cs@.subrange(i as int, n as int));
    }
    let mut j: usize = n;
    while j > i && is_white_space_char(cs[j - 1])
        invariant
            i <= j <= n,
            n == cs@.len(),
            trim_start(cs@) == cs@.subrange(i as int, n as int),
            trimmed(cs@) == trim_end(cs@.subrange(i as int, j as int)),
        decreases j,
    {
        assert(cs@.subrange(i as int, j as int).drop_last() =~= cs@.subrange(i as int, j - 1));
        j = j - 1;
    }
    let mut r: Vec<char> = Vec::new();
    let mut k: usize = i;
    while k < j
        invariant
            i <= k <= j <= n,
            n == cs@.len(),
            r@ == cs@.subrange(i as int, k as int),
        decreases j - k,
    {
        r.push(cs[k]);
        assert(r@ =~= cs@.subrange(i as int, k + 1));
        k = k + 1;
    }
    r
}

} // verus!

verus! {

/// What `str::to_lowercase` returns for a string: the lowercase mapping of the
/// Unicode Derived Core Property `Lowercase`, applied to every character.
pub uninterp spec fn unicode_lowercase(s: Seq<char>) -> Seq<char>;

/// `str::to_lowercase`. Its result is named by `unicode_lowercase`; nothing more
/// is claimed of the Unicode case tables.
#[verifier::external_body]
pub(crate) fn to_lowercase(s: &str) -> (r: String)
    ensures
        r@ == unicode_lowercase(s@),
{
    s.to_lowercase()
}

/// Every space and hyphen replaced by an underscore.
pub open spec fn underscore_separators(s: Seq<char>) -> Seq<char> {
    s.map_values(|c: char| if c == ' ' || c == '-' { '_' } else { c })
}

/// The key under which a column header is matched against its aliases:
/// trimmed, lowercased, with spaces and hyphens turned into underscores.
pub open spec fn normalized_header(s: Seq<char>) -> Seq<char> {
    underscore_separators(unicode_lowercase(trimmed(s)))
}

/// Normalizes a column header (see `normalized_header`).
pub fn normalize_header(s: &str) -> (r: String)
    ensures
        r@ == normalized_header(s@),
{
    let cs = chars_of(s);
    let t = trim_chars(cs.as_slice());
    let ts = string_of(t.as_slice());
    let lower = to_lowercase(ts.as_str());
    let ls = chars_of(lower.as_str());
    let mut out: Vec<char> = Vec::new();
    let n = ls.len();
    for i in 0..n
        invariant
            n == ls@.len(),
            ls@ == unicode_lowercase(trimmed(s@)),
            out@ == underscore_separators(ls@.take(i as int)),
    {
        let c = ls[i];
        if c == ' ' || c == '-' {
            out.push('_');
        } else {
            out.push(c);
        }
        assert(out@ =~= underscore_separators(ls@.take(i + 1)));
    }
    assert(ls@.take(n as int) =~= ls@);
    string_of(out.as_slice())
}

/// The pieces of `s` between commas (`str::split(',')`): one more piece than
/// there are commas, empty pieces included.
pub open spec fn comma_pieces(s: Seq<char>) -> Seq<Seq<char>>
    decreases s.len(),
{
    if s.len() == 0 {
        seq![Seq::<char>::empty()]
    } else {
        let p = comma_pieces(s.drop_last());
        if s.last() == ',' {
            p.push(Seq::<char>::empty())
        } else {
            p.update(p.len() - 1, p.last().push(s.last()))
        }
    }
}

/// Each piece trimmed; pieces that are empty after trimming are dropped.
pub open spec fn nonblank_trimmed(ps: Seq<Seq<char>>) -> Seq<Seq<char>>
    decreases ps.len(),
{
    if ps.len() == 0 {
        Seq::<Seq<char>>::empty()
    } else {
        let r = nonblank_trimmed(ps.drop_last());
        let t = trimmed(ps.last());
        if t.len() > 0 {
            r.push(t)
        } else {
            r
        }
    }
}

/// The subject names listed in a comma separated cell.
pub open spec fn listed_names(s: Seq<char>) -> Seq<Seq<char>> {
    nonblank_trimmed(comma_pieces(s))
}

pub proof fn lemma_comma_pieces_nonempty(s: Seq<char>)
    ensures
        comma_pieces(s).len() >= 1,
    decreases s.len(),
{
    if s.len() > 0 {
        lemma_comma_pieces_nonempty(s.drop_last());
    }
}

/// The character sequences held by a vector of character vectors.
pub open spec fn char_seqs(v: Seq<Vec<char>>) -> Seq<Seq<char>> {
    v.map_values(|x: Vec<char>| x@)
}

/// Splits `s` at its commas.
pub fn split_commas(s: &[char]) -> (r: Vec<Vec<char>>)
    ensures
        char_seqs(r@) == comma_pieces(s@),
{
    let mut r: Vec<Vec<char>> = Vec::new();
    let mut cur: Vec<char> = Vec::new();
    let n = s.len();
    for i in 0..n
        invariant
            n == s@.len(),
            char_seqs(r@).push(cur@) == comma_pieces(s@.take(i as int)),
    {
        let ghost before = s@.take(i as int);
        let ghost old_r = char_seqs(r@);
        assert(s@.take(i + 1).drop_last() =~= before);
        proof {
            lemma_comma_pieces_nonempty(before);
        }
        if s[i] == ',' {
            let done = cur;
            r.push(done);
            cur = Vec::new();
            assert(char_seqs(r@) =~= old_r.push(done@));
            assert(char_seqs(r@).push(cur@) =~= comma_pieces(s@.take(i + 1)));
        } else {
            cur.push(s[i]);
            assert(char_seqs(r@).push(cur@) =~= comma_pieces(s@.take(i + 1)));
        }
    }
    assert(s@.take(n as int) =~= s@);
    let ghost old_r = char_seqs(r@);
    r.push(cur);
    assert(char_seqs(r@) =~= old_r.push(cur@));
    r
}

/// The non-blank, trimmed, comma separated names of a cell
/// (`split(',')`, `trim`, dropping empty names).
pub fn split_name_list(s: &str) -> (r: Vec<String>)
    ensures
        r.deep_view() == listed_names(s@),
{
    let cs = chars_of(s);
    let pieces = split_commas(cs.as_slice());
    let mut r: Vec<String> = Vec::new();
    let n = pieces.len();
    for i in 0..n
        invariant
            n == pieces@.len(),
            char_seqs(pieces@) == comma_pieces(s@),
            r.deep_view() == nonblank_trimmed(char_seqs(pieces@).take(i as int)),
    {
        assert(char_seqs(pieces@).take(i + 1).drop_last() =~= char_seqs(pieces@).take(i as int));
        let t = trim_chars(pieces[i].as_slice());
        if t.len() > 0 {
            let name = string_of(t.as_slice());
            r.push(name);
        }
        assert(r.deep_view() =~= nonblank_trimmed(char_seqs(pieces@).take(i + 1)));
    }
    assert(char_seqs(pieces@).take(n as int) =~= char_seqs(pieces@));
    r
}

} // verus!

verus! {

pub open spec fn is_digit(c: char) -> bool {
    '0' <= c <= '9'
}

pub open spec fn all_digits(s: Seq<char>) -> bool {
    forall|i: int| 0 <= i < s.len() ==> is_digit(#[trigger] s[i])
}

pub open spec fn digit_value(c: char) -> int {
    c as int - '0' as int
}

/// The number that a string of decimal digits denotes.
pub open spec fn digits_value(s: Seq<char>) -> int
    decreases s.len(),
{
    if s.len() == 0 {
        0
    } else {
        10 * digits_value(s.drop_last()) + digit_value(s.last())
    }
}

/// The integer written by an optional `+` or `-` and at least one ASCII digit,
/// or `None` for any other text.
pub open spec fn decimal_integer(s: Seq<char>) -> Option<int> {
    if s.len() > 0 && (s[0] == '+' || s[0] == '-') {
        let d = s.drop_first();
        if d.len() > 0 && all_digits(d) {
            Some(if s[0] == '-' { -digits_value(d) } else { digits_value(d) })
        } else {
            None
        }
    } else if s.len() > 0 && all_digits(s) {
        Some(digits_value(s))
    } else {
        None
    }
}

/// `<i32 as FromStr>::from_str`: the integer the text writes, when it fits in an `i32`.
pub open spec fn parsed_i32(s: Seq<char>) -> Option<i32> {
    match decimal_integer(s) {
        Some(v) => if i32::MIN <= v <= i32::MAX {
            Some(v as i32)
        } else {
            None
        },
        None => None,
    }
}

pub proof fn lemma_digits_value_nonneg(s: Seq<char>)
    requires
        all_digits(s),
    ensures
        digits_value(s) >= 0,
    decreases s.len(),
{
    if s.len() > 0 {
        assert(all_digits(s.drop_last()));
        lemma_digits_value_nonneg(s.drop_last());
        assert(is_digit(s[s.len() - 1]));
    }
}

/// A longer digit string never denotes a smaller number than its prefix.
pub proof fn lemma_digits_value_prefix(s: Seq<char>, k: int)
    requires
        all_digits(s),
        0 <= k <= s.len(),
    ensures
        digits_value(s.take(k)) <= digits_value(s),
    decreases s.len() - k,
{
    if k < s.len() {
        lemma_digits_value_prefix(s, k + 1);
        assert(s.take(k + 1).drop_last() =~= s.take(k));
        assert(all_digits(s.take(k)));
        lemma_digits_value_nonneg(s.take(k));
        assert(is_digit(s[k]));
    } else {
        assert(s.take(k) =~= s);
    }
}

/// Parses a decimal `i32` as `str::parse::<i32>` does.
pub fn parse_i32(s: &[char]) -> (r: Option<i32>)
    ensures
        r == parsed_i32(s@),
{
    let n = s.len();
    if n == 0 {
        return None;
    }
    let signed = s[0] == '+' || s[0] == '-';
    let neg = s[0] == '-';
    let start: usize = if signed { 1 } else { 0 };
    let ghost d = s@.skip(start as int);
    assert(signed ==> s@.drop_first() =~= d);
    assert(!signed ==> s@ =~= d);
    if start == n {
        return None;
    }
    let mut acc: u64 = 0;
    let mut i: usize = start;
    while i < n
        invariant
            start <= i <= n,
            start < n,
            n == s@.len(),
            d == s@.skip(start as int),
            signed == (s@[0] == '+' || s@[0] == '-'),
            neg == (s@[0] == '-'),
            start == (if signed { 1usize } else { 0usize }),
            signed ==> s@.drop_first() == d,
            !signed ==> s@ == d,
            all_digits(s@.subrange(start as int, i as int)),
            acc == digits_value(s@.subrange(start as int, i as int)),
            acc <= 2147483648,
        decreases n - i,
    {
        let c = s[i];
        if !('0' <= c && c <= '9') {
            assert(!is_digit(d[i - start]));
            return None;
        }
        let dv = (c as u32 - '0' as u32) as u64;
        assert(s@.subrange(start as int, i + 1).drop_last() =~= s@.subrange(start as int, i as int));
        assert(all_digits(s@.subrange(start as int, i + 1)));
        let next = acc * 10 + dv;
        if next > 2147483648 {
            proof {
                if all_digits(d) {
                    assert(d.take(i + 1 - start) =~= s@.subrange(start as int, i + 1));
                    lemma_digits_value_prefix(d, i + 1 - start);
                }
            }
            return None;
        }
        acc = next;
        i = i + 1;
    }
    assert(s@.subrange(start as int, n as int) =~= d);
    if neg {
        Some((0 - acc as i64) as i32)
    } else if acc <= 2147483647 {
        Some(acc as i32)
    } else {
        None
    }
}

} // verus!

verus! {

pub open spec fn digit_char(d: nat) -> char
    recommends
        d < 10,
{
    ('0' as u32 + d) as char
}

/// The decimal digits of `n`, without leading zeros.
pub open spec fn nat_text(n: nat) -> Seq<char>
    decreases n,
{
    if n < 10 {
        seq![digit_char(n)]
    } else {
        nat_text(n / 10).push(digit_char(n % 10))
    }
}

/// The decimal text of `v` as `Display` writes it: a `-` for negative numbers,
/// then the digits.
pub open spec fn int_text(v: int) -> Seq<char> {
    if v < 0 {
        seq!['-'] + nat_text((-v) as nat)
    } else {
        nat_text(v as nat)
    }
}

/// Writes `v` in decimal.
pub fn i64_text(v: i64) -> (r: Vec<char>)
    ensures
        r@ == int_text(v as int),
{
    let mut m: u64 = if v < 0 {
        (0i128 - v as i128) as u64
    } else {
        v as u64
    };
    let ghost whole: nat = if v < 0 { (-v) as nat } else { v as nat };
    let mut out: Vec<char> = Vec::new();
    while m >= 10
        invariant
            nat_text(whole) == nat_text(m as nat) + out@,
        decreases m,
    {
        let d = m % 10;
        let c = ((48u64 + d) as u8) as char;
        assert(c == digit_char((m % 10) as nat));
        let ghost before = out@;
        out.insert(0, c);
        assert(nat_text(m as nat) =~= nat_text((m / 10) as nat).push(c));
        assert(nat_text((m / 10) as nat) + out@ =~= nat_text((m / 10) as nat).push(c) + before);
        m = m / 10;
    }
    let c = ((48u64 + m) as u8) as char;
    assert(c == digit_char(m as nat));
    out.insert(0, c);
    assert(nat_text(whole) =~= out@);
    if v < 0 {
        out.insert(0, '-');
        assert(out@ =~= seq!['-'] + nat_text(whole));
    }
    out
}

} // verus!

verus! {

/// Number of characters before the first `c1` or `c2` (the length when there is none).
pub open spec fn index_of_either(s: Seq<char>, c1: char, c2: char) -> int
    decreases s.len(),
{
    if s.len() == 0 {
        0
    } else if s[0] == c1 || s[0] == c2 {
        0
    } else {
        1 + index_of_either(s.drop_first(), c1, c2)
    }
}

pub proof fn lemma_index_of_either_bounds(s: Seq<char>, c1: char, c2: char)
    ensures
        0 <= index_of_either(s, c1, c2) <= s.len(),
        index_of_either(s, c1, c2) < s.len() ==> (s[index_of_either(s, c1, c2)] == c1 || s[index_of_either(s, c1, c2)] == c2),
        forall|j: int| 0 <= j < index_of_either(s, c1, c2) ==> s[j] != c1 && s[j] != c2,
    decreases s.len(),
{
    if s.len() > 0 && !(s[0] == c1 || s[0] == c2) {
        lemma_index_of_either_bounds(s.drop_first(), c1, c2);
        assert forall|j: int| 0 <= j < index_of_either(s, c1, c2) implies s[j] != c1 && s[j] != c2 by {
            if j > 0 {
                assert(s[j] == s.drop_first()[j - 1]);
            }
        }
    }
}

pub open spec fn ascii_lower(c: char) -> char {
    if 'A' <= c <= 'Z' {
        (c as u32 + 32) as char
    } else {
        c
    }
}

/// `s` is `word` (given in lowercase) up to ASCII case.
pub open spec fn equals_ignoring_case(s: Seq<char>, word: Seq<char>) -> bool {
    s.len() == word.len() && forall|i: int| 0 <= i < s.len() ==> ascii_lower(#[trigger] s[i]) == word[i]
}

pub open spec fn is_sign(c: char) -> bool {
    c == '+' || c == '-'
}

/// `Digit+ | Digit+ '.' Digit* | Digit* '.' Digit+`
pub open spec fn is_mantissa(m: Seq<char>) -> bool {
    let p = index_of_either(m, '.', '.');
    if p == m.len() {
        m.len() > 0 && all_digits(m)
    } else {
        all_digits(m.take(p)) && all_digits(m.skip(p + 1)) && (p > 0 || m.len() > p + 1)
    }
}

/// `'e' Sign? Digit+`, the `e` in either case.
pub open spec fn is_exponent(x: Seq<char>) -> bool {
    x.len() >= 2 && (x[0] == 'e' || x[0] == 'E') && {
        let y = x.drop_first();
        if is_sign(y[0]) {
            y.len() >= 2 && all_digits(y.drop_first())
        } else {
            all_digits(y)
        }
    }
}

/// A decimal number: a mantissa, then an optional exponent.
pub open spec fn is_number(s: Seq<char>) -> bool {
    let k = index_of_either(s, 'e', 'E');
    is_mantissa(s.take(k)) && (k == s.len() || is_exponent(s.skip(k)))
}

/// The grammar that `<f64 as FromStr>::from_str` accepts:
/// `Sign? ( 'inf' | 'infinity' | 'nan' | Number )`, the words in either case.
pub open spec fn is_float_text(s: Seq<char>) -> bool {
    let body = if s.len() > 0 && is_sign(s[0]) { s.drop_first() } else { s };
    ||| equals_ignoring_case(body, seq!['i', 'n', 'f'])
    ||| equals_ignoring_case(body, seq!['i', 'n', 'f', 'i', 'n', 'i', 't', 'y'])
    ||| equals_ignoring_case(body, seq!['n', 'a', 'n'])
    ||| is_number(body)
}

pub fn is_digit_char(c: char) -> (b: bool)
    ensures
        b == is_digit(c),
{
    '0' <= c && c <= '9'
}

/// Whether `s[a..b]` holds only ASCII digits.
pub fn digits_only(s: &[char], a: usize, b: usize) -> (r: bool)
    requires
        a <= b <= s@.len(),
    ensures
        r == all_digits(s@.subrange(a as int, b as int)),
{
    let mut i = a;
    while i < b
        invariant
            a <= i <= b <= s@.len(),
            all_digits(s@.subrange(a as int, i as int)),
        decreases b - i,
    {
        if !is_digit_char(s[i]) {
            assert(s@.subrange(a as int, b as int)[i - a] == s@[i as int]);
            return false;
        }
        assert(all_digits(s@.subrange(a as int, i + 1)));
        i = i + 1;
    }
    true
}

/// Index of the first `c1` or `c2` in `s[a..b]`, or `b`.
pub fn find_either(s: &[char], a: usize, b: usize, c1: char, c2: char) -> (r: usize)
    requires
        a <= b <= s@.len(),
    ensures
        a <= r <= b,
        r - a == index_of_either(s@.subrange(a as int, b as int), c1, c2),
{
    let mut i = a;
    while i < b && s[i] != c1 && s[i] != c2
        invariant
            a <= i <= b <= s@.len(),
            index_of_either(s@.subrange(a as int, b as int), c1, c2) == (i - a) + index_of_either(
                s@.subrange(i as int, b as int),
                c1,
                c2,
            ),
        decreases b - i,
    {
        assert(s@.subrange(i as int, b as int).drop_first() =~= s@.subrange(i + 1, b as int));
        i = i + 1;
    }
    i
}

/// Whether `s[a..b]` is `word` (lowercase) up to ASCII case.
pub fn same_word_ignoring_case(s: &[char], a: usize, b: usize, word: &[char]) -> (r: bool)
    requires
        a <= b <= s@.len(),
    ensures
        r == equals_ignoring_case(s@.subrange(a as int, b as int), word@),
{
    if b - a != word.len() {
        return false;
    }
    let mut i: usize = 0;
    while i < word.len()
        invariant
            a <= b <= s@.len(),
            b - a == word@.len(),
            i <= word@.len(),
            forall|j: int| 0 <= j < i ==> ascii_lower(#[trigger] s@.subrange(a as int, b as int)[j]) == word@[j],
        decreases word@.len() - i,
    {
        let c = s[a + i];
        let lc = if 'A' <= c && c <= 'Z' {
            ((c as u32 + 32) as u8) as char
        } else {
            c
        };
        assert(lc == ascii_lower(c));
        assert(s@.subrange(a as int, b as int)[i as int] == c);
        if lc != word[i] {
            return false;
        }
        i = i + 1;
    }
    true
}

/// Whether `s[a..b]` is a mantissa.
fn mantissa_ok(s: &[char], a: usize, b: usize) -> (r: bool)
    requires
        a <= b <= s@.len(),
    ensures
        r == is_mantissa(s@.subrange(a as int, b as int)),
{
    let ghost m = s@.subrange(a as int, b as int);
    let p = find_either(s, a, b, '.', '.');
    if p == b {
        b > a && digits_only(s, a, b)
    } else {
        assert(m.take(p - a) =~= s@.subrange(a as int, p as int));
        assert(m.skip(p - a + 1) =~= s@.subrange(p + 1, b as int));
        digits_only(s, a, p) && digits_only(s, p + 1, b) && (p > a || b > p + 1)
    }
}

/// Whether `s[a..b]` is an exponent.
fn exponent_ok(s: &[char], a: usize, b: usize) -> (r: bool)
    requires
        a <= b <= s@.len(),
    ensures
        r == is_exponent(s@.subrange(a as int, b as int)),
{
    let ghost x = s@.subrange(a as int, b as int);
    if b - a < 2 || !(s[a] == 'e' || s[a] == 'E') {
        return false;
    }
    assert(x.drop_first() =~= s@.subrange(a + 1, b as int));
    if s[a + 1] == '+' || s[a + 1] == '-' {
        assert(x.drop_first().drop_first() =~= s@.subrange(a + 2, b as int));
        b - a >= 3 && digits_only(s, a + 2, b)
    } else {
        digits_only(s, a + 1, b)
    }
}

/// Whether `s` is text that `str::parse::<f64>` accepts.
pub fn float_text_ok(s: &[char]) -> (r: bool)
    ensures
        r == is_float_text(s@),
{
    let n = s.len();
    let a: usize = if n > 0 && (s[0] == '+' || s[0] == '-') { 1 } else { 0 };
    let ghost body = s@.subrange(a as int, n as int);
    assert(a == 1 ==> s@.drop_first() =~= body);
    assert(a == 0 ==> s@ =~= body);
    let inf = ['i', 'n', 'f'];
    let infinity = ['i', 'n', 'f', 'i', 'n', 'i', 't', 'y'];
    let nan = ['n', 'a', 'n'];
    assert(inf@ =~= seq!['i', 'n', 'f']);
    assert(infinity@ =~= seq!['i', 'n', 'f', 'i', 'n', 'i', 't', 'y']);
    assert(nan@ =~= seq!['n', 'a', 'n']);
    if same_word_ignoring_case(s, a, n, &inf) || same_word_ignoring_case(s, a, n, &infinity)
        || same_word_ignoring_case(s, a, n, &nan) {
        return true;
    }
    let k = find_either(s, a, n, 'e', 'E');
    assert(body.take(k - a) =~= s@.subrange(a as int, k as int));
    assert(body.skip(k - a) =~= s@.subrange(k as int, n as int));
    mantissa_ok(s, a, k) && (k == n || exponent_ok(s, k, n))
}

} // verus!

verus! {

/// `v` clamped into the range of `i32`.
pub open spec fn saturate_i32(v: int) -> i32 {
    if v < i32::MIN {
        i32::MIN
    } else if v > i32::MAX {
        i32::MAX
    } else {
        v as i32
    }
}

/// What `as i32` gives for the float whose `Display` text is `t`
/// (`NaN`, `inf`, `-inf`, or an optional `-`, digits and an optional fraction):
/// the value truncated toward zero and clamped, `0` for `NaN`.
/// Text of any other shape gives `0`.
pub open spec fn float_text_as_i32(t: Seq<char>) -> i32 {
    let neg = t.len() > 0 && t[0] == '-';
    let body = if neg { t.drop_first() } else { t };
    if body == seq!['N', 'a', 'N'] {
        0
    } else if body == seq!['i', 'n', 'f'] {
        if neg { i32::MIN } else { i32::MAX }
    } else {
        let ip = body.take(index_of_either(body, '.', '.'));
        if all_digits(ip) {
            saturate_i32(if neg { -digits_value(ip) } else { digits_value(ip) })
        } else {
            0
        }
    }
}

/// Computes `float_text_as_i32`.
#[verifier::loop_isolation(false)]
pub fn float_text_to_i32(t: &[char]) -> (r: i32)
    ensures
        r == float_text_as_i32(t@),
{
    let n = t.len();
    let neg = n > 0 && t[0] == '-';
    let a: usize = if neg { 1 } else { 0 };
    let ghost body = t@.subrange(a as int, n as int);
    assert(neg ==> t@.drop_first() =~= body);
    assert(!neg ==> t@ =~= body);
    if n - a == 3 && t[a] == 'N' && t[a + 1] == 'a' && t[a + 2] == 'N' {
        assert(body =~= seq!['N', 'a', 'N']);
        return 0;
    }
    assert(body != seq!['N', 'a', 'N']) by {
        if body == seq!['N', 'a', 'N'] {
            assert(body[0] == t@[a as int]);
            assert(body[1] == t@[a + 1]);
            assert(body[2] == t@[a + 2]);
        }
    }
    if n - a == 3 && t[a] == 'i' && t[a + 1] == 'n' && t[a + 2] == 'f' {
        assert(body =~= seq!['i', 'n', 'f']);
        return if neg { i32::MIN } else { i32::MAX };
    }
    assert(body != seq!['i', 'n', 'f']) by {
        if body == seq!['i', 'n', 'f'] {
            assert(body[0] == t@[a as int]);
            assert(body[1] == t@[a + 1]);
            assert(body[2] == t@[a + 2]);
        }
    }
    let p = find_either(t, a, n, '.', '.');
    let ghost ip = t@.subrange(a as int, p as int);
    assert(body.take(p - a) =~= ip);
    let cap: u64 = 2147483649;
    let mut acc: u64 = 0;
    let mut i = a;
    while i < p
        invariant
            a <= i <= p <= n == t@.len(),
            ip == t@.subrange(a as int, p as int),
            all_digits(t@.subrange(a as int, i as int)),
            acc == (if digits_value(t@.subrange(a as int, i as int)) < 2147483649 {
                digits_value(t@.subrange(a as int, i as int))
            } else {
                2147483649
            }),
        decreases p - i,
    {
        let c = t[i];
        if !is_digit_char(c) {
            assert(ip[i - a] == c);
            return 0;
        }
        let ghost prev = t@.subrange(a as int, i as int);
        assert(t@.subrange(a as int, i + 1).drop_last() =~= prev);
        proof {
            lemma_digits_value_nonneg(prev);
        }
        let dv = (c as u32 - '0' as u32) as u64;
        assert(t@.subrange(a as int, i + 1).last() == c);
        assert(digits_value(t@.subrange(a as int, i + 1)) == 10 * digits_value(prev) + dv);
        let next = acc * 10 + dv;
        acc = if next > cap { cap } else { next };
        i = i + 1;
    }
    assert(t@.subrange(a as int, i as int) =~= ip);
    if neg {
        if acc > 2147483648 {
            i32::MIN
        } else {
            (0 - acc as i64) as i32
        }
    } else if acc > 2147483647 {
        i32::MAX
    } else {
        acc as i32
    }
}

} // verus!

verus! {

/// `str::trim`, as a new string.
pub fn trim_string(s: &str) -> (r: String)
    ensures
        r@ == trimmed(s@),
{
    let cs = chars_of(s);
    let t = trim_chars(cs.as_slice());
    string_of(t.as_slice())
}

/// `str::parse::<i32>`, on a string.
pub fn parse_i32_text(s: &str) -> (r: Option<i32>)
    ensures
        r == parsed_i32(s@),
{
    let cs = chars_of(s);
    parse_i32(cs.as_slice())
}

/// Whether `str::parse::<f64>` accepts the string.
pub fn is_float_text_str(s: &str) -> (r: bool)
    ensures
        r == is_float_text(s@),
{
    let cs = chars_of(s);
    float_text_ok(cs.as_slice())
}

pub proof fn lemma_listed_names_of_empty()
    ensures
        listed_names(Seq::<char>::empty()) == Seq::<Seq<char>>::empty(),
{
    let e = Seq::<char>::empty();
    assert(comma_pieces(e) == seq![e]);
    assert(trimmed(e) == e);
    assert(seq![e].drop_last() =~= Seq::<Seq<char>>::empty());
    assert(nonblank_trimmed(Seq::<Seq<char>>::empty()) == Seq::<Seq<char>>::empty());
    assert(seq![e].last() == e);
    assert(nonblank_trimmed(seq![e]) == nonblank_trimmed(seq![e].drop_last()));
    assert(listed_names(e) =~= Seq::<Seq<char>>::empty());
}

} // verus!

verus! {

proof fn lemma_trim_start_shape(s: Seq<char>)
    ensures
        trim_start(s).len() <= s.len(),
        trim_start(s) == s.skip(s.len() - trim_start(s).len()),
        trim_start(s).len() > 0 ==> !is_white_space(trim_start(s)[0]),
    decreases s.len(),
{
    if s.len() > 0 && is_white_space(s[0]) {
        lemma_trim_start_shape(s.drop_first());
        let t = trim_start(s.drop_first());
        assert(s.drop_first().skip(s.drop_first().len() - t.len()) =~= s.skip(s.len() - t.len()));
    } else {
        assert(s.skip(0) =~= s);
    }
}

proof fn lemma_trim_end_shape(s: Seq<char>)
    ensures
        trim_end(s).len() <= s.len(),
        trim_end(s) == s.take(trim_end(s).len() as int),
        trim_end(s).len() > 0 ==> !is_white_space(trim_end(s).last()),
    decreases s.len(),
{
    if s.len() > 0 && is_white_space(s.last()) {
        lemma_trim_end_shape(s.drop_last());
        let t = trim_end(s.drop_last());
        assert(s.drop_last().take(t.len() as int) =~= s.take(t.len() as int));
    } else {
        assert(s.take(s.len() as int) =~= s);
    }
}

/// What trimming leaves: a stretch of the text, empty or starting and ending
/// with a character that is not white space.
pub proof fn lemma_trimmed_shape(s: Seq<char>)
    ensures
        exists|a: int, b: int| 0 <= a <= b <= s.len() && trimmed(s) == s.subrange(a, b),
        trimmed(s).len() > 0 ==> !is_white_space(trimmed(s)[0]) && !is_white_space(trimmed(s).last()),
{
    lemma_trim_start_shape(s);
    let t = trim_start(s);
    lemma_trim_end_shape(t);
    let a = s.len() - t.len();
    let b = a + trimmed(s).len();
    assert(trimmed(s) =~= s.subrange(a, b));
    if trimmed(s).len() > 0 {
        assert(trimmed(s)[0] == t[0]);
    }
}

proof fn lemma_comma_pieces_no_comma(s: Seq<char>)
    ensures
        forall|i: int, j: int|
            0 <= i < comma_pieces(s).len() && 0 <= j < comma_pieces(s)[i].len() ==> #[trigger] comma_pieces(s)[i][j]
                != ',',
    decreases s.len(),
{
    if s.len() > 0 {
        lemma_comma_pieces_no_comma(s.drop_last());
        lemma_comma_pieces_nonempty(s.drop_last());
        let p = comma_pieces(s.drop_last());
        if s.last() != ',' {
            let q = comma_pieces(s);
            assert forall|i: int, j: int| 0 <= i < q.len() && 0 <= j < q[i].len() implies #[trigger] q[i][j] != ',' by {
                if i < p.len() - 1 {
                    assert(q[i] == p[i]);
                } else {
                    assert(q[i] == p.last().push(s.last()));
                    if j < p.last().len() {
                        assert(q[i][j] == p[p.len() - 1][j]);
                    }
                }
            }
        } else {
            let q = comma_pieces(s);
            assert forall|i: int, j: int| 0 <= i < q.len() && 0 <= j < q[i].len() implies #[trigger] q[i][j] != ',' by {
                assert(q[i] == p[i]);
            }
        }
    }
}

proof fn lemma_nonblank_trimmed_clean(ps: Seq<Seq<char>>)
    requires
        forall|i: int, j: int| 0 <= i < ps.len() && 0 <= j < ps[i].len() ==> #[trigger] ps[i][j] != ',',
    ensures
        forall|k: int| 0 <= k < nonblank_trimmed(ps).len() ==> {
            let n = #[trigger] nonblank_trimmed(ps)[k];
            &&& n.len() > 0
            &&& !is_white_space(n[0])
            &&& !is_white_space(n.last())
            &&& !n.contains(',')
        },
    decreases ps.len(),
{
    if ps.len() > 0 {
        lemma_nonblank_trimmed_clean(ps.drop_last());
        let last = ps.last();
        let t = trimmed(last);
        lemma_trimmed_shape(last);
        let (a, b) = choose|a: int, b: int| 0 <= a <= b <= last.len() && t == last.subrange(a, b);
        assert forall|j: int| 0 <= j < t.len() implies t[j] != ',' by {
            assert(t[j] == ps[ps.len() - 1][a + j]);
        }
        let r = nonblank_trimmed(ps.drop_last());
        let q = nonblank_trimmed(ps);
        assert forall|k: int| 0 <= k < q.len() implies {
            let n = #[trigger] q[k];
            &&& n.len() > 0
            &&& !is_white_space(n[0])
            &&& !is_white_space(n.last())
            &&& !n.contains(',')
        } by {
            if k < r.len() {
                assert(q[k] == r[k]);
            } else {
                assert(q[k] == t);
            }
        }
    }
}

/// Law: every name read from a comma separated cell is non-empty, holds no
/// comma, and neither starts nor ends with white space.
pub proof fn law_listed_names_are_clean(s: Seq<char>)
    ensures
        forall|k: int| 0 <= k < listed_names(s).len() ==> {
            let n = #[trigger] listed_names(s)[k];
            &&& n.len() > 0
            &&& !is_white_space(n[0])
            &&& !is_white_space(n.last())
            &&& !n.contains(',')
        },
{
    lemma_comma_pieces_no_comma(s);
    lemma_nonblank_trimmed_clean(comma_pieces(s));
}

} // verus!

verus! {

proof fn lemma_trim_start_of_clean(s: Seq<char>)
    requires
        s.len() > 0 ==> !is_white_space(s[0]),
    ensures
        trim_start(s) == s,
{
}

proof fn lemma_trim_end_of_clean(s: Seq<char>)
    requires
        s.len() > 0 ==> !is_white_space(s.last()),
    ensures
        trim_end(s) == s,
{
}

/// Law: trimming twice is trimming once, so white space around a header
/// never changes the key it is matched under.
pub proof fn law_trim_is_idempotent(s: Seq<char>)
    ensures
        trimmed(trimmed(s)) == trimmed(s),
        normalized_header(trimmed(s)) == normalized_header(s),
{
    lemma_trimmed_shape(s);
    let t = trimmed(s);
    lemma_trim_start_of_clean(t);
    lemma_trim_end_of_clean(t);
}

} // verus!

verus! {

/// The pieces joined back together, a comma between each two.
pub open spec fn joined_with_commas(ps: Seq<Seq<char>>) -> Seq<char>
    decreases ps.len(),
{
    if ps.len() <= 1 {
        if ps.len() == 1 {
            ps[0]
        } else {
            Seq::<char>::empty()
        }
    } else {
        joined_with_commas(ps.drop_last()) + seq![','] + ps.last()
    }
}

proof fn lemma_joined_extend_last(ps: Seq<Seq<char>>, c: char)
    requires
        ps.len() >= 1,
    ensures
        joined_with_commas(ps.update(ps.len() - 1, ps.last().push(c))) == joined_with_commas(ps).push(c),
{
    let q = ps.update(ps.len() - 1, ps.last().push(c));
    if ps.len() == 1 {
        assert(q[0] == ps[0].push(c));
    } else {
        assert(q.drop_last() =~= ps.drop_last());
        assert(q.last() == ps.last().push(c));
        assert(joined_with_commas(q) =~= joined_with_commas(ps).push(c));
    }
}

/// Law: splitting at commas loses nothing and splits nowhere else: the pieces
/// hold no comma, and joined with commas they give back the text.
pub proof fn law_comma_pieces_rejoin(s: Seq<char>)
    ensures
        joined_with_commas(comma_pieces(s)) == s,
        forall|i: int, j: int|
            0 <= i < comma_pieces(s).len() && 0 <= j < comma_pieces(s)[i].len() ==> #[trigger] comma_pieces(s)[i][j]
                != ',',
    decreases s.len(),
{
    lemma_comma_pieces_no_comma(s);
    if s.len() == 0 {
        assert(joined_with_commas(comma_pieces(s)) =~= s);
    } else {
        let s0 = s.drop_last();
        law_comma_pieces_rejoin(s0);
        lemma_comma_pieces_nonempty(s0);
        let p = comma_pieces(s0);
        if s.last() == ',' {
            let q = p.push(Seq::<char>::empty());
            assert(q.drop_last() =~= p);
            assert(joined_with_commas(q) =~= s0 + seq![','] + Seq::<char>::empty());
            assert(s0 + seq![','] + Seq::<char>::empty() =~= s);
        } else {
            lemma_joined_extend_last(p, s.last());
            assert(s0.push(s.last()) =~= s);
        }
    }
}

/// Law: a cell without commas lists one name, the cell's text trimmed, when
/// that is not blank; so a name with inner spaces is kept whole.
pub proof fn law_single_name_kept_whole(s: Seq<char>)
    requires
        !s.contains(','),
        trimmed(s).len() > 0,
    ensures
        listed_names(s) == seq![trimmed(s)],
{
    law_comma_pieces_rejoin(s);
    lemma_comma_pieces_nonempty(s);
    let p = comma_pieces(s);
    if p.len() > 1 {
        lemma_joined_has_comma(p);
        assert(s.contains(','));
    }
    assert(p.len() == 1);
    assert(joined_with_commas(p) == p[0]);
    assert(p.drop_last() =~= Seq::<Seq<char>>::empty());
    assert(nonblank_trimmed(p.drop_last()) =~= Seq::<Seq<char>>::empty());
    assert(listed_names(s) =~= seq![trimmed(s)]);
}

proof fn lemma_joined_has_comma(ps: Seq<Seq<char>>)
    requires
        ps.len() > 1,
    ensures
        exists|k: int| 0 <= k < joined_with_commas(ps).len() && joined_with_commas(ps)[k] == ',',
{
    let a = joined_with_commas(ps.drop_last());
    let j = joined_with_commas(ps);
    assert(j == a + seq![','] + ps.last());
    assert(j[a.len() as int] == ',');
}

} // verus!

verus! {

proof fn lemma_digit_char(d: nat)
    requires
        d < 10,
    ensures
        is_digit(digit_char(d)),
        digit_value(digit_char(d)) == d,
{
    assert(('0' as u32 + d) as char as int == 48 + d);
}

proof fn lemma_nat_text_digits(n: nat)
    ensures
        nat_text(n).len() > 0,
        all_digits(nat_text(n)),
        digits_value(nat_text(n)) == n,
    decreases n,
{
    if n < 10 {
        lemma_digit_char(n);
        let t = seq![digit_char(n)];
        assert(t.drop_last() =~= Seq::<char>::empty());
        assert(digits_value(Seq::<char>::empty()) == 0);
        assert(digits_value(t) == 10 * digits_value(t.drop_last()) + digit_value(t.last()));
    } else {
        lemma_nat_text_digits(n / 10);
        lemma_digit_char(n % 10);
        let t = nat_text(n / 10).push(digit_char(n % 10));
        assert(t.drop_last() =~= nat_text(n / 10));
        assert(digits_value(t) == 10 * digits_value(t.drop_last()) + digit_value(t.last()));
        assert(n == 10 * (n / 10) + n % 10);
        assert forall|i: int| 0 <= i < t.len() implies is_digit(#[trigger] t[i]) by {
            if i < t.len() - 1 {
                assert(t[i] == nat_text(n / 10)[i]);
            }
        }
    }
}

/// Law: parsing the text that `Display` writes for an `i32` gives the number
/// back, so an integer read as text and parsed again keeps its value.
pub proof fn law_int_text_parses_back(v: i32)
    ensures
        parsed_i32(int_text(v as int)) == Some(v),
{
    if v < 0 {
        let m = (-(v as int)) as nat;
        lemma_nat_text_digits(m);
        let s = seq!['-'] + nat_text(m);
        assert(s[0] == '-');
        assert(s.drop_first() =~= nat_text(m));
    } else {
        lemma_nat_text_digits(v as nat);
        let s = nat_text(v as nat);
        assert(is_digit(s[0]));
    }
}

/// Law: a normalized header holds no space and no hyphen, and keeps every
/// other character of the lowercased, trimmed header in its place.
pub proof fn law_normalized_header_has_no_separators(s: Seq<char>)
    ensures
        normalized_header(s).len() == unicode_lowercase(trimmed(s)).len(),
        forall|i: int|
            0 <= i < normalized_header(s).len() ==> #[trigger] normalized_header(s)[i] != ' '
                && normalized_header(s)[i] != '-',
        forall|i: int|
            0 <= i < normalized_header(s).len() && unicode_lowercase(trimmed(s))[i] != ' '
                && unicode_lowercase(trimmed(s))[i] != '-' ==> #[trigger] normalized_header(s)[i]
                == unicode_lowercase(trimmed(s))[i],
{
}

} // verus!
