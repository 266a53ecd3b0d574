//! Character-level text operations with their meanings stated over `Seq<char>`.
use vstd::prelude::*;
use vstd::string::*;

verus! {

/// The characters of `s`, in order.
pub fn chars_of(s: &str) -> (v: Vec<char>)
    ensures
        v@ == s@,
{
    let mut v: Vec<char> = Vec::new();
    for c in it: s.chars()
        invariant
            v@ == it.seq().take(it.index() as int),
    {
        v.push(c);
    }
    v
}

/// Unicode `White_Space`: the characters `char::is_whitespace` accepts.
pub open spec fn is_space(c: char) -> bool {
    let n = c as u32;
    ||| 0x9 <= n <= 0xd
    ||| n == 0x20
    ||| n == 0x85
    ||| n == 0xa0
    ||| n == 0x1680
    ||| 0x2000 <= n <= 0x200a
    ||| n == 0x2028
    ||| n == 0x2029
    ||| n == 0x202f
    ||| n == 0x205f
    ||| n == 0x3000
}

pub fn is_space_char(c: char) -> (b: bool)
    ensures
        b == is_space(c),
{
    let n = c as u32;
    (0x9 <= n && n <= 0xd) || n == 0x20 || n == 0x85 || n == 0xa0 || n == 0x1680 || (0x2000 <= n
        && n <= 0x200a) || n == 0x2028 || n == 0x2029 || n == 0x202f || n == 0x205f || n == 0x3000
}

/// Nothing but whitespace: what `s.trim().is_empty()` tests.
pub open spec fn is_blank_text(s: Seq<char>) -> bool {
    forall|i: int| 0 <= i < s.len() ==> #[trigger] is_space(s[i])
}

pub fn is_blank(s: &str) -> (b: bool)
    ensures
        b == is_blank_text(s@),
{
    let cs = chars_of(s);
    let mut i: usize = 0;
    while i < cs.len()
        invariant
            i <= cs.len(),
            cs@ == s@,
            forall|j: int| 0 <= j < i ==> #[trigger] is_space(cs@[j]),
        decreases cs.len() - i,
    {
        if !is_space_char(cs[i]) {
            return false;
        }
        i = i + 1;
    }
    true
}

/// Whether two texts are the same.
pub fn same_text(a: &str, b: &str) -> (r: bool)
    ensures
        r == (a@ == b@),
{
    a.to_owned() == b.to_owned()
}

/// `s` without leading whitespace.
pub open spec fn trim_start(s: Seq<char>) -> Seq<char>
    decreases s.len(),
{
    if s.len() > 0 && is_space(s[0]) {
        trim_start(s.drop_first())
    } else {
        s
    }
}

/// `s` without trailing whitespace.
pub open spec fn trim_end(s: Seq<char>) -> Seq<char>
    decreases s.len(),
{
    if s.len() > 0 && is_space(s.last()) {
        trim_end(s.drop_last())
    } else {
        s
    }
}

/// `s` without surrounding whitespace: what `str::trim` gives.
pub open spec fn trimmed(s: Seq<char>) -> Seq<char> {
    trim_end(trim_start(s))
}

pub fn trim(s: &str) -> (r: String)
    ensures
        r@ == trimmed(s@),
{
    let cs = chars_of(s);
    let mut lo: usize = 0;
    assert(cs@.skip(0) =~= cs@);
    while lo < cs.len() && is_space_char(cs[lo])
        invariant
            lo <= cs.len(),
            cs@ == s@,
            trim_start(cs@) == trim_start(cs@.skip(lo as int)),
        decreases cs.len() - lo,
    {
        assert(cs@.skip(lo as int).drop_first() =~= cs@.skip(lo + 1));
        lo = lo + 1;
    }
    let ghost rest = cs@.skip(lo as int);
    assert(trim_start(cs@) == rest);
    let mut hi: usize = cs.len();
    assert(cs@.subrange(lo as int, hi as int) =~= rest);
    while hi > lo && is_space_char(cs[hi - 1])
        invariant
            lo <= hi <= cs.len(),
            cs@ == s@,
            trim_start(cs@) == cs@.skip(lo as int),
            trim_end(cs@.skip(lo as int)) == trim_end(cs@.subrange(lo as int, hi as int)),
        decreases hi - lo,
    {
        assert(cs@.subrange(lo as int, hi as int).drop_last() =~= cs@.subrange(lo as int, hi - 1));
        hi = hi - 1;
    }
    s.substring_char(lo, hi).to_owned()
}

/// `s` with every trailing `c` removed: what `s.trim_end_matches(c)` gives.
pub open spec fn strip_trailing(s: Seq<char>, c: char) -> Seq<char>
    decreases s.len(),
{
    if s.len() > 0 && s.last() == c {
        strip_trailing(s.drop_last(), c)
    } else {
        s
    }
}

pub fn trim_end_char(s: &str, c: char) -> (r: String)
    ensures
        r@ == strip_trailing(s@, c),
{
    let cs = chars_of(s);
    let mut end: usize = cs.len();
    assert(cs@.take(end as int) =~= cs@);
    while end > 0 && cs[end - 1] == c
        invariant
            end <= cs.len(),
            cs@ == s@,
            strip_trailing(cs@, c) == strip_trailing(cs@.take(end as int), c),
        decreases end,
    {
        assert(cs@.take(end as int).drop_last() =~= cs@.take(end - 1));
        end = end - 1;
    }
    s.substring_char(0, end).to_owned()
}

pub open spec fn has_prefix(s: Seq<char>, p: Seq<char>) -> bool {
    p.len() <= s.len() && s.take(p.len() as int) == p
}

pub open spec fn has_suffix(s: Seq<char>, p: Seq<char>) -> bool {
    p.len() <= s.len() && s.skip(s.len() - p.len()) == p
}

/// Whether `cs[at..at + p.len()]` is `p`.
pub fn matches_at(cs: &Vec<char>, at: usize, p: &Vec<char>) -> (r: bool)
    requires
        at + p.len() <= cs.len(),
    ensures
        r == (cs@.subrange(at as int, at + p.len()) == p@),
{
    let mut i: usize = 0;
    while i < p.len()
        invariant
            i <= p.len(),
            at + p.len() <= cs.len(),
            forall|j: int| 0 <= j < i ==> cs@[at + j] == p@[j],
        decreases p.len() - i,
    {
        if cs[at + i] != p[i] {
            assert(cs@.subrange(at as int, at + p.len())[i as int] != p@[i as int]);
            return false;
        }
        i = i + 1;
    }
    assert(cs@.subrange(at as int, at + p.len()) =~= p@);
    true
}

pub fn starts_with(s: &str, p: &str) -> (r: bool)
    ensures
        r == has_prefix(s@, p@),
{
    let cs = chars_of(s);
    let ps = chars_of(p);
    if ps.len() > cs.len() {
        return false;
    }
    assert(cs@.subrange(0, ps.len() as int) =~= cs@.take(ps.len() as int));
    matches_at(&cs, 0, &ps)
}

pub fn ends_with(s: &str, p: &str) -> (r: bool)
    ensures
        r == has_suffix(s@, p@),
{
    let cs = chars_of(s);
    let ps = chars_of(p);
    if ps.len() > cs.len() {
        return false;
    }
    let at = cs.len() - ps.len();
    assert(cs@.subrange(at as int, at + ps.len()) =~= cs@.skip(at as int));
    matches_at(&cs, at, &ps)
}

/// `needle` occurs in `hay` as a contiguous run.
pub open spec fn occurs_in(needle: Seq<char>, hay: Seq<char>) -> bool {
    exists|i: int|
        0 <= i && i + needle.len() <= hay.len() && #[trigger] hay.subrange(i, i + needle.len())
            == needle
}

pub fn occurs(needle: &Vec<char>, hay: &Vec<char>) -> (r: bool)
    ensures
        r == occurs_in(needle@, hay@),
{
    if needle.len() > hay.len() {
        return false;
    }
    let last = hay.len() - needle.len();
    let mut i: usize = 0;
    while i <= last
        invariant
            last + needle.len() == hay.len(),
            forall|j: int|
                0 <= j < i ==> #[trigger] hay@.subrange(j, j + needle.len()) != needle@,
        decreases last + 1 - i,
    {
        if matches_at(hay, i, needle) {
            return true;
        }
        if i == last {
            assert forall|j: int|
                0 <= j && j + needle.len() <= hay.len() implies #[trigger] hay@.subrange(
                j,
                j + needle.len(),
            ) != needle@ by {}
            return false;
        }
        i = i + 1;
    }
    false
}

/// ASCII upper-case letters mapped to lower case; every other character kept.
pub open spec fn ascii_lower(c: char) -> char {
    if 'A' <= c <= 'Z' {
        ((c as u32) + 32) as char
    } else {
        c
    }
}

pub open spec fn ascii_lowered(s: Seq<char>) -> Seq<char> {
    s.map_values(|c: char| ascii_lower(c))
}

pub fn ascii_lower_char(c: char) -> (r: char)
    ensures
        r == ascii_lower(c),
{
    if 'A' <= c && c <= 'Z' {
        let b = c as u8;
        assert(b + 32 < 128);
        ((b + 32) as u8) as char
    } else {
        c
    }
}

pub fn ascii_lowered_chars(s: &str) -> (v: Vec<char>)
    ensures
        v@ == ascii_lowered(s@),
{
    let cs = chars_of(s);
    let mut v: Vec<char> = Vec::new();
    let mut i: usize = 0;
    while i < cs.len()
        invariant
            i <= cs.len(),
            cs@ == s@,
            v@ =~= ascii_lowered(cs@.take(i as int)),
        decreases cs.len() - i,
    {
        v.push(ascii_lower_char(cs[i]));
        assert(ascii_lowered(cs@.take(i + 1)) =~= ascii_lowered(cs@.take(i as int)).push(
            ascii_lower(cs@[i as int]),
        ));
        i = i + 1;
    }
    assert(cs@.take(i as int) =~= cs@);
    v
}

/// `text.to_ascii_lowercase().contains(needle)` for a needle without upper-case letters.
pub fn contains_ignoring_ascii_case(text: &str, needle: &str) -> (r: bool)
    ensures
        r == occurs_in(needle@, ascii_lowered(text@)),
{
    let hay = ascii_lowered_chars(text);
    let n = chars_of(needle);
    occurs(&n, &hay)
}

/// The whitespace-separated words of `s`, in order: what `s.split_whitespace()` yields.
pub open spec fn words(s: Seq<char>) -> Seq<Seq<char>>
    decreases s.len(),
{
    if s.len() == 0 {
        seq![]
    } else {
        let p = s.drop_last();
        let c = s.last();
        if is_space(c) {
            words(p)
        } else if p.len() > 0 && !is_space(p.last()) {
            let w = words(p);
            w.update(w.len() - 1, w.last().push(c))
        } else {
            words(p).push(seq![c])
        }
    }
}

pub open spec fn texts_view(v: Seq<String>) -> Seq<Seq<char>> {
    v.map_values(|t: String| t@)
}

pub fn split_whitespace(s: &str) -> (r: Vec<String>)
    ensures
        texts_view(r@) == words(s@),
{
    let cs = chars_of(s);
    let mut done: Vec<String> = Vec::new();
    let mut start: usize = 0;
    let mut in_word = false;
    let mut i: usize = 0;
    while i < cs.len()
        invariant
            i <= cs.len(),
            cs@ == s@,
            start <= i,
            in_word <==> (i > 0 && !is_space(cs@[i - 1])),
            in_word ==> start < i,
            in_word ==> forall|j: int| start <= j < i ==> !#[trigger] is_space(cs@[j]),
            in_word && start > 0 ==> is_space(cs@[start - 1]),
            words(cs@.take(i as int)) == texts_view(done@) + (if in_word {
                seq![cs@.subrange(start as int, i as int)]
            } else {
                seq![]
            }),
        decreases cs.len() - i,
    {
        let c = cs[i];
        let ghost before = cs@.take(i as int);
        assert(cs@.take(i + 1).drop_last() =~= before);
        if is_space_char(c) {
            if in_word {
                let w = s.substring_char(start, i).to_owned();
                let ghost prev = done@;
                done.push(w);
                assert(texts_view(done@) =~= texts_view(prev).push(w@));
            }
            in_word = false;
            assert(words(cs@.take(i + 1)) == words(before));
        } else {
            if in_word {
                let ghost w = words(before);
                assert(cs@.subrange(start as int, i + 1) =~= cs@.subrange(start as int, i as int).push(c));
                assert(words(cs@.take(i + 1)) =~= w.update(w.len() - 1, w.last().push(c)));
                assert(words(cs@.take(i + 1)) =~= texts_view(done@) + seq![cs@.subrange(start as int, i + 1)]);
            } else {
                start = i;
                in_word = true;
                assert(cs@.subrange(start as int, i + 1) =~= seq![c]);
                assert(words(cs@.take(i + 1)) =~= texts_view(done@) + seq![cs@.subrange(start as int, i + 1)]);
            }
        }
        i = i + 1;
    }
    assert(cs@.take(i as int) =~= cs@);
    if in_word {
        let w = s.substring_char(start, i).to_owned();
        let ghost prev = done@;
        done.push(w);
        assert(texts_view(done@) =~= texts_view(prev).push(w@));
    } else {
        assert(texts_view(done@) + seq![] =~= texts_view(done@));
    }
    done
}

/// Whether `word` is one of the whitespace-separated words of `s`.
pub fn has_word(s: &str, word: &str) -> (r: bool)
    ensures
        r == words(s@).contains(word@),
{
    let ws = split_whitespace(s);
    let mut i: usize = 0;
    while i < ws.len()
        invariant
            i <= ws.len(),
            texts_view(ws@) == words(s@),
            forall|j: int| 0 <= j < i ==> #[trigger] ws@[j]@ != word@,
        decreases ws.len() - i,
    {
        if same_text(ws[i].as_str(), word) {
            assert(texts_view(ws@)[i as int] == word@);
            return true;
        }
        i = i + 1;
    }
    assert forall|k: int| 0 <= k < words(s@).len() implies words(s@)[k] != word@ by {
        assert(texts_view(ws@)[k] == ws@[k]@);
    }
    false
}

/// Every word is non-empty and holds no whitespace.
pub proof fn lemma_words_are_solid(s: Seq<char>)
    ensures
        forall|k: int| #![trigger words(s)[k]] 0 <= k < words(s).len() ==> words(s)[k].len() > 0,
        forall|k: int, j: int|
            0 <= k < words(s).len() && 0 <= j < words(s)[k].len() ==> !is_space(words(s)[k][j]),
    decreases s.len(),
{
    if s.len() > 0 {
        lemma_words_are_solid(s.drop_last());
        let p = s.drop_last();
        let c = s.last();
        if !is_space(c) && p.len() > 0 && !is_space(p.last()) {
            lemma_words_nonempty_when_ends_solid(p);
        }
    }
}

proof fn lemma_words_nonempty_when_ends_solid(p: Seq<char>)
    requires
        p.len() > 0,
        !is_space(p.last()),
    ensures
        words(p).len() > 0,
    decreases p.len(),
{
    let q = p.drop_last();
    if q.len() > 0 && !is_space(q.last()) {
        lemma_words_nonempty_when_ends_solid(q);
    }
}

/// The digit character for `d < 10`.
pub open spec fn digit_char(d: nat) -> char {
    if d == 0 {
        '0'
    } else if d == 1 {
        '1'
    } else if d == 2 {
        '2'
    } else if d == 3 {
        '3'
    } else if d == 4 {
        '4'
    } else if d == 5 {
        '5'
    } else if d == 6 {
        '6'
    } else if d == 7 {
        '7'
    } else if d == 8 {
        '8'
    } else {
        '9'
    }
}

/// The decimal numeral of `n`, without leading zeros.
pub open spec fn decimal(n: nat) -> Seq<char>
    decreases n,
{
    if n < 10 {
        seq![digit_char(n)]
    } else {
        decimal(n / 10).push(digit_char(n % 10))
    }
}

/// The text `format!("{n}")` gives for an integer `n`.
pub open spec fn int_text(n: int) -> Seq<char> {
    if n < 0 {
        seq!['-'] + decimal((-n) as nat)
    } else {
        decimal(n as nat)
    }
}

fn digit_str(d: u64) -> (s: &'static str)
    requires
        d < 10,
    ensures
        s@ == seq![digit_char(d as nat)],
{
    if d == 0 {
        proof {
            reveal_strlit("0");
        }
        "0"
    } else if d == 1 {
        proof {
            reveal_strlit("1");
        }
        "1"
    } else if d == 2 {
        proof {
            reveal_strlit("2");
        }
        "2"
    } else if d == 3 {
        proof {
            reveal_strlit("3");
        }
        "3"
    } else if d == 4 {
        proof {
            reveal_strlit("4");
        }
        "4"
    } else if d == 5 {
        proof {
            reveal_strlit("5");
        }
        "5"
    } else if d == 6 {
        proof {
            reveal_strlit("6");
        }
        "6"
    } else if d == 7 {
        proof {
            reveal_strlit("7");
        }
        "7"
    } else if d == 8 {
        proof {
            reveal_strlit("8");
        }
        "8"
    } else {
        proof {
            reveal_strlit("9");
        }
        "9"
    }
}

/// The decimal numeral of `n`.
pub fn u128_text(n: u128) -> (s: String)
    ensures
        s@ == decimal(n as nat),
{
    let mut m: u128 = n / 10;
    let mut acc = String::from_str(digit_str((n % 10) as u64));
    while m > 0
        invariant
            decimal(n as nat) == (if m == 0 {
                seq![]
            } else {
                decimal(m as nat)
            }) + acc@,
        decreases m,
    {
        let d = m % 10;
        acc = String::from_str(digit_str(d as u64)).concat(acc.as_str());
        if m < 10 {
            assert(decimal(m as nat) =~= seq![digit_char(d as nat)]);
        } else {
            assert(decimal(m as nat) == decimal((m / 10) as nat).push(digit_char(d as nat)));
        }
        m = m / 10;
        assert(decimal(n as nat) =~= (if m == 0 {
            seq![]
        } else {
            decimal(m as nat)
        }) + acc@);
    }
    assert(decimal(n as nat) =~= acc@);
    acc
}

/// The decimal numeral of `n`.
pub fn u64_text(n: u64) -> (s: String)
    ensures
        s@ == decimal(n as nat),
{
    u128_text(n as u128)
}

/// The decimal numeral of `n`, with a leading `-` when negative.
pub fn i128_text(n: i128) -> (s: String)
    ensures
        s@ == int_text(n as int),
{
    if n < 0 {
        let magnitude: u128 = if n == i128::MIN {
            170141183460469231731687303715884105728u128
        } else {
            (-n) as u128
        };
        let digits = u128_text(magnitude);
        proof {
            reveal_strlit("-");
        }
        String::from_str("-").concat(digits.as_str())
    } else {
        u128_text(n as u128)
    }
}

/// The decimal numeral of `n`, with a leading `-` when negative.
pub fn i64_text(n: i64) -> (s: String)
    ensures
        s@ == int_text(n as int),
{
    i128_text(n as i128)
}

pub open spec fn is_digit(c: char) -> bool {
    '0' <= c <= '9'
}

pub open spec fn all_digits(s: Seq<char>) -> bool {
    forall|i: int| 0 <= i < s.len() ==> #[trigger] is_digit(s[i])
}

pub open spec fn is_sign(c: char) -> bool {
    c == '+' || c == '-'
}

pub open spec fn is_exp_mark(c: char) -> bool {
    c == 'e' || c == 'E'
}

/// `Digit+ | Digit+ '.' Digit* | Digit* '.' Digit+`
pub open spec fn is_mantissa(m: Seq<char>) -> bool {
    ||| m.len() > 0 && all_digits(m)
    ||| exists|k: int|
        0 <= k < m.len() && m[k] == '.' && m.len() >= 2 && all_digits(#[trigger] m.take(k))
            && all_digits(m.skip(k + 1))
}

/// `Sign? Digit+`, the part after the exponent mark.
pub open spec fn is_exponent(e: Seq<char>) -> bool {
    let d = if e.len() > 0 && is_sign(e[0]) {
        e.drop_first()
    } else {
        e
    };
    d.len() > 0 && all_digits(d)
}

pub open spec fn is_number_literal(b: Seq<char>) -> bool {
    ||| is_mantissa(b)
    ||| exists|k: int|
        0 <= k < b.len() && is_exp_mark(b[k]) && is_mantissa(#[trigger] b.take(k)) && is_exponent(
            b.skip(k + 1),
        )
}

/// The texts `str::parse::<f64>` accepts: `Sign? ('inf' | 'infinity' | 'nan' | Number)`,
/// with the words compared ignoring ASCII case, and no surrounding whitespace.
pub open spec fn is_float_literal(s: Seq<char>) -> bool {
    let b = if s.len() > 0 && is_sign(s[0]) {
        s.drop_first()
    } else {
        s
    };
    ||| ascii_lowered(b) == seq!['i', 'n', 'f']
    ||| ascii_lowered(b) == seq!['i', 'n', 'f', 'i', 'n', 'i', 't', 'y']
    ||| ascii_lowered(b) == seq!['n', 'a', 'n']
    ||| is_number_literal(b)
}

fn is_digit_char(c: char) -> (r: bool)
    ensures
        r == is_digit(c),
{
    '0' <= c && c <= '9'
}

fn digits_between(cs: &Vec<char>, lo: usize, hi: usize) -> (r: bool)
    requires
        lo <= hi <= cs.len(),
    ensures
        r == all_digits(cs@.subrange(lo as int, hi as int)),
{
    let mut i = lo;
    while i < hi
        invariant
            lo <= i <= hi,
            hi <= cs.len(),
            forall|j: int| lo <= j < i ==> #[trigger] is_digit(cs@[j]),
        decreases hi - i,
    {
        if !is_digit_char(cs[i]) {
            assert(!is_digit(cs@.subrange(lo as int, hi as int)[i - lo]));
            return false;
        }
        i = i + 1;
    }
    assert forall|j: int| 0 <= j < hi - lo implies #[trigger] is_digit(
        cs@.subrange(lo as int, hi as int)[j],
    ) by {
        assert(cs@.subrange(lo as int, hi as int)[j] == cs@[lo + j]);
    }
    true
}

/// The first index in `lo..hi` holding `target`, or `hi`.
fn first_index_of(cs: &Vec<char>, lo: usize, hi: usize, target: char) -> (k: usize)
    requires
        lo <= hi <= cs.len(),
    ensures
        lo <= k <= hi,
        k < hi ==> cs@[k as int] == target,
        forall|j: int| lo <= j < k ==> cs@[j] != target,
{
    let mut i = lo;
    while i < hi
        invariant
            lo <= i <= hi,
            hi <= cs.len(),
            forall|j: int| lo <= j < i ==> cs@[j] != target,
        decreases hi - i,
    {
        if cs[i] == target {
            return i;
        }
        i = i + 1;
    }
    hi
}

fn mantissa_between(cs: &Vec<char>, lo: usize, hi: usize) -> (r: bool)
    requires
        lo <= hi <= cs.len(),
    ensures
        r == is_mantissa(cs@.subrange(lo as int, hi as int)),
{
    let ghost m = cs@.subrange(lo as int, hi as int);
    let k = first_index_of(cs, lo, hi, '.');
    if k == hi {
        let r = hi > lo && digits_between(cs, lo, hi);
        assert forall|k2: int| 0 <= k2 < m.len() implies m[k2] != '.' by {
            assert(m[k2] == cs@[lo + k2]);
        }
        r
    } else {
        let kk = k - lo;
        let left = digits_between(cs, lo, k);
        let right = digits_between(cs, k + 1, hi);
        assert(m.take(kk as int) =~= cs@.subrange(lo as int, k as int));
        assert(m.skip(kk + 1) =~= cs@.subrange(k + 1, hi as int));
        assert(m[kk as int] == '.');
        proof {
            if m.len() > 0 && all_digits(m) {
                assert(is_digit(m[kk as int]));
            }
            if is_mantissa(m) && !(left && right && m.len() >= 2) {
                let k2 = choose|k2: int|
                    0 <= k2 < m.len() && m[k2] == '.' && m.len() >= 2 && all_digits(
                        #[trigger] m.take(k2),
                    ) && all_digits(m.skip(k2 + 1));
                if k2 < kk {
                    assert(m[k2] == cs@[lo + k2]);
                } else if k2 > kk {
                    assert(m.take(k2)[kk as int] == '.');
                    assert(is_digit(m.take(k2)[kk as int]));
                }
            }
        }
        left && right && hi - lo >= 2
    }
}

fn exponent_between(cs: &Vec<char>, lo: usize, hi: usize) -> (r: bool)
    requires
        lo <= hi <= cs.len(),
    ensures
        r == is_exponent(cs@.subrange(lo as int, hi as int)),
{
    let ghost e = cs@.subrange(lo as int, hi as int);
    if lo < hi && (cs[lo] == '+' || cs[lo] == '-') {
        assert(e.drop_first() =~= cs@.subrange(lo + 1, hi as int));
        hi > lo + 1 && digits_between(cs, lo + 1, hi)
    } else {
        hi > lo && digits_between(cs, lo, hi)
    }
}

fn number_between(cs: &Vec<char>, lo: usize, hi: usize) -> (r: bool)
    requires
        lo <= hi <= cs.len(),
    ensures
        r == is_number_literal(cs@.subrange(lo as int, hi as int)),
{
    let ghost b = cs@.subrange(lo as int, hi as int);
    let small = first_index_of(cs, lo, hi, 'e');
    let big = first_index_of(cs, lo, hi, 'E');
    let k = if small < big {
        small
    } else {
        big
    };
    assert(forall|j: int| lo <= j < k ==> !is_exp_mark(cs@[j]));
    if k == hi {
        let r = mantissa_between(cs, lo, hi);
        assert forall|k2: int| 0 <= k2 < b.len() implies !is_exp_mark(b[k2]) by {
            assert(b[k2] == cs@[lo + k2]);
        }
        r
    } else {
        let kk = k - lo;
        assert(is_exp_mark(b[kk as int]));
        let left = mantissa_between(cs, lo, k);
        let right = exponent_between(cs, k + 1, hi);
        assert(b.take(kk as int) =~= cs@.subrange(lo as int, k as int));
        assert(b.skip(kk + 1) =~= cs@.subrange(k + 1, hi as int));
        proof {
            if is_mantissa(b) {
                lemma_mantissa_has_no_exp_mark(b, kk as int);
            }
            if is_number_literal(b) && !(left && right) {
                let k2 = choose|k2: int|
                    0 <= k2 < b.len() && is_exp_mark(b[k2]) && is_mantissa(#[trigger] b.take(k2))
                        && is_exponent(b.skip(k2 + 1));
                if k2 < kk {
                    assert(b[k2] == cs@[lo + k2]);
                } else if k2 > kk {
                    assert(b.take(k2)[kk as int] == b[kk as int]);
                    lemma_mantissa_has_no_exp_mark(b.take(k2), kk as int);
                }
            }
        }
        left && right
    }
}

proof fn lemma_mantissa_has_no_exp_mark(m: Seq<char>, i: int)
    requires
        is_mantissa(m),
        0 <= i < m.len(),
    ensures
        !is_exp_mark(m[i]),
{
    if m.len() > 0 && all_digits(m) {
        assert(is_digit(m[i]));
    } else {
        let k = choose|k: int|
            0 <= k < m.len() && m[k] == '.' && m.len() >= 2 && all_digits(#[trigger] m.take(k))
                && all_digits(m.skip(k + 1));
        if i < k {
            assert(is_digit(m.take(k)[i]));
        } else if i > k {
            assert(is_digit(m.skip(k + 1)[i - k - 1]));
        }
    }
}

fn lowered_equals(cs: &Vec<char>, lo: usize, word: &str) -> (r: bool)
    requires
        lo <= cs.len(),
    ensures
        r == (ascii_lowered(cs@.skip(lo as int)) == word@),
{
    let w = chars_of(word);
    if cs.len() - lo != w.len() {
        assert(ascii_lowered(cs@.skip(lo as int)).len() != word@.len());
        return false;
    }
    let mut i: usize = 0;
    while i < w.len()
        invariant
            i <= w.len(),
            lo + w.len() == cs.len(),
            w@ == word@,
            forall|j: int| 0 <= j < i ==> ascii_lower(cs@[lo + j]) == w@[j],
        decreases w.len() - i,
    {
        if ascii_lower_char(cs[lo + i]) != w[i] {
            assert(ascii_lowered(cs@.skip(lo as int))[i as int] != word@[i as int]);
            return false;
        }
        i = i + 1;
    }
    assert(ascii_lowered(cs@.skip(lo as int)) =~= word@);
    true
}

/// Whether `str::parse::<f64>` accepts `s`.
pub fn is_float_text(s: &str) -> (r: bool)
    ensures
        r == is_float_literal(s@),
{
    let cs = chars_of(s);
    let lo: usize = if cs.len() > 0 && (cs[0] == '+' || cs[0] == '-') {
        1
    } else {
        0
    };
    let ghost b = if s@.len() > 0 && is_sign(s@[0]) {
        s@.drop_first()
    } else {
        s@
    };
    assert(b =~= cs@.skip(lo as int));
    assert(b =~= cs@.subrange(lo as int, cs.len() as int));
    proof {
        reveal_strlit("inf");
        reveal_strlit("infinity");
        reveal_strlit("nan");
    }
    let inf = lowered_equals(&cs, lo, "inf");
    let infinity = lowered_equals(&cs, lo, "infinity");
    let nan = lowered_equals(&cs, lo, "nan");
    assert("inf"@ =~= seq!['i', 'n', 'f']);
    assert("infinity"@ =~= seq!['i', 'n', 'f', 'i', 'n', 'i', 't', 'y']);
    assert("nan"@ =~= seq!['n', 'a', 'n']);
    inf || infinity || nan || number_between(&cs, lo, cs.len())
}

} // verus!
