//! Character-level text handling: whitespace trimming, splitting, and
//! the hexadecimal and decimal renderings and parsings used throughout the
//! library. Everything works on `Seq<char>` views; strings are walked through
//! their `chars()`.
use vstd::prelude::*;

verus! {

pub assume_specification[ String::push ](s: &mut String, ch: char)
    ensures
        final(s)@ == old(s)@.push(ch),
;

pub assume_specification[ String::pop ](s: &mut String) -> (res: Option<char>)
    ensures
        old(s)@.len() == 0 ==> res is None && final(s)@ == old(s)@,
        old(s)@.len() > 0 ==> res == Some(old(s)@.last()) && final(s)@ == old(s)@.drop_last(),
;

// ---------------------------------------------------------------------------
// Whitespace and trimming
// ---------------------------------------------------------------------------

/// A character with the Unicode `White_Space` property (the set that
/// `char::is_whitespace` and `str::trim` use).
pub open spec fn is_white_space(c: char) -> bool {
    let u = c as u32;
    ||| 0x9 <= u <= 0xd
    ||| u == 0x20
    ||| u == 0x85
    ||| u == 0xa0
    ||| u == 0x1680
    ||| 0x2000 <= u <= 0x200a
    ||| u == 0x2028
    ||| u == 0x2029
    ||| u == 0x202f
    ||| u == 0x205f
    ||| u == 0x3000
}

/// A control character (general category `Cc`), as `char::is_control`.
pub open spec fn is_control_char(c: char) -> bool {
    let u = c as u32;
    u <= 0x1f || (0x7f <= u <= 0x9f)
}

/// `s` without its leading whitespace.
pub open spec fn trim_start(s: Seq<char>) -> Seq<char>
    decreases s.len(),
{
    if s.len() > 0 && is_white_space(s[0]) {
        trim_start(s.drop_first())
    } else {
        s
    }
}

/// `s` without its trailing whitespace.
pub open spec fn trim_end(s: Seq<char>) -> Seq<char>
    decreases s.len(),
{
    if s.len() > 0 && is_white_space(s.last()) {
        trim_end(s.drop_last())
    } else {
        s
    }
}

/// `s` without leading and trailing whitespace, as `str::trim`.
pub open spec fn trim(s: Seq<char>) -> Seq<char> {
    trim_end(trim_start(s))
}

pub fn is_white_space_char(c: char) -> (res: bool)
    ensures
        res == is_white_space(c),
{
    let u = c as u32;
    (0x9 <= u && u <= 0xd) || u == 0x20 || u == 0x85 || u == 0xa0 || u == 0x1680 || (0x2000 <= u
        && u <= 0x200a) || u == 0x2028 || u == 0x2029 || u == 0x202f || u == 0x205f || u == 0x3000
}

pub fn is_control(c: char) -> (res: bool)
    ensures
        res == is_control_char(c),
{
    let u = c as u32;
    u <= 0x1f || (0x7f <= u && u <= 0x9f)
}

proof fn lemma_trim_start_skip(s: Seq<char>, k: int)
    requires
        0 <= k <= s.len(),
        forall|i: int| 0 <= i < k ==> is_white_space(#[trigger] s[i]),
        k == s.len() || !is_white_space(s[k]),
    ensures
        trim_start(s) == s.skip(k),
    decreases k,
{
    if k == 0 {
        assert(s.skip(0) =~= s);
    } else {
        let t = s.drop_first();
        assert forall|i: int| 0 <= i < k - 1 implies is_white_space(#[trigger] t[i]) by {
            assert(t[i] == s[i + 1]);
        }
        if k - 1 < t.len() {
            assert(t[k - 1] == s[k]);
        }
        lemma_trim_start_skip(t, k - 1);
        assert(t.skip(k - 1) =~= s.skip(k));
    }
}

proof fn lemma_trim_end_take(s: Seq<char>, k: int)
    requires
        0 <= k <= s.len(),
        forall|i: int| k <= i < s.len() ==> is_white_space(#[trigger] s[i]),
        k == 0 || !is_white_space(s[k - 1]),
    ensures
        trim_end(s) == s.take(k),
    decreases s.len() - k,
{
    if k == s.len() {
        assert(s.take(k) =~= s);
    } else {
        let t = s.drop_last();
        assert forall|i: int| k <= i < t.len() implies is_white_space(#[trigger] t[i]) by {
            assert(t[i] == s[i]);
        }
        if k > 0 {
            assert(t[k - 1] == s[k - 1]);
        }
        lemma_trim_end_take(t, k);
        assert(t.take(k) =~= s.take(k));
    }
}

/// The characters of `s`, in order.
pub fn chars_of(s: &str) -> (res: Vec<char>)
    ensures
        res@ == s@,
{
    let mut out: Vec<char> = Vec::new();
    for c in it: s.chars()
        invariant
            out@ == it.seq().take(it.index() as int),
    {
        out.push(c);
    }
    out
}

/// The characters `v[lo..hi]`.
pub fn sub_chars(v: &Vec<char>, lo: usize, hi: usize) -> (res: Vec<char>)
    requires
        lo <= hi <= v.len(),
    ensures
        res@ == v@.subrange(lo as int, hi as int),
{
    let mut out: Vec<char> = Vec::new();
    let mut i = lo;
    while i < hi
        invariant
            lo <= i <= hi <= v.len(),
            out@ == v@.subrange(lo as int, i as int),
        decreases hi - i,
    {
        out.push(v[i]);
        i = i + 1;
    }
    out
}

/// `v` with leading and trailing whitespace removed.
pub fn trim_chars(v: &Vec<char>) -> (res: Vec<char>)
    ensures
        res@ == trim(v@),
{
    let n = v.len();
    let mut lo: usize = 0;
    while lo < n && is_white_space_char(v[lo])
        invariant
            lo <= n == v.len(),
            forall|i: int| 0 <= i < lo ==> is_white_space(#[trigger] v@[i]),
        decreases n - lo,
    {
        lo = lo + 1;
    }
    proof {
        lemma_trim_start_skip(v@, lo as int);
    }
    let mut hi: usize = n;
    while hi > lo && is_white_space_char(v[hi - 1])
        invariant
            lo <= hi <= n == v.len(),
            forall|i: int| hi <= i < n ==> is_white_space(#[trigger] v@[i]),
        decreases hi,
    {
        hi = hi - 1;
    }
    let ghost s = v@.skip(lo as int);
    proof {
        assert forall|i: int| hi - lo <= i < s.len() implies is_white_space(#[trigger] s[i]) by {
            assert(s[i] == v@[i + lo]);
        }
        if hi > lo {
            assert(s[hi - lo - 1] == v@[hi - 1]);
        }
        lemma_trim_end_take(s, hi - lo);
        assert(s.take(hi - lo) =~= v@.subrange(lo as int, hi as int));
    }
    sub_chars(v, lo, hi)
}

/// `v` with trailing whitespace removed.
pub fn trim_end_chars(v: &Vec<char>) -> (res: Vec<char>)
    ensures
        res@ == trim_end(v@),
{
    let n = v.len();
    let mut hi: usize = n;
    while hi > 0 && is_white_space_char(v[hi - 1])
        invariant
            hi <= n == v.len(),
            forall|i: int| hi <= i < n ==> is_white_space(#[trigger] v@[i]),
        decreases hi,
    {
        hi = hi - 1;
    }
    proof {
        lemma_trim_end_take(v@, hi as int);
    }
    sub_chars(v, 0, hi)
}

/// A `String` holding exactly the characters of `v`.
pub fn string_of(v: &Vec<char>) -> (res: String)
    ensures
        res@ == v@,
{
    let mut out = String::new();
    let mut i: usize = 0;
    while i < v.len()
        invariant
            i <= v.len(),
            out@ == v@.take(i as int),
        decreases v.len() - i,
    {
        out.push(v[i]);
        i = i + 1;
        assert(out@ =~= v@.take(i as int));
    }
    assert(v@.take(v.len() as int) =~= v@);
    out
}

/// Appends the characters of `s` to `out`.
pub fn push_str(out: &mut String, s: &str)
    ensures
        final(out)@ == old(out)@ + s@,
{
    let cs = chars_of(s);
    let ghost start = out@;
    let mut i: usize = 0;
    while i < cs.len()
        invariant
            i <= cs.len(),
            cs@ == s@,
            out@ == start + cs@.take(i as int),
        decreases cs.len() - i,
    {
        out.push(cs[i]);
        i = i + 1;
        assert(out@ =~= start + cs@.take(i as int));
    }
    assert(cs@.take(cs.len() as int) =~= cs@);
}

/// Whether `a` and `b` hold the same characters.
pub fn same_text(a: &str, b: &str) -> (res: bool)
    ensures
        res == (a@ == b@),
{
    let x = chars_of(a);
    let y = chars_of(b);
    if x.len() != y.len() {
        return false;
    }
    let mut i: usize = 0;
    while i < x.len()
        invariant
            i <= x.len() == y.len(),
            x@ == a@,
            y@ == b@,
            forall|j: int| 0 <= j < i ==> x@[j] == y@[j],
        decreases x.len() - i,
    {
        if x[i] != y[i] {
            assert(x@[i as int] != y@[i as int]);
            return false;
        }
        i = i + 1;
    }
    assert(x@ =~= y@);
    true
}

// ---------------------------------------------------------------------------
// Splitting
// ---------------------------------------------------------------------------

/// The pieces of `s` between occurrences of `sep`, as `str::split` with a
/// character pattern: `n` separators give `n + 1` pieces, possibly empty.
pub open spec fn split_on(s: Seq<char>, sep: char) -> Seq<Seq<char>>
    decreases s.len(),
{
    if s.len() == 0 {
        seq![Seq::<char>::empty()]
    } else {
        let rest = split_on(s.drop_last(), sep);
        if s.last() == sep {
            rest.push(Seq::<char>::empty())
        } else {
            rest.update(rest.len() - 1, rest.last().push(s.last()))
        }
    }
}

proof fn lemma_split_on_nonempty(s: Seq<char>, sep: char)
    ensures
        split_on(s, sep).len() >= 1,
    decreases s.len(),
{
    if s.len() > 0 {
        lemma_split_on_nonempty(s.drop_last(), sep);
    }
}

/// Splitting at `sep` a text that ends in `sep` and a piece without `sep`
/// gives the pieces of the text before it, then that piece; a piece without
/// `sep` alone is one piece.
pub proof fn lemma_split_on_append(x: Seq<char>, w: Seq<char>, sep: char)
    requires
        forall|i: int| 0 <= i < w.len() ==> #[trigger] w[i] != sep,
    ensures
        split_on(x.push(sep) + w, sep) == split_on(x, sep).push(w),
        split_on(w, sep) == seq![w],
    decreases w.len(),
{
    if w.len() == 0 {
        assert(w =~= Seq::<char>::empty());
        assert(x.push(sep) + w =~= x.push(sep));
        assert(x.push(sep).drop_last() =~= x);
        assert(x.push(sep).last() == sep);
        assert(split_on(x.push(sep), sep) == split_on(x, sep).push(Seq::<char>::empty()));
    } else {
        let v = w.drop_last();
        lemma_split_on_append(x, v, sep);
        let y = x.push(sep) + w;
        assert(y.drop_last() =~= x.push(sep) + v);
        assert(y.last() == w.last());
        assert(w.last() != sep);
        assert(v.push(w.last()) =~= w);
        assert(split_on(y, sep) =~= split_on(x, sep).push(w));
        assert(split_on(w, sep) =~= seq![w]);
    }
}

/// The pieces of `v` between occurrences of `sep`.
pub fn split_chars(v: &Vec<char>, sep: char) -> (res: Vec<Vec<char>>)
    ensures
        res@.len() == split_on(v@, sep).len(),
        forall|i: int| 0 <= i < res@.len() ==> #[trigger] res@[i]@ == split_on(v@, sep)[i],
{
    let mut pieces: Vec<Vec<char>> = Vec::new();
    let mut cur: Vec<char> = Vec::new();
    let mut i: usize = 0;
    while i < v.len()
        invariant
            i <= v.len(),
            pieces@.len() + 1 == split_on(v@.take(i as int), sep).len(),
            forall|j: int|
                0 <= j < pieces@.len() ==> #[trigger] pieces@[j]@ == split_on(
                    v@.take(i as int),
                    sep,
                )[j],
            cur@ == split_on(v@.take(i as int), sep).last(),
        decreases v.len() - i,
    {
        let ghost prev = v@.take(i as int);
        proof {
            lemma_split_on_nonempty(prev, sep);
            assert(v@.take(i + 1).drop_last() =~= prev);
            assert(v@.take(i + 1).last() == v@[i as int]);
        }
        let c = v[i];
        if c == sep {
            let done = cur;
            pieces.push(done);
            cur = Vec::new();
        } else {
            cur.push(c);
        }
        i = i + 1;
    }
    proof {
        lemma_split_on_nonempty(v@.take(i as int), sep);
    }
    assert(v@.take(v.len() as int) =~= v@);
    pieces.push(cur);
    pieces
}

/// The words of `ws` separated by single spaces.
pub open spec fn join_words(ws: Seq<Seq<char>>) -> Seq<char>
    decreases ws.len(),
{
    if ws.len() == 0 {
        Seq::empty()
    } else if ws.len() == 1 {
        ws[0]
    } else {
        join_words(ws.drop_last()) + seq![' '] + ws.last()
    }
}

/// The first index of `c` in `s`, if any.
pub open spec fn find_char(s: Seq<char>, c: char) -> Option<int>
    decreases s.len(),
{
    if s.len() == 0 {
        None
    } else if s[0] == c {
        Some(0)
    } else {
        match find_char(s.drop_first(), c) {
            Some(k) => Some(k + 1),
            None => None,
        }
    }
}

pub proof fn lemma_find_char(s: Seq<char>, c: char, k: int)
    requires
        0 <= k <= s.len(),
        forall|i: int| 0 <= i < k ==> #[trigger] s[i] != c,
    ensures
        k == s.len() ==> find_char(s, c) is None,
        k < s.len() && s[k] == c ==> find_char(s, c) == Some(k),
    decreases k,
{
    if k == 0 {
        if s.len() == 0 {
        }
    } else {
        let t = s.drop_first();
        assert forall|i: int| 0 <= i < k - 1 implies #[trigger] t[i] != c by {
            assert(t[i] == s[i + 1]);
        }
        if k < s.len() {
            assert(t[k - 1] == s[k]);
        }
        lemma_find_char(t, c, k - 1);
    }
}

/// The index of the first `c` in `v`, as the position that `str::split_once`
/// splits at.
pub fn find_char_index(v: &Vec<char>, c: char) -> (res: Option<usize>)
    ensures
        match res {
            Some(k) => find_char(v@, c) == Some(k as int) && k < v.len() && v@[k as int] == c,
            None => find_char(v@, c) is None,
        },
{
    let mut i: usize = 0;
    while i < v.len()
        invariant
            i <= v.len(),
            forall|j: int| 0 <= j < i ==> #[trigger] v@[j] != c,
        decreases v.len() - i,
    {
        if v[i] == c {
            proof {
                lemma_find_char(v@, c, i as int);
            }
            return Some(i);
        }
        i = i + 1;
    }
    proof {
        lemma_find_char(v@, c, i as int);
    }
    None
}

/// The maximal runs of non-whitespace characters of `s`, as
/// `str::split_whitespace`.
pub open spec fn words(s: Seq<char>) -> Seq<Seq<char>>
    decreases s.len(),
{
    if s.len() == 0 {
        Seq::empty()
    } else {
        let rest = words(s.drop_last());
        let c = s.last();
        if is_white_space(c) {
            rest
        } else if s.len() >= 2 && !is_white_space(s[s.len() - 2]) && rest.len() > 0 {
            rest.update(rest.len() - 1, rest.last().push(c))
        } else {
            rest.push(seq![c])
        }
    }
}

/// A word written after whitespace (or at the start) is one more word.
pub proof fn lemma_words_append(x: Seq<char>, w: Seq<char>)
    requires
        w.len() >= 1,
        forall|i: int| 0 <= i < w.len() ==> !is_white_space(#[trigger] w[i]),
        x.len() == 0 || is_white_space(x.last()),
    ensures
        words(x + w) == words(x).push(w),
    decreases w.len(),
{
    let s = x + w;
    assert(s.last() == w[w.len() - 1]);
    if w.len() == 1 {
        assert(s.drop_last() =~= x);
        if s.len() >= 2 {
            assert(s[s.len() - 2] == x.last());
        }
        assert(w =~= seq![w[0]]);
    } else {
        let v = w.drop_last();
        lemma_words_append(x, v);
        assert(s.drop_last() =~= x + v);
        assert(s[s.len() - 2] == w[w.len() - 2]);
        assert(v.push(w.last()) =~= w);
        assert(words(s) =~= words(x).push(w));
    }
}

/// The whitespace-separated words of `v`.
pub fn split_words(v: &Vec<char>) -> (res: Vec<Vec<char>>)
    ensures
        res@.len() == words(v@).len(),
        forall|i: int| 0 <= i < res@.len() ==> #[trigger] res@[i]@ == words(v@)[i],
{
    let mut done: Vec<Vec<char>> = Vec::new();
    let mut cur: Vec<char> = Vec::new();
    let mut in_word = false;
    let mut i: usize = 0;
    while i < v.len()
        invariant
            i <= v.len(),
            in_word == (i > 0 && !is_white_space(v@[i - 1])),
            in_word ==> done@.len() + 1 == words(v@.take(i as int)).len(),
            !in_word ==> done@.len() == words(v@.take(i as int)).len(),
            forall|j: int|
                0 <= j < done@.len() ==> #[trigger] done@[j]@ == words(v@.take(i as int))[j],
            in_word ==> cur@ == words(v@.take(i as int)).last(),
        decreases v.len() - i,
    {
        let ghost prev = v@.take(i as int);
        proof {
            assert(v@.take(i + 1).drop_last() =~= prev);
            assert(v@.take(i + 1).last() == v@[i as int]);
            if i > 0 {
                assert(v@.take(i + 1)[i - 1] == v@[i - 1]);
            }
        }
        let c = v[i];
        if is_white_space_char(c) {
            if in_word {
                let w = cur;
                done.push(w);
                cur = Vec::new();
            }
            in_word = false;
        } else {
            if in_word {
                cur.push(c);
            } else {
                cur = Vec::new();
                cur.push(c);
                assert(cur@ =~= seq![c]);
            }
            in_word = true;
        }
        i = i + 1;
    }
    assert(v@.take(v.len() as int) =~= v@);
    if in_word {
        done.push(cur);
    }
    done
}

/// The number of bytes of the UTF-8 encoding of `c`.
pub open spec fn utf8_width(c: char) -> nat {
    let u = c as u32;
    if u < 0x80 {
        1
    } else if u < 0x800 {
        2
    } else if u < 0x10000 {
        3
    } else {
        4
    }
}

/// The number of bytes of the UTF-8 encoding of `s`, as `str::len`.
pub open spec fn utf8_size(s: Seq<char>) -> nat
    decreases s.len(),
{
    if s.len() == 0 {
        0
    } else {
        utf8_size(s.drop_last()) + utf8_width(s.last())
    }
}

/// Whether the UTF-8 encoding of `v` is exactly `n` bytes long.
pub fn utf8_size_is(v: &Vec<char>, n: usize) -> (res: bool)
    ensures
        res == (utf8_size(v@) == n),
{
    let mut total: u128 = 0;
    let mut i: usize = 0;
    while i < v.len()
        invariant
            i <= v.len(),
            total == utf8_size(v@.take(i as int)),
            total <= n,
        decreases v.len() - i,
    {
        proof {
            assert(v@.take(i + 1).drop_last() =~= v@.take(i as int));
        }
        let u = v[i] as u32;
        let w: u128 = if u < 0x80 {
            1
        } else if u < 0x800 {
            2
        } else if u < 0x10000 {
            3
        } else {
            4
        };
        total = total + w;
        i = i + 1;
        if total > n as u128 {
            proof {
                lemma_utf8_size_grows(v@, i as int);
            }
            return false;
        }
    }
    assert(v@.take(v.len() as int) =~= v@);
    total == n as u128
}

proof fn lemma_utf8_size_grows(s: Seq<char>, k: int)
    requires
        0 <= k <= s.len(),
    ensures
        utf8_size(s.take(k)) <= utf8_size(s),
    decreases s.len() - k,
{
    if k < s.len() {
        assert(s.take(k + 1).drop_last() =~= s.take(k));
        assert(utf8_size(s.take(k + 1)) == utf8_size(s.take(k)) + utf8_width(s.take(k + 1).last()));
        lemma_utf8_size_grows(s, k + 1);
    } else {
        assert(s.take(k) =~= s);
    }
}

// ---------------------------------------------------------------------------
// Rendering numbers
// ---------------------------------------------------------------------------

/// The upper-case digit for `d` in base 16 (and so in base 10 for `d < 10`).
pub open spec fn digit_char(d: nat) -> char {
    if d < 10 {
        (('0' as u32) + d) as char
    } else {
        (('A' as u32) + (d - 10)) as char
    }
}

/// The digits of `n` in base `radix`, most significant first, without
/// leading zeros (`"0"` for zero).
pub open spec fn digits(n: nat, radix: nat) -> Seq<char>
    decreases n,
{
    if radix < 2 || n < radix {
        seq![digit_char(n)]
    } else {
        proof {
            assert(n / radix < n) by (nonlinear_arith)
                requires
                    radix >= 2,
                    n >= radix,
            ;
        }
        digits(n / radix, radix).push(digit_char(n % radix))
    }
}

/// `s` padded on the left with `'0'` up to `width` characters.
pub open spec fn zero_pad(s: Seq<char>, width: nat) -> Seq<char> {
    if s.len() < width {
        Seq::new((width - s.len()) as nat, |i: int| '0') + s
    } else {
        s
    }
}

/// `format!("{:0w$X}", n)`: upper-case hexadecimal, zero-padded to `w`.
pub open spec fn hex_text(n: nat, width: nat) -> Seq<char> {
    zero_pad(digits(n, 16), width)
}

/// `n.to_string()`: decimal.
pub open spec fn dec_text(n: nat) -> Seq<char> {
    digits(n, 10)
}

fn digit_of(d: u64) -> (c: char)
    requires
        d < 16,
    ensures
        c == digit_char(d as nat),
{
    if d < 10 {
        let b: u8 = 48 + d as u8;
        b as char
    } else {
        let b: u8 = 65 + (d - 10) as u8;
        b as char
    }
}

/// The digits of `n` in base `radix`.
pub fn digits_string(n: u64, radix: u64) -> (res: Vec<char>)
    requires
        2 <= radix <= 16,
    ensures
        res@ == digits(n as nat, radix as nat),
        res@.len() >= 1,
    decreases n,
{
    if n < radix {
        let mut v = Vec::new();
        v.push(digit_of(n));
        assert(v@ =~= seq![digit_char(n as nat)]);
        v
    } else {
        assert(n / radix < n) by (nonlinear_arith)
            requires
                radix >= 2,
                n >= radix,
        ;
        let mut v = digits_string(n / radix, radix);
        v.push(digit_of(n % radix));
        v
    }
}

/// Appends the digits of `n` in base `radix`, zero-padded to `width`.
pub fn push_padded_digits(out: &mut String, n: u64, radix: u64, width: usize)
    requires
        2 <= radix <= 16,
    ensures
        final(out)@ == old(out)@ + zero_pad(digits(n as nat, radix as nat), width as nat),
{
    let ds = digits_string(n, radix);
    let ghost start = out@;
    let mut k: usize = ds.len();
    while k < width
        invariant
            ds.len() <= k <= width || (k == ds.len() && width < ds.len()),
            out@ == start + Seq::new((k - ds.len()) as nat, |i: int| '0'),
        decreases width - k,
    {
        out.push('0');
        k = k + 1;
        assert(out@ =~= start + Seq::new((k - ds.len()) as nat, |i: int| '0'));
    }
    let ghost padded = out@;
    let mut i: usize = 0;
    while i < ds.len()
        invariant
            i <= ds.len(),
            out@ == padded + ds@.take(i as int),
        decreases ds.len() - i,
    {
        out.push(ds[i]);
        i = i + 1;
        assert(out@ =~= padded + ds@.take(i as int));
    }
    assert(ds@.take(ds.len() as int) =~= ds@);
    if ds.len() < width {
        assert(out@ =~= start + zero_pad(digits(n as nat, radix as nat), width as nat));
    } else {
        assert(Seq::new(0nat, |i: int| '0') + ds@ =~= ds@);
        assert(out@ =~= start + zero_pad(digits(n as nat, radix as nat), width as nat));
    }
}

/// Appends `hex_text(n, width)` to `out`.
pub fn push_hex(out: &mut String, n: u64, width: usize)
    ensures
        final(out)@ == old(out)@ + hex_text(n as nat, width as nat),
{
    push_padded_digits(out, n, 16, width);
}

/// Appends `dec_text(n)` zero-padded to `width` to `out`.
pub fn push_dec_padded(out: &mut String, n: u64, width: usize)
    ensures
        final(out)@ == old(out)@ + zero_pad(dec_text(n as nat), width as nat),
{
    push_padded_digits(out, n, 10, width);
}

/// Appends `dec_text(n)` to `out`.
pub fn push_dec(out: &mut String, n: u64)
    ensures
        final(out)@ == old(out)@ + dec_text(n as nat),
{
    let ds = digits_string(n, 10);
    let ghost start = out@;
    let mut i: usize = 0;
    while i < ds.len()
        invariant
            i <= ds.len(),
            out@ == start + ds@.take(i as int),
        decreases ds.len() - i,
    {
        out.push(ds[i]);
        i = i + 1;
        assert(out@ =~= start + ds@.take(i as int));
    }
    assert(ds@.take(ds.len() as int) =~= ds@);
}

// ---------------------------------------------------------------------------
// Parsing numbers
// ---------------------------------------------------------------------------

/// The value of `c` as a digit in base `radix`, as `char::to_digit`.
pub open spec fn digit_value(c: char, radix: nat) -> Option<nat> {
    let u = c as u32;
    let v: int = if 0x30 <= u <= 0x39 {
        u - 0x30
    } else if 0x61 <= u <= 0x7a {
        u - 0x61 + 10
    } else if 0x41 <= u <= 0x5a {
        u - 0x41 + 10
    } else {
        radix as int
    };
    if v < radix {
        Some(v as nat)
    } else {
        None
    }
}

/// The value of the digit string `s` in base `radix`; `None` where a
/// character is no digit.
pub open spec fn digits_value(s: Seq<char>, radix: nat) -> Option<nat>
    decreases s.len(),
{
    if s.len() == 0 {
        Some(0)
    } else {
        match (digits_value(s.drop_last(), radix), digit_value(s.last(), radix)) {
            (Some(high), Some(low)) => Some(high * radix + low),
            _ => None,
        }
    }
}

/// `from_str_radix` for an unsigned type whose largest value is `max`: an
/// optional `+` sign, then at least one digit, and a value that fits.
pub open spec fn parse_unsigned(s: Seq<char>, radix: nat, max: nat) -> Option<nat> {
    if s.len() == 0 || s == seq!['+'] || s == seq!['-'] {
        None
    } else {
        let ds = if s[0] == '+' {
            s.drop_first()
        } else {
            s
        };
        match digits_value(ds, radix) {
            Some(v) => if v <= max {
                Some(v)
            } else {
                None
            },
            None => None,
        }
    }
}

proof fn lemma_digits_value_grows(s: Seq<char>, radix: nat, k: int, a: nat)
    requires
        1 <= radix,
        0 <= k <= s.len(),
        digits_value(s.take(k), radix) == Some(a),
    ensures
        digits_value(s, radix) matches Some(b) ==> a <= b,
    decreases s.len() - k,
{
    if k < s.len() {
        let t = s.take(k + 1);
        assert(t.drop_last() =~= s.take(k));
        match digit_value(t.last(), radix) {
            Some(low) => {
                assert(a * radix >= a) by (nonlinear_arith)
                    requires
                        radix >= 1,
                ;
                lemma_digits_value_grows(s, radix, k + 1, a * radix + low);
            },
            None => {
                lemma_digits_none_extends(s, radix, k + 1);
            },
        }
    } else {
        assert(s.take(k) =~= s);
    }
}

proof fn lemma_digits_none_extends(s: Seq<char>, radix: nat, k: int)
    requires
        0 <= k <= s.len(),
        digits_value(s.take(k), radix) is None,
    ensures
        digits_value(s, radix) is None,
    decreases s.len() - k,
{
    if k < s.len() {
        assert(s.take(k + 1).drop_last() =~= s.take(k));
        lemma_digits_none_extends(s, radix, k + 1);
    } else {
        assert(s.take(k) =~= s);
    }
}

/// A character that `digit_char` writes: `0`-`9` or `A`-`F`.
pub open spec fn is_upper_hex_digit(c: char) -> bool {
    let u = c as u32;
    (0x30 <= u <= 0x39) || (0x41 <= u <= 0x46)
}

proof fn lemma_digit_char(d: nat, radix: nat)
    requires
        d < radix <= 16,
    ensures
        is_upper_hex_digit(digit_char(d)),
        digit_value(digit_char(d), radix) == Some(d),
{
    if d < 10 {
        assert((((0x30 + d) as u32) as char) as u32 == 0x30 + d);
    } else {
        assert((((0x41 + (d - 10)) as u32) as char) as u32 == 0x41 + d - 10);
    }
}

/// The digits of `n` are digit characters, at least one, whose value is `n`.
pub proof fn lemma_digits_round_trip(n: nat, radix: nat)
    requires
        2 <= radix <= 16,
    ensures
        digits(n, radix).len() >= 1,
        forall|i: int|
            0 <= i < digits(n, radix).len() ==> is_upper_hex_digit(#[trigger] digits(n, radix)[i]),
        digits_value(digits(n, radix), radix) == Some(n),
        n < radix * radix ==> digits(n, radix).len() <= 2,
    decreases n,
{
    if n < radix {
        lemma_digit_char(n, radix);
        let s = digits(n, radix);
        assert(s == seq![digit_char(n)]);
        assert(s.drop_last() =~= Seq::<char>::empty());
        assert(s.last() == digit_char(n));
        assert(digits_value(s.drop_last(), radix) == Some(0nat));
        assert(0 * radix == 0) by (nonlinear_arith);
        assert(digits_value(s, radix) == Some(0 * radix + n));
    } else {
        let q = n / radix;
        let r = n % radix;
        assert(q < n && q * radix + r == n && r < radix) by (nonlinear_arith)
            requires
                radix >= 2,
                n >= radix,
                q == n / radix,
                r == n % radix,
        ;
        assert(n < radix * radix ==> q < radix) by (nonlinear_arith)
            requires
                radix >= 2,
                q == n / radix,
        ;
        lemma_digits_round_trip(q, radix);
        lemma_digit_char(r, radix);
        let s = digits(n, radix);
        assert(s.drop_last() =~= digits(q, radix));
        assert(s.last() == digit_char(r));
        assert(digits_value(s, radix) == Some(q * radix + r));
    }
}

/// Leading zeros do not change the value of a digit string.
proof fn lemma_zeros_prefix_value(p: Seq<char>, s: Seq<char>, radix: nat)
    requires
        radix >= 1,
        forall|i: int| 0 <= i < p.len() ==> #[trigger] p[i] == '0',
    ensures
        digits_value(p + s, radix) == digits_value(s, radix),
    decreases s.len() + p.len(),
{
    if s.len() == 0 {
        assert(p + s =~= p);
        if p.len() > 0 {
            assert(p.drop_last() + s =~= p.drop_last());
            lemma_zeros_prefix_value(p.drop_last(), s, radix);
            assert(p.last() == '0');
            assert(digit_value('0', radix) == Some(0nat));
            assert(0 * radix == 0) by (nonlinear_arith);
            assert(digits_value(p, radix) == Some(0 * radix + 0));
        }
    } else {
        assert((p + s).drop_last() =~= p + s.drop_last());
        assert((p + s).last() == s.last());
        lemma_zeros_prefix_value(p, s.drop_last(), radix);
    }
}

/// `hex_text(n, width)` is made of digit characters, has at least one and
/// at least `width`, and parses back to `n`; two digits for a byte.
pub proof fn lemma_hex_text_round_trip(n: nat, width: nat, max: nat)
    ensures
        hex_text(n, width).len() >= 1,
        hex_text(n, width).len() >= width,
        forall|i: int|
            0 <= i < hex_text(n, width).len() ==> is_upper_hex_digit(#[trigger] hex_text(n, width)[i]),
        digits_value(hex_text(n, width), 16) == Some(n),
        n <= max ==> parse_unsigned(hex_text(n, width), 16, max) == Some(n),
        n < 256 && width == 2 ==> hex_text(n, width).len() == 2,
{
    lemma_digits_round_trip(n, 16);
    let ds = digits(n, 16);
    let h = hex_text(n, width);
    if ds.len() < width {
        let p = Seq::new((width - ds.len()) as nat, |i: int| '0');
        lemma_zeros_prefix_value(p, ds, 16);
        assert forall|i: int| 0 <= i < h.len() implies is_upper_hex_digit(#[trigger] h[i]) by {
            if i < p.len() {
                assert(h[i] == '0');
            } else {
                assert(h[i] == ds[i - p.len()]);
            }
        }
    }
    assert(h[0] != '+');
    if h.len() == 1 {
        assert(h != seq!['-']);
    }
}

/// `s` is its own trim when it starts and ends with a non-whitespace
/// character.
pub proof fn lemma_trim_unchanged(s: Seq<char>)
    requires
        s.len() > 0,
        !is_white_space(s[0]),
        !is_white_space(s.last()),
    ensures
        trim(s) == s,
{
    lemma_trim_start_skip(s, 0);
    assert(s.skip(0) =~= s);
    lemma_trim_end_take(s, s.len() as int);
    assert(s.take(s.len() as int) =~= s);
}

fn digit_value_exec(c: char, radix: u32) -> (res: Option<u32>)
    requires
        2 <= radix <= 36,
    ensures
        match res {
            Some(d) => digit_value(c, radix as nat) == Some(d as nat),
            None => digit_value(c, radix as nat) is None,
        },
{
    let u = c as u32;
    let v: u32 = if 0x30 <= u && u <= 0x39 {
        u - 0x30
    } else if 0x61 <= u && u <= 0x7a {
        u - 0x61 + 10
    } else if 0x41 <= u && u <= 0x5a {
        u - 0x41 + 10
    } else {
        radix
    };
    if v < radix {
        Some(v)
    } else {
        None
    }
}

/// Parses the characters of `v` as `from_str_radix` does for an unsigned
/// type whose largest value is `max`.
pub fn parse_unsigned_chars(v: &Vec<char>, radix: u32, max: u64) -> (res: Option<u64>)
    requires
        2 <= radix <= 36,
    ensures
        match res {
            Some(n) => parse_unsigned(v@, radix as nat, max as nat) == Some(n as nat),
            None => parse_unsigned(v@, radix as nat, max as nat) is None,
        },
{
    let n = v.len();
    if n == 0 {
        return None;
    }
    if n == 1 && (v[0] == '+' || v[0] == '-') {
        assert(v@ =~= seq![v@[0]]);
        return None;
    }
    proof {
        if v@ == seq!['+'] || v@ == seq!['-'] {
            assert(v@[0] == '+' || v@[0] == '-');
        }
    }
    let start: usize = if v[0] == '+' {
        1
    } else {
        0
    };
    let ghost ds = v@.skip(start as int);
    assert(start == 1 ==> ds =~= v@.drop_first());
    assert(start == 0 ==> ds =~= v@);
    assert(parse_unsigned(v@, radix as nat, max as nat) == match digits_value(ds, radix as nat) {
        Some(x) => if x <= max {
            Some(x)
        } else {
            None
        },
        None => None,
    });
    let mut acc: u128 = 0;
    let mut i: usize = start;
    while i < n
        invariant
            start <= i <= n == v.len(),
            ds == v@.skip(start as int),
            digits_value(ds.take(i - start), radix as nat) == Some(acc as nat),
            acc <= max,
            2 <= radix <= 36,
            parse_unsigned(v@, radix as nat, max as nat) == match digits_value(ds, radix as nat) {
                Some(x) => if x <= max {
                    Some(x)
                } else {
                    None
                },
                None => None,
            },
        decreases n - i,
    {
        let ghost k = i - start;
        proof {
            assert(ds.take(k + 1).drop_last() =~= ds.take(k));
            assert(ds.take(k + 1).last() == v@[i as int]);
        }
        match digit_value_exec(v[i], radix) {
            Some(d) => {
                assert(acc * radix + d <= 0xffff_ffff_ffff_ffffu128 * 36 + 36) by (nonlinear_arith)
                    requires
                        acc <= 0xffff_ffff_ffff_ffffu128,
                        radix <= 36,
                        d < 36,
                ;
                acc = acc * (radix as u128) + (d as u128);
                i = i + 1;
                if acc > max as u128 {
                    proof {
                        lemma_digits_value_grows(ds, radix as nat, k + 1, acc as nat);
                    }
                    return None;
                }
            },
            None => {
                proof {
                    lemma_digits_none_extends(ds, radix as nat, k + 1);
                }
                return None;
            },
        }
    }
    assert(ds.take(n - start) =~= ds);
    Some(acc as u64)
}

// ---------------------------------------------------------------------------
// Prefixes, lines and ordering
// ---------------------------------------------------------------------------

/// Whether `p` is a prefix of `s`.
pub open spec fn has_prefix(s: Seq<char>, p: Seq<char>) -> bool {
    p.len() <= s.len() && s.take(p.len() as int) == p
}

/// Whether the characters of `v` begin with those of `p`.
pub fn starts_with_chars(v: &Vec<char>, p: &str) -> (res: bool)
    ensures
        res == has_prefix(v@, p@),
{
    let pc = chars_of(p);
    if pc.len() > v.len() {
        return false;
    }
    let mut i: usize = 0;
    while i < pc.len()
        invariant
            i <= pc.len() <= v.len(),
            pc@ == p@,
            forall|j: int| 0 <= j < i ==> v@[j] == pc@[j],
        decreases pc.len() - i,
    {
        if v[i] != pc[i] {
            assert(v@.take(pc.len() as int)[i as int] != p@[i as int]);
            return false;
        }
        i = i + 1;
    }
    assert(v@.take(pc.len() as int) =~= p@);
    true
}

/// `s` without one trailing carriage return.
pub open spec fn strip_cr(s: Seq<char>) -> Seq<char> {
    if s.len() > 0 && s.last() == '\r' {
        s.drop_last()
    } else {
        s
    }
}

/// The lines of `s`, as `str::lines`: split at line feeds, a carriage
/// return before a line feed dropped, no empty last line after a final
/// line feed.
pub open spec fn text_lines(s: Seq<char>) -> Seq<Seq<char>> {
    let pieces = split_on(s, '\n');
    let ended = pieces.drop_last().map_values(|l: Seq<char>| strip_cr(l));
    if pieces.last().len() == 0 {
        ended
    } else {
        ended.push(pieces.last())
    }
}

/// The lines of `v`.
pub fn lines_of(v: &Vec<char>) -> (res: Vec<Vec<char>>)
    ensures
        res@.len() == text_lines(v@).len(),
        forall|i: int| 0 <= i < res@.len() ==> #[trigger] res@[i]@ == text_lines(v@)[i],
{
    let pieces = split_chars(v, '\n');
    let ghost ps = split_on(v@, '\n');
    proof {
        lemma_split_on_nonempty(v@, '\n');
    }
    let n = pieces.len();
    let mut out: Vec<Vec<char>> = Vec::new();
    let mut i: usize = 0;
    while i + 1 < n
        invariant
            n == pieces.len() == ps.len() >= 1,
            i + 1 <= n,
            forall|j: int| 0 <= j < n ==> #[trigger] pieces@[j]@ == ps[j],
            out@.len() == i,
            forall|j: int| 0 <= j < i ==> #[trigger] out@[j]@ == strip_cr(ps[j]),
        decreases n - i,
    {
        let p = &pieces[i];
        if p.len() > 0 && p[p.len() - 1] == '\r' {
            out.push(sub_chars(p, 0, p.len() - 1));
        } else {
            out.push(sub_chars(p, 0, p.len()));
        }
        assert(out@[i as int]@ =~= strip_cr(ps[i as int]));
        i = i + 1;
    }
    let last = &pieces[n - 1];
    if last.len() > 0 {
        out.push(sub_chars(last, 0, last.len()));
        assert(out@[i as int]@ =~= ps.last());
    }
    out
}

/// `a` is at most `b` in lexicographic order of code points, the order of
/// `String`.
pub open spec fn text_le(a: Seq<char>, b: Seq<char>) -> bool
    decreases a.len(),
{
    if a.len() == 0 {
        true
    } else if b.len() == 0 {
        false
    } else if a[0] != b[0] {
        (a[0] as int) < (b[0] as int)
    } else {
        text_le(a.drop_first(), b.drop_first())
    }
}

proof fn lemma_text_le_reflexive(a: Seq<char>)
    ensures
        text_le(a, a),
    decreases a.len(),
{
    if a.len() > 0 {
        lemma_text_le_reflexive(a.drop_first());
    }
}

proof fn lemma_text_le_antisymmetric(a: Seq<char>, b: Seq<char>)
    requires
        text_le(a, b),
        text_le(b, a),
    ensures
        a == b,
    decreases a.len(),
{
    if a.len() > 0 && b.len() > 0 {
        lemma_text_le_antisymmetric(a.drop_first(), b.drop_first());
        assert(a =~= seq![a[0]] + a.drop_first());
        assert(b =~= seq![b[0]] + b.drop_first());
    } else {
        assert(a =~= b);
    }
}

proof fn lemma_text_le_transitive(a: Seq<char>, b: Seq<char>, c: Seq<char>)
    requires
        text_le(a, b),
        text_le(b, c),
    ensures
        text_le(a, c),
    decreases a.len(),
{
    if a.len() > 0 && b.len() > 0 && c.len() > 0 {
        if a[0] == b[0] && b[0] == c[0] {
            lemma_text_le_transitive(a.drop_first(), b.drop_first(), c.drop_first());
        }
    }
}

proof fn lemma_text_le_total(a: Seq<char>, b: Seq<char>)
    ensures
        text_le(a, b) || text_le(b, a),
    decreases a.len(),
{
    if a.len() > 0 && b.len() > 0 {
        if a[0] == b[0] {
            lemma_text_le_total(a.drop_first(), b.drop_first());
        } else {
            assert((a[0] as int) != (b[0] as int));
        }
    }
}

/// `text_le` as a relation.
pub open spec fn text_order() -> spec_fn(Seq<char>, Seq<char>) -> bool {
    |a: Seq<char>, b: Seq<char>| text_le(a, b)
}

/// `text_le` is a total order.
pub proof fn lemma_text_order_total()
    ensures
        vstd::relations::total_ordering(text_order()),
{
    assert forall|a: Seq<char>| #[trigger] text_order()(a, a) by {
        lemma_text_le_reflexive(a);
    }
    assert forall|a: Seq<char>, b: Seq<char>|
        #[trigger] text_order()(a, b) && #[trigger] text_order()(b, a) implies a == b by {
        lemma_text_le_antisymmetric(a, b);
    }
    assert forall|a: Seq<char>, b: Seq<char>, c: Seq<char>|
        #[trigger] text_order()(a, b) && #[trigger] text_order()(b, c) implies text_order()(a, c) by {
        lemma_text_le_transitive(a, b, c);
    }
    assert forall|a: Seq<char>, b: Seq<char>|
        #[trigger] text_order()(a, b) || #[trigger] text_order()(b, a) by {
        lemma_text_le_total(a, b);
    }
}

/// Whether `a` comes no later than `b` in the order of `String`.
pub fn texts_in_order(a: &Vec<char>, b: &Vec<char>) -> (res: bool)
    ensures
        res == text_le(a@, b@),
{
    let mut i: usize = 0;
    assert(a@.skip(0) =~= a@);
    assert(b@.skip(0) =~= b@);
    while i < a.len() && i < b.len() && a[i] == b[i]
        invariant
            i <= a.len(),
            i <= b.len(),
            text_le(a@, b@) == text_le(a@.skip(i as int), b@.skip(i as int)),
        decreases a.len() - i,
    {
        proof {
            assert(a@.skip(i as int).drop_first() =~= a@.skip(i + 1));
            assert(b@.skip(i as int).drop_first() =~= b@.skip(i + 1));
        }
        i = i + 1;
    }
    if i == a.len() {
        return true;
    }
    if i == b.len() {
        return false;
    }
    let x = a[i];
    let y = b[i];
    assert(a@.skip(i as int)[0] == x);
    assert(b@.skip(i as int)[0] == y);
    x < y
}

/// The texts separated by `, `.
pub open spec fn comma_joined(ws: Seq<Seq<char>>) -> Seq<char>
    decreases ws.len(),
{
    if ws.len() == 0 {
        Seq::empty()
    } else if ws.len() == 1 {
        ws[0]
    } else {
        comma_joined(ws.drop_last()) + ", "@ + ws.last()
    }
}

/// The texts of a list of strings.
pub open spec fn views_of(v: Seq<String>) -> Seq<Seq<char>> {
    v.map_values(|s: String| s@)
}

/// `items` sorted in the order of `String`.
pub fn sort_texts(items: Vec<String>) -> (res: Vec<String>)
    ensures
        views_of(res@) == views_of(items@).sort_by(text_order()),
{
    let ghost all = views_of(items@);
    let mut out: Vec<String> = Vec::new();
    let mut keys: Vec<Vec<char>> = Vec::new();
    let mut i: usize = 0;
    proof {
        assert(views_of(out@) =~= Seq::<Seq<char>>::empty());
        assert(all.take(0) =~= Seq::<Seq<char>>::empty());
    }
    while i < items.len()
        invariant
            i <= items.len(),
            all == views_of(items@),
            keys@.len() == out@.len(),
            forall|j: int| 0 <= j < keys@.len() ==> #[trigger] keys@[j]@ == out@[j]@,
            vstd::relations::sorted_by(views_of(out@), text_order()),
            views_of(out@).to_multiset() == all.take(i as int).to_multiset(),
        decreases items.len() - i,
    {
        let x = chars_of(items[i].as_str());
        let mut p: usize = 0;
        while p < keys.len() && texts_in_order(&keys[p], &x)
            invariant
                p <= keys.len(),
                keys@.len() == out@.len(),
                forall|j: int| 0 <= j < keys@.len() ==> #[trigger] keys@[j]@ == out@[j]@,
                forall|j: int| 0 <= j < p ==> text_le(#[trigger] keys@[j]@, x@),
            decreases keys.len() - p,
        {
            p = p + 1;
        }
        let ghost before = views_of(out@);
        proof {
            lemma_text_order_total();
            assert forall|j: int| p <= j < before.len() implies text_le(x@, #[trigger] before[j]) by {
                assert(!text_le(keys@[p as int]@, x@));
                lemma_text_le_total(keys@[p as int]@, x@);
                if j > p {
                    assert(text_order()(before[p as int], before[j]));
                    lemma_text_le_transitive(x@, before[p as int], before[j]);
                }
            }
        }
        let item = items[i].clone();
        out.insert(p, item);
        keys.insert(p, x);
        proof {
            assert(views_of(out@) =~= before.insert(p as int, items@[i as int]@));
            vstd::seq_lib::to_multiset_insert(before, p as int, items@[i as int]@);
            assert(all.take(i + 1) =~= all.take(i as int).push(all[i as int]));
            vstd::seq_lib::to_multiset_build(all.take(i as int), all[i as int]);
            let now = views_of(out@);
            let xv = items@[i as int]@;
            assert(xv == x@);
            assert forall|j: int| 0 <= j < p implies text_le(#[trigger] before[j], xv) by {
                assert(keys@[j]@ == out@[j]@);
            }
            assert forall|a: int, b: int| 0 <= a < b < now.len() implies #[trigger] text_order()(
                now[a],
                now[b],
            ) by {
                if b < p {
                    assert(now[a] == before[a] && now[b] == before[b]);
                    assert(text_order()(before[a], before[b]));
                } else if a < p && b == p {
                    assert(now[a] == before[a] && now[b] == xv);
                    assert(text_le(before[a], xv));
                } else if a < p && b > p {
                    assert(now[a] == before[a] && now[b] == before[b - 1]);
                    assert(text_order()(before[a], before[b - 1]));
                } else if a == p {
                    assert(now[a] == xv && now[b] == before[b - 1]);
                    assert(text_le(xv, before[b - 1]));
                } else {
                    assert(now[a] == before[a - 1] && now[b] == before[b - 1]);
                    assert(text_order()(before[a - 1], before[b - 1]));
                }
            }
        }
        i = i + 1;
    }
    proof {
        assert(all.take(items.len() as int) =~= all);
        lemma_text_order_total();
        all.lemma_sort_by_ensures(text_order());
        vstd::seq_lib::lemma_sorted_unique(views_of(out@), all.sort_by(text_order()), text_order());
    }
    out
}

} // verus!
