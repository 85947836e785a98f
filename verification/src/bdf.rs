//! Which BDF font files the font reader is handed. The reader stops with a
//! panic on a few inputs (vertical metrics, which it does not support, a
//! property without a value, more glyphs than the file announced), so the
//! library reads only files that keep well away from them: plain ASCII
//! text, without vertical metrics, whose announced properties all have a
//! value and whose glyphs are no more than announced.

use vstd::prelude::*;

verus! {

/// A blank inside a line.
pub open spec fn is_blank_byte(c: u8) -> bool {
    c == 32 || c == 9
}

/// Printable ASCII, tabs and line feeds.
pub open spec fn allowed_byte(c: u8) -> bool {
    (32 <= c && c <= 126) || c == 9 || c == 10
}

/// Where the line starting at `i` ends: at the first line feed from `i` on,
/// or at the end of the text.
pub open spec fn line_end(b: Seq<u8>, i: int) -> int
    decreases b.len() - i,
{
    if i < 0 || i >= b.len() || b[i] == 10 {
        i
    } else {
        line_end(b, i + 1)
    }
}

pub proof fn lemma_line_end(b: Seq<u8>, i: int)
    requires
        0 <= i,
    ensures
        i <= line_end(b, i),
        line_end(b, i) <= b.len() || line_end(b, i) == i,
        forall|k: int| i <= k < line_end(b, i) ==> b[k] != 10,
        line_end(b, i) < b.len() ==> b[line_end(b, i)] == 10,
    decreases b.len() - i,
{
    if i < b.len() && b[i] != 10 {
        lemma_line_end(b, i + 1);
    }
}

/// Whether the line `l` holds nothing but blanks.
pub open spec fn blank_line(l: Seq<u8>) -> bool {
    forall|k: int| 0 <= k < l.len() ==> is_blank_byte(#[trigger] l[k])
}

/// Whether the line `l` holds a blank somewhere.
pub open spec fn has_blank(l: Seq<u8>) -> bool {
    exists|k: int| 0 <= k < l.len() && is_blank_byte(#[trigger] l[k])
}

/// Whether the first word of the line `l` is `word`.
pub open spec fn first_word_is(l: Seq<u8>, word: Seq<u8>) -> bool {
    &&& word.len() <= l.len()
    &&& l.take(word.len() as int) == word
    &&& (l.len() == word.len() || is_blank_byte(l[word.len() as int]))
}

/// The number that decimal digits stand for.
pub open spec fn digits_value(s: Seq<u8>) -> int
    decreases s.len(),
{
    if s.len() == 0 {
        0
    } else {
        digits_value(s.drop_last()) * 10 + (s.last() - 48)
    }
}

/// The count on a line that is `word`, one space and one to nine decimal
/// digits, or `None` for a line of another form.
pub open spec fn count_on(l: Seq<u8>, word: Seq<u8>) -> Option<int> {
    let digits = l.skip(word.len() as int + 1);
    if word.len() + 1 < l.len() && l.take(word.len() as int) == word && l[word.len() as int] == 32
        && digits.len() <= 9 && (forall|k: int| 0 <= k < digits.len() ==> 48 <= #[trigger] digits[k] <= 57) {
        Some(digits_value(digits))
    } else {
        None
    }
}

pub open spec fn word_metricsset() -> Seq<u8> {
    seq![77u8, 69, 84, 82, 73, 67, 83, 83, 69, 84]
}

pub open spec fn word_swidth1() -> Seq<u8> {
    seq![83u8, 87, 73, 68, 84, 72, 49]
}

pub open spec fn word_dwidth1() -> Seq<u8> {
    seq![68u8, 87, 73, 68, 84, 72, 49]
}

pub open spec fn word_vvector() -> Seq<u8> {
    seq![86u8, 86, 69, 67, 84, 79, 82]
}

pub open spec fn word_startproperties() -> Seq<u8> {
    seq![83u8, 84, 65, 82, 84, 80, 82, 79, 80, 69, 82, 84, 73, 69, 83]
}

pub open spec fn word_chars() -> Seq<u8> {
    seq![67u8, 72, 65, 82, 83]
}

pub open spec fn word_endchar() -> Seq<u8> {
    seq![69u8, 78, 68, 67, 72, 65, 82]
}

/// Whether the line's first word is one of vertical metrics.
pub open spec fn vertical_line(l: Seq<u8>) -> bool {
    first_word_is(l, word_metricsset()) || first_word_is(l, word_swidth1()) || first_word_is(l, word_dwidth1())
        || first_word_is(l, word_vvector())
}

/// The state of the scan after the line `l`, from `props`, the number of
/// following non-blank lines that must hold a blank (they may be
/// properties), and `glyphs`, the number of glyphs that may still end (none
/// announced yet when `None`); or `None` when the line is refused.
pub open spec fn after_line(l: Seq<u8>, props: int, glyphs: Option<int>) -> Option<(int, Option<int>)> {
    let blank = blank_line(l);
    let props1 = if blank || props <= 0 { props } else { props - 1 };
    if vertical_line(l) || (!blank && props > 0 && !has_blank(l)) {
        None
    } else if first_word_is(l, word_startproperties()) {
        match count_on(l, word_startproperties()) {
            Some(n) => Some((if props1 >= n { props1 } else { n }, glyphs)),
            None => None,
        }
    } else if first_word_is(l, word_chars()) {
        match count_on(l, word_chars()) {
            Some(n) => Some(
                (
                    props1,
                    Some(
                        match glyphs {
                            Some(g) => if g <= n { g } else { n },
                            None => n,
                        },
                    ),
                ),
            ),
            None => None,
        }
    } else if first_word_is(l, word_endchar()) {
        match glyphs {
            Some(g) => if g >= 1 { Some((props1, Some(g - 1))) } else { None },
            None => Some((props1, glyphs)),
        }
    } else {
        Some((props1, glyphs))
    }
}

/// Whether the lines of `b` from the one starting at `i` pass the scan from
/// its state (`props`, `glyphs`).
pub open spec fn lines_pass(b: Seq<u8>, i: int, props: int, glyphs: Option<int>) -> bool
    decreases b.len() - i,
{
    if i < 0 || i >= b.len() {
        true
    } else {
        proof {
            lemma_line_end(b, i);
        }
        let e = line_end(b, i);
        match after_line(b.subrange(i, e), props, glyphs) {
            Some((p, g)) => e >= b.len() || lines_pass(b, e + 1, p, g),
            None => false,
        }
    }
}

/// Whether the font reader is handed `b`: plain text whose lines pass the
/// scan.
pub open spec fn bdf_readable(b: Seq<u8>) -> bool {
    &&& forall|k: int| 0 <= k < b.len() ==> allowed_byte(#[trigger] b[k])
    &&& lines_pass(b, 0, 0, None)
}

fn word(w: Ghost<Seq<u8>>, bytes: Vec<u8>) -> (res: Vec<u8>)
    requires
        bytes@ == w@,
    ensures
        res@ == w@,
{
    bytes
}

/// Where the line starting at `i` ends.
fn line_end_exec(b: &[u8], i: usize) -> (e: usize)
    requires
        i < b@.len(),
    ensures
        e as int == line_end(b@, i as int),
        i <= e <= b@.len(),
{
    let mut e = i;
    while e < b.len() && b[e] != 10
        invariant
            i <= e <= b@.len(),
            line_end(b@, e as int) == line_end(b@, i as int),
        decreases b@.len() - e,
    {
        e = e + 1;
    }
    e
}

fn blank_exec(b: &[u8], i: usize, e: usize) -> (res: bool)
    requires
        i <= e <= b@.len(),
    ensures
        res == blank_line(b@.subrange(i as int, e as int)),
{
    let ghost l = b@.subrange(i as int, e as int);
    let mut k = i;
    while k < e
        invariant
            i <= k <= e <= b@.len(),
            l == b@.subrange(i as int, e as int),
            forall|j: int| 0 <= j < k - i ==> is_blank_byte(#[trigger] l[j]),
        decreases e - k,
    {
        if !(b[k] == 32 || b[k] == 9) {
            assert(!is_blank_byte(l[k - i]));
            return false;
        }
        k = k + 1;
    }
    true
}

fn has_blank_exec(b: &[u8], i: usize, e: usize) -> (res: bool)
    requires
        i <= e <= b@.len(),
    ensures
        res == has_blank(b@.subrange(i as int, e as int)),
{
    let ghost l = b@.subrange(i as int, e as int);
    let mut k = i;
    while k < e
        invariant
            i <= k <= e <= b@.len(),
            l == b@.subrange(i as int, e as int),
            forall|j: int| 0 <= j < k - i ==> !is_blank_byte(#[trigger] l[j]),
        decreases e - k,
    {
        if b[k] == 32 || b[k] == 9 {
            assert(is_blank_byte(l[k - i]));
            return true;
        }
        k = k + 1;
    }
    false
}

/// Whether the bytes of `b` from `i` on start with `w`.
fn starts_with_exec(b: &[u8], i: usize, e: usize, w: &Vec<u8>) -> (res: bool)
    requires
        i <= e <= b@.len(),
    ensures
        res == (w@.len() <= e - i && b@.subrange(i as int, e as int).take(w@.len() as int) == w@),
{
    let ghost l = b@.subrange(i as int, e as int);
    if w.len() > e - i {
        return false;
    }
    let mut k: usize = 0;
    while k < w.len()
        invariant
            k <= w@.len() <= e - i,
            i <= e <= b@.len(),
            l == b@.subrange(i as int, e as int),
            forall|j: int| 0 <= j < k ==> #[trigger] l[j] == w@[j],
        decreases w@.len() - k,
    {
        if b[i + k] != w[k] {
            assert(l.take(w@.len() as int)[k as int] != w@[k as int]);
            return false;
        }
        k = k + 1;
    }
    assert(l.take(w@.len() as int) =~= w@);
    true
}

fn first_word_exec(b: &[u8], i: usize, e: usize, w: &Vec<u8>) -> (res: bool)
    requires
        i <= e <= b@.len(),
    ensures
        res == first_word_is(b@.subrange(i as int, e as int), w@),
{
    if !starts_with_exec(b, i, e, w) {
        return false;
    }
    let n = w.len();
    n == e - i || b[i + n] == 32 || b[i + n] == 9
}

/// The count on the line from `i` to `e` after `w`, as [`count_on`] says.
fn count_exec(b: &[u8], i: usize, e: usize, w: &Vec<u8>) -> (res: Option<u64>)
    requires
        i <= e <= b@.len(),
    ensures
        match count_on(b@.subrange(i as int, e as int), w@) {
            Some(n) => res == Some(n as u64) && 0 <= n <= 999_999_999,
            None => res is None,
        },
{
    let ghost l = b@.subrange(i as int, e as int);
    let n = w.len();
    if !(n < e - i && e - i - n > 1) {
        return None;
    }
    if !starts_with_exec(b, i, e, w) {
        return None;
    }
    if b[i + n] != 32 {
        assert(l[n as int] != 32);
        return None;
    }
    if e - (i + n + 1) > 9 {
        assert(l.skip(n + 1).len() > 9);
        return None;
    }
    let start = i + n + 1;
    let ghost digits = l.skip(w@.len() as int + 1);
    assert(digits =~= b@.subrange(start as int, e as int));
    let mut v: u64 = 0;
    let mut k = start;
    while k < e
        invariant
            start <= k <= e <= b@.len(),
            e - start <= 9,
            l == b@.subrange(i as int, e as int),
            digits == l.skip(w@.len() as int + 1),
            digits == b@.subrange(start as int, e as int),
            forall|j: int| 0 <= j < k - start ==> 48 <= #[trigger] digits[j] <= 57,
            v as int == digits_value(digits.take(k - start)),
            v < pow10(k - start),
        decreases e - k,
    {
        let c = b[k];
        if c < 48 || c > 57 {
            assert(!(48 <= digits[k - start] <= 57));
            return None;
        }
        proof {
            assert(digits.take(k - start + 1).drop_last() =~= digits.take(k - start));
            assert(digits.take(k - start + 1).last() == c);
            lemma_pow10_step(k - start);
            lemma_pow10_bound(k - start);
        }
        v = v * 10 + (c - 48) as u64;
        k = k + 1;
    }
    assert(digits.take(e - start) =~= digits);
    proof {
        lemma_pow10_bound(e - start);
        assert(count_on(l, w@) == Some(digits_value(digits)));
    }
    Some(v)
}

/// Ten to the `n`.
pub open spec fn pow10(n: int) -> int
    decreases n,
{
    if n <= 0 {
        1
    } else {
        10 * pow10(n - 1)
    }
}

proof fn lemma_pow10_step(n: int)
    requires
        0 <= n,
    ensures
        pow10(n + 1) == 10 * pow10(n),
{
}

proof fn lemma_pow10_bound(n: int)
    requires
        0 <= n <= 9,
    ensures
        pow10(n) <= 1_000_000_000,
{
    reveal_with_fuel(pow10, 10);
    if n == 0 {
    } else if n == 1 {
    } else if n == 2 {
    } else if n == 3 {
    } else if n == 4 {
    } else if n == 5 {
    } else if n == 6 {
    } else if n == 7 {
    } else if n == 8 {
    } else {
        assert(pow10(9) == 1_000_000_000);
    }
}

/// The scan's state as integers.
pub open spec fn glyphs_view(g: Option<u64>) -> Option<int> {
    match g {
        Some(n) => Some(n as int),
        None => None,
    }
}

fn after_line_exec(b: &[u8], i: usize, e: usize, props: u64, glyphs: Option<u64>) -> (res: Option<(u64, Option<u64>)>)
    requires
        i <= e <= b@.len(),
        props <= 999_999_999,
        glyphs matches Some(g) ==> g <= 999_999_999,
    ensures
        match after_line(b@.subrange(i as int, e as int), props as int, glyphs_view(glyphs)) {
            Some((p, g)) => res matches Some(r) && r.0 as int == p && glyphs_view(r.1) == g && r.0 <= 999_999_999
                && (r.1 matches Some(n) ==> n <= 999_999_999),
            None => res is None,
        },
{
    let blank = blank_exec(b, i, e);
    let props1 = if blank || props == 0 { props } else { props - 1 };
    let vertical = first_word_exec(b, i, e, &word(Ghost(word_metricsset()), vec![77u8, 69, 84, 82, 73, 67, 83, 83, 69, 84]))
        || first_word_exec(b, i, e, &word(Ghost(word_swidth1()), vec![83u8, 87, 73, 68, 84, 72, 49]))
        || first_word_exec(b, i, e, &word(Ghost(word_dwidth1()), vec![68u8, 87, 73, 68, 84, 72, 49]))
        || first_word_exec(b, i, e, &word(Ghost(word_vvector()), vec![86u8, 86, 69, 67, 84, 79, 82]));
    if vertical || (!blank && props > 0 && !has_blank_exec(b, i, e)) {
        return None;
    }
    let sp = word(Ghost(word_startproperties()), vec![83u8, 84, 65, 82, 84, 80, 82, 79, 80, 69, 82, 84, 73, 69, 83]);
    let chars = word(Ghost(word_chars()), vec![67u8, 72, 65, 82, 83]);
    let endchar = word(Ghost(word_endchar()), vec![69u8, 78, 68, 67, 72, 65, 82]);
    if first_word_exec(b, i, e, &sp) {
        match count_exec(b, i, e, &sp) {
            Some(n) => Some((if props1 >= n { props1 } else { n }, glyphs)),
            None => None,
        }
    } else if first_word_exec(b, i, e, &chars) {
        match count_exec(b, i, e, &chars) {
            Some(n) => Some(
                (
                    props1,
                    Some(
                        match glyphs {
                            Some(g) => if g <= n { g } else { n },
                            None => n,
                        },
                    ),
                ),
            ),
            None => None,
        }
    } else if first_word_exec(b, i, e, &endchar) {
        match glyphs {
            Some(g) => if g >= 1 { Some((props1, Some(g - 1))) } else { None },
            None => Some((props1, glyphs)),
        }
    } else {
        Some((props1, glyphs))
    }
}

/// Whether the font reader is handed `b`: see [`bdf_readable`].
pub fn bdf_checked(b: &[u8]) -> (res: bool)
    ensures
        res == bdf_readable(b@),
{
    let mut k: usize = 0;
    while k < b.len()
        invariant
            k <= b@.len(),
            forall|j: int| 0 <= j < k ==> allowed_byte(#[trigger] b@[j]),
        decreases b@.len() - k,
    {
        let c = b[k];
        if !((32 <= c && c <= 126) || c == 9 || c == 10) {
            assert(!allowed_byte(b@[k as int]));
            return false;
        }
        k = k + 1;
    }
    let mut i: usize = 0;
    let mut props: u64 = 0;
    let mut glyphs: Option<u64> = None;
    while i < b.len()
        invariant
            i <= b@.len(),
            props <= 999_999_999,
            glyphs matches Some(g) ==> g <= 999_999_999,
            lines_pass(b@, 0, 0, None) == lines_pass(b@, i as int, props as int, glyphs_view(glyphs)),
        decreases b@.len() - i,
    {
        let e = line_end_exec(b, i);
        proof {
            lemma_line_end(b@, i as int);
        }
        match after_line_exec(b, i, e, props, glyphs) {
            None => {
                return false;
            },
            Some((p, g)) => {
                props = p;
                glyphs = g;
            },
        }
        if e >= b.len() {
            i = b.len();
        } else {
            i = e + 1;
        }
    }
    true
}

} // verus!
