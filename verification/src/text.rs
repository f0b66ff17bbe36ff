//! Character-level text handling on `str` and `String`, with its specification over
//! `Seq<char>`.

use vstd::prelude::*;

verus! {

broadcast use vstd::string::group_string_axioms;

// ---------------------------------------------------------------------------------------
// Specification
// ---------------------------------------------------------------------------------------

/// Unicode `White_Space`, the property that `char::is_whitespace` and `str::trim` use.
pub open spec fn is_white(c: char) -> bool {
    let u = c as u32;
    ||| 0x09 <= u <= 0x0d
    ||| u == 0x20
    ||| u == 0x85
    ||| u == 0xa0
    ||| u == 0x1680
    ||| 0x2000 <= u <= 0x200a
    ||| u == 0x2028
    ||| u == 0x2029
    ||| u == 0x202f
    ||| u == 0x205f
    ||| u == 0x3000
}

/// `s` with its leading white space removed.
pub open spec fn trim_start(s: Seq<char>) -> Seq<char>
    decreases s.len(),
{
    if s.len() > 0 && is_white(s[0]) {
        trim_start(s.drop_first())
    } else {
        s
    }
}

/// `s` with its trailing white space removed.
pub open spec fn trim_end(s: Seq<char>) -> Seq<char>
    decreases s.len(),
{
    if s.len() > 0 && is_white(s.last()) {
        trim_end(s.drop_last())
    } else {
        s
    }
}

/// `s` with white space removed at both ends, as `str::trim` does.
pub open spec fn trim(s: Seq<char>) -> Seq<char> {
    trim_end(trim_start(s))
}

/// `s` with every leading `c` removed, as `str::trim_start_matches` does with a `char`.
pub open spec fn trim_start_char(s: Seq<char>, c: char) -> Seq<char>
    decreases s.len(),
{
    if s.len() > 0 && s[0] == c {
        trim_start_char(s.drop_first(), c)
    } else {
        s
    }
}

/// `p` occurs in `s` starting at index `i`.
pub open spec fn matches_at(s: Seq<char>, p: Seq<char>, i: int) -> bool {
    0 <= i && i + p.len() <= s.len() && s.subrange(i, i + p.len()) == p
}

/// The first index at or after `start` where the non-empty pattern `p` occurs in `s`.
pub open spec fn find_from(s: Seq<char>, p: Seq<char>, start: int) -> Option<int>
    decreases s.len() - start,
{
    if p.len() == 0 || start < 0 || start + p.len() > s.len() {
        None
    } else if s.subrange(start, start + p.len()) == p {
        Some(start)
    } else {
        find_from(s, p, start + 1)
    }
}

/// `s` contains the non-empty pattern `p`.
pub open spec fn contains_pattern(s: Seq<char>, p: Seq<char>) -> bool {
    find_from(s, p, 0) is Some
}

/// The first index at or after `start` that holds `c`.
pub open spec fn find_char_from(s: Seq<char>, c: char, start: int) -> Option<int>
    decreases s.len() - start,
{
    if start < 0 || start >= s.len() {
        None
    } else if s[start] == c {
        Some(start)
    } else {
        find_char_from(s, c, start + 1)
    }
}

/// The second piece of `s` split at the non-empty pattern `p`, as `s.split(p).nth(1)`:
/// the text after the first occurrence of `p` up to the next occurrence, or to the end.
pub open spec fn second_piece(s: Seq<char>, p: Seq<char>) -> Option<Seq<char>> {
    match find_from(s, p, 0) {
        None => None,
        Some(i) => {
            let start = i + p.len();
            match find_from(s, p, start) {
                Some(j) => Some(s.subrange(start, j)),
                None => Some(s.subrange(start, s.len() as int)),
            }
        },
    }
}

/// The end of the comma-separated piece of `s` that starts at `start`.
pub open spec fn piece_end(s: Seq<char>, start: int) -> int {
    match find_char_from(s, ',', start) {
        Some(k) => k,
        None => s.len() as int,
    }
}

/// The comma-separated pieces of `s` from `start` on, as long as no piece holds a `=`:
/// `s.split(",").take_while(|p| !p.contains("="))`, from the piece starting at `start`.
pub open spec fn pieces_before_assignment(s: Seq<char>, start: int) -> Seq<Seq<char>>
    decreases s.len() - start,
{
    if start < 0 || start > s.len() {
        Seq::empty()
    } else {
        let end = piece_end(s, start);
        let piece = s.subrange(start, end);
        if piece.contains('=') {
            Seq::empty()
        } else if end >= s.len() {
            seq![piece]
        } else {
            proof {
                lemma_find_char_from(s, ',', start);
            }
            seq![piece] + pieces_before_assignment(s, end + 1)
        }
    }
}

/// The concatenation of `pieces`, as `join("")`.
pub open spec fn concat_all(pieces: Seq<Seq<char>>) -> Seq<char>
    decreases pieces.len(),
{
    if pieces.len() == 0 {
        Seq::empty()
    } else {
        concat_all(pieces.drop_last()) + pieces.last()
    }
}

/// ASCII lower case of `c`; any other character is kept.
pub open spec fn lower_char(c: char) -> char {
    if 'A' <= c <= 'Z' {
        ((c as u32) + 32) as char
    } else {
        c
    }
}

/// `s` with every ASCII upper-case letter made lower case.
pub open spec fn lower(s: Seq<char>) -> Seq<char> {
    s.map_values(|c: char| lower_char(c))
}

/// `c` is an ASCII decimal digit.
pub open spec fn is_digit(c: char) -> bool {
    '0' <= c <= '9'
}

/// The value of the ASCII decimal digit `c`.
pub open spec fn digit_value(c: char) -> nat {
    ((c as u32) - ('0' as u32)) as nat
}

/// The value of a sequence of ASCII decimal digits.
pub open spec fn decimal_value(s: Seq<char>) -> nat
    decreases s.len(),
{
    if s.len() == 0 {
        0
    } else {
        decimal_value(s.drop_last()) * 10 + digit_value(s.last())
    }
}

/// Every character of `s` is an ASCII digit.
pub open spec fn all_digits(s: Seq<char>) -> bool {
    forall|i: int| 0 <= i < s.len() ==> is_digit(#[trigger] s[i])
}

/// The digits that `u64::from_str` reads: all of `s`, or all of it after one leading `+`.
pub open spec fn unsigned_digits(s: Seq<char>) -> Seq<char> {
    if s.len() > 0 && s[0] == '+' {
        s.drop_first()
    } else {
        s
    }
}

/// What `u64::from_str` gives for `s`: an optional `+`, then at least one ASCII digit,
/// with a value that fits in `u64`.
pub open spec fn parse_u64_spec(s: Seq<char>) -> Option<u64> {
    let d = unsigned_digits(s);
    if d.len() > 0 && all_digits(d) && decimal_value(d) <= u64::MAX {
        Some(decimal_value(d) as u64)
    } else {
        None
    }
}

/// The decimal digits of `n`, without leading zeros.
pub open spec fn decimal_string(n: nat) -> Seq<char>
    decreases n,
{
    if n < 10 {
        seq![digit_char(n)]
    } else {
        decimal_string(n / 10) + seq![digit_char(n % 10)]
    }
}

/// The two decimal digits of `n < 100`, with a leading zero below ten.
pub open spec fn two_digits(n: nat) -> Seq<char> {
    seq![digit_char(n / 10), digit_char(n % 10)]
}

/// The ASCII digit for `d < 10`.
pub open spec fn digit_char(d: nat) -> char {
    (('0' as u32) + d) as char
}

/// The index just past the run of non-white characters that starts at `i`.
pub open spec fn word_end(s: Seq<char>, i: int) -> int
    decreases s.len() - i,
{
    if i < 0 || i >= s.len() || is_white(s[i]) {
        i
    } else {
        word_end(s, i + 1)
    }
}

/// The white-space separated words of `s` from `start` on, as `str::split_whitespace`.
pub open spec fn words_from(s: Seq<char>, start: int) -> Seq<Seq<char>>
    decreases s.len() - start,
{
    if start < 0 || start >= s.len() {
        Seq::empty()
    } else if is_white(s[start]) {
        words_from(s, start + 1)
    } else {
        proof {
            lemma_word_end(s, start + 1);
        }
        seq![s.subrange(start, word_end(s, start))] + words_from(s, word_end(s, start))
    }
}

/// A line as `str::lines` yields it: one trailing `\r` is dropped.
pub open spec fn strip_cr(line: Seq<char>) -> Seq<char> {
    if line.len() > 0 && line.last() == '\r' {
        line.drop_last()
    } else {
        line
    }
}

/// The lines of `s` from `start` on, as `str::lines`: split after each `\n`, with the
/// line ending (`\n` or `\r\n`) removed and no empty line after a final `\n`.
pub open spec fn lines_from(s: Seq<char>, start: int) -> Seq<Seq<char>>
    decreases s.len() - start,
{
    if start < 0 || start >= s.len() {
        Seq::empty()
    } else {
        match find_char_from(s, '\n', start) {
            None => seq![s.subrange(start, s.len() as int)],
            Some(k) => {
                proof {
                    lemma_find_char_from(s, '\n', start);
                }
                seq![strip_cr(s.subrange(start, k))] + lines_from(s, k + 1)
            },
        }
    }
}

/// The lines of `s`, as `str::lines`.
pub open spec fn lines(s: Seq<char>) -> Seq<Seq<char>> {
    lines_from(s, 0)
}

/// The pieces of `s` that the ranges select.
pub open spec fn ranges_view(s: Seq<char>, ranges: Seq<(usize, usize)>) -> Seq<Seq<char>> {
    ranges.map_values(|r: (usize, usize)| s.subrange(r.0 as int, r.1 as int))
}

/// Every range selects a part of `s`.
pub open spec fn ranges_within(s: Seq<char>, ranges: Seq<(usize, usize)>) -> bool {
    forall|k: int| 0 <= k < ranges.len() ==> #[trigger] ranges[k].0 <= ranges[k].1 <= s.len()
}

// ---------------------------------------------------------------------------------------
// Lemmas
// ---------------------------------------------------------------------------------------

/// The decimal digits of `n` are digits, do not start with `+`, and have the value `n`.
pub proof fn lemma_decimal_string(n: nat)
    ensures
        decimal_string(n).len() > 0,
        all_digits(decimal_string(n)),
        decimal_string(n)[0] != '+',
        decimal_value(decimal_string(n)) == n,
    decreases n,
{
    if n < 10 {
        let s = decimal_string(n);
        assert(s.drop_last() =~= Seq::<char>::empty());
        assert(digit_value(digit_char(n)) == n);
        assert(decimal_value(s) == decimal_value(s.drop_last()) * 10 + digit_value(s.last()));
    } else {
        lemma_decimal_string(n / 10);
        let s = decimal_string(n);
        let p = decimal_string(n / 10);
        assert(s.drop_last() =~= p);
        assert(s[0] == p[0]);
        assert(digit_value(digit_char(n % 10)) == n % 10);
        assert(decimal_value(s) == decimal_value(p) * 10 + n % 10);
        assert forall|i: int| 0 <= i < s.len() implies is_digit(#[trigger] s[i]) by {
            if i < p.len() {
                assert(s[i] == p[i]);
            }
        }
    }
}

/// `u64::from_str` reads the decimal digits of `n` back as `n`.
pub proof fn law_parse_decimal_string(n: u64)
    ensures
        parse_u64_spec(decimal_string(n as nat)) == Some(n),
{
    lemma_decimal_string(n as nat);
}

/// A digit prefix never has a larger value than the whole digit sequence.
pub proof fn lemma_decimal_value_prefix(s: Seq<char>, n: int)
    requires
        0 <= n <= s.len(),
    ensures
        decimal_value(s.take(n)) <= decimal_value(s),
    decreases s.len() - n,
{
    if n < s.len() {
        lemma_decimal_value_prefix(s, n + 1);
        assert(s.take(n + 1).drop_last() =~= s.take(n));
    } else {
        assert(s.take(n) =~= s);
    }
}

/// The first match found from `start` is a match, and nothing between `start` and it is.
pub proof fn lemma_find_from(s: Seq<char>, p: Seq<char>, start: int)
    requires
        0 <= start,
    ensures
        find_from(s, p, start) matches Some(i) ==> start <= i && matches_at(s, p, i) && forall|
            j: int,
        | start <= j < i ==> !matches_at(s, p, j),
        find_from(s, p, start) is None ==> p.len() == 0 || forall|j: int|
            start <= j ==> !matches_at(s, p, j),
    decreases s.len() - start,
{
    if p.len() == 0 || start + p.len() > s.len() {
    } else if s.subrange(start, start + p.len()) == p {
    } else {
        lemma_find_from(s, p, start + 1);
    }
}

/// The first `c` found from `start` holds `c`, and nothing between `start` and it does.
pub proof fn lemma_find_char_from(s: Seq<char>, c: char, start: int)
    requires
        0 <= start,
    ensures
        find_char_from(s, c, start) matches Some(k) ==> start <= k < s.len() && s[k] == c
            && forall|j: int| start <= j < k ==> s[j] != c,
        find_char_from(s, c, start) is None ==> forall|j: int| start <= j < s.len() ==> s[j] != c,
    decreases s.len() - start,
{
    if start < s.len() && s[start] != c {
        lemma_find_char_from(s, c, start + 1);
    }
}

/// A run of non-white characters ends at or after its start, inside `s`.
pub proof fn lemma_word_end(s: Seq<char>, i: int)
    requires
        0 <= i <= s.len(),
    ensures
        i <= word_end(s, i) <= s.len(),
        forall|j: int| i <= j < word_end(s, i) ==> !is_white(s[j]),
        word_end(s, i) < s.len() ==> is_white(s[word_end(s, i)]),
    decreases s.len() - i,
{
    if i < s.len() && !is_white(s[i]) {
        lemma_word_end(s, i + 1);
    }
}

// ---------------------------------------------------------------------------------------
// Executable text handling
// ---------------------------------------------------------------------------------------

/// The characters of `s`, in order.
pub fn chars_of(s: &str) -> (res: Vec<char>)
    ensures
        res@ == s@,
{
    let mut res: Vec<char> = Vec::new();
    for c in it: s.chars()
        invariant
            it.seq() == s@,
            res@ == it.seq().take(it.index() as int),
    {
        res.push(c);
    }
    res
}

/// Appends `c` to `s` (`String::push`).
#[verifier::external_body]
fn push_char(s: &mut String, c: char)
    ensures
        final(s)@ == old(s)@.push(c),
{
    s.push(c);
}

/// The `String` made of `v[lo..hi]`.
pub fn string_from_chars(v: &Vec<char>, lo: usize, hi: usize) -> (res: String)
    requires
        lo <= hi <= v.len(),
    ensures
        res@ == v@.subrange(lo as int, hi as int),
{
    let mut res = String::new();
    let mut i = lo;
    while i < hi
        invariant
            lo <= i <= hi <= v.len(),
            res@ == v@.subrange(lo as int, i as int),
        decreases hi - i,
    {
        push_char(&mut res, v[i]);
        assert(v@.subrange(lo as int, i + 1) =~= v@.subrange(lo as int, i as int).push(v@[i as int]));
        i += 1;
    }
    res
}

/// `char::is_whitespace`.
pub fn is_white_exec(c: char) -> (res: bool)
    ensures
        res == is_white(c),
{
    let u = c as u32;
    (0x09 <= u && u <= 0x0d) || u == 0x20 || u == 0x85 || u == 0xa0 || u == 0x1680 || (0x2000
        <= u && u <= 0x200a) || u == 0x2028 || u == 0x2029 || u == 0x202f || u == 0x205f || u
        == 0x3000
}

/// `v[start..]` holds `p` at index `i`.
fn matches_at_exec(v: &Vec<char>, p: &Vec<char>, i: usize) -> (res: bool)
    ensures
        res == matches_at(v@, p@, i as int),
{
    if i > v.len() || p.len() > v.len() - i {
        return false;
    }
    let mut k: usize = 0;
    while k < p.len()
        invariant
            i + p.len() <= v.len(),
            k <= p.len(),
            forall|j: int| 0 <= j < k ==> v@[i + j] == p@[j],
        decreases p.len() - k,
    {
        if v[i + k] != p[k] {
            assert(v@.subrange(i as int, i + p.len())[k as int] != p@[k as int]);
            return false;
        }
        k += 1;
    }
    assert(v@.subrange(i as int, i + p.len()) =~= p@);
    true
}

/// The first index at or after `start` where the non-empty `p` occurs in `v`.
pub fn find_from_exec(v: &Vec<char>, p: &Vec<char>, start: usize) -> (res: Option<usize>)
    ensures
        res matches Some(i) ==> find_from(v@, p@, start as int) == Some(i as int),
        res is None ==> find_from(v@, p@, start as int) is None,
{
    if p.len() == 0 {
        return None;
    }
    let mut i = start;
    while i <= v.len() && p.len() <= v.len() - i
        invariant
            start <= i,
            p.len() > 0,
            find_from(v@, p@, start as int) == find_from(v@, p@, i as int),
        decreases v.len() - i,
    {
        if matches_at_exec(v, p, i) {
            return Some(i);
        }
        i += 1;
    }
    None
}

/// The first index at or after `start` that holds `c`.
pub fn find_char_exec(v: &Vec<char>, c: char, start: usize) -> (res: Option<usize>)
    ensures
        res matches Some(i) ==> find_char_from(v@, c, start as int) == Some(i as int),
        res is None ==> find_char_from(v@, c, start as int) is None,
{
    let mut i = start;
    while i < v.len()
        invariant
            start <= i,
            find_char_from(v@, c, start as int) == find_char_from(v@, c, i as int),
        decreases v.len() - i,
    {
        if v[i] == c {
            return Some(i);
        }
        i += 1;
    }
    None
}

/// `v[lo..hi]` holds `c`.
pub fn range_contains_char(v: &Vec<char>, lo: usize, hi: usize, c: char) -> (res: bool)
    requires
        lo <= hi <= v.len(),
    ensures
        res == v@.subrange(lo as int, hi as int).contains(c),
{
    let mut i = lo;
    while i < hi
        invariant
            lo <= i <= hi <= v.len(),
            forall|j: int| lo <= j < i ==> v@[j] != c,
        decreases hi - i,
    {
        if v[i] == c {
            assert(v@.subrange(lo as int, hi as int)[i - lo] == c);
            return true;
        }
        i += 1;
    }
    assert forall|j: int| 0 <= j < hi - lo implies v@.subrange(lo as int, hi as int)[j] != c by {
        assert(v@[lo + j] != c);
    }
    false
}

/// The second piece of `v` split at the non-empty pattern `p`, as a range of `v`.
pub fn second_piece_exec(v: &Vec<char>, p: &Vec<char>) -> (res: Option<(usize, usize)>)
    ensures
        match res {
            Some((lo, hi)) => lo <= hi <= v.len() && second_piece(v@, p@) == Some(
                v@.subrange(lo as int, hi as int),
            ),
            None => second_piece(v@, p@) is None,
        },
{
    match find_from_exec(v, p, 0) {
        None => None,
        Some(i) => {
            proof {
                lemma_find_from(v@, p@, 0);
                assert(matches_at(v@, p@, i as int));
            }
            let _ = v.len();  // the length fits in a usize, so the sum below does too
            let start = i + p.len();
            match find_from_exec(v, p, start) {
                Some(j) => {
                    proof {
                        lemma_find_from(v@, p@, start as int);
                    }
                    Some((start, j))
                },
                None => Some((start, v.len())),
            }
        },
    }
}

/// The comma-separated pieces of `part` before the first piece that holds a `=`, as
/// ranges of `part`.
pub fn pieces_before_assignment_exec(part: &Vec<char>) -> (res: Vec<(usize, usize)>)
    ensures
        ranges_within(part@, res@),
        ranges_view(part@, res@) == pieces_before_assignment(part@, 0),
{
    let mut res: Vec<(usize, usize)> = Vec::new();
    let mut start: usize = 0;
    loop
        invariant_except_break
            start <= part.len(),
            ranges_within(part@, res@),
            ranges_view(part@, res@) + pieces_before_assignment(part@, start as int)
                == pieces_before_assignment(part@, 0),
        ensures
            ranges_within(part@, res@),
            ranges_view(part@, res@) == pieces_before_assignment(part@, 0),
        decreases part.len() - start,
    {
        proof {
            lemma_find_char_from(part@, ',', start as int);
        }
        let end = match find_char_exec(part, ',', start) {
            Some(k) => k,
            None => part.len(),
        };
        let ghost old_res = res@;
        if range_contains_char(part, start, end, '=') {
            assert(ranges_view(part@, res@) + Seq::<Seq<char>>::empty() =~= ranges_view(part@, res@));
            break;
        }
        res.push((start, end));
        assert(ranges_view(part@, res@) =~= ranges_view(part@, old_res).push(
            part@.subrange(start as int, end as int),
        ));
        if end >= part.len() {
            assert(ranges_view(part@, old_res) + seq![part@.subrange(start as int, end as int)]
                =~= ranges_view(part@, res@));
            break;
        }
        assert(ranges_view(part@, old_res) + (seq![part@.subrange(start as int, end as int)]
            + pieces_before_assignment(part@, end + 1)) =~= ranges_view(part@, res@)
            + pieces_before_assignment(part@, end + 1));
        start = end + 1;
    }
    res
}

/// The concatenation of the pieces that `ranges` selects from `v`.
pub fn concat_ranges(v: &Vec<char>, ranges: &Vec<(usize, usize)>) -> (res: Vec<char>)
    requires
        ranges_within(v@, ranges@),
    ensures
        res@ == concat_all(ranges_view(v@, ranges@)),
{
    let mut res: Vec<char> = Vec::new();
    let mut k: usize = 0;
    while k < ranges.len()
        invariant
            k <= ranges.len(),
            ranges_within(v@, ranges@),
            res@ == concat_all(ranges_view(v@, ranges@.take(k as int))),
        decreases ranges.len() - k,
    {
        let (lo, hi) = ranges[k];
        let mut i = lo;
        let ghost before = res@;
        while i < hi
            invariant
                lo <= i <= hi <= v.len(),
                res@ == before + v@.subrange(lo as int, i as int),
            decreases hi - i,
        {
            res.push(v[i]);
            assert(v@.subrange(lo as int, i + 1) =~= v@.subrange(lo as int, i as int).push(v@[i as int]));
            i += 1;
        }
        assert(ranges_view(v@, ranges@.take(k + 1)).drop_last() =~= ranges_view(v@, ranges@.take(k as int)));
        k += 1;
    }
    assert(ranges@.take(ranges.len() as int) =~= ranges@);
    res
}

/// `v[lo..hi]` with every ASCII upper-case letter made lower case.
pub fn lower_range(v: &Vec<char>, lo: usize, hi: usize) -> (res: Vec<char>)
    requires
        lo <= hi <= v.len(),
    ensures
        res@ == lower(v@.subrange(lo as int, hi as int)),
{
    let mut res: Vec<char> = Vec::new();
    let mut i = lo;
    while i < hi
        invariant
            lo <= i <= hi <= v.len(),
            res@ =~= lower(v@.subrange(lo as int, i as int)),
        decreases hi - i,
    {
        let c = v[i];
        let l = if 'A' <= c && c <= 'Z' {
            let u: u32 = (c as u32) + 32;
            assert('a' as u32 <= u <= 'z' as u32);
            char_from_ascii(u)
        } else {
            c
        };
        res.push(l);
        i += 1;
    }
    res
}

/// The character with code `u`, an ASCII letter.
fn char_from_ascii(u: u32) -> (c: char)
    requires
        u < 128,
    ensures
        c == u as char,
{
    let b: u8 = u as u8;
    b as char
}

/// What `u64::from_str` gives for `v[lo..hi]`.
pub fn parse_u64_exec(v: &Vec<char>, lo: usize, hi: usize) -> (res: Option<u64>)
    requires
        lo <= hi <= v.len(),
    ensures
        res == parse_u64_spec(v@.subrange(lo as int, hi as int)),
{
    let ghost s = v@.subrange(lo as int, hi as int);
    let mut i = lo;
    if i < hi && v[i] == '+' {
        i += 1;
    }
    let ghost d = unsigned_digits(s);
    assert(d =~= v@.subrange(i as int, hi as int));
    if i == hi {
        return None;
    }
    let start = i;
    let mut acc: u64 = 0;
    while i < hi
        invariant
            start <= i <= hi <= v.len(),
            lo <= start,
            s == v@.subrange(lo as int, hi as int),
            d == unsigned_digits(s),
            d.len() > 0,
            d == v@.subrange(start as int, hi as int),
            all_digits(d.take(i - start)),
            acc == decimal_value(d.take(i - start)),
        decreases hi - i,
    {
        let c = v[i];
        assert(d[i - start] == c);
        if !('0' <= c && c <= '9') {
            assert(!all_digits(d));
            return None;
        }
        let digit: u64 = (c as u32 - '0' as u32) as u64;
        assert(d.take(i + 1 - start).drop_last() =~= d.take(i - start));
        if acc > (u64::MAX - digit) / 10 {
            proof {
                assert(decimal_value(d.take(i + 1 - start)) > u64::MAX) by (nonlinear_arith)
                    requires
                        decimal_value(d.take(i + 1 - start)) == acc * 10 + digit,
                        acc > (u64::MAX - digit) / 10,
                        digit <= 9,
                ;
                lemma_decimal_value_prefix(d, i + 1 - start);
            }
            return None;
        }
        acc = acc * 10 + digit;
        assert(all_digits(d.take(i + 1 - start)));
        i += 1;
    }
    assert(d.take(hi - start) =~= d);
    Some(acc)
}

/// Appends the two decimal digits of `n` to `out`, with a leading zero below ten.
pub fn push_two_digits(out: &mut Vec<char>, n: u32)
    requires
        n < 100,
    ensures
        final(out)@ == old(out)@ + two_digits(n as nat),
{
    out.push(char_from_ascii('0' as u32 + n / 10));
    out.push(char_from_ascii('0' as u32 + n % 10));
    assert(final(out)@ =~= old(out)@ + two_digits(n as nat));
}

/// Appends the decimal digits of `n` to `out`.
pub fn push_decimal(out: &mut Vec<char>, n: u64)
    ensures
        final(out)@ == old(out)@ + decimal_string(n as nat),
    decreases n,
{
    if n >= 10 {
        push_decimal(out, n / 10);
    }
    let d: u32 = (n % 10) as u32;
    let c = char_from_ascii('0' as u32 + d);
    out.push(c);
    assert(final(out)@ =~= old(out)@ + decimal_string(n as nat));
}

/// The lines of `v`, as ranges of `v`: `str::lines`.
pub fn lines_exec(v: &Vec<char>) -> (res: Vec<(usize, usize)>)
    ensures
        ranges_within(v@, res@),
        ranges_view(v@, res@) == lines(v@),
{
    let mut res: Vec<(usize, usize)> = Vec::new();
    let mut start: usize = 0;
    while start < v.len()
        invariant
            start <= v.len(),
            ranges_within(v@, res@),
            ranges_view(v@, res@) + lines_from(v@, start as int) == lines(v@),
        decreases v.len() - start,
    {
        proof {
            lemma_find_char_from(v@, '\n', start as int);
        }
        let ghost before = res@;
        match find_char_exec(v, '\n', start) {
            Some(k) => {
                assert(start <= k < v.len());
                let end = if k > start && v[k - 1] == '\r' {
                    k - 1
                } else {
                    k
                };
                assert(v@.subrange(start as int, end as int) =~= strip_cr(
                    v@.subrange(start as int, k as int),
                ));
                res.push((start, end));
                assert(forall|q: int| 0 <= q < before.len() ==> res@[q] == before[q]);
                assert(ranges_view(v@, res@) =~= ranges_view(v@, before).push(
                    v@.subrange(start as int, end as int),
                ));
                assert(ranges_view(v@, before) + lines_from(v@, start as int) =~= ranges_view(
                    v@,
                    res@,
                ) + lines_from(v@, k + 1));
                start = k + 1;
            },
            None => {
                res.push((start, v.len()));
                assert(ranges_view(v@, res@) =~= ranges_view(v@, before).push(
                    v@.subrange(start as int, v.len() as int),
                ));
                assert(ranges_view(v@, before) + lines_from(v@, start as int) =~= ranges_view(
                    v@,
                    res@,
                ) + lines_from(v@, v.len() as int));
                start = v.len();
            },
        }
    }
    assert(ranges_view(v@, res@) + lines_from(v@, start as int) =~= ranges_view(v@, res@));
    res
}

/// The part of `v[lo..hi]` left after white space is removed at both ends (`str::trim`).
pub fn trim_range(v: &Vec<char>, lo: usize, hi: usize) -> (res: (usize, usize))
    requires
        lo <= hi <= v.len(),
    ensures
        lo <= res.0 <= res.1 <= hi,
        v@.subrange(res.0 as int, res.1 as int) == trim(v@.subrange(lo as int, hi as int)),
{
    let mut a = lo;
    while a < hi && is_white_exec(v[a])
        invariant
            lo <= a <= hi <= v.len(),
            trim_start(v@.subrange(lo as int, hi as int)) == trim_start(
                v@.subrange(a as int, hi as int),
            ),
        decreases hi - a,
    {
        assert(v@.subrange(a as int, hi as int).drop_first() =~= v@.subrange(a + 1, hi as int));
        a += 1;
    }
    assert(trim_start(v@.subrange(a as int, hi as int)) == v@.subrange(a as int, hi as int));
    let mut b = hi;
    while b > a && is_white_exec(v[b - 1])
        invariant
            lo <= a <= b <= hi <= v.len(),
            trim_end(v@.subrange(a as int, hi as int)) == trim_end(v@.subrange(a as int, b as int)),
        decreases b - a,
    {
        assert(v@.subrange(a as int, b as int).drop_last() =~= v@.subrange(a as int, b - 1));
        b -= 1;
    }
    assert(trim_end(v@.subrange(a as int, b as int)) == v@.subrange(a as int, b as int));
    (a, b)
}

/// The start of `v[lo..hi]` after every leading `c` (`str::trim_start_matches` with a
/// `char`).
pub fn trim_start_char_range(v: &Vec<char>, lo: usize, hi: usize, c: char) -> (res: usize)
    requires
        lo <= hi <= v.len(),
    ensures
        lo <= res <= hi,
        v@.subrange(res as int, hi as int) == trim_start_char(v@.subrange(lo as int, hi as int), c),
{
    let mut a = lo;
    while a < hi && v[a] == c
        invariant
            lo <= a <= hi <= v.len(),
            trim_start_char(v@.subrange(lo as int, hi as int), c) == trim_start_char(
                v@.subrange(a as int, hi as int),
                c,
            ),
        decreases hi - a,
    {
        assert(v@.subrange(a as int, hi as int).drop_first() =~= v@.subrange(a + 1, hi as int));
        a += 1;
    }
    a
}

/// The white-space separated words of `w`, as ranges of `w` (`str::split_whitespace`).
pub fn words_exec(w: &Vec<char>) -> (res: Vec<(usize, usize)>)
    ensures
        ranges_within(w@, res@),
        ranges_view(w@, res@) == words_from(w@, 0),
{
    let mut res: Vec<(usize, usize)> = Vec::new();
    let mut i: usize = 0;
    while i < w.len()
        invariant
            i <= w.len(),
            ranges_within(w@, res@),
            ranges_view(w@, res@) + words_from(w@, i as int) == words_from(w@, 0),
        decreases w.len() - i,
    {
        if is_white_exec(w[i]) {
            i += 1;
        } else {
            let mut j = i;
            while j < w.len() && !is_white_exec(w[j])
                invariant
                    i <= j <= w.len(),
                    word_end(w@, i as int) == word_end(w@, j as int),
                decreases w.len() - j,
            {
                j += 1;
            }
            proof {
                lemma_word_end(w@, i + 1);
            }
            let ghost before = res@;
            res.push((i, j));
            assert(ranges_view(w@, res@) =~= ranges_view(w@, before).push(
                w@.subrange(i as int, j as int),
            ));
            assert(ranges_view(w@, before) + words_from(w@, i as int) =~= ranges_view(w@, res@)
                + words_from(w@, j as int));
            i = j;
        }
    }
    assert(ranges_view(w@, res@) + words_from(w@, i as int) =~= ranges_view(w@, res@));
    res
}

} // verus!
