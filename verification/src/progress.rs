//! Persistent level progress: the highest unlocked level index, raised by the
//! progression tracker and stored in a small JSON file.
//!
//! The file format is owned by this crate: `progress_to_json` renders the
//! one-field JSON object and `progress_from_json` parses it back. Reading and
//! writing the file itself is I/O and stays outside the library; callers hand
//! the file's contents in and carry the rendered text out.

use vstd::arithmetic::div_mod::lemma_fundamental_div_mod;
use vstd::prelude::*;
use vstd::string::StrSliceExecFns;
use vstd::string::StringExecFns;

verus! {

/// The player's persistent progress. `max_unlocked_level` is 0-based: level
/// indices `0 ..= max_unlocked_level` may be selected from the level-select
/// screen.
#[derive(Clone, Copy, PartialEq, Eq, Structural, Debug)]
pub struct PlayerProgress {
    pub max_unlocked_level: usize,
}

impl Default for PlayerProgress {
    /// A fresh install: only the first level is unlocked.
    fn default() -> (r: Self)
        ensures
            r.max_unlocked_level == 0,
    {
        PlayerProgress { max_unlocked_level: 0 }
    }
}

/// What progress becomes when level `level_index` is reached: raised to
/// `level_index` if that is genuine progress, untouched otherwise.
pub open spec fn unlocked_after(p: PlayerProgress, level_index: usize) -> PlayerProgress {
    if level_index > p.max_unlocked_level {
        PlayerProgress { max_unlocked_level: level_index }
    } else {
        p
    }
}

/// Raise `max_unlocked_level` to `level_index` if that is genuine progress.
/// Returns whether the stored file must be rewritten: true exactly when the
/// value changed, so replaying an already-cleared level writes nothing.
pub fn unlock(progress: &mut PlayerProgress, level_index: usize) -> (wrote: bool)
    ensures
        *final(progress) == unlocked_after(*old(progress), level_index),
        wrote <==> level_index > old(progress).max_unlocked_level,
        final(progress).max_unlocked_level >= old(progress).max_unlocked_level,
{
    if level_index > progress.max_unlocked_level {
        progress.max_unlocked_level = level_index;
        true
    } else {
        false
    }
}

/// Unlocking is idempotent: once level `n` has been unlocked, unlocking any
/// `m <= n` again changes nothing and asks for no further write.
pub proof fn lemma_unlock_idempotent(p: PlayerProgress, n: usize, m: usize)
    requires
        m <= n,
    ensures
        unlocked_after(unlocked_after(p, n), m) == unlocked_after(p, n),
        !(m > unlocked_after(p, n).max_unlocked_level),
{
}

/// Unlocking never lowers progress, whatever order unlocks arrive in.
pub proof fn lemma_unlock_monotonic(p: PlayerProgress, n: usize)
    ensures
        unlocked_after(p, n).max_unlocked_level >= p.max_unlocked_level,
        unlocked_after(p, n).max_unlocked_level >= n,
{
}

/// The whitespace JSON allows between tokens.
pub open spec fn is_json_ws(c: char) -> bool {
    c == ' ' || c == '\t' || c == '\n' || c == '\r'
}

pub open spec fn is_json_digit(c: char) -> bool {
    '0' <= c && c <= '9'
}

pub open spec fn digit_val(c: char) -> int {
    c as int - '0' as int
}

/// The first position at or after `i` that holds no whitespace.
pub open spec fn skip_ws(s: Seq<char>, i: int) -> int
    decreases s.len() - i,
{
    if 0 <= i < s.len() && is_json_ws(s[i]) {
        skip_ws(s, i + 1)
    } else {
        i
    }
}

/// The first position at or after `i` that holds no digit.
pub open spec fn digits_end(s: Seq<char>, i: int) -> int
    decreases s.len() - i,
{
    if 0 <= i < s.len() && is_json_digit(s[i]) {
        digits_end(s, i + 1)
    } else {
        i
    }
}

/// The value of the digits at positions `i ..< j`.
pub open spec fn digits_val(s: Seq<char>, i: int, j: int) -> int
    decreases j - i,
{
    if i < j {
        digits_val(s, i, j - 1) * 10 + digit_val(s[j - 1])
    } else {
        0
    }
}

/// The quoted field name of the progress object.
pub open spec fn key_str() -> Seq<char> {
    "\"max_unlocked_level\""@
}

/// The grammar of the progress file: one JSON object with the one field,
/// holding a non-negative integer that fits a `usize`, with arbitrary
/// whitespace between tokens. Anything else parses to `None`.
pub open spec fn parse_progress_spec(s: Seq<char>) -> Option<PlayerProgress> {
    let i0 = skip_ws(s, 0);
    if !(i0 < s.len() && s[i0] == '{') {
        None
    } else {
        let i1 = skip_ws(s, i0 + 1);
        if !(i1 + key_str().len() <= s.len() && s.subrange(i1, i1 + key_str().len() as int)
            == key_str()) {
            None
        } else {
            let i2 = skip_ws(s, i1 + key_str().len());
            if !(i2 < s.len() && s[i2] == ':') {
                None
            } else {
                let i3 = skip_ws(s, i2 + 1);
                let j = digits_end(s, i3);
                if j == i3 || (s[i3] == '0' && j > i3 + 1) || digits_val(s, i3, j) > usize::MAX {
                    None
                } else {
                    let i4 = skip_ws(s, j);
                    if !(i4 < s.len() && s[i4] == '}') {
                        None
                    } else {
                        let i5 = skip_ws(s, i4 + 1);
                        if i5 == s.len() {
                            Some(
                                PlayerProgress {
                                    max_unlocked_level: digits_val(s, i3, j) as usize,
                                },
                            )
                        } else {
                            None
                        }
                    }
                }
            }
        }
    }
}

pub open spec fn digit_char(d: int) -> char {
    if d == 0 {
        '0'
    } else if d == 1 {
        '1'
    } else if d == 2 {
        '2'
    } else if d == 3 {
        '3'
    } else if d == 4 {
        '4'
    } else if d == 5 {
        '5'
    } else if d == 6 {
        '6'
    } else if d == 7 {
        '7'
    } else if d == 8 {
        '8'
    } else {
        '9'
    }
}

/// The decimal digits of `n`, most significant first, no leading zeros
/// (`0` itself is the single digit `0`).
pub open spec fn dec_digits(n: int) -> Seq<char>
    decreases n,
{
    if n < 10 {
        seq![digit_char(n)]
    } else {
        dec_digits(n / 10).push(digit_char(n % 10))
    }
}

/// The exact text the progress file is written with: the pretty-printed
/// one-field object.
pub open spec fn progress_json_spec(p: PlayerProgress) -> Seq<char> {
    "{\n  "@ + key_str() + ": "@ + dec_digits(p.max_unlocked_level as int) + "\n}"@
}

fn is_ws_char(c: char) -> (b: bool)
    ensures
        b == is_json_ws(c),
{
    c == ' ' || c == '\t' || c == '\n' || c == '\r'
}

fn is_digit_char(c: char) -> (b: bool)
    ensures
        b == is_json_digit(c),
{
    '0' <= c && c <= '9'
}

fn char_digit(c: char) -> (d: u32)
    requires
        is_json_digit(c),
    ensures
        d == digit_val(c),
        d <= 9,
{
    c as u32 - 48
}

/// Advance past whitespace.
fn skip_ws_exec(s: &str, i: usize, n: usize) -> (j: usize)
    requires
        n == s@.len(),
        i <= n,
    ensures
        j == skip_ws(s@, i as int),
        i <= j <= n,
{
    let mut j = i;
    loop
        invariant
            i <= j <= n,
            n == s@.len(),
            skip_ws(s@, i as int) == skip_ws(s@, j as int),
        ensures
            j == skip_ws(s@, i as int),
            i <= j <= n,
        decreases n - j,
    {
        if j >= n {
            break ;
        }
        let c = s.get_char(j);
        if !is_ws_char(c) {
            break ;
        }
        j = j + 1;
    }
    j
}

/// Compare the key literal at position `i`.
fn match_key(s: &str, i: usize, n: usize) -> (b: bool)
    requires
        n == s@.len(),
        i <= n,
    ensures
        b == (i + key_str().len() <= n && s@.subrange(i as int, i as int + key_str().len() as int)
            == key_str()),
{
    let key: &str = "\"max_unlocked_level\"";
    proof {
        reveal_strlit("\"max_unlocked_level\"");
    }
    if n - i < 20 {
        return false;
    }
    let mut j: usize = 0;
    while j < 20
        invariant
            0 <= j <= 20,
            n == s@.len(),
            i + 20 <= n,
            key@ == key_str(),
            key@.len() == 20,
            forall|t: int| 0 <= t < j ==> s@[i + t] == key_str()[t],
        decreases 20 - j,
    {
        if s.get_char(i + j) != key.get_char(j) {
            proof {
                assert(s@.subrange(i as int, i as int + 20)[j as int] != key_str()[j as int]);
            }
            return false;
        }
        j = j + 1;
    }
    proof {
        assert(s@.subrange(i as int, i as int + 20) =~= key_str());
    }
    true
}

/// A region of digits has a non-negative value.
proof fn lemma_digits_val_nonneg(s: Seq<char>, i: int, j: int)
    requires
        forall|t: int| i <= t < j ==> is_json_digit(s[t]),
        0 <= i,
        j <= s.len(),
    ensures
        digits_val(s, i, j) >= 0,
    decreases j - i,
{
    if i < j {
        lemma_digits_val_nonneg(s, i, j - 1);
    }
}

/// Scan the digits at `i`: their end, their value, and whether the value
/// overflows a `usize`.
fn scan_digits(s: &str, i: usize, n: usize) -> (r: (usize, usize, bool))
    requires
        n == s@.len(),
        i <= n,
    ensures
        r.0 == digits_end(s@, i as int),
        i <= r.0 <= n,
        !r.2 ==> r.1 == digits_val(s@, i as int, r.0 as int) && digits_val(
            s@,
            i as int,
            r.0 as int,
        ) <= usize::MAX,
        r.2 ==> digits_val(s@, i as int, r.0 as int) > usize::MAX,
{
    let mut j = i;
    let mut val: u128 = 0;
    let mut big = false;
    loop
        invariant
            i <= j <= n,
            n == s@.len(),
            digits_end(s@, i as int) == digits_end(s@, j as int),
            forall|t: int| i <= t < j ==> is_json_digit(s@[t]),
            !big ==> val == digits_val(s@, i as int, j as int) && val <= usize::MAX,
            big ==> digits_val(s@, i as int, j as int) > usize::MAX,
        ensures
            j == digits_end(s@, i as int),
            i <= j <= n,
            forall|t: int| i <= t < j ==> is_json_digit(s@[t]),
            !big ==> val == digits_val(s@, i as int, j as int) && val <= usize::MAX,
            big ==> digits_val(s@, i as int, j as int) > usize::MAX,
        decreases n - j,
    {
        if j >= n {
            break ;
        }
        let c = s.get_char(j);
        if !is_digit_char(c) {
            break ;
        }
        let d = char_digit(c);
        proof {
            assert(digits_val(s@, i as int, j + 1) == digits_val(s@, i as int, j as int) * 10
                + digit_val(s@[j as int]));
            if big {
                lemma_digits_val_nonneg(s@, i as int, j as int);
            }
        }
        if !big {
            val = val * 10 + (d as u128);
            if val > (usize::MAX as u128) {
                big = true;
            }
        }
        j = j + 1;
    }
    (j, if big { 0 } else { val as usize }, big)
}

/// Parse the progress file's text; `None` on anything the grammar refuses.
pub fn progress_from_json(s: &str) -> (r: Option<PlayerProgress>)
    ensures
        r == parse_progress_spec(s@),
{
    let n = s.unicode_len();
    let i0 = skip_ws_exec(s, 0, n);
    if !(i0 < n && s.get_char(i0) == '{') {
        return None;
    }
    let i1 = skip_ws_exec(s, i0 + 1, n);
    if !match_key(s, i1, n) {
        return None;
    }
    proof {
        reveal_strlit("\"max_unlocked_level\"");
    }
    let i2 = skip_ws_exec(s, i1 + 20, n);
    if !(i2 < n && s.get_char(i2) == ':') {
        return None;
    }
    let i3 = skip_ws_exec(s, i2 + 1, n);
    let (j, val, big) = scan_digits(s, i3, n);
    if j == i3 {
        return None;
    }
    if s.get_char(i3) == '0' && j > i3 + 1 {
        return None;
    }
    if big {
        return None;
    }
    let i4 = skip_ws_exec(s, j, n);
    if !(i4 < n && s.get_char(i4) == '}') {
        return None;
    }
    let i5 = skip_ws_exec(s, i4 + 1, n);
    if i5 != n {
        return None;
    }
    Some(PlayerProgress { max_unlocked_level: val })
}

fn digit_str(d: u32) -> (r: &'static str)
    requires
        d <= 9,
    ensures
        r@ == seq![digit_char(d as int)],
{
    let r: &'static str = if d == 0 {
        "0"
    } else if d == 1 {
        "1"
    } else if d == 2 {
        "2"
    } else if d == 3 {
        "3"
    } else if d == 4 {
        "4"
    } else if d == 5 {
        "5"
    } else if d == 6 {
        "6"
    } else if d == 7 {
        "7"
    } else if d == 8 {
        "8"
    } else {
        "9"
    };
    proof {
        reveal_strlit("0");
        reveal_strlit("1");
        reveal_strlit("2");
        reveal_strlit("3");
        reveal_strlit("4");
        reveal_strlit("5");
        reveal_strlit("6");
        reveal_strlit("7");
        reveal_strlit("8");
        reveal_strlit("9");
        assert(r@ =~= seq![digit_char(d as int)]);
    }
    r
}

/// Append the decimal digits of `n`.
pub fn append_dec(s: &mut String, n: usize)
    ensures
        final(s)@ == old(s)@ + dec_digits(n as int),
    decreases n,
{
    if n < 10 {
        let ghost s0 = s@;
        s.append(digit_str(n as u32));
        proof {
            assert(s@ =~= s0 + dec_digits(n as int));
        }
    } else {
        let ghost s0 = s@;
        append_dec(s, n / 10);
        proof {
            lemma_fundamental_div_mod(n as int, 10);
        }
        s.append(digit_str((n % 10) as u32));
        proof {
            assert(s@ =~= s0 + dec_digits(n as int));
        }
    }
}

/// Render the progress file's text: the pretty-printed one-field object.
pub fn progress_to_json(p: &PlayerProgress) -> (s: String)
    ensures
        s@ == progress_json_spec(*p),
{
    let mut s = String::from_str("{\n  ");
    s.append("\"max_unlocked_level\"");
    s.append(": ");
    append_dec(&mut s, p.max_unlocked_level);
    s.append("\n}");
    proof {
        reveal_strlit("\"max_unlocked_level\"");
        assert(s@ =~= progress_json_spec(*p));
    }
    s
}

/// What loading the progress file yields: the parsed value, or the default
/// when the file is missing or its text is refused.
pub open spec fn loaded_progress(contents: Option<Seq<char>>) -> PlayerProgress {
    match contents {
        Option::None => PlayerProgress { max_unlocked_level: 0 },
        Option::Some(s) => match parse_progress_spec(s) {
            Option::Some(p) => p,
            Option::None => PlayerProgress { max_unlocked_level: 0 },
        },
    }
}

/// Load progress from the file's contents, `None` standing for a missing
/// file. A missing file and unparsable text both fall back to the default
/// silently, as a fresh install does.
pub fn load_progress_from(contents: Option<&str>) -> (p: PlayerProgress)
    ensures
        contents is None ==> p == loaded_progress(Option::None),
        contents matches Some(s) ==> p == loaded_progress(Option::Some(s@)),
{
    match contents {
        Option::None => PlayerProgress { max_unlocked_level: 0 },
        Option::Some(s) => match progress_from_json(s) {
            Option::Some(p) => p,
            Option::None => PlayerProgress { max_unlocked_level: 0 },
        },
    }
}

/// The decimal rendering is well-formed: at least one digit, digits only,
/// and no leading zero unless the value is zero itself.
proof fn lemma_dec_digits_wf(n: int)
    requires
        n >= 0,
    ensures
        dec_digits(n).len() >= 1,
        forall|k: int| 0 <= k < dec_digits(n).len() ==> is_json_digit(#[trigger] dec_digits(n)[k]),
        n >= 1 ==> dec_digits(n)[0] != '0',
        n < 10 ==> dec_digits(n).len() == 1,
    decreases n,
{
    if n >= 10 {
        lemma_fundamental_div_mod(n, 10);
        lemma_dec_digits_wf(n / 10);
        assert(dec_digits(n) == dec_digits(n / 10).push(digit_char(n % 10)));
        assert(is_json_digit(digit_char(n % 10)));
        assert(dec_digits(n)[0] == dec_digits(n / 10)[0]);
    }
}

/// A maximal digit region ends exactly where the digits stop.
proof fn lemma_digits_end_region(s: Seq<char>, i: int, j: int)
    requires
        0 <= i <= j <= s.len(),
        forall|t: int| i <= t < j ==> is_json_digit(s[t]),
        j == s.len() || !is_json_digit(s[j]),
    ensures
        digits_end(s, i) == j,
    decreases j - i,
{
    if i < j {
        lemma_digits_end_region(s, i + 1, j);
    }
}

/// Reading back the decimal rendering of `n` yields `n`.
proof fn lemma_digits_val_of_dec(s: Seq<char>, i: int, n: int)
    requires
        0 <= n,
        0 <= i,
        i + dec_digits(n).len() <= s.len(),
        s.subrange(i, i + dec_digits(n).len() as int) == dec_digits(n),
    ensures
        digits_val(s, i, i + dec_digits(n).len() as int) == n,
    decreases n,
{
    let d = dec_digits(n);
    let dl = d.len() as int;
    if n < 10 {
        assert(s[i] == s.subrange(i, i + 1)[0]);
        assert(s[i] == digit_char(n));
        assert(digits_val(s, i, i + 1) == digits_val(s, i, i) * 10 + digit_val(s[i]));
        assert(digit_val(digit_char(n)) == n);
    } else {
        lemma_fundamental_div_mod(n, 10);
        lemma_dec_digits_wf(n / 10);
        assert(d == dec_digits(n / 10).push(digit_char(n % 10)));
        assert(s.subrange(i, i + dl - 1) == dec_digits(n / 10)) by {
            assert forall|t: int|
                #![trigger s.subrange(i, i + dl - 1)[t]]
                0 <= t < dl - 1 implies s.subrange(i, i + dl - 1)[t] == dec_digits(n / 10)[t] by {
                assert(s.subrange(i, i + dl - 1)[t] == s[i + t]);
                assert(s[i + t] == s.subrange(i, i + dl)[t]);
                assert(s.subrange(i, i + dl)[t] == d[t]);
                assert(d[t] == dec_digits(n / 10)[t]);
            }
            assert(s.subrange(i, i + dl - 1) =~= dec_digits(n / 10));
        }
        lemma_digits_val_of_dec(s, i, n / 10);
        assert(s[i + dl - 1] == s.subrange(i, i + dl)[dl - 1]);
        assert(s[i + dl - 1] == digit_char(n % 10));
        assert(digits_val(s, i, i + dl) == digits_val(s, i, i + dl - 1) * 10 + digit_val(
            s[i + dl - 1],
        ));
        assert(digit_val(digit_char(n % 10)) == n % 10);
    }
}

/// Round trip: the rendered progress file parses back to the same value.
/// This holds for every `max_unlocked_level`, so saving and reloading never
/// loses progress.
pub proof fn lemma_progress_roundtrip(p: PlayerProgress)
    ensures
        parse_progress_spec(progress_json_spec(p)) == Some(p),
{
    reveal_strlit("{\n  ");
    reveal_strlit("\"max_unlocked_level\"");
    reveal_strlit(": ");
    reveal_strlit("\n}");
    let m = p.max_unlocked_level as int;
    let a = "{\n  "@;
    let k = key_str();
    let b = ": "@;
    let d = dec_digits(m);
    let c = "\n}"@;
    let s = progress_json_spec(p);
    lemma_dec_digits_wf(m);
    let dl = d.len() as int;
    assert(s == a + k + b + d + c);
    assert(a.len() == 4 && k.len() == 20 && b.len() == 2 && c.len() == 2);
    assert(s.len() == 28 + dl);
    assert(s[0] == '{');
    assert(s[1] == '\n');
    assert(s[2] == ' ');
    assert(s[3] == ' ');
    assert(s[4] == k[0] && k[0] == '"');
    assert(s[24] == ':');
    assert(s[25] == ' ');
    assert forall|t: int| 0 <= t < dl implies s[26 + t] == d[t] by {}
    assert(s[26 + dl] == '\n');
    assert(s[27 + dl] == '}');

    assert(skip_ws(s, 0) == 0);
    let i0 = skip_ws(s, 0);
    assert(i0 < s.len() && s[i0] == '{');
    assert(skip_ws(s, 4) == 4);
    assert(skip_ws(s, 3) == 4);
    assert(skip_ws(s, 2) == 4);
    assert(skip_ws(s, 1) == 4);
    let i1 = skip_ws(s, i0 + 1);
    assert(i1 == 4);
    assert(s.subrange(4, 24) == k) by {
        assert forall|t: int| 0 <= t < 20 implies s.subrange(4, 24)[t] == k[t] by {
            assert(s.subrange(4, 24)[t] == s[4 + t]);
        }
        assert(s.subrange(4, 24) =~= k);
    }
    assert(i1 + key_str().len() <= s.len());
    let i2 = skip_ws(s, i1 + key_str().len());
    assert(skip_ws(s, 24) == 24);
    assert(i2 == 24);
    assert(s[i2] == ':');
    let i3 = skip_ws(s, i2 + 1);
    assert(is_json_digit(d[0]));
    assert(s[26] == d[0]);
    assert(!is_json_ws(s[26]));
    assert(skip_ws(s, 26) == 26);
    assert(skip_ws(s, 25) == 26);
    assert(i3 == 26);
    assert forall|t: int| 26 <= t < 26 + dl implies is_json_digit(s[t]) by {
        assert(s[t] == d[t - 26]);
    }
    assert(!is_json_digit(s[26 + dl]));
    lemma_digits_end_region(s, 26, 26 + dl);
    let j = digits_end(s, i3);
    assert(j == 26 + dl);
    assert(j != i3);
    assert(!(s[i3] == '0' && j > i3 + 1)) by {
        if m >= 1 {
            assert(d[0] != '0');
        } else {
            assert(dl == 1);
        }
    }
    assert(s.subrange(26, 26 + dl) == d) by {
        assert forall|t: int| 0 <= t < dl implies s.subrange(26, 26 + dl)[t] == d[t] by {
            assert(s.subrange(26, 26 + dl)[t] == s[26 + t]);
        }
        assert(s.subrange(26, 26 + dl) =~= d);
    }
    lemma_digits_val_of_dec(s, 26, m);
    assert(digits_val(s, i3, j) == m);
    assert(digits_val(s, i3, j) <= usize::MAX);
    let i4 = skip_ws(s, j);
    assert(skip_ws(s, 27 + dl) == 27 + dl);
    assert(skip_ws(s, 26 + dl) == 27 + dl);
    assert(i4 == 27 + dl);
    assert(s[i4] == '}');
    let i5 = skip_ws(s, i4 + 1);
    assert(skip_ws(s, 28 + dl) == 28 + dl);
    assert(i5 == s.len());
    assert(parse_progress_spec(s) == Some(PlayerProgress { max_unlocked_level: m as usize }));
    assert(m as usize == p.max_unlocked_level);
}

} // verus!
