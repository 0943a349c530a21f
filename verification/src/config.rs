use vstd::prelude::*;
use vstd::string::StrSliceExecFns;
use crate::error::WeatherError;

verus! {

/// Whitespace as input trimming understands it: the Unicode White_Space
/// characters, the set `str::trim` removes.
pub open spec fn spec_is_ws(c: char) -> bool {
    let u = c as u32;
    u == 0x09 || u == 0x0A || u == 0x0B || u == 0x0C || u == 0x0D || u == 0x20 || u == 0x85 || u
        == 0xA0 || u == 0x1680 || (0x2000 <= u && u <= 0x200A) || u == 0x2028 || u == 0x2029 || u
        == 0x202F || u == 0x205F || u == 0x3000
}

/// Index of the first non-whitespace character at or after `i`, or
/// `s.len()` if none.
pub open spec fn first_non_ws(s: Seq<char>, i: int) -> int
    decreases s.len() - i,
{
    if i < 0 || i >= s.len() {
        s.len() as int
    } else if !spec_is_ws(s[i]) {
        i
    } else {
        first_non_ws(s, i + 1)
    }
}

/// One past the index of the last non-whitespace character before `i`, or
/// 0 if none.
pub open spec fn last_non_ws(s: Seq<char>, i: int) -> int
    decreases i,
{
    if i <= 0 {
        0
    } else if !spec_is_ws(s[i - 1]) {
        i
    } else {
        last_non_ws(s, i - 1)
    }
}

/// The input with surrounding whitespace removed.
pub open spec fn spec_trim(s: Seq<char>) -> Seq<char> {
    let a = first_non_ws(s, 0);
    if a == s.len() {
        Seq::<char>::empty()
    } else {
        s.subrange(a, last_non_ws(s, s.len() as int))
    }
}

proof fn lemma_first_non_ws(s: Seq<char>, o: int, a: int)
    requires
        0 <= o <= a <= s.len(),
        forall|k: int| o <= k < a ==> spec_is_ws(s[k]),
        a < s.len() ==> !spec_is_ws(s[a]),
    ensures
        first_non_ws(s, o) == a,
    decreases a - o,
{
    if o < a {
        lemma_first_non_ws(s, o + 1, a);
    }
}

proof fn lemma_last_non_ws(s: Seq<char>, b: int, i: int)
    requires
        0 <= b <= i <= s.len(),
        forall|k: int| b <= k < i ==> spec_is_ws(s[k]),
        b > 0 ==> !spec_is_ws(s[b - 1]),
    ensures
        last_non_ws(s, i) == b,
    decreases i - b,
{
    if b < i {
        lemma_last_non_ws(s, b, i - 1);
    }
}

fn is_ws_char(c: char) -> (r: bool)
    ensures
        r == spec_is_ws(c),
{
    let u = c as u32;
    u == 0x09 || u == 0x0A || u == 0x0B || u == 0x0D || u == 0x20 || u == 0x0C || u == 0x85 || u
        == 0xA0 || u == 0x1680 || (0x2000 <= u && u <= 0x200A) || u == 0x2028 || u == 0x2029 || u
        == 0x202F || u == 0x205F || u == 0x3000
}

/// Reads the user's query line: the text with surrounding whitespace
/// removed, or the `Input` failure when nothing is left.
#[verifier::loop_isolation(false)]
pub fn parse_zip_input(line: &str) -> (r: Result<String, WeatherError>)
    ensures
        spec_trim(line@).len() == 0 ==> (r matches Err(e) && e == WeatherError::Input),
        spec_trim(line@).len() > 0 ==> (r matches Ok(z) && z@ == spec_trim(line@)),
{
    let n = line.unicode_len();
    let mut a: usize = 0;
    while a < n && is_ws_char(line.get_char(a))
        invariant
            0 <= a <= n,
            forall|k: int| 0 <= k < a ==> spec_is_ws(line@[k]),
        decreases n - a,
    {
        a = a + 1;
    }
    proof {
        lemma_first_non_ws(line@, 0, a as int);
    }
    if a == n {
        return Err(WeatherError::Input);
    }
    let mut b: usize = n;
    while b > a && is_ws_char(line.get_char(b - 1))
        invariant
            a <= b <= n,
            forall|k: int| b <= k < n ==> spec_is_ws(line@[k]),
        decreases b,
    {
        b = b - 1;
    }
    proof {
        assert(!spec_is_ws(line@[b - 1]));
        lemma_last_non_ws(line@, b as int, n as int);
    }
    let out = line.substring_char(a, b);
    Ok(out.to_owned())
}

/// Checks the credential the environment supplied: the provider key must be
/// present and non-empty, else the `Config` failure — before any request is
/// built.
pub fn config_api_key(value: Option<String>) -> (r: Result<String, WeatherError>)
    ensures
        match value {
            Some(s) => if s@.len() > 0 {
                r matches Ok(k) && k == s
            } else {
                r matches Err(e) && e == WeatherError::Config
            },
            None => r matches Err(e) && e == WeatherError::Config,
        },
{
    match value {
        Some(s) => if !s.as_str().is_empty() {
            Ok(s)
        } else {
            Err(WeatherError::Config)
        },
        None => Err(WeatherError::Config),
    }
}

} // verus!
