//! Small string utilities: trusted wrappers around std's case folding and
//! `String::push`, and verified character-level helpers on `&str`.
use vstd::prelude::*;
use vstd::string::StrSliceExecFns;

verus! {

/// The character sequence that `str::to_lowercase` returns for `s`.
pub uninterp spec fn lower_of(s: Seq<char>) -> Seq<char>;

/// The character sequence that `str::to_uppercase` returns for `s`.
pub uninterp spec fn upper_of(s: Seq<char>) -> Seq<char>;

/// Relies on str::to_lowercase: the result depends on the characters alone.
#[verifier::external_body]
pub(crate) fn to_lower(s: &str) -> (r: String)
    ensures
        r@ == lower_of(s@),
{
    s.to_lowercase()
}

/// Relies on str::to_uppercase: the result depends on the characters alone.
#[verifier::external_body]
pub(crate) fn to_upper(s: &str) -> (r: String)
    ensures
        r@ == upper_of(s@),
{
    s.to_uppercase()
}

/// Relies on String::push: appends the given character to the end.
#[verifier::external_body]
pub(crate) fn push_char(s: &mut String, c: char)
    ensures
        final(s)@ == old(s)@.push(c),
{
    s.push(c)
}

/// Character-by-character string equality.
pub fn str_eq_chars(a: &str, b: &str) -> (r: bool)
    ensures
        r == (a@ == b@),
{
    let an = a.unicode_len();
    let bn = b.unicode_len();
    if an != bn {
        return false;
    }
    let mut i: usize = 0;
    while i < an
        invariant
            an == a@.len(),
            an == b@.len(),
            i <= an,
            forall|j: int| 0 <= j < i ==> a@[j] == b@[j],
        decreases an - i,
    {
        if a.get_char(i) != b.get_char(i) {
            return false;
        }
        i += 1;
    }
    proof {
        assert(a@ =~= b@);
    }
    true
}

/// `p` is an initial segment of `s`.
pub open spec fn is_prefix(p: Seq<char>, s: Seq<char>) -> bool {
    p.len() <= s.len() && p == s.subrange(0, p.len() as int)
}

/// Character-by-character prefix test.
pub fn str_starts_with(s: &str, p: &str) -> (r: bool)
    ensures
        r == is_prefix(p@, s@),
{
    let sn = s.unicode_len();
    let pn = p.unicode_len();
    if pn > sn {
        return false;
    }
    let mut i: usize = 0;
    while i < pn
        invariant
            sn == s@.len(),
            pn == p@.len(),
            pn <= sn,
            i <= pn,
            forall|j: int| 0 <= j < i ==> p@[j] == s@[j],
        decreases pn - i,
    {
        if p.get_char(i) != s.get_char(i) {
            proof {
                assert(p@[i as int] != s@.subrange(0, p@.len() as int)[i as int]);
            }
            return false;
        }
        i += 1;
    }
    proof {
        assert(p@ =~= s@.subrange(0, p@.len() as int));
    }
    true
}

/// The whitespace characters that padding and bullet trimming deal in.
pub open spec fn is_ws(c: char) -> bool {
    c == ' ' || c == '\t' || c == '\n' || c == '\r'
}

/// `s` with every trailing whitespace character removed.
pub open spec fn trim_end_spec(s: Seq<char>) -> Seq<char>
    decreases s.len(),
{
    if s.len() > 0 && is_ws(s.last()) {
        trim_end_spec(s.drop_last())
    } else {
        s
    }
}

/// Trimming stops at the last character that is not whitespace: when
/// everything from `cut` on is whitespace, the prefix up to `cut` trims the
/// same way as the whole.
proof fn lemma_trim_ws_suffix(s: Seq<char>, cut: int)
    requires
        0 <= cut <= s.len(),
        forall|j: int| cut <= j < s.len() ==> is_ws(s[j]),
    ensures
        trim_end_spec(s) == trim_end_spec(s.subrange(0, cut)),
    decreases s.len() - cut,
{
    if cut == s.len() {
        assert(s.subrange(0, cut) =~= s);
    } else {
        assert(is_ws(s.last()));
        lemma_trim_ws_suffix(s.drop_last(), cut);
        assert(s.drop_last().subrange(0, cut) =~= s.subrange(0, cut));
    }
}

/// Removes trailing whitespace characters.
pub fn trim_end_chars(s: &str) -> (r: String)
    ensures
        r@ == trim_end_spec(s@),
{
    let n = s.unicode_len();
    let mut cut: usize = 0;
    let mut i: usize = 0;
    while i < n
        invariant
            n == s@.len(),
            i <= n,
            cut <= i,
            forall|j: int| cut <= j < i ==> is_ws(s@[j]),
            cut == 0 || !is_ws(s@[cut - 1]),
        decreases n - i,
    {
        let c = s.get_char(i);
        if !(c == ' ' || c == '\t' || c == '\n' || c == '\r') {
            cut = i + 1;
        }
        i += 1;
    }
    proof {
        lemma_trim_ws_suffix(s@, cut as int);
        let pre = s@.subrange(0, cut as int);
        if cut > 0 {
            assert(pre.last() == s@[cut - 1]);
        }
        assert(trim_end_spec(pre) == pre);
    }
    s.substring_char(0, cut).to_owned()
}

} // verus!
