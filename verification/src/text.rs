use vstd::prelude::*;
use vstd::string::*;
use crate::errors::{CopyErrorKind, CopyFailure};

verus! {

/// Whether `i` is the first index of `c` in `s`.
pub open spec fn first_index_of(s: Seq<char>, c: char, i: int) -> bool {
    &&& 0 <= i < s.len()
    &&& s[i] == c
    &&& forall|j: int| 0 <= j < i ==> s[j] != c
}

/// Whether a scheme separator (the three characters `://`) starts at `i`.
pub open spec fn scheme_sep_at(s: Seq<char>, i: int) -> bool {
    &&& 0 <= i
    &&& i + 3 <= s.len()
    &&& s[i] == ':'
    &&& s[i + 1] == '/'
    &&& s[i + 2] == '/'
}

/// Whether `i` is the first index at which a scheme separator starts.
pub open spec fn first_scheme_sep(s: Seq<char>, i: int) -> bool {
    &&& scheme_sep_at(s, i)
    &&& forall|j: int| 0 <= j < i ==> !scheme_sep_at(s, j)
}

pub open spec fn has_char(s: Seq<char>, c: char) -> bool {
    exists|i: int| 0 <= i < s.len() && s[i] == c
}

pub open spec fn has_scheme_sep(s: Seq<char>) -> bool {
    exists|i: int| scheme_sep_at(s, i)
}

/// First index of `c` in `s`, if any.
fn find_char(s: &str, c: char) -> (r: Option<usize>)
    ensures
        r matches Some(i) ==> first_index_of(s@, c, i as int),
        r is None ==> !has_char(s@, c),
{
    let n = s.unicode_len();
    let mut i: usize = 0;
    while i < n
        invariant
            n == s@.len(),
            i <= n,
            forall|j: int| 0 <= j < i ==> s@[j] != c,
        decreases n - i,
    {
        if s.get_char(i) == c {
            return Some(i);
        }
        i = i + 1;
    }
    None
}

/// First index at which `://` starts in `s`, if any.
fn find_scheme_sep(s: &str) -> (r: Option<usize>)
    ensures
        r matches Some(i) ==> first_scheme_sep(s@, i as int),
        r is None ==> !has_scheme_sep(s@),
{
    let n = s.unicode_len();
    if n < 3 {
        return None;
    }
    let m = n - 2;
    let mut i: usize = 0;
    while i < m
        invariant
            n == s@.len(),
            3 <= n,
            m == n - 2,
            i <= m,
            forall|j: int| 0 <= j < i ==> !scheme_sep_at(s@, j),
        decreases m - i,
    {
        if s.get_char(i) == ':' && s.get_char(i + 1) == '/' && s.get_char(i + 2) == '/' {
            return Some(i);
        }
        i = i + 1;
    }
    None
}

/// Mask the credentials of a connection string for display: when the string
/// has both a scheme separator and an `@`, everything between the scheme and
/// the first `@` is replaced by `***`; any other string is returned as it
/// is. The result is never used as copy state.
pub fn mask_uri(uri: &str) -> (r: String)
    ensures
        has_char(uri@, '@') && has_scheme_sep(uri@) ==> exists|a: int, p: int|
            first_index_of(uri@, '@', a) && first_scheme_sep(uri@, p)
                && r@ == uri@.take(p + 3) + seq!['*', '*', '*'] + uri@.skip(a),
        !(has_char(uri@, '@') && has_scheme_sep(uri@)) ==> r@ == uri@,
{
    let at = find_char(uri, '@');
    let sep = find_scheme_sep(uri);
    if let (Some(a), Some(p)) = (at, sep) {
        let n = uri.unicode_len();
        let prefix = uri.substring_char(0, p + 3);
        let suffix = uri.substring_char(a, n);
        let masked = prefix.to_owned().concat("***").concat(suffix);
        proof {
            reveal_strlit("***");
            assert("***"@ =~= seq!['*', '*', '*']);
            assert(uri@.subrange(0, p + 3) =~= uri@.take(p + 3));
            assert(uri@.subrange(a as int, n as int) =~= uri@.skip(a as int));
        }
        masked
    } else {
        uri.to_owned()
    }
}

/// Whether `c` is a decimal digit (`'0'` through `'9'`).
pub open spec fn is_dec_digit(c: char) -> bool {
    48 <= c as int && c as int <= 57
}

pub open spec fn all_dec_digits(s: Seq<char>) -> bool {
    forall|i: int| 0 <= i < s.len() ==> is_dec_digit(#[trigger] s[i])
}

/// The numeric value of one decimal digit.
pub open spec fn digit_val(c: char) -> nat {
    (c as int - 48) as nat
}

/// The value of a string of decimal digits, most significant first.
pub open spec fn dec_val(s: Seq<char>) -> nat
    decreases s.len(),
{
    if s.len() == 0 {
        0
    } else {
        dec_val(s.drop_last()) * 10 + digit_val(s.last())
    }
}

/// A digit string's value never shrinks when more digits follow.
proof fn lemma_dec_val_prefix(s: Seq<char>, k: int)
    requires
        0 <= k <= s.len(),
    ensures
        dec_val(s.take(k)) <= dec_val(s),
    decreases s.len() - k,
{
    if k < s.len() {
        assert(s.take(k + 1).drop_last() =~= s.take(k));
        assert(s.take(k + 1).last() == s[k]);
        lemma_dec_val_prefix(s, k + 1);
    } else {
        assert(s.take(k) =~= s);
    }
}

/// Parse a row cap typed by the user: the value of a non-empty string of
/// decimal digits. Anything else — empty, a stray character, a value beyond
/// `u64::MAX` — is a configuration error with no documents copied.
pub fn parse_limit(s: &str) -> (r: Result<u64, CopyFailure>)
    ensures
        r matches Ok(v) ==> s@.len() > 0 && all_dec_digits(s@) && dec_val(s@) <= u64::MAX && v
            == dec_val(s@),
        r matches Err(f) ==> {
            &&& (s@.len() == 0 || !all_dec_digits(s@) || dec_val(s@) > u64::MAX)
            &&& f.kind == CopyErrorKind::Configuration
            &&& f.documents_copied == 0
        },
{
    let n = s.unicode_len();
    if n == 0 {
        return Err(CopyFailure::new(CopyErrorKind::Configuration, 0));
    }
    let mut val: u64 = 0;
    let mut i: usize = 0;
    while i < n
        invariant
            n == s@.len(),
            i <= n,
            all_dec_digits(s@.take(i as int)),
            val == dec_val(s@.take(i as int)),
        decreases n - i,
    {
        let c = s.get_char(i);
        let u = c as u32;
        proof {
            assert(s@.take(i as int + 1).drop_last() =~= s@.take(i as int));
            assert(s@.take(i as int + 1).last() == s@[i as int]);
        }
        if u < 48 || u > 57 {
            proof {
                assert(!is_dec_digit(s@[i as int]));
            }
            return Err(CopyFailure::new(CopyErrorKind::Configuration, 0));
        }
        let d = (u - 48) as u64;
        if val > u64::MAX / 10 || (val == u64::MAX / 10 && d > u64::MAX % 10) {
            proof {
                if all_dec_digits(s@) {
                    lemma_dec_val_prefix(s@, i as int + 1);
                }
            }
            return Err(CopyFailure::new(CopyErrorKind::Configuration, 0));
        }
        val = val * 10 + d;
        i = i + 1;
    }
    proof {
        assert(s@.take(n as int) =~= s@);
    }
    Ok(val)
}

/// Whether the two characters `" ("` (a label's count suffix) start at `i`.
pub open spec fn count_suffix_at(s: Seq<char>, i: int) -> bool {
    &&& 0 <= i
    &&& i + 2 <= s.len()
    &&& s[i] == ' '
    &&& s[i + 1] == '('
}

/// Whether `i` is the first index at which a count suffix starts.
pub open spec fn first_count_suffix(s: Seq<char>, i: int) -> bool {
    &&& count_suffix_at(s, i)
    &&& forall|j: int| 0 <= j < i ==> !count_suffix_at(s, j)
}

pub open spec fn has_count_suffix(s: Seq<char>) -> bool {
    exists|i: int| count_suffix_at(s, i)
}

/// Recover a collection name from a selection label of the form
/// `name (count documents)`: everything before the first `" ("`, or the
/// whole label when it carries no such suffix.
pub fn label_collection_name(label: &str) -> (r: String)
    ensures
        has_count_suffix(label@) ==> exists|i: int|
            first_count_suffix(label@, i) && r@ == label@.take(i),
        !has_count_suffix(label@) ==> r@ == label@,
{
    let n = label.unicode_len();
    if n < 2 {
        return label.to_owned();
    }
    let m = n - 1;
    let mut i: usize = 0;
    while i < m
        invariant
            n == label@.len(),
            2 <= n,
            m == n - 1,
            i <= m,
            forall|j: int| 0 <= j < i ==> !count_suffix_at(label@, j),
        decreases m - i,
    {
        if label.get_char(i) == ' ' && label.get_char(i + 1) == '(' {
            let prefix = label.substring_char(0, i);
            proof {
                assert(first_count_suffix(label@, i as int));
                assert(label@.subrange(0, i as int) =~= label@.take(i as int));
            }
            return prefix.to_owned();
        }
        i = i + 1;
    }
    label.to_owned()
}

} // verus!
