//! Text cleanup: strip surrounding whitespace, then make the remaining
//! spaces visible as underscores.

use vstd::prelude::*;
use vstd::string::StrSliceExecFns;

verus! {

/// Whether `c` has the Unicode `White_Space` property, the set of
/// characters that surrounding-whitespace stripping removes.
pub open spec fn is_whitespace_char(c: char) -> bool {
    let u = c as u32;
    u == 0x20 || (0x09 <= u && u <= 0x0D) || u == 0x85 || u == 0xA0 || u == 0x1680 || (0x2000 <= u
        && u <= 0x200A) || u == 0x2028 || u == 0x2029 || u == 0x202F || u == 0x205F || u == 0x3000
}

/// Decides `is_whitespace_char`.
pub fn is_whitespace(c: char) -> (r: bool)
    ensures
        r == is_whitespace_char(c),
{
    let u = c as u32;
    u == 0x20 || (0x09 <= u && u <= 0x0D) || u == 0x85 || u == 0xA0 || u == 0x1680 || (0x2000 <= u
        && u <= 0x200A) || u == 0x2028 || u == 0x2029 || u == 0x202F || u == 0x205F || u == 0x3000
}

/// `s` without its longest whitespace prefix.
pub open spec fn trim_start_spec(s: Seq<char>) -> Seq<char>
    decreases s.len(),
{
    if s.len() > 0 && is_whitespace_char(s[0]) {
        trim_start_spec(s.drop_first())
    } else {
        s
    }
}

/// `s` without its longest whitespace suffix.
pub open spec fn trim_end_spec(s: Seq<char>) -> Seq<char>
    decreases s.len(),
{
    if s.len() > 0 && is_whitespace_char(s.last()) {
        trim_end_spec(s.drop_last())
    } else {
        s
    }
}

/// `s` without its longest whitespace prefix and suffix.
pub open spec fn trim_spec(s: Seq<char>) -> Seq<char> {
    trim_end_spec(trim_start_spec(s))
}

/// `s` with every space turned into an underscore.
pub open spec fn underscore_spaces_spec(s: Seq<char>) -> Seq<char> {
    s.map_values(|c: char| if c == ' ' { '_' } else { c })
}

/// What cleanup leaves of `s`: the trimmed text, spaces underscored.
pub open spec fn sanitize_spec(s: Seq<char>) -> Seq<char> {
    underscore_spaces_spec(trim_spec(s))
}

/// Returns `s` without its surrounding whitespace.
pub fn trim(s: &str) -> (r: &str)
    ensures
        r@ == trim_spec(s@),
{
    let len = s.unicode_len();
    proof {
        assert(s@.subrange(0, len as int) =~= s@);
    }
    let mut a: usize = 0;
    while a < len && is_whitespace(s.get_char(a))
        invariant
            a <= len,
            len == s@.len(),
            trim_start_spec(s@) == trim_start_spec(s@.subrange(a as int, len as int)),
        decreases len - a,
    {
        proof {
            let sub = s@.subrange(a as int, len as int);
            assert(sub[0] == s@[a as int]);
            assert(sub.drop_first() =~= s@.subrange(a as int + 1, len as int));
        }
        a = a + 1;
    }
    proof {
        let sub = s@.subrange(a as int, len as int);
        if a == len {
            assert(sub =~= Seq::<char>::empty());
        } else {
            assert(sub[0] == s@[a as int]);
        }
        assert(trim_start_spec(s@) == sub);
    }
    let mut b: usize = len;
    while b > a && is_whitespace(s.get_char(b - 1))
        invariant
            a <= b <= len,
            len == s@.len(),
            trim_start_spec(s@) == s@.subrange(a as int, len as int),
            trim_end_spec(s@.subrange(a as int, len as int)) == trim_end_spec(
                s@.subrange(a as int, b as int),
            ),
        decreases b,
    {
        proof {
            let sub = s@.subrange(a as int, b as int);
            assert(sub.last() == s@[b - 1]);
            assert(sub.drop_last() =~= s@.subrange(a as int, b as int - 1));
        }
        b = b - 1;
    }
    proof {
        let sub = s@.subrange(a as int, b as int);
        if b == a {
            assert(sub =~= Seq::<char>::empty());
        } else {
            assert(sub.last() == s@[b - 1]);
        }
        assert(trim_spec(s@) == sub);
    }
    s.substring_char(a, b)
}

/// Relies on String::push: appends the one character at the end.
#[verifier::external_body]
fn push_char(s: &mut String, c: char)
    ensures
        final(s)@ == old(s)@.push(c),
{
    s.push(c);
}

/// Strips the whitespace around `s` and replaces each remaining space
/// with an underscore.
pub fn sanitize(s: String) -> (r: String)
    ensures
        r@ == sanitize_spec(s@),
{
    let t = trim(s.as_str());
    let tlen = t.unicode_len();
    let mut out = String::new();
    let mut i: usize = 0;
    while i < tlen
        invariant
            i <= tlen,
            tlen == t@.len(),
            t@ == trim_spec(s@),
            out@ == underscore_spaces_spec(t@.subrange(0, i as int)),
        decreases tlen - i,
    {
        let c = t.get_char(i);
        if c == ' ' {
            push_char(&mut out, '_');
        } else {
            push_char(&mut out, c);
        }
        proof {
            assert(t@.subrange(0, i + 1) =~= t@.subrange(0, i as int).push(t@[i as int]));
            assert(underscore_spaces_spec(t@.subrange(0, i + 1)) =~= underscore_spaces_spec(
                t@.subrange(0, i as int),
            ).push(if t@[i as int] == ' ' { '_' } else { t@[i as int] }));
        }
        i = i + 1;
    }
    proof {
        assert(t@.subrange(0, tlen as int) =~= t@);
    }
    out
}

} // verus!
