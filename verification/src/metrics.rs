//! Helpers for turning snapshot fields into values fit for metrics export.
//!
//! The exporter itself (labels, formats, transport) is the caller's concern;
//! here lives only the computation on snapshot data.

use vstd::prelude::*;

verus! {

/// Characters kept when cleaning a validator name for display: code points
/// beyond the Basic Multilingual Plane (most emoji), variation selectors
/// (which can force emoji rendering of ordinary code points), and the
/// Miscellaneous Symbols block (dingbats usually rendered as emoji) are all
/// dropped; letters and punctuation of contemporary languages stay.
pub open spec fn spec_keeps_name_char(c: char) -> bool {
    let u = c as u32;
    &&& u < 0x10000
    &&& !(0xfe00 <= u <= 0xfe0f)
    &&& !(0x2600 <= u <= 0x26ff)
}

/// The characters that trimming removes at either end of a name: the
/// Unicode white-space code points.
pub open spec fn spec_is_trim_whitespace(c: char) -> bool {
    let u = c as u32;
    ||| u == 0x09
    ||| u == 0x0a
    ||| u == 0x0b
    ||| u == 0x0c
    ||| u == 0x0d
    ||| u == 0x20
    ||| u == 0x85
    ||| u == 0xa0
    ||| u == 0x1680
    ||| 0x2000 <= u <= 0x200a
    ||| u == 0x2028
    ||| u == 0x2029
    ||| u == 0x202f
    ||| u == 0x205f
    ||| u == 0x3000
}

/// The name with every dropped character removed, in order.
pub open spec fn spec_filter_name(s: Seq<char>) -> Seq<char>
    decreases s.len(),
{
    if s.len() == 0 {
        Seq::empty()
    } else {
        spec_filter_name(s.drop_last()) + if spec_keeps_name_char(s.last()) {
            seq![s.last()]
        } else {
            Seq::<char>::empty()
        }
    }
}

/// The sequence without its leading white space.
pub open spec fn spec_trim_front(s: Seq<char>) -> Seq<char>
    decreases s.len(),
{
    if s.len() > 0 && spec_is_trim_whitespace(s[0]) {
        spec_trim_front(s.drop_first())
    } else {
        s
    }
}

/// The sequence without its trailing white space.
pub open spec fn spec_trim_back(s: Seq<char>) -> Seq<char>
    decreases s.len(),
{
    if s.len() > 0 && spec_is_trim_whitespace(s.last()) {
        spec_trim_back(s.drop_last())
    } else {
        s
    }
}

/// The sequence without leading and trailing white space.
pub open spec fn spec_trim(s: Seq<char>) -> Seq<char> {
    spec_trim_back(spec_trim_front(s))
}

/// What a validator name becomes in metrics: the mandatory prefix carries no
/// information and is stripped, the rest is cleaned of emoji-like
/// characters and trimmed; a name without the prefix is flagged instead.
pub open spec fn spec_sanitize_name(s: Seq<char>) -> Seq<char> {
    if s.len() >= 7 && s.take(7) == "Lido / "@ {
        spec_trim(spec_filter_name(s.skip(7)))
    } else {
        "INVALID: "@ + s
    }
}

/// Dropping the leading white-space run trims the front.
proof fn lemma_trim_front_skip(s: Seq<char>, a: int)
    requires
        0 <= a <= s.len(),
        forall|k: int| 0 <= k < a ==> spec_is_trim_whitespace(#[trigger] s[k]),
        a < s.len() ==> !spec_is_trim_whitespace(s[a]),
    ensures
        spec_trim_front(s) == s.skip(a),
    decreases a,
{
    if a == 0 {
        assert(s.skip(0) =~= s);
    } else {
        assert(spec_is_trim_whitespace(s[0]));
        lemma_trim_front_skip(s.drop_first(), a - 1);
        assert(s.drop_first().skip(a - 1) =~= s.skip(a));
    }
}

/// Dropping the trailing white-space run trims the back.
proof fn lemma_trim_back_take(s: Seq<char>, b: int)
    requires
        0 <= b <= s.len(),
        forall|k: int| b <= k < s.len() ==> spec_is_trim_whitespace(#[trigger] s[k]),
        b > 0 ==> !spec_is_trim_whitespace(s[b - 1]),
    ensures
        spec_trim_back(s) == s.take(b),
    decreases s.len() - b,
{
    if b == s.len() {
        assert(s.take(b) =~= s);
    } else {
        assert(spec_is_trim_whitespace(s.last()));
        lemma_trim_back_take(s.drop_last(), b);
        assert(s.drop_last().take(b) =~= s.take(b));
    }
}

/// Whether trimming removes this character.
fn is_trim_whitespace(c: char) -> (r: bool)
    ensures
        r == spec_is_trim_whitespace(c),
{
    let u = c as u32;
    u == 0x09 || u == 0x0a || u == 0x0b || u == 0x0c || u == 0x0d || u == 0x20 || u == 0x85
        || u == 0xa0 || u == 0x1680 || (0x2000 <= u && u <= 0x200a) || u == 0x2028
        || u == 0x2029 || u == 0x202f || u == 0x205f || u == 0x3000
}

/// Given a public validator name, return one suitable for use in metrics:
/// the mandatory pool prefix is stripped (it adds no information and wastes
/// label space), emoji-like characters are removed, and the result is
/// trimmed. A name that lacks the prefix is returned flagged as invalid.
pub fn sanitize_validator_name(name: &str) -> (r: String)
    ensures
        r@ == spec_sanitize_name(name@),
{
    proof {
        reveal_strlit("Lido / ");
        reveal_strlit("INVALID: ");
    }
    let len = name.unicode_len();

    let has_prefix: bool = len >= 7 && name.get_char(0) == 'L' && name.get_char(1) == 'i'
        && name.get_char(2) == 'd' && name.get_char(3) == 'o' && name.get_char(4) == ' '
        && name.get_char(5) == '/' && name.get_char(6) == ' ';
    if !has_prefix {
        proof {
            // If the first seven characters did match the prefix, the check
            // above would have succeeded.
            if name@.len() >= 7 && name@.take(7) == "Lido / "@ {
                assert(name@.take(7)[0] == name@[0] && name@.take(7)[1] == name@[1]
                    && name@.take(7)[2] == name@[2] && name@.take(7)[3] == name@[3]
                    && name@.take(7)[4] == name@[4] && name@.take(7)[5] == name@[5]
                    && name@.take(7)[6] == name@[6]);
                assert(false);
            }
        }
        return String::from_str("INVALID: ").concat(name);
    }
    proof {
        assert(name@.take(7) =~= "Lido / "@);
    }

    // Keep only the characters fit for display.
    let mut filtered = String::new();
    let mut i: usize = 7;
    proof {
        assert(name@.subrange(7, 7) =~= Seq::<char>::empty());
    }
    while i < len
        invariant
            7 <= i <= len,
            len == name@.len(),
            filtered@ == spec_filter_name(name@.subrange(7, i as int)),
        decreases len - i,
    {
        let c = name.get_char(i);
        let u = c as u32;
        let keep: bool = u < 0x10000 && !(0xfe00 <= u && u <= 0xfe0f)
            && !(0x2600 <= u && u <= 0x26ff);
        proof {
            assert(name@.subrange(7, i + 1).drop_last() =~= name@.subrange(7, i as int));
            assert(name@.subrange(7, i + 1).last() == name@[i as int]);
        }
        if keep {
            let piece = name.substring_char(i, i + 1);
            filtered.append(piece);
            proof {
                assert(piece@ =~= seq![name@[i as int]]);
            }
        }
        i = i + 1;
    }
    proof {
        assert(name@.subrange(7, len as int) =~= name@.skip(7));
    }

    // Trim white space left behind at either end.
    let filtered_str = filtered.as_str();
    let filtered_len = filtered_str.unicode_len();
    let mut a: usize = 0;
    while a < filtered_len && is_trim_whitespace(filtered_str.get_char(a))
        invariant
            0 <= a <= filtered_len,
            filtered_len == filtered_str@.len(),
            forall|k: int|
                0 <= k < a ==> spec_is_trim_whitespace(#[trigger] filtered_str@[k]),
        decreases filtered_len - a,
    {
        a = a + 1;
    }
    let mut b: usize = filtered_len;
    while b > a && is_trim_whitespace(filtered_str.get_char(b - 1))
        invariant
            a <= b <= filtered_len,
            filtered_len == filtered_str@.len(),
            forall|k: int|
                b <= k < filtered_len ==> spec_is_trim_whitespace(#[trigger] filtered_str@[k]),
        decreases b,
    {
        b = b - 1;
    }
    let trimmed = filtered_str.substring_char(a, b);
    proof {
        lemma_trim_front_skip(filtered_str@, a as int);
        if b == a {
            // Everything after the leading run is white space too: the
            // trimmed middle is empty.
            lemma_trim_back_take(filtered_str@.skip(a as int), 0);
        } else {
            lemma_trim_back_take(filtered_str@.skip(a as int), b - a);
        }
        assert(filtered_str@.skip(a as int).take(b - a)
            =~= filtered_str@.subrange(a as int, b as int));
    }
    String::from_str(trimmed)
}

} // verus!
