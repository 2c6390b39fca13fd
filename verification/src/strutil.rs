//! Small verified helpers on strings and byte slices.

use vstd::prelude::*;
use vstd::utf8::{encode_utf8, encode_utf8_decode_utf8};

verus! {

/// True exactly when the two strings hold the same characters.
///
/// Works byte for byte; equal byte sequences mean equal character
/// sequences because UTF-8 encoding is invertible.
pub fn str_eq(a: &str, b: &str) -> (r: bool)
    ensures
        r == (a@ == b@),
{
    let ab = a.as_bytes();
    let bb = b.as_bytes();
    if ab.len() != bb.len() {
        proof {
            assert(a@ != b@) by {
                if a@ == b@ {
                    assert(encode_utf8(a@) == encode_utf8(b@));
                }
            }
        }
        return false;
    }
    let n = ab.len();
    let mut i: usize = 0;
    while i < n
        invariant
            n == ab@.len() == bb@.len(),
            0 <= i <= n,
            ab@ == encode_utf8(a@),
            bb@ == encode_utf8(b@),
            forall|j: int| 0 <= j < i ==> ab@[j] == bb@[j],
        decreases n - i,
    {
        if ab[i] != bb[i] {
            proof {
                assert(ab@ != bb@);
                assert(a@ != b@) by {
                    if a@ == b@ {
                        assert(encode_utf8(a@) == encode_utf8(b@));
                    }
                }
            }
            return false;
        }
        i = i + 1;
    }
    proof {
        assert(ab@ =~= bb@);
        assert(a@ == b@) by {
            encode_utf8_decode_utf8(a@);
            encode_utf8_decode_utf8(b@);
        }
    }
    true
}

/// The characters of `s`, one vector element per `char`.
pub fn chars_vec(s: &str) -> (r: Vec<char>)
    ensures
        r@ == s@,
{
    let mut r: Vec<char> = Vec::new();
    for c in it: s.chars()
        invariant
            it.seq() == s@,
            r@ == s@.take(it.index() as int),
    {
        r.push(c);
    }
    proof {
        assert(r@ =~= s@);
    }
    r
}

/// The set of characters Rust's `char::is_whitespace` accepts.
pub open spec fn is_space(c: char) -> bool {
    let u = c as int;
    ||| u == 0x09
    ||| u == 0x0A
    ||| u == 0x0B
    ||| u == 0x0C
    ||| u == 0x0D
    ||| u == 0x20
    ||| u == 0x85
    ||| u == 0xA0
    ||| u == 0x1680
    ||| (0x2000 <= u && u <= 0x200A)
    ||| u == 0x2028
    ||| u == 0x2029
    ||| u == 0x202F
    ||| u == 0x205F
    ||| u == 0x3000
}

/// Whitespace test for one character, matching `is_space`.
pub fn char_is_space(c: char) -> (r: bool)
    ensures
        r == is_space(c),
{
    let u = c as u32;
    u == 0x09 || u == 0x0A || u == 0x0B || u == 0x0C || u == 0x0D || u == 0x20 || u == 0x85 || u
        == 0xA0 || u == 0x1680 || (0x2000 <= u && u <= 0x200A) || u == 0x2028 || u == 0x2029 || u
        == 0x202F || u == 0x205F || u == 0x3000
}

/// True when the string has no character beyond whitespace: exactly the
/// strings whose trimmed form is empty.
pub open spec fn spec_blank(s: Seq<char>) -> bool {
    forall|i: int| 0 <= i < s.len() ==> is_space(s[i])
}

/// Whether trimming `s` would leave nothing.
pub fn is_blank(s: &str) -> (r: bool)
    ensures
        r == spec_blank(s@),
{
    let cs = chars_vec(s);
    let n = cs.len();
    let mut i: usize = 0;
    while i < n
        invariant
            cs@ == s@,
            n == s@.len(),
            0 <= i <= n,
            forall|j: int| 0 <= j < i ==> is_space(s@[j]),
        decreases n - i,
    {
        if !char_is_space(cs[i]) {
            return false;
        }
        i = i + 1;
    }
    true
}

/// `needle` occurs as a contiguous run of characters inside `hay`.
pub open spec fn spec_contains_seq(hay: Seq<char>, needle: Seq<char>) -> bool {
    exists|i: int|
        0 <= i && i + needle.len() <= hay.len() && #[trigger] hay.subrange(i, i + needle.len())
            == needle
}

/// Substring search by characters.
pub fn contains_chars(hay: &Vec<char>, needle: &Vec<char>) -> (r: bool)
    ensures
        r == spec_contains_seq(hay@, needle@),
{
    let h = hay.len();
    let n = needle.len();
    if n > h {
        proof {
            assert(!spec_contains_seq(hay@, needle@));
        }
        return false;
    }
    let mut i: usize = 0;
    while i <= h - n
        invariant
            h == hay@.len(),
            n == needle@.len(),
            n <= h,
            0 <= i,
            i <= h - n + 1,
            forall|k: int|
                0 <= k < i ==> #[trigger] hay@.subrange(k, k + needle@.len()) != needle@,
        decreases h + 1 - i,
    {
        let mut j: usize = 0;
        let mut all: bool = true;
        while j < n
            invariant
                h == hay@.len(),
                n == needle@.len(),
                0 <= i,
                i + n <= h,
                0 <= j <= n,
                all <==> (forall|k: int| 0 <= k < j ==> hay@[i + k] == needle@[k]),
            decreases n - j,
        {
            if hay[i + j] != needle[j] {
                all = false;
                proof {
                    assert(hay@[i + j as int] != needle@[j as int]);
                }
                j = n;
            } else {
                j = j + 1;
            }
        }
        if all {
            proof {
                assert(hay@.subrange(i as int, i + needle@.len()) =~= needle@);
            }
            return true;
        }
        proof {
            if hay@.subrange(i as int, i + needle@.len()) == needle@ {
                assert(forall|k: int|
                    0 <= k < n ==> #[trigger] hay@.subrange(i as int, i + needle@.len())[k]
                        == hay@[i + k]);
                assert(false);
            }
        }
        i = i + 1;
    }
    proof {
        assert(!spec_contains_seq(hay@, needle@));
    }
    false
}

/// Whether some element of `v` holds exactly the text `t`.
pub fn contains_string(v: &Vec<String>, t: &str) -> (r: bool)
    ensures
        r == exists|j: int| 0 <= j < v@.len() && #[trigger] v@[j]@ == t@,
{
    let n = v.len();
    let mut i: usize = 0;
    while i < n
        invariant
            n == v@.len(),
            0 <= i <= n,
            forall|j: int| 0 <= j < i ==> #[trigger] v@[j]@ != t@,
        decreases n - i,
    {
        if str_eq(v[i].as_str(), t) {
            return true;
        }
        i = i + 1;
    }
    false
}

/// The position of the first occurrence of `id` in a list of names,
/// scanning front to back.
pub open spec fn spec_index_of(ids: Seq<Seq<char>>, id: Seq<char>) -> Option<nat>
    decreases ids.len(),
{
    if ids.len() == 0 {
        None
    } else if ids[0] == id {
        Some(0)
    } else {
        match spec_index_of(ids.drop_first(), id) {
            Some(k) => Some(k + 1),
            None => None,
        }
    }
}

pub proof fn lemma_index_of_skip(ids: Seq<Seq<char>>, id: Seq<char>, i: int)
    requires
        0 <= i <= ids.len(),
        forall|j: int| 0 <= j < i ==> #[trigger] ids[j] != id,
    ensures
        match spec_index_of(ids.skip(i), id) {
            Some(k) => spec_index_of(ids, id) == Some((i + k) as nat),
            None => spec_index_of(ids, id) is None,
        },
    decreases i,
{
    if i == 0 {
        assert(ids.skip(0) =~= ids);
    } else {
        assert(ids[0] != id);
        if ids.len() > 0 {
            assert(ids.drop_first().skip(i - 1) =~= ids.skip(i));
            assert(forall|j: int|
                0 <= j < i - 1 ==> #[trigger] ids.drop_first()[j] == ids[j + 1]);
            lemma_index_of_skip(ids.drop_first(), id, i - 1);
        }
    }
}

pub proof fn lemma_index_of_props(ids: Seq<Seq<char>>, id: Seq<char>)
    ensures
        match spec_index_of(ids, id) {
            Some(k) => k < ids.len() && ids[k as int] == id,
            None => forall|j: int| 0 <= j < ids.len() ==> #[trigger] ids[j] != id,
        },
    decreases ids.len(),
{
    if ids.len() > 0 && ids[0] != id {
        lemma_index_of_props(ids.drop_first(), id);
        let sub = spec_index_of(ids.drop_first(), id);
        if sub is Some {
            let k = sub->Some_0;
            assert(ids.drop_first()[k as int] == ids[k as int + 1]);
        } else {
            assert forall|j: int| 0 <= j < ids.len() implies #[trigger] ids[j] != id by {
                if j > 0 {
                    assert(ids.drop_first()[j - 1] == ids[j]);
                }
            }
        }
    }
}

} // verus!
