//! Input validation rules.
//!
//! Every rule is stated first as a spec predicate over character
//! sequences, and the executable checks are proved to decide exactly
//! those predicates.  Composite validators return a
//! [`ValidationResult`] whose violation list is pinned down field by
//! field.

use vstd::prelude::*;

use crate::models::{FileInfo, LoginCredentials, LoginType, MessageType, Patient, PatientQuery, SendMessageRequest, WindowConfig};
use crate::numfmt::{push_u64, spec_decimal};
use crate::strutil::{
    chars_vec, char_is_space, contains_chars, contains_string, is_blank, spec_blank,
    spec_contains_seq, str_eq,
};
use vstd::string::StringExecFns;
use vstd::utf8::encode_utf8;

verus! {

/// One broken rule: the field it concerns, a human message, and a
/// stable machine code.
#[derive(Debug)]
pub struct ValidationViolation {
    pub field: String,
    pub message: String,
    pub code: String,
}

/// Outcome of a validation pass.
#[derive(Debug)]
pub struct ValidationResult {
    pub is_valid: bool,
    pub errors: Vec<ValidationViolation>,
}

/// The spec-level image of a violation: field, message and code texts.
pub open spec fn vio_view(v: ValidationViolation) -> (Seq<char>, Seq<char>, Seq<char>) {
    (v.field@, v.message@, v.code@)
}

/// The violation texts a result carries, in order.
pub open spec fn errs_view(r: &ValidationResult) -> Seq<(Seq<char>, Seq<char>, Seq<char>)> {
    r.errors@.map_values(|v: ValidationViolation| vio_view(v))
}

impl ValidationResult {
    /// The validity flag agrees with the error list.
    pub open spec fn wf(&self) -> bool {
        self.is_valid <==> self.errors@.len() == 0
    }

    pub fn new() -> (r: ValidationResult)
        ensures
            r.wf(),
            errs_view(&r) == Seq::<(Seq<char>, Seq<char>, Seq<char>)>::empty(),
    {
        let r = ValidationResult { is_valid: true, errors: Vec::new() };
        proof {
            assert(errs_view(&r) =~= Seq::<(Seq<char>, Seq<char>, Seq<char>)>::empty());
        }
        r
    }

    /// Records one violation; the result is invalid from then on.
    pub fn add_error(&mut self, field: &str, message: &str, code: &str)
        ensures
            final(self).wf(),
            !final(self).is_valid,
            errs_view(final(self)) == errs_view(old(self)).push((field@, message@, code@)),
    {
        self.is_valid = false;
        self.errors.push(
            ValidationViolation {
                field: String::from_str(field),
                message: String::from_str(message),
                code: String::from_str(code),
            },
        );
        proof {
            assert(errs_view(self) =~= errs_view(old(self)).push((field@, message@, code@)));
        }
    }

    /// Folds another result in: violations are appended, and validity
    /// survives only if both sides were valid.
    pub fn merge(&mut self, other: ValidationResult)
        requires
            old(self).wf(),
            other.wf(),
        ensures
            final(self).wf(),
            final(self).is_valid == (old(self).is_valid && other.is_valid),
            errs_view(final(self)) == errs_view(old(self)) + errs_view(&other),
    {
        let ghost oview = errs_view(&other);
        let mut incoming = other;
        if !incoming.is_valid {
            self.is_valid = false;
            self.errors.append(&mut incoming.errors);
            proof {
                assert(errs_view(self) =~= errs_view(old(self)) + oview);
            }
        } else {
            proof {
                assert(incoming.errors@.len() == 0);
                assert(errs_view(self) =~= errs_view(old(self)) + oview);
            }
        }
    }
}

/// Decimal digit.
pub open spec fn is_digit(c: char) -> bool {
    '0' <= c && c <= '9'
}

/// ASCII letter, either case.
pub open spec fn is_alpha(c: char) -> bool {
    ('A' <= c && c <= 'Z') || ('a' <= c && c <= 'z')
}

/// A character of a Chinese name: the common CJK block.
pub open spec fn is_cjk(c: char) -> bool {
    '\u{4E00}' <= c && c <= '\u{9FA5}'
}

/// A mainland mobile number: `1`, a digit `3`-`9`, then nine digits.
pub open spec fn spec_phone_valid(s: Seq<char>) -> bool {
    &&& s.len() == 11
    &&& s[0] == '1'
    &&& '3' <= s[1] && s[1] <= '9'
    &&& forall|i: int| 0 <= i < s.len() ==> #[trigger] is_digit(s[i])
}

/// A six-digit code.
pub open spec fn spec_sms_code_valid(s: Seq<char>) -> bool {
    s.len() == 6 && forall|i: int| 0 <= i < s.len() ==> #[trigger] is_digit(s[i])
}

/// An 18-digit resident identity number: six region digits starting
/// `1`-`9`, a birth date `18|19|20`xx-mm-dd with mm in 01-12 and dd in
/// 01-29, 10, 20, 30 or 31, three sequence digits and a digit or `X`/`x`
/// checksum place.
pub open spec fn spec_id_card_valid(s: Seq<char>) -> bool {
    &&& s.len() == 18
    &&& '1' <= s[0] && s[0] <= '9'
    &&& forall|i: int| 1 <= i < 17 ==> #[trigger] is_digit(s[i])
    &&& {
        ||| (s[6] == '1' && s[7] == '8')
        ||| (s[6] == '1' && s[7] == '9')
        ||| (s[6] == '2' && s[7] == '0')
    }
    &&& {
        ||| (s[10] == '0' && '1' <= s[11] && s[11] <= '9')
        ||| (s[10] == '1' && '0' <= s[11] && s[11] <= '2')
    }
    &&& {
        ||| ('0' <= s[12] && s[12] <= '2' && '1' <= s[13] && s[13] <= '9')
        ||| (s[12] == '1' && s[13] == '0')
        ||| (s[12] == '2' && s[13] == '0')
        ||| (s[12] == '3' && s[13] == '0')
        ||| (s[12] == '3' && s[13] == '1')
    }
    &&& (is_digit(s[17]) || s[17] == 'X' || s[17] == 'x')
}

/// Loose mail-address shape: no whitespace, a single `@` with text
/// before it, and a dot strictly between the `@` and the last position.
pub open spec fn spec_email_valid(s: Seq<char>) -> bool {
    &&& forall|i: int| 0 <= i < s.len() ==> !crate::strutil::is_space(s[i])
    &&& exists|a: int|
        {
            &&& 1 <= a < s.len()
            &&& #[trigger] s[a] == '@'
            &&& forall|i: int| 0 <= i < s.len() && i != a ==> #[trigger] s[i] != '@'
            &&& exists|d: int| a + 2 <= d <= s.len() - 2 && #[trigger] s[d] == '.'
        }
}

/// A Chinese personal name: two to ten CJK characters.
pub open spec fn spec_chinese_name_valid(s: Seq<char>) -> bool {
    2 <= s.len() <= 10 && forall|i: int| 0 <= i < s.len() ==> #[trigger] is_cjk(s[i])
}

/// A 15-digit practitioner licence number.
pub open spec fn spec_doctor_license_valid(s: Seq<char>) -> bool {
    s.len() == 15 && forall|i: int| 0 <= i < s.len() ==> #[trigger] is_digit(s[i])
}

/// A hospital code: eight to twelve characters from `A`-`Z` and `0`-`9`.
pub open spec fn spec_hospital_code_valid(s: Seq<char>) -> bool {
    8 <= s.len() <= 12 && forall|i: int|
        0 <= i < s.len() ==> (is_digit(#[trigger] s[i]) || ('A' <= s[i] && s[i] <= 'Z'))
}

/// A character allowed in a tag: CJK, ASCII letter or digit.
pub open spec fn is_tag_char(c: char) -> bool {
    is_cjk(c) || is_alpha(c) || is_digit(c)
}

/// Checks one character class over the whole string.
fn all_chars_hold(cs: &Vec<char>, class: u8) -> (r: bool)
    requires
        1 <= class <= 4,
    ensures
        class == 1 ==> r == (forall|i: int| 0 <= i < cs@.len() ==> #[trigger] is_digit(cs@[i])),
        class == 2 ==> r == (forall|i: int| 0 <= i < cs@.len() ==> #[trigger] is_cjk(cs@[i])),
        class == 3 ==> r == (forall|i: int|
            0 <= i < cs@.len() ==> (is_digit(#[trigger] cs@[i]) || ('A' <= cs@[i] && cs@[i]
                <= 'Z'))),
        class == 4 ==> r == (forall|i: int| 0 <= i < cs@.len() ==> #[trigger] is_tag_char(cs@[i])),
{
    let n = cs.len();
    let mut i: usize = 0;
    while i < n
        invariant
            n == cs@.len(),
            0 <= i <= n,
            1 <= class <= 4,
            class == 1 ==> forall|j: int| 0 <= j < i ==> #[trigger] is_digit(cs@[j]),
            class == 2 ==> forall|j: int| 0 <= j < i ==> #[trigger] is_cjk(cs@[j]),
            class == 3 ==> forall|j: int|
                0 <= j < i ==> (is_digit(#[trigger] cs@[j]) || ('A' <= cs@[j] && cs@[j] <= 'Z')),
            class == 4 ==> forall|j: int| 0 <= j < i ==> #[trigger] is_tag_char(cs@[j]),
        decreases n - i,
    {
        let c = cs[i];
        let ok: bool = if class == 1 {
            '0' <= c && c <= '9'
        } else if class == 2 {
            '\u{4E00}' <= c && c <= '\u{9FA5}'
        } else if class == 3 {
            ('0' <= c && c <= '9') || ('A' <= c && c <= 'Z')
        } else {
            ('\u{4E00}' <= c && c <= '\u{9FA5}') || ('A' <= c && c <= 'Z') || ('a' <= c && c
                <= 'z') || ('0' <= c && c <= '9')
        };
        if !ok {
            proof {
                if class == 1 {
                    assert(!is_digit(cs@[i as int]));
                } else if class == 2 {
                    assert(!is_cjk(cs@[i as int]));
                } else if class == 3 {
                    assert(!(is_digit(cs@[i as int]) || ('A' <= cs@[i as int] && cs@[i as int]
                        <= 'Z')));
                } else {
                    assert(!is_tag_char(cs@[i as int]));
                }
            }
            return false;
        }
        i = i + 1;
    }
    true
}

/// A username character: ASCII letter, digit or underscore.
pub open spec fn is_word_char(c: char) -> bool {
    is_alpha(c) || is_digit(c) || c == '_'
}

/// A password "special" character, from the fixed list the client
/// accepts.
pub open spec fn is_special_char(c: char) -> bool {
    ||| c == '!'
    ||| c == '@'
    ||| c == '#'
    ||| c == '$'
    ||| c == '%'
    ||| c == '^'
    ||| c == '&'
    ||| c == '*'
    ||| c == '('
    ||| c == ')'
    ||| c == ','
    ||| c == '.'
    ||| c == '?'
    ||| c == ':'
    ||| c == '{'
    ||| c == '}'
    ||| c == '|'
    ||| c == '<'
    ||| c == '>'
}

/// How many of the four password character classes occur in `s`.
pub open spec fn spec_strength_count(s: Seq<char>) -> int {
    (if exists|i: int| 0 <= i < s.len() && 'a' <= #[trigger] s[i] && s[i] <= 'z' {
        1int
    } else {
        0int
    }) + (if exists|i: int| 0 <= i < s.len() && 'A' <= #[trigger] s[i] && s[i] <= 'Z' {
        1int
    } else {
        0int
    }) + (if exists|i: int| 0 <= i < s.len() && is_digit(#[trigger] s[i]) {
        1int
    } else {
        0int
    }) + (if exists|i: int| 0 <= i < s.len() && is_special_char(#[trigger] s[i]) {
        1int
    } else {
        0int
    })
}

/// The diagnostic a username fails with, or `None` when it is accepted:
/// it must be non-empty, 3 to 20 bytes, and word characters only.
pub open spec fn spec_username_error(s: Seq<char>) -> Option<Seq<char>> {
    if s.len() == 0 {
        Some("用户名不能为空"@)
    } else if encode_utf8(s).len() < 3 {
        Some("用户名长度至少3位"@)
    } else if encode_utf8(s).len() > 20 {
        Some("用户名长度不能超过20位"@)
    } else if !(forall|i: int| 0 <= i < s.len() ==> #[trigger] is_word_char(s[i])) {
        Some("用户名只能包含字母、数字和下划线"@)
    } else {
        None
    }
}

/// The diagnostic a password fails with, or `None`: 8 to 128 bytes and
/// at least three of the four character classes.
pub open spec fn spec_password_error(s: Seq<char>) -> Option<Seq<char>> {
    if encode_utf8(s).len() < 8 {
        Some("密码长度至少8位"@)
    } else if encode_utf8(s).len() > 128 {
        Some("密码长度不能超过128位"@)
    } else if spec_strength_count(s) < 3 {
        Some("密码必须包含至少3种字符类型(大写字母,小写字母,数字,特殊字符)"@)
    } else {
        None
    }
}

/// The diagnostic a tag fails with, or `None`: not blank, at most 20
/// bytes, and CJK, letters or digits only.
pub open spec fn spec_tag_error(s: Seq<char>) -> Option<Seq<char>> {
    if spec_blank(s) {
        Some("标签不能为空"@)
    } else if encode_utf8(s).len() > 20 {
        Some("标签长度不能超过20个字符"@)
    } else if !(forall|i: int| 0 <= i < s.len() ==> #[trigger] is_tag_char(s[i])) {
        Some("标签只能包含中文、字母和数字"@)
    } else {
        None
    }
}

/// The diagnostic message content fails with, or `None`: not blank, at
/// most `max` bytes, and free of the blocked phrase.
pub open spec fn spec_content_error(s: Seq<char>, max: nat) -> Option<Seq<char>> {
    if spec_blank(s) {
        Some("消息内容不能为空"@)
    } else if encode_utf8(s).len() > max {
        Some("消息内容不能超过 "@ + spec_decimal(max) + " 个字符"@)
    } else if spec_contains_seq(s, "测试敏感词"@) {
        Some("消息内容包含敏感词"@)
    } else {
        None
    }
}

/// Finds whether any character of one of the four password classes
/// occurs: 1 lower, 2 upper, 3 digit, 4 special.
fn any_char_holds(cs: &Vec<char>, class: u8) -> (r: bool)
    requires
        1 <= class <= 4,
    ensures
        class == 1 ==> r == exists|i: int|
            0 <= i < cs@.len() && 'a' <= #[trigger] cs@[i] && cs@[i] <= 'z',
        class == 2 ==> r == exists|i: int|
            0 <= i < cs@.len() && 'A' <= #[trigger] cs@[i] && cs@[i] <= 'Z',
        class == 3 ==> r == exists|i: int| 0 <= i < cs@.len() && is_digit(#[trigger] cs@[i]),
        class == 4 ==> r == exists|i: int| 0 <= i < cs@.len() && is_special_char(#[trigger] cs@[i]),
{
    let n = cs.len();
    let mut i: usize = 0;
    while i < n
        invariant
            n == cs@.len(),
            0 <= i <= n,
            1 <= class <= 4,
            class == 1 ==> !(exists|j: int| 0 <= j < i && 'a' <= #[trigger] cs@[j] && cs@[j]
                <= 'z'),
            class == 2 ==> !(exists|j: int| 0 <= j < i && 'A' <= #[trigger] cs@[j] && cs@[j]
                <= 'Z'),
            class == 3 ==> !(exists|j: int| 0 <= j < i && is_digit(#[trigger] cs@[j])),
            class == 4 ==> !(exists|j: int| 0 <= j < i && is_special_char(#[trigger] cs@[j])),
        decreases n - i,
    {
        let c = cs[i];
        let hit: bool = if class == 1 {
            'a' <= c && c <= 'z'
        } else if class == 2 {
            'A' <= c && c <= 'Z'
        } else if class == 3 {
            '0' <= c && c <= '9'
        } else {
            c == '!' || c == '@' || c == '#' || c == '$' || c == '%' || c == '^' || c == '&' || c
                == '*' || c == '(' || c == ')' || c == ',' || c == '.' || c == '?' || c == ':' || c
                == '{' || c == '}' || c == '|' || c == '<' || c == '>'
        };
        if hit {
            proof {
                if class == 3 {
                    assert(is_digit(cs@[i as int]));
                }
                if class == 4 {
                    assert(is_special_char(cs@[i as int]));
                }
            }
            return true;
        }
        proof {
            if class == 3 {
                assert(!is_digit(cs@[i as int]));
            }
            if class == 4 {
                assert(!is_special_char(cs@[i as int]));
            }
        }
        i = i + 1;
    }
    false
}

/// Characters a filename may not contain.
pub open spec fn is_fname_bad(c: char) -> bool {
    ||| c == '<'
    ||| c == '>'
    ||| c == ':'
    ||| c == '"'
    ||| c == '/'
    ||| c == '\\'
    ||| c == '|'
    ||| c == '?'
    ||| c == '*'
}

/// The filename with every forbidden character replaced by `_`.
pub open spec fn sanitize_map(s: Seq<char>) -> Seq<char> {
    s.map_values(|c: char| if is_fname_bad(c) { '_' } else { c })
}

/// How many bytes the UTF-8 form of `c` takes.
pub open spec fn char_w(c: char) -> nat {
    if (c as int) < 0x80 {
        1
    } else if (c as int) < 0x800 {
        2
    } else if (c as int) < 0x10000 {
        3
    } else {
        4
    }
}

proof fn lemma_char_w(c: char)
    ensures
        vstd::utf8::encode_scalar(c as u32).len() == char_w(c),
{
    broadcast use vstd::utf8::char_is_scalar;

}

/// Encoding a concatenation encodes the parts in order.
proof fn lemma_encode_concat(a: Seq<char>, b: Seq<char>)
    ensures
        encode_utf8(a + b) == encode_utf8(a) + encode_utf8(b),
    decreases a.len(),
{
    if a.len() == 0 {
        assert(a + b =~= b);
        assert(encode_utf8(a) + encode_utf8(b) =~= encode_utf8(b));
    } else {
        lemma_encode_concat(a.drop_first(), b);
        assert((a + b).drop_first() =~= a.drop_first() + b);
        assert(encode_utf8(a + b) =~= encode_utf8(a) + encode_utf8(b));
    }
}

/// The longest prefix whose UTF-8 form fits in `budget` bytes, stopping
/// at the first character that does not fit.
pub open spec fn trunc_fit(s: Seq<char>, budget: nat) -> Seq<char>
    decreases s.len(),
{
    if s.len() == 0 {
        s
    } else if char_w(s[0]) > budget {
        Seq::empty()
    } else {
        seq![s[0]] + trunc_fit(s.drop_first(), (budget - char_w(s[0])) as nat)
    }
}

/// What sanitizing a filename yields: forbidden characters become `_`,
/// and a name longer than 255 bytes is cut at 252 bytes with `...`
/// appended.
pub open spec fn spec_sanitize(s: Seq<char>) -> Seq<char> {
    let m = sanitize_map(s);
    if encode_utf8(m).len() <= 255 {
        m
    } else {
        trunc_fit(m, 252) + "..."@
    }
}

/// A truncated prefix fits its byte budget.
proof fn lemma_trunc_fit_len(s: Seq<char>, budget: nat)
    ensures
        encode_utf8(trunc_fit(s, budget)).len() <= budget,
    decreases s.len(),
{
    broadcast use vstd::utf8::char_is_scalar;

    if s.len() == 0 {
        assert(encode_utf8(trunc_fit(s, budget)) =~= Seq::<u8>::empty());
    } else if char_w(s[0]) > budget {
        assert(encode_utf8(Seq::<char>::empty()) =~= Seq::<u8>::empty());
    } else {
        lemma_trunc_fit_len(s.drop_first(), (budget - char_w(s[0])) as nat);
        lemma_encode_concat(seq![s[0]], trunc_fit(s.drop_first(), (budget - char_w(s[0])) as nat));
        lemma_char_w(s[0]);
        assert(seq![s[0]].drop_first() =~= Seq::<char>::empty());
        assert(encode_utf8(Seq::<char>::empty()) =~= Seq::<u8>::empty());
        assert(encode_utf8(seq![s[0]]) =~= vstd::utf8::encode_scalar(s[0] as u32) + encode_utf8(
            seq![s[0]].drop_first(),
        ));
        assert(encode_utf8(seq![s[0]]).len() == char_w(s[0]));
    }
}

/// A sanitized filename never exceeds 255 bytes: short names pass
/// through under the limit, long ones are cut at 252 bytes before the
/// three-byte marker is appended.
pub proof fn lemma_sanitize_bounded(s: Seq<char>)
    ensures
        encode_utf8(spec_sanitize(s)).len() <= 255,
{
    let m = sanitize_map(s);
    if encode_utf8(m).len() > 255 {
        lemma_trunc_fit_len(m, 252);
        lemma_encode_concat(trunc_fit(m, 252), "..."@);
        reveal_strlit("...");
        assert("..."@ =~= seq!['.', '.', '.']);
        let one = seq!['.'];
        let two = seq!['.', '.'];
        let three = seq!['.', '.', '.'];
        assert(one.drop_first() =~= Seq::<char>::empty());
        assert(two.drop_first() =~= one);
        assert(three.drop_first() =~= two);
        assert(encode_utf8(Seq::<char>::empty()) =~= Seq::<u8>::empty());
        lemma_char_w('.');
        assert(encode_utf8(one) =~= vstd::utf8::encode_scalar('.' as u32) + encode_utf8(
            one.drop_first(),
        ));
        assert(encode_utf8(one).len() == 1);
        assert(encode_utf8(two) =~= vstd::utf8::encode_scalar('.' as u32) + encode_utf8(
            two.drop_first(),
        ));
        assert(encode_utf8(two).len() == 2);
        assert(encode_utf8(three) =~= vstd::utf8::encode_scalar('.' as u32) + encode_utf8(
            three.drop_first(),
        ));
        assert(encode_utf8(three).len() == 3);
    }
}

/// The byte width of one character.
fn char_width(c: char) -> (w: usize)
    ensures
        w == char_w(c),
{
    let u = c as u32;
    if u < 0x80 {
        1
    } else if u < 0x800 {
        2
    } else if u < 0x10000 {
        3
    } else {
        4
    }
}

/// Appends to `out` the characters of `ms` from `idx` on that fit in
/// `budget` bytes, stopping at the first that does not.
fn push_fit(out: &mut String, ms: &Vec<char>, idx: usize, budget: usize)
    requires
        idx <= ms@.len(),
    ensures
        final(out)@ == old(out)@ + trunc_fit(ms@.skip(idx as int), budget as nat),
    decreases ms@.len() - idx,
{
    if idx < ms.len() {
        let c = ms[idx];
        let w = char_width(c);
        proof {
            assert(ms@.skip(idx as int)[0] == ms@[idx as int]);
        }
        if w <= budget {
            out.push(c);
            push_fit(out, ms, idx + 1, budget - w);
            proof {
                assert(ms@.skip(idx as int).drop_first() =~= ms@.skip(idx + 1));
                assert(final(out)@ =~= old(out)@ + trunc_fit(ms@.skip(idx as int), budget as nat));
            }
        } else {
            proof {
                assert(trunc_fit(ms@.skip(idx as int), budget as nat) =~= Seq::<char>::empty());
                assert(final(out)@ =~= old(out)@ + trunc_fit(ms@.skip(idx as int), budget as nat));
            }
        }
    } else {
        proof {
            assert(ms@.skip(idx as int) =~= Seq::<char>::empty());
            assert(final(out)@ =~= old(out)@ + trunc_fit(ms@.skip(idx as int), budget as nat));
        }
    }
}

/// `1024^e`.
pub open spec fn pow1024(e: nat) -> nat
    decreases e,
{
    if e == 0 {
        1
    } else {
        1024 * pow1024((e - 1) as nat)
    }
}

/// The scale a byte count is shown at: the largest `e` with
/// `1024^e <= b`.
pub open spec fn spec_fs_exp(b: nat) -> nat
    recommends
        b >= 1,
    decreases b,
{
    if b < 1024 {
        0
    } else {
        1 + spec_fs_exp(b / 1024)
    }
}

proof fn lemma_fs_exp(b: nat, e: nat)
    requires
        b >= 1,
        pow1024(e) <= b,
        b < pow1024(e + 1),
    ensures
        spec_fs_exp(b) == e,
    decreases e,
{
    if e == 0 {
        assert(pow1024(1) == 1024);
    } else {
        assert(pow1024(e) == 1024 * pow1024((e - 1) as nat));
        assert(pow1024(e + 1) == 1024 * pow1024(e));
        assert(pow1024((e - 1) as nat) <= b / 1024) by (nonlinear_arith)
            requires
                1024 * pow1024((e - 1) as nat) <= b,
        ;
        assert(b / 1024 < pow1024(e)) by (nonlinear_arith)
            requires
                b < 1024 * pow1024(e),
        ;
        assert(pow1024((e - 1) as nat) >= 1) by {
            lemma_pow1024_pos((e - 1) as nat);
        }
        lemma_fs_exp(b / 1024, (e - 1) as nat);
        assert(b >= 1024);
    }
}

proof fn lemma_pow1024_pos(e: nat)
    ensures
        pow1024(e) >= 1,
    decreases e,
{
    if e > 0 {
        lemma_pow1024_pos((e - 1) as nat);
    }
}

/// `n / d` rounded to the nearest integer, ties to even.
pub open spec fn round_half_even(n: nat, d: nat) -> nat
    recommends
        d > 0,
{
    let q = n / d;
    let r = n % d;
    if 2 * r > d {
        q + 1
    } else if 2 * r < d {
        q
    } else if q % 2 == 1 {
        q + 1
    } else {
        q
    }
}

/// The unit label for a scale, saturating at gigabytes.
pub open spec fn spec_fs_unit(e: nat) -> Seq<char> {
    if e == 0 {
        "Bytes"@
    } else if e == 1 {
        "KB"@
    } else if e == 2 {
        "MB"@
    } else {
        "GB"@
    }
}

/// The rendering of a byte count: `0 Bytes`, or the count scaled by the
/// largest fitting power of 1024, rounded to two decimals, with the
/// unit label (saturating at GB).
pub open spec fn spec_format_file_size(b: nat) -> Seq<char> {
    if b == 0 {
        "0 Bytes"@
    } else {
        let e = spec_fs_exp(b);
        let scaled = round_half_even(b * 100, pow1024(e));
        spec_decimal(scaled / 100) + seq!['.'] + seq![
            crate::numfmt::dec_digit((scaled % 100) / 10),
            crate::numfmt::dec_digit(scaled % 10),
        ] + seq![' '] + spec_fs_unit(e)
    }
}

/// Spec image of one violation: field, message and code.
pub type Vio = (Seq<char>, Seq<char>, Seq<char>);

/// The violations login credentials produce, in report order.
pub open spec fn spec_login_violations(c: LoginCredentials) -> Seq<Vio> {
    match c.login_type {
        LoginType::Password => (match c.username {
            Some(u) => if spec_blank(u@) {
                seq![("username"@, "用户名不能为空"@, "REQUIRED"@)]
            } else {
                Seq::empty()
            },
            None => seq![("username"@, "用户名不能为空"@, "REQUIRED"@)],
        }) + (match c.password {
            Some(p) => if encode_utf8(p@).len() < 6 {
                seq![("password"@, "密码长度不能少于6位"@, "MIN_LENGTH"@)]
            } else {
                Seq::empty()
            },
            None => seq![("password"@, "密码不能为空"@, "REQUIRED"@)],
        }),
        LoginType::Sms => (match c.phone {
            Some(p) => if !spec_phone_valid(p@) {
                seq![("phone"@, "手机号格式不正确"@, "INVALID_FORMAT"@)]
            } else {
                Seq::empty()
            },
            None => seq![("phone"@, "手机号不能为空"@, "REQUIRED"@)],
        }) + (match c.sms_code {
            Some(x) => if !spec_sms_code_valid(x@) {
                seq![("smsCode"@, "验证码必须是6位数字"@, "INVALID_FORMAT"@)]
            } else {
                Seq::empty()
            },
            None => seq![("smsCode"@, "验证码不能为空"@, "REQUIRED"@)],
        }),
        LoginType::Realname => match c.id_card {
            Some(x) => if !spec_id_card_valid(x@) {
                seq![("idCard"@, "身份证号格式不正确"@, "INVALID_FORMAT"@)]
            } else {
                Seq::empty()
            },
            None => seq![("idCard"@, "身份证号不能为空"@, "REQUIRED"@)],
        },
    }
}

/// The violations a send-message request produces.
pub open spec fn spec_send_message_violations(r: SendMessageRequest) -> Seq<Vio> {
    (if spec_blank(r.consultation_id@) {
        seq![("consultationId"@, "问诊ID不能为空"@, "REQUIRED"@)]
    } else {
        Seq::empty()
    }) + (match r.message_type {
        MessageType::Text | MessageType::Template => if spec_blank(r.content@) {
            seq![("content"@, "消息内容不能为空"@, "REQUIRED"@)]
        } else if encode_utf8(r.content@).len() > 5000 {
            seq![("content"@, "消息内容不能超过5000个字符"@, "MAX_LENGTH"@)]
        } else {
            Seq::empty()
        },
        MessageType::Image | MessageType::Voice | MessageType::File => if r.file_id is None {
            seq![("fileId"@, "文件ID不能为空"@, "REQUIRED"@)]
        } else {
            Seq::empty()
        },
    })
}

/// The violations of a patient record before its tags.
pub open spec fn spec_patient_base_violations(p: Patient) -> Seq<Vio> {
    (if spec_blank(p.name@) {
        seq![("name"@, "患者姓名不能为空"@, "REQUIRED"@)]
    } else if encode_utf8(p.name@).len() > 50 {
        seq![("name"@, "患者姓名不能超过50个字符"@, "MAX_LENGTH"@)]
    } else if !spec_chinese_name_valid(p.name@) {
        seq![("name"@, "患者姓名格式不正确"@, "INVALID_FORMAT"@)]
    } else {
        Seq::empty()
    }) + (if !(0 < p.age <= 150) {
        seq![("age"@, "年龄必须在0-150之间"@, "OUT_OF_RANGE"@)]
    } else {
        Seq::empty()
    }) + (if !spec_phone_valid(p.phone@) {
        seq![("phone"@, "手机号格式不正确"@, "INVALID_FORMAT"@)]
    } else {
        Seq::empty()
    }) + (match p.id_card {
        Some(x) => if !spec_id_card_valid(x@) {
            seq![("idCard"@, "身份证号格式不正确"@, "INVALID_FORMAT"@)]
        } else {
            Seq::empty()
        },
        None => Seq::empty(),
    })
}

/// The field name a tag violation is reported under.
pub open spec fn spec_tag_field(i: int) -> Seq<char> {
    "tags["@ + spec_decimal(i as nat) + "]"@
}

/// The violations of the first `i` tags, in order.
pub open spec fn spec_tags_pre(tags: Seq<String>, i: int) -> Seq<Vio>
    decreases i,
{
    if i <= 0 {
        Seq::empty()
    } else {
        spec_tags_pre(tags, i - 1) + (match spec_tag_error(tags[i - 1]@) {
            Some(m) => seq![(spec_tag_field(i - 1), m, "INVALID_TAG"@)],
            None => Seq::empty(),
        })
    }
}

/// All violations of a patient record.
pub open spec fn spec_patient_violations(p: Patient) -> Seq<Vio> {
    spec_patient_base_violations(p) + spec_tags_pre(p.tags@, p.tags@.len() as int)
}

/// The violations of a patient query.
pub open spec fn spec_patient_query_violations(q: PatientQuery) -> Seq<Vio> {
    (if q.page < 1 {
        seq![("page"@, "页码必须大于0"@, "MIN_VALUE"@)]
    } else {
        Seq::empty()
    }) + (if q.page_size < 1 || q.page_size > 100 {
        seq![("pageSize"@, "每页数量必须在1-100之间"@, "OUT_OF_RANGE"@)]
    } else {
        Seq::empty()
    }) + (match q.age_range {
        Some(ar) => (if ar.min > 150 || ar.max > 150 {
            seq![("ageRange"@, "年龄范围必须在0-150之间"@, "OUT_OF_RANGE"@)]
        } else {
            Seq::empty()
        }) + (if ar.min > ar.max {
            seq![("ageRange"@, "最小年龄不能大于最大年龄"@, "INVALID_RANGE"@)]
        } else {
            Seq::empty()
        }),
        None => Seq::empty(),
    })
}

/// The violations of a window configuration.
pub open spec fn spec_window_config_violations(c: WindowConfig) -> Seq<Vio> {
    (if spec_blank(c.title@) {
        seq![("title"@, "窗口标题不能为空"@, "REQUIRED"@)]
    } else {
        Seq::empty()
    }) + (if spec_blank(c.url@) {
        seq![("url"@, "窗口URL不能为空"@, "REQUIRED"@)]
    } else {
        Seq::empty()
    }) + (match c.width {
        Some(w) => if w < 200 {
            seq![("width"@, "窗口宽度不能小于200px"@, "MIN_VALUE"@)]
        } else {
            Seq::empty()
        },
        None => Seq::empty(),
    }) + (match c.height {
        Some(h) => if h < 150 {
            seq![("height"@, "窗口高度不能小于150px"@, "MIN_VALUE"@)]
        } else {
            Seq::empty()
        },
        None => Seq::empty(),
    })
}

/// The violations of a file record against a size cap and a type list.
pub open spec fn spec_file_info_violations(
    f: FileInfo,
    max_size: u64,
    allowed: Seq<String>,
) -> Seq<Vio> {
    (if f.size > max_size {
        seq![
            ("size"@, "文件大小超过限制: "@ + spec_format_file_size(f.size as nat) + " > "@
                + spec_format_file_size(max_size as nat), "FILE_TOO_LARGE"@),
        ]
    } else {
        Seq::empty()
    }) + (if !(exists|j: int| 0 <= j < allowed.len() && #[trigger] allowed[j]@ == f.file_type@) {
        seq![("type"@, "不支持的文件类型: "@ + f.file_type@, "UNSUPPORTED_TYPE"@)]
    } else {
        Seq::empty()
    }) + (if spec_blank(f.name@) {
        seq![("name"@, "文件名不能为空"@, "REQUIRED"@)]
    } else {
        Seq::empty()
    })
}

/// The violations of a date range judged against the clock reading
/// `now`.
pub open spec fn spec_date_range_violations(start: i64, end: i64, now: i64) -> Seq<Vio> {
    (if start > end {
        seq![("dateRange"@, "开始时间不能晚于结束时间"@, "INVALID_RANGE"@)]
    } else {
        Seq::empty()
    }) + (if start > now {
        seq![("dateRange"@, "开始时间不能是未来时间"@, "FUTURE_DATE"@)]
    } else {
        Seq::empty()
    })
}

/// Validation rules over plain values, mirroring what the client
/// enforces before any request leaves the machine.
pub struct ValidationService;

impl ValidationService {
    /// Decides [`spec_phone_valid`].
    pub fn validate_phone(phone: &str) -> (r: bool)
        ensures
            r == spec_phone_valid(phone@),
    {
        let cs = chars_vec(phone);
        if cs.len() != 11 {
            return false;
        }
        if cs[0] != '1' {
            return false;
        }
        let second = cs[1];
        if !('3' <= second && second <= '9') {
            return false;
        }
        all_chars_hold(&cs, 1)
    }

    /// Decides [`spec_sms_code_valid`].
    pub fn validate_sms_code(code: &str) -> (r: bool)
        ensures
            r == spec_sms_code_valid(code@),
    {
        let cs = chars_vec(code);
        if cs.len() != 6 {
            return false;
        }
        all_chars_hold(&cs, 1)
    }

    /// Decides [`spec_id_card_valid`].
    pub fn validate_id_card(id_card: &str) -> (r: bool)
        ensures
            r == spec_id_card_valid(id_card@),
    {
        let cs = chars_vec(id_card);
        if cs.len() != 18 {
            return false;
        }
        let c0 = cs[0];
        if !('1' <= c0 && c0 <= '9') {
            return false;
        }
        let mut i: usize = 1;
        while i < 17
            invariant
                cs@ == id_card@,
                cs@.len() == 18,
                1 <= i <= 17,
                forall|j: int| 1 <= j < i ==> #[trigger] is_digit(cs@[j]),
            decreases 17 - i,
        {
            let c = cs[i];
            if !('0' <= c && c <= '9') {
                proof {
                    assert(!is_digit(cs@[i as int]));
                }
                return false;
            }
            i = i + 1;
        }
        let century = (cs[6] == '1' && cs[7] == '8') || (cs[6] == '1' && cs[7] == '9') || (cs[6]
            == '2' && cs[7] == '0');
        if !century {
            return false;
        }
        let m0 = cs[10];
        let m1 = cs[11];
        let month = (m0 == '0' && '1' <= m1 && m1 <= '9') || (m0 == '1' && '0' <= m1 && m1 <= '2');
        if !month {
            return false;
        }
        let d0 = cs[12];
        let d1 = cs[13];
        let day = ('0' <= d0 && d0 <= '2' && '1' <= d1 && d1 <= '9') || (d0 == '1' && d1 == '0')
            || (d0 == '2' && d1 == '0') || (d0 == '3' && d1 == '0') || (d0 == '3' && d1 == '1');
        if !day {
            return false;
        }
        let t = cs[17];
        let r = ('0' <= t && t <= '9') || t == 'X' || t == 'x';
        proof {
            if !r {
                assert(!is_digit(cs@[17]));
            }
        }
        r
    }

    /// Decides [`spec_email_valid`].
    pub fn validate_email(email: &str) -> (r: bool)
        ensures
            r == spec_email_valid(email@),
    {
        let cs = chars_vec(email);
        let n = cs.len();
        // find the unique '@', rejecting whitespace and a second '@'
        let mut at: usize = n;
        let mut i: usize = 0;
        while i < n
            invariant
                cs@ == email@,
                n == cs@.len(),
                0 <= i <= n,
                at <= n,
                forall|j: int| 0 <= j < i ==> !crate::strutil::is_space(#[trigger] cs@[j]),
                at == n ==> forall|j: int| 0 <= j < i ==> #[trigger] cs@[j] != '@',
                at < n ==> cs@[at as int] == '@' && at < i && forall|j: int|
                    0 <= j < i && j != at ==> #[trigger] cs@[j] != '@',
            decreases n - i,
        {
            let c = cs[i];
            if char_is_space(c) {
                proof {
                    assert(crate::strutil::is_space(cs@[i as int]));
                }
                return false;
            }
            if c == '@' {
                if at != n {
                    proof {
                        assert(cs@[at as int] == '@' && cs@[i as int] == '@' && at < i);
                    }
                    return false;
                }
                at = i;
            }
            i = i + 1;
        }
        if at == n || at == 0 {
            return false;
        }
        if n < 2 || n - 2 < at || n - 2 - at < 2 {
            proof {
                assert(!spec_email_valid(email@));
            }
            return false;
        }
        // look for a dot strictly inside the domain part
        let last: usize = n - 2;
        let mut d: usize = at + 2;
        while d <= last
            invariant
                cs@ == email@,
                n == cs@.len(),
                n >= 2,
                1 <= at,
                at + 2 <= last + 1,
                last == n - 2,
                at + 2 <= d <= last + 1,
                cs@[at as int] == '@',
                forall|j: int| 0 <= j < n && j != at ==> #[trigger] cs@[j] != '@',
                forall|j: int| 0 <= j < n ==> !crate::strutil::is_space(#[trigger] cs@[j]),
                forall|j: int| at + 2 <= j < d ==> #[trigger] cs@[j] != '.',
            decreases last + 1 - d,
        {
            if cs[d] == '.' {
                proof {
                    assert(cs@[d as int] == '.');
                }
                return true;
            }
            d = d + 1;
        }
        proof {
            assert(!spec_email_valid(email@));
        }
        false
    }

    /// Decides [`spec_chinese_name_valid`].
    pub fn validate_chinese_name(name: &str) -> (r: bool)
        ensures
            r == spec_chinese_name_valid(name@),
    {
        let cs = chars_vec(name);
        if cs.len() < 2 || cs.len() > 10 {
            return false;
        }
        all_chars_hold(&cs, 2)
    }

    /// Decides [`spec_doctor_license_valid`].
    pub fn validate_doctor_license(license: &str) -> (r: bool)
        ensures
            r == spec_doctor_license_valid(license@),
    {
        let cs = chars_vec(license);
        if cs.len() != 15 {
            return false;
        }
        all_chars_hold(&cs, 1)
    }

    /// Decides [`spec_hospital_code_valid`].
    pub fn validate_hospital_code(code: &str) -> (r: bool)
        ensures
            r == spec_hospital_code_valid(code@),
    {
        let cs = chars_vec(code);
        if cs.len() < 8 || cs.len() > 12 {
            return false;
        }
        all_chars_hold(&cs, 3)
    }

    /// Accepts a username or reports the first broken rule, per
    /// [`spec_username_error`].
    pub fn validate_username(username: &str) -> (r: Result<(), String>)
        ensures
            match r {
                Ok(_) => spec_username_error(username@) is None,
                Err(m) => spec_username_error(username@) matches Some(msg) && m@ == msg,
            },
    {
        let cs = chars_vec(username);
        if cs.len() == 0 {
            return Err(String::from_str("用户名不能为空"));
        }
        if username.as_bytes().len() < 3 {
            return Err(String::from_str("用户名长度至少3位"));
        }
        if username.as_bytes().len() > 20 {
            return Err(String::from_str("用户名长度不能超过20位"));
        }
        let n = cs.len();
        let mut i: usize = 0;
        while i < n
            invariant
                cs@ == username@,
                n == cs@.len(),
                0 <= i <= n,
                n > 0,
                3 <= encode_utf8(username@).len() <= 20,
                forall|j: int| 0 <= j < i ==> #[trigger] is_word_char(cs@[j]),
            decreases n - i,
        {
            let c = cs[i];
            if !(('A' <= c && c <= 'Z') || ('a' <= c && c <= 'z') || ('0' <= c && c <= '9') || c
                == '_') {
                proof {
                    assert(!is_word_char(cs@[i as int]));
                }
                return Err(String::from_str("用户名只能包含字母、数字和下划线"));
            }
            i = i + 1;
        }
        Ok(())
    }

    /// Accepts a password or reports the first broken rule, per
    /// [`spec_password_error`].
    pub fn validate_password(password: &str) -> (r: Result<(), String>)
        ensures
            match r {
                Ok(_) => spec_password_error(password@) is None,
                Err(m) => spec_password_error(password@) matches Some(msg) && m@ == msg,
            },
    {
        if password.as_bytes().len() < 8 {
            return Err(String::from_str("密码长度至少8位"));
        }
        if password.as_bytes().len() > 128 {
            return Err(String::from_str("密码长度不能超过128位"));
        }
        let cs = chars_vec(password);
        let mut count: u8 = 0;
        if any_char_holds(&cs, 1) {
            count = count + 1;
        }
        if any_char_holds(&cs, 2) {
            count = count + 1;
        }
        if any_char_holds(&cs, 3) {
            count = count + 1;
        }
        if any_char_holds(&cs, 4) {
            count = count + 1;
        }
        if count < 3 {
            return Err(
                String::from_str("密码必须包含至少3种字符类型(大写字母,小写字母,数字,特殊字符)"),
            );
        }
        Ok(())
    }

    /// Accepts a tag or reports the first broken rule, per
    /// [`spec_tag_error`].
    pub fn validate_tag(tag: &str) -> (r: Result<(), String>)
        ensures
            match r {
                Ok(_) => spec_tag_error(tag@) is None,
                Err(m) => spec_tag_error(tag@) matches Some(msg) && m@ == msg,
            },
    {
        if is_blank(tag) {
            return Err(String::from_str("标签不能为空"));
        }
        if tag.as_bytes().len() > 20 {
            return Err(String::from_str("标签长度不能超过20个字符"));
        }
        let cs = chars_vec(tag);
        if all_chars_hold(&cs, 4) {
            Ok(())
        } else {
            Err(String::from_str("标签只能包含中文、字母和数字"))
        }
    }

    /// Accepts message text or reports the first broken rule, per
    /// [`spec_content_error`].
    pub fn validate_message_content(content: &str, max_length: usize) -> (r: Result<(), String>)
        ensures
            match r {
                Ok(_) => spec_content_error(content@, max_length as nat) is None,
                Err(m) => spec_content_error(content@, max_length as nat) matches Some(msg) && m@
                    == msg,
            },
    {
        if is_blank(content) {
            return Err(String::from_str("消息内容不能为空"));
        }
        if content.as_bytes().len() > max_length {
            let mut m = String::from_str("消息内容不能超过 ");
            push_u64(&mut m, max_length as u64);
            m.append(" 个字符");
            proof {
                assert(m@ =~= "消息内容不能超过 "@ + spec_decimal(max_length as nat)
                    + " 个字符"@);
            }
            return Err(m);
        }
        let cs = chars_vec(content);
        let needle = chars_vec("测试敏感词");
        if contains_chars(&cs, &needle) {
            Err(String::from_str("消息内容包含敏感词"))
        } else {
            Ok(())
        }
    }

    /// Cleans a filename per [`spec_sanitize`]: forbidden characters
    /// become `_`, over-long names are cut at 252 bytes plus `...`.
    pub fn sanitize_filename(filename: &str) -> (r: String)
        ensures
            r@ == spec_sanitize(filename@),
    {
        let cs = chars_vec(filename);
        let n = cs.len();
        let mut ms: Vec<char> = Vec::new();
        let mut out = String::new();
        let mut total: u64 = 0;
        let mut i: usize = 0;
        while i < n
            invariant
                cs@ == filename@,
                n == cs@.len(),
                0 <= i <= n,
                ms@ == sanitize_map(cs@.take(i as int)),
                out@ == ms@,
                total <= 304,
                total < 300 ==> total == encode_utf8(ms@).len(),
                total >= 300 ==> encode_utf8(ms@).len() > 255,
            decreases n - i,
        {
            let c = cs[i];
            let mc: char = if c == '<' || c == '>' || c == ':' || c == '"' || c == '/' || c == '\\'
                || c == '|' || c == '?' || c == '*' {
                '_'
            } else {
                c
            };
            let w = char_width(mc);
            proof {
                broadcast use vstd::utf8::char_is_scalar;

                assert(cs@.take(i + 1) =~= cs@.take(i as int) + seq![cs@[i as int]]);
                assert(sanitize_map(cs@.take(i + 1)) =~= sanitize_map(cs@.take(i as int)).push(
                    if is_fname_bad(cs@[i as int]) {
                        '_'
                    } else {
                        cs@[i as int]
                    },
                ));
                lemma_encode_concat(ms@, seq![mc]);
                assert(seq![mc].drop_first() =~= Seq::<char>::empty());
                assert(encode_utf8(Seq::<char>::empty()) =~= Seq::<u8>::empty());
                assert(encode_utf8(seq![mc]) =~= vstd::utf8::encode_scalar(mc as u32)
                    + encode_utf8(seq![mc].drop_first()));
                assert(encode_utf8(seq![mc]) =~= vstd::utf8::encode_scalar(mc as u32));
                lemma_char_w(mc);
                assert(ms@.push(mc) =~= ms@ + seq![mc]);
            }
            ms.push(mc);
            out.push(mc);
            if total < 300 {
                total = total + (w as u64);
            }
            i = i + 1;
        }
        proof {
            assert(cs@.take(n as int) =~= cs@);
        }
        if total <= 255 {
            return out;
        }
        let mut t = String::new();
        push_fit(&mut t, &ms, 0, 252);
        t.append("...");
        proof {
            assert(ms@.skip(0) =~= ms@);
            assert(t@ =~= spec_sanitize(filename@));
        }
        t
    }

    /// Renders a byte count per [`spec_format_file_size`].
    #[verifier::rlimit(60)]
    pub fn format_file_size(bytes: u64) -> (r: String)
        ensures
            r@ == spec_format_file_size(bytes as nat),
    {
        if bytes == 0 {
            return String::from_str("0 Bytes");
        }
        let mut e: u32 = 0;
        let mut d: u64 = 1;
        while d <= bytes / 1024
            invariant
                bytes >= 1,
                d == pow1024(e as nat),
                d <= bytes,
                e <= 6,
            decreases bytes - d,
        {
            proof {
                assert(pow1024(0) == 1);
                assert(pow1024(1) == 1024);
                assert(pow1024(2) == 1048576);
                assert(pow1024(3) == 1073741824);
                assert(pow1024(4) == 1099511627776);
                assert(pow1024(5) == 1125899906842624);
                assert(pow1024(6) == 1152921504606846976);
                assert(bytes / 1024 <= 18014398509481983);
                assert(e <= 5);
                assert(d * 1024 <= bytes) by (nonlinear_arith)
                    requires
                        d <= bytes / 1024,
                ;
            }
            d = d * 1024;
            e = e + 1;
            proof {
                assert(d == pow1024(e as nat));
            }
        }
        proof {
            assert(bytes < 1024 * d) by (nonlinear_arith)
                requires
                    d >= 1 + bytes / 1024,
            ;
            assert(pow1024((e + 1) as nat) == 1024 * pow1024(e as nat));
            lemma_fs_exp(bytes as nat, e as nat);
        }
        let n128: u128 = (bytes as u128) * 100;
        let d128: u128 = d as u128;
        let q: u128 = n128 / d128;
        let rem: u128 = n128 % d128;
        proof {
            assert(n128 < 102400 * d128) by (nonlinear_arith)
                requires
                    n128 == (bytes as u128) * 100,
                    d128 > 0,
                    (bytes as u128) < 1024 * d128,
            ;
            assert(q <= 102399) by (nonlinear_arith)
                requires
                    n128 < 102400 * d128,
                    d128 > 0,
                    q == n128 / d128,
            ;
        }
        let scaled: u128 = if 2 * rem > d128 {
            q + 1
        } else if 2 * rem < d128 {
            q
        } else if q % 2 == 1 {
            q + 1
        } else {
            q
        };
        proof {
            assert(scaled == round_half_even((bytes * 100) as nat, pow1024(e as nat)));
        }
        let int_part: u64 = (scaled / 100) as u64;
        let frac: u64 = (scaled % 100) as u64;
        let mut out = String::new();
        push_u64(&mut out, int_part);
        out.push('.');
        out.push((((frac / 10) as u8) + 48) as char);
        out.push((((frac % 10) as u8) + 48) as char);
        out.push(' ');
        if e == 0 {
            out.append("Bytes");
        } else if e == 1 {
            out.append("KB");
        } else if e == 2 {
            out.append("MB");
        } else {
            out.append("GB");
        }
        proof {
            assert(out@ =~= spec_format_file_size(bytes as nat));
        }
        out
    }

    /// Checks login credentials field by field; the violations are
    /// exactly [`spec_login_violations`].
    pub fn validate_login_credentials(credentials: &LoginCredentials) -> (r: ValidationResult)
        ensures
            r.wf(),
            errs_view(&r) == spec_login_violations(*credentials),
    {
        let mut result = ValidationResult::new();
        match credentials.login_type {
            LoginType::Password => {
                match &credentials.username {
                    Some(username) => {
                        if is_blank(username.as_str()) {
                            result.add_error("username", "用户名不能为空", "REQUIRED");
                        }
                    },
                    None => {
                        result.add_error("username", "用户名不能为空", "REQUIRED");
                    },
                }
                match &credentials.password {
                    Some(password) => {
                        if password.as_str().as_bytes().len() < 6 {
                            result.add_error("password", "密码长度不能少于6位", "MIN_LENGTH");
                        }
                    },
                    None => {
                        result.add_error("password", "密码不能为空", "REQUIRED");
                    },
                }
            },
            LoginType::Sms => {
                match &credentials.phone {
                    Some(phone) => {
                        if !Self::validate_phone(phone.as_str()) {
                            result.add_error("phone", "手机号格式不正确", "INVALID_FORMAT");
                        }
                    },
                    None => {
                        result.add_error("phone", "手机号不能为空", "REQUIRED");
                    },
                }
                match &credentials.sms_code {
                    Some(sms_code) => {
                        if !Self::validate_sms_code(sms_code.as_str()) {
                            result.add_error("smsCode", "验证码必须是6位数字", "INVALID_FORMAT");
                        }
                    },
                    None => {
                        result.add_error("smsCode", "验证码不能为空", "REQUIRED");
                    },
                }
            },
            LoginType::Realname => {
                match &credentials.id_card {
                    Some(id_card) => {
                        if !Self::validate_id_card(id_card.as_str()) {
                            result.add_error("idCard", "身份证号格式不正确", "INVALID_FORMAT");
                        }
                    },
                    None => {
                        result.add_error("idCard", "身份证号不能为空", "REQUIRED");
                    },
                }
            },
        }
        proof {
            assert(errs_view(&result) =~= spec_login_violations(*credentials));
        }
        result
    }

    /// Checks a send-message request; the violations are exactly
    /// [`spec_send_message_violations`].
    pub fn validate_send_message_request(request: &SendMessageRequest) -> (r: ValidationResult)
        ensures
            r.wf(),
            errs_view(&r) == spec_send_message_violations(*request),
    {
        let mut result = ValidationResult::new();
        if is_blank(request.consultation_id.as_str()) {
            result.add_error("consultationId", "问诊ID不能为空", "REQUIRED");
        }
        match request.message_type {
            MessageType::Text | MessageType::Template => {
                if is_blank(request.content.as_str()) {
                    result.add_error("content", "消息内容不能为空", "REQUIRED");
                } else if request.content.as_str().as_bytes().len() > 5000 {
                    result.add_error("content", "消息内容不能超过5000个字符", "MAX_LENGTH");
                }
            },
            MessageType::Image | MessageType::Voice | MessageType::File => {
                if request.file_id.is_none() {
                    result.add_error("fileId", "文件ID不能为空", "REQUIRED");
                }
            },
        }
        proof {
            assert(errs_view(&result) =~= spec_send_message_violations(*request));
        }
        result
    }

    /// Checks a patient record; the violations are exactly
    /// [`spec_patient_violations`].
    pub fn validate_patient(patient: &Patient) -> (r: ValidationResult)
        ensures
            r.wf(),
            errs_view(&r) == spec_patient_violations(*patient),
    {
        let mut result = ValidationResult::new();
        if is_blank(patient.name.as_str()) {
            result.add_error("name", "患者姓名不能为空", "REQUIRED");
        } else if patient.name.as_str().as_bytes().len() > 50 {
            result.add_error("name", "患者姓名不能超过50个字符", "MAX_LENGTH");
        } else if !Self::validate_chinese_name(patient.name.as_str()) {
            result.add_error("name", "患者姓名格式不正确", "INVALID_FORMAT");
        }
        if !Self::validate_age(patient.age) {
            result.add_error("age", "年龄必须在0-150之间", "OUT_OF_RANGE");
        }
        if !Self::validate_phone(patient.phone.as_str()) {
            result.add_error("phone", "手机号格式不正确", "INVALID_FORMAT");
        }
        match &patient.id_card {
            Some(id_card) => {
                if !Self::validate_id_card(id_card.as_str()) {
                    result.add_error("idCard", "身份证号格式不正确", "INVALID_FORMAT");
                }
            },
            None => {},
        }
        let ghost base = errs_view(&result);
        proof {
            assert(base =~= spec_patient_base_violations(*patient));
        }
        let n = patient.tags.len();
        let mut i: usize = 0;
        while i < n
            invariant
                n == patient.tags@.len(),
                0 <= i <= n,
                result.wf(),
                errs_view(&result) == base + spec_tags_pre(patient.tags@, i as int),
            decreases n - i,
        {
            match Self::validate_tag(patient.tags[i].as_str()) {
                Err(m) => {
                    let mut field = String::from_str("tags[");
                    push_u64(&mut field, i as u64);
                    field.push(']');
                    result.add_error(field.as_str(), m.as_str(), "INVALID_TAG");
                    proof {
                        reveal_strlit("]");
                        assert(field@ =~= spec_tag_field(i as int));
                        assert(errs_view(&result) =~= base + spec_tags_pre(
                            patient.tags@,
                            i + 1,
                        ));
                    }
                },
                Ok(_) => {
                    proof {
                        assert(errs_view(&result) =~= base + spec_tags_pre(
                            patient.tags@,
                            i + 1,
                        ));
                    }
                },
            }
            i = i + 1;
        }
        proof {
            assert(errs_view(&result) =~= spec_patient_violations(*patient));
        }
        result
    }

    /// Checks a patient query; the violations are exactly
    /// [`spec_patient_query_violations`].
    pub fn validate_patient_query(query: &PatientQuery) -> (r: ValidationResult)
        ensures
            r.wf(),
            errs_view(&r) == spec_patient_query_violations(*query),
    {
        let mut result = ValidationResult::new();
        if query.page < 1 {
            result.add_error("page", "页码必须大于0", "MIN_VALUE");
        }
        if query.page_size < 1 || query.page_size > 100 {
            result.add_error("pageSize", "每页数量必须在1-100之间", "OUT_OF_RANGE");
        }
        match &query.age_range {
            Some(age_range) => {
                if age_range.min > 150 || age_range.max > 150 {
                    result.add_error("ageRange", "年龄范围必须在0-150之间", "OUT_OF_RANGE");
                }
                if age_range.min > age_range.max {
                    result.add_error("ageRange", "最小年龄不能大于最大年龄", "INVALID_RANGE");
                }
            },
            None => {},
        }
        proof {
            assert(errs_view(&result) =~= spec_patient_query_violations(*query));
        }
        result
    }

    /// Checks a window configuration; the violations are exactly
    /// [`spec_window_config_violations`].
    pub fn validate_window_config(config: &WindowConfig) -> (r: ValidationResult)
        ensures
            r.wf(),
            errs_view(&r) == spec_window_config_violations(*config),
    {
        let mut result = ValidationResult::new();
        if is_blank(config.title.as_str()) {
            result.add_error("title", "窗口标题不能为空", "REQUIRED");
        }
        if is_blank(config.url.as_str()) {
            result.add_error("url", "窗口URL不能为空", "REQUIRED");
        }
        match config.width {
            Some(width) => {
                if width < 200 {
                    result.add_error("width", "窗口宽度不能小于200px", "MIN_VALUE");
                }
            },
            None => {},
        }
        match config.height {
            Some(height) => {
                if height < 150 {
                    result.add_error("height", "窗口高度不能小于150px", "MIN_VALUE");
                }
            },
            None => {},
        }
        proof {
            assert(errs_view(&result) =~= spec_window_config_violations(*config));
        }
        result
    }

    /// Checks a file record; the violations are exactly
    /// [`spec_file_info_violations`].
    pub fn validate_file_info(
        file_info: &FileInfo,
        max_size: u64,
        allowed_types: &Vec<String>,
    ) -> (r: ValidationResult)
        ensures
            r.wf(),
            errs_view(&r) == spec_file_info_violations(*file_info, max_size, allowed_types@),
    {
        let mut result = ValidationResult::new();
        if file_info.size > max_size {
            let mut m = String::from_str("文件大小超过限制: ");
            let shown = Self::format_file_size(file_info.size);
            m.append(shown.as_str());
            m.append(" > ");
            let cap = Self::format_file_size(max_size);
            m.append(cap.as_str());
            proof {
                assert(m@ =~= "文件大小超过限制: "@ + spec_format_file_size(file_info.size as nat)
                    + " > "@ + spec_format_file_size(max_size as nat));
            }
            result.add_error("size", m.as_str(), "FILE_TOO_LARGE");
        }
        if !contains_string(allowed_types, file_info.file_type.as_str()) {
            let mut m = String::from_str("不支持的文件类型: ");
            m.append(file_info.file_type.as_str());
            proof {
                assert(m@ =~= "不支持的文件类型: "@ + file_info.file_type@);
            }
            result.add_error("type", m.as_str(), "UNSUPPORTED_TYPE");
        }
        if is_blank(file_info.name.as_str()) {
            result.add_error("name", "文件名不能为空", "REQUIRED");
        }
        proof {
            assert(errs_view(&result) =~= spec_file_info_violations(
                *file_info,
                max_size,
                allowed_types@,
            ));
        }
        result
    }

    /// Checks a date range against an explicit clock reading; the
    /// violations are exactly [`spec_date_range_violations`].
    pub fn validate_date_range_at(start_ms: i64, end_ms: i64, now_ms: i64) -> (r: ValidationResult)
        ensures
            r.wf(),
            errs_view(&r) == spec_date_range_violations(start_ms, end_ms, now_ms),
    {
        let mut result = ValidationResult::new();
        if start_ms > end_ms {
            result.add_error("dateRange", "开始时间不能晚于结束时间", "INVALID_RANGE");
        }
        if start_ms > now_ms {
            result.add_error("dateRange", "开始时间不能是未来时间", "FUTURE_DATE");
        }
        proof {
            assert(errs_view(&result) =~= spec_date_range_violations(start_ms, end_ms, now_ms));
        }
        result
    }

    /// Checks a date range against the system clock: whatever instant
    /// the clock reports, the violations follow
    /// [`spec_date_range_violations`] for it.
    pub fn validate_date_range(start_ms: i64, end_ms: i64) -> (r: ValidationResult)
        ensures
            r.wf(),
            exists|now: i64|
                now >= 0 && errs_view(&r) == #[trigger] spec_date_range_violations(
                    start_ms,
                    end_ms,
                    now,
                ),
    {
        let now = crate::outside::now_millis();
        let r = Self::validate_date_range_at(start_ms, end_ms, now);
        proof {
            assert(errs_view(&r) == spec_date_range_violations(start_ms, end_ms, now));
        }
        r
    }

    /// An age is plausible when it lies in 1..=150.
    pub fn validate_age(age: u32) -> (r: bool)
        ensures
            r == (0 < age <= 150),
    {
        age > 0 && age <= 150
    }
}

} // verus!
